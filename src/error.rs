use vstd::prelude::*;

verus! {

/// The ways in which tokenizing, resolving labels or running a program can fail.
#[derive(Debug)]
pub enum StackError {
    /// An operation needed an operand but the stack was empty.
    EmptyStack { arg_pattern: String, expr: String },
    /// A name is not the mnemonic of any operation.
    InvalidOperation { name: String },
    /// A token could not be read as any kind of value.
    InvalidString { string: String },
    /// A label was defined at more than one place.
    MultipleLabelDefinitions { label: String, locations: Vec<usize> },
    /// The instruction pointer lies past the end of the code.
    OutOfBounds,
    /// An operand was popped but does not have the shape the operation needs.
    PatternMismatch { arg_pattern: String, expr: String },
    /// A label was referenced but never defined.
    UndefinedLabel { label: String, times: usize },
    /// An arithmetic operation divided by zero or left the range of integers.
    Arithmetic { expr: String },
    /// A run took as many steps as the machine counts without halting.
    StepLimit,
}

/// The mathematical content of a `StackError`.
pub enum ErrorView {
    EmptyStack { arg_pattern: Seq<char>, expr: Seq<char> },
    InvalidOperation { name: Seq<char> },
    InvalidString { string: Seq<char> },
    MultipleLabelDefinitions { label: Seq<char>, locations: Seq<usize> },
    OutOfBounds,
    PatternMismatch { arg_pattern: Seq<char>, expr: Seq<char> },
    UndefinedLabel { label: Seq<char>, times: usize },
    Arithmetic { expr: Seq<char> },
    StepLimit,
}

impl View for StackError {
    type V = ErrorView;

    open spec fn view(&self) -> ErrorView {
        match self {
            StackError::EmptyStack { arg_pattern, expr } => ErrorView::EmptyStack {
                arg_pattern: arg_pattern@,
                expr: expr@,
            },
            StackError::InvalidOperation { name } => ErrorView::InvalidOperation { name: name@ },
            StackError::InvalidString { string } => ErrorView::InvalidString { string: string@ },
            StackError::MultipleLabelDefinitions { label, locations } =>
                ErrorView::MultipleLabelDefinitions { label: label@, locations: locations@ },
            StackError::OutOfBounds => ErrorView::OutOfBounds,
            StackError::PatternMismatch { arg_pattern, expr } => ErrorView::PatternMismatch {
                arg_pattern: arg_pattern@,
                expr: expr@,
            },
            StackError::UndefinedLabel { label, times } => ErrorView::UndefinedLabel {
                label: label@,
                times: *times,
            },
            StackError::Arithmetic { expr } => ErrorView::Arithmetic { expr: expr@ },
            StackError::StepLimit => ErrorView::StepLimit,
        }
    }
}

} // verus!
