use vstd::prelude::*;

use crate::error::{ErrorView, StackError};
use crate::operations::{chars_of, StackOperation};
use crate::value::{display, parse_int, parse_int_spec, values_view, StackValue, ValueView};

verus! {

/// Primitive machine operations: what a stack operation asks the machine to do.
#[derive(Debug)]
pub enum MachineOperation {
    /// Pushes the instruction pointer on the return stack and jumps to the address.
    Call(usize),
    /// Jumps to the address.
    Jump(usize),
    /// Does nothing.
    NA,
    /// Appends one value to the stack.
    Push(StackValue),
    /// Appends two values to the stack, in order.
    PushTwo(StackValue, StackValue),
    /// Appends three values to the stack, in order.
    PushThree(StackValue, StackValue, StackValue),
    /// Jumps back to the address on top of the return stack.
    Return,
    /// Writes a value through the side-effect port.
    Println(StackValue),
    /// Reads a line through the side-effect port and pushes it.
    ReadLn,
    /// Sleeps for the given number of milliseconds.
    Sleep(u64),
    /// Stops the machine with an exit code.
    Stop(i32),
}

/// The mathematical content of a `MachineOperation`.
pub enum MachineOpView {
    Call(usize),
    Jump(usize),
    NA,
    Push(ValueView),
    PushTwo(ValueView, ValueView),
    PushThree(ValueView, ValueView, ValueView),
    Return,
    Println(ValueView),
    ReadLn,
    Sleep(u64),
    Stop(i32),
}

impl View for MachineOperation {
    type V = MachineOpView;

    open spec fn view(&self) -> MachineOpView {
        match self {
            MachineOperation::Call(a) => MachineOpView::Call(*a),
            MachineOperation::Jump(a) => MachineOpView::Jump(*a),
            MachineOperation::NA => MachineOpView::NA,
            MachineOperation::Push(v) => MachineOpView::Push(v@),
            MachineOperation::PushTwo(v1, v2) => MachineOpView::PushTwo(v1@, v2@),
            MachineOperation::PushThree(v1, v2, v3) => MachineOpView::PushThree(v1@, v2@, v3@),
            MachineOperation::Return => MachineOpView::Return,
            MachineOperation::Println(v) => MachineOpView::Println(v@),
            MachineOperation::ReadLn => MachineOpView::ReadLn,
            MachineOperation::Sleep(ms) => MachineOpView::Sleep(*ms),
            MachineOperation::Stop(c) => MachineOpView::Stop(*c),
        }
    }
}

/// The shape an operation requires of one operand.
#[derive(Clone, Copy, Debug, PartialEq, Eq, Structural)]
pub enum Operand {
    Num,
    Bool,
    Str,
    Any,
}

impl Operand {
    pub open spec fn fits(self, v: ValueView) -> bool {
        match self {
            Operand::Num => v is Num,
            Operand::Bool => v is Bool,
            Operand::Str => v is String,
            Operand::Any => true,
        }
    }

    /// How an error names this shape.
    pub open spec fn text_spec(self) -> Seq<char> {
        match self {
            Operand::Num => "Num"@,
            Operand::Bool => "Bool"@,
            Operand::Str => "String"@,
            Operand::Any => "any"@,
        }
    }

    pub fn text(self) -> (r: &'static str)
        ensures
            r@ == self.text_spec(),
    {
        match self {
            Operand::Num => "Num",
            Operand::Bool => "Bool",
            Operand::Str => "String",
            Operand::Any => "any",
        }
    }

    pub fn check(self, v: &StackValue) -> (r: bool)
        ensures
            r == self.fits(v@),
    {
        match self {
            Operand::Num => match v {
                StackValue::Num(_) => true,
                _ => false,
            },
            Operand::Bool => match v {
                StackValue::Bool(_) => true,
                _ => false,
            },
            Operand::Str => match v {
                StackValue::String(_) => true,
                _ => false,
            },
            Operand::Any => true,
        }
    }
}

/// The operands that `op` pops, first-popped (the top of the stack) first.
pub open spec fn operands(op: StackOperation) -> Seq<Operand> {
    match op {
        StackOperation::Plus => seq![Operand::Num, Operand::Num],
        StackOperation::Minus => seq![Operand::Num, Operand::Num],
        StackOperation::Multiply => seq![Operand::Num, Operand::Num],
        StackOperation::Divide => seq![Operand::Num, Operand::Num],
        StackOperation::ToInt => seq![Operand::Str],
        StackOperation::ToStr => seq![Operand::Any],
        StackOperation::Println => seq![Operand::Any],
        StackOperation::Equals => seq![Operand::Any, Operand::Any],
        StackOperation::Or => seq![Operand::Bool, Operand::Bool],
        StackOperation::And => seq![Operand::Bool, Operand::Bool],
        StackOperation::Not => seq![Operand::Bool],
        StackOperation::LessThan => seq![Operand::Num, Operand::Num],
        StackOperation::LessThanOrEqualTo => seq![Operand::Num, Operand::Num],
        StackOperation::GreaterHan => seq![Operand::Num, Operand::Num],
        StackOperation::GreaterHanOrEqualto => seq![Operand::Num, Operand::Num],
        StackOperation::Mod => seq![Operand::Num, Operand::Num],
        StackOperation::If => seq![Operand::Any, Operand::Any, Operand::Bool],
        StackOperation::Jump => seq![Operand::Num],
        StackOperation::Duplicate => seq![Operand::Any],
        StackOperation::Drop => seq![Operand::Any],
        StackOperation::Rotate => seq![Operand::Any, Operand::Any, Operand::Any],
        StackOperation::Swap => seq![Operand::Any, Operand::Any],
        StackOperation::SleepMS => seq![Operand::Num],
        StackOperation::Exit => seq![Operand::Num],
        StackOperation::Stop => seq![],
        StackOperation::Read => seq![],
        StackOperation::Over => seq![Operand::Any, Operand::Any],
        StackOperation::Call => seq![Operand::Num],
        StackOperation::Return => seq![],
    }
}

/// The operands that `op` pops, first-popped first.
pub fn operand_shapes(op: StackOperation) -> (r: Vec<Operand>)
    ensures
        r@ == operands(op),
{
    let r = match op {
        StackOperation::Plus => vec![Operand::Num, Operand::Num],
        StackOperation::Minus => vec![Operand::Num, Operand::Num],
        StackOperation::Multiply => vec![Operand::Num, Operand::Num],
        StackOperation::Divide => vec![Operand::Num, Operand::Num],
        StackOperation::ToInt => vec![Operand::Str],
        StackOperation::ToStr => vec![Operand::Any],
        StackOperation::Println => vec![Operand::Any],
        StackOperation::Equals => vec![Operand::Any, Operand::Any],
        StackOperation::Or => vec![Operand::Bool, Operand::Bool],
        StackOperation::And => vec![Operand::Bool, Operand::Bool],
        StackOperation::Not => vec![Operand::Bool],
        StackOperation::LessThan => vec![Operand::Num, Operand::Num],
        StackOperation::LessThanOrEqualTo => vec![Operand::Num, Operand::Num],
        StackOperation::GreaterHan => vec![Operand::Num, Operand::Num],
        StackOperation::GreaterHanOrEqualto => vec![Operand::Num, Operand::Num],
        StackOperation::Mod => vec![Operand::Num, Operand::Num],
        StackOperation::If => vec![Operand::Any, Operand::Any, Operand::Bool],
        StackOperation::Jump => vec![Operand::Num],
        StackOperation::Duplicate => vec![Operand::Any],
        StackOperation::Drop => vec![Operand::Any],
        StackOperation::Rotate => vec![Operand::Any, Operand::Any, Operand::Any],
        StackOperation::Swap => vec![Operand::Any, Operand::Any],
        StackOperation::SleepMS => vec![Operand::Num],
        StackOperation::Exit => vec![Operand::Num],
        StackOperation::Stop => vec![],
        StackOperation::Read => vec![],
        StackOperation::Over => vec![Operand::Any, Operand::Any],
        StackOperation::Call => vec![Operand::Num],
        StackOperation::Return => vec![],
    };
    assert(r@ =~= operands(op));
    r
}

/// Pops `shapes.len()` operands off the top of `stack`, checking each against its shape.
///
/// On success: the popped operands, first-popped first, and the rest of the stack. On
/// failure: the error, and the stack with every operand popped so far removed (a
/// mismatched operand is not put back).
pub open spec fn pop_operands(
    stack: Seq<ValueView>,
    shapes: Seq<Operand>,
    op: StackOperation,
) -> Result<(Seq<ValueView>, Seq<ValueView>), (ErrorView, Seq<ValueView>)>
    decreases shapes.len(),
{
    if shapes.len() == 0 {
        Ok((seq![], stack))
    } else if stack.len() == 0 {
        Err(
            (
                ErrorView::EmptyStack { arg_pattern: shapes[0].text_spec(), expr: op.mnemonic_spec() },
                stack,
            ),
        )
    } else if !shapes[0].fits(stack.last()) {
        Err(
            (
                ErrorView::PatternMismatch {
                    arg_pattern: shapes[0].text_spec(),
                    expr: op.mnemonic_spec(),
                },
                stack.drop_last(),
            ),
        )
    } else {
        match pop_operands(stack.drop_last(), shapes.drop_first(), op) {
            Ok((args, rest)) => Ok((seq![stack.last()] + args, rest)),
            Err(e) => Err(e),
        }
    }
}

pub open spec fn num(v: ValueView) -> isize {
    match v {
        ValueView::Num(n) => n,
        _ => 0,
    }
}

pub open spec fn boolean(v: ValueView) -> bool {
    match v {
        ValueView::Bool(b) => b,
        _ => false,
    }
}

pub open spec fn text(v: ValueView) -> Seq<char> {
    match v {
        ValueView::String(s) => s,
        _ => Seq::empty(),
    }
}

pub open spec fn arithmetic_error(op: StackOperation) -> ErrorView {
    ErrorView::Arithmetic { expr: op.mnemonic_spec() }
}

pub open spec fn push_num(op: StackOperation, r: Option<isize>) -> Result<MachineOpView, ErrorView> {
    match r {
        Some(v) => Ok(MachineOpView::Push(ValueView::Num(v))),
        None => Err(arithmetic_error(op)),
    }
}

/// What `op` asks of the machine, given its operands `a` (popped first), `b` and `c`.
///
/// Binary operators take the first-popped operand as their right-hand side, so that
/// the program `x y -` computes `x - y`.
pub open spec fn outcome(op: StackOperation, args: Seq<ValueView>) -> Result<
    MachineOpView,
    ErrorView,
> {
    let a = args[0];
    let b = args[1];
    let c = args[2];
    match op {
        StackOperation::Plus => push_num(op, num(b).checked_add(num(a))),
        StackOperation::Minus => push_num(op, num(b).checked_sub(num(a))),
        StackOperation::Multiply => push_num(op, num(b).checked_mul(num(a))),
        StackOperation::Divide => push_num(op, num(b).checked_div(num(a))),
        StackOperation::ToInt => Ok(
            MachineOpView::Push(
                ValueView::Num(
                    match parse_int_spec(text(a)) {
                        Some(n) => n,
                        None => 0,
                    },
                ),
            ),
        ),
        StackOperation::ToStr => Ok(MachineOpView::Push(ValueView::String(display(a)))),
        StackOperation::Println => Ok(MachineOpView::Println(a)),
        StackOperation::Equals => Ok(MachineOpView::Push(ValueView::Bool(a == b))),
        StackOperation::Or => Ok(MachineOpView::Push(ValueView::Bool(boolean(a) || boolean(b)))),
        StackOperation::And => Ok(MachineOpView::Push(ValueView::Bool(boolean(a) && boolean(b)))),
        StackOperation::Not => Ok(MachineOpView::Push(ValueView::Bool(!boolean(a)))),
        StackOperation::LessThan => Ok(MachineOpView::Push(ValueView::Bool(num(b) < num(a)))),
        StackOperation::LessThanOrEqualTo => Ok(
            MachineOpView::Push(ValueView::Bool(num(b) <= num(a))),
        ),
        StackOperation::GreaterHan => Ok(MachineOpView::Push(ValueView::Bool(num(b) > num(a)))),
        StackOperation::GreaterHanOrEqualto => Ok(
            MachineOpView::Push(ValueView::Bool(num(b) >= num(a))),
        ),
        StackOperation::Mod => push_num(op, num(b).checked_rem(num(a))),
        StackOperation::If => Ok(
            MachineOpView::Push(
                if boolean(c) {
                    b
                } else {
                    a
                },
            ),
        ),
        StackOperation::Jump => Ok(MachineOpView::Jump(num(a) as usize)),
        StackOperation::Duplicate => Ok(MachineOpView::PushTwo(a, a)),
        StackOperation::Drop => Ok(MachineOpView::NA),
        StackOperation::Rotate => Ok(MachineOpView::PushThree(b, a, c)),
        StackOperation::Swap => Ok(MachineOpView::PushTwo(a, b)),
        StackOperation::SleepMS => Ok(MachineOpView::Sleep(num(a) as u64)),
        StackOperation::Exit => Ok(MachineOpView::Stop(num(a) as i32)),
        StackOperation::Stop => Ok(MachineOpView::Stop(0)),
        StackOperation::Read => Ok(MachineOpView::ReadLn),
        StackOperation::Over => Ok(MachineOpView::PushThree(b, a, b)),
        StackOperation::Call => Ok(MachineOpView::Call(num(a) as usize)),
        StackOperation::Return => Ok(MachineOpView::Return),
    }
}

/// The effect of `op` on the stack: the stack after its operands are popped, and what
/// it asks of the machine; or the error, with the stack as the failed pop left it.
pub open spec fn apply_spec(op: StackOperation, stack: Seq<ValueView>) -> Result<
    (Seq<ValueView>, MachineOpView),
    (ErrorView, Seq<ValueView>),
> {
    match pop_operands(stack, operands(op), op) {
        Ok((args, rest)) => match outcome(op, args) {
            Ok(m) => Ok((rest, m)),
            Err(e) => Err((e, rest)),
        },
        Err(e) => Err(e),
    }
}

/// Pops the operands `shapes[k..]` off `stack`, as `pop_operands` describes.
fn pop_exec(stack: &mut Vec<StackValue>, shapes: &Vec<Operand>, k: usize, op: StackOperation) -> (r:
    Result<Vec<StackValue>, StackError>)
    requires
        k <= shapes@.len(),
    ensures
        match pop_operands(values_view(old(stack)@), shapes@.skip(k as int), op) {
            Ok((args, rest)) => r is Ok && values_view(r->Ok_0@) == args && values_view(
                final(stack)@,
            ) == rest,
            Err((e, rest)) => r is Err && r->Err_0@ == e && values_view(final(stack)@) == rest,
        },
    decreases shapes@.len() - k,
{
    let ghost s0 = values_view(stack@);
    let ghost sh = shapes@.skip(k as int);
    if k == shapes.len() {
        assert(sh.len() == 0);
        let r: Vec<StackValue> = Vec::new();
        assert(values_view(r@) =~= seq![]);
        return Ok(r);
    }
    assert(sh[0] == shapes@[k as int]);
    let shape = shapes[k];
    match stack.pop() {
        None => {
            Err(
                StackError::EmptyStack {
                    arg_pattern: String::from_str(shape.text()),
                    expr: String::from_str(op.mnemonic()),
                },
            )
        },
        Some(v) => {
            assert(values_view(stack@) =~= s0.drop_last());
            assert(v@ == s0.last());
            if !shape.check(&v) {
                return Err(
                    StackError::PatternMismatch {
                        arg_pattern: String::from_str(shape.text()),
                        expr: String::from_str(op.mnemonic()),
                    },
                );
            }
            assert(shapes@.skip(k + 1) =~= sh.drop_first());
            match pop_exec(stack, shapes, k + 1, op) {
                Ok(mut args) => {
                    let ghost a0 = values_view(args@);
                    args.insert(0, v);
                    assert(values_view(args@) =~= seq![s0.last()] + a0);
                    Ok(args)
                },
                Err(e) => Err(e),
            }
        },
    }
}

fn num_of(v: &StackValue) -> (r: isize)
    ensures
        r == num(v@),
{
    match v {
        StackValue::Num(n) => *n,
        _ => 0,
    }
}

fn bool_of(v: &StackValue) -> (r: bool)
    ensures
        r == boolean(v@),
{
    match v {
        StackValue::Bool(b) => *b,
        _ => false,
    }
}

fn arithmetic(op: StackOperation, r: Option<isize>) -> (res: Result<MachineOperation, StackError>)
    ensures
        match push_num(op, r) {
            Ok(m) => res is Ok && res->Ok_0@ == m,
            Err(e) => res is Err && res->Err_0@ == e,
        },
{
    match r {
        Some(v) => Ok(MachineOperation::Push(StackValue::Num(v))),
        None => Err(StackError::Arithmetic { expr: String::from_str(op.mnemonic()) }),
    }
}

/// What `op` asks of the machine, given its popped operands, as `outcome` describes.
fn outcome_exec(op: StackOperation, args: Vec<StackValue>) -> (r: Result<
    MachineOperation,
    StackError,
>)
    requires
        args@.len() == operands(op).len(),
    ensures
        match outcome(op, values_view(args@)) {
            Ok(m) => r is Ok && r->Ok_0@ == m,
            Err(e) => r is Err && r->Err_0@ == e,
        },
{
    let ghost v = values_view(args@);
    let mut args = args;
    match op {
        StackOperation::Plus => arithmetic(op, num_of(&args[1]).checked_add(num_of(&args[0]))),
        StackOperation::Minus => arithmetic(op, num_of(&args[1]).checked_sub(num_of(&args[0]))),
        StackOperation::Multiply => arithmetic(op, num_of(&args[1]).checked_mul(num_of(&args[0]))),
        StackOperation::Divide => arithmetic(op, num_of(&args[1]).checked_div(num_of(&args[0]))),
        StackOperation::Mod => arithmetic(op, num_of(&args[1]).checked_rem(num_of(&args[0]))),
        StackOperation::ToInt => {
            let n = match &args[0] {
                StackValue::String(s) => {
                    let t = chars_of(s.as_str());
                    match parse_int(&t) {
                        Some(n) => n,
                        None => 0,
                    }
                },
                _ => 0,
            };
            Ok(MachineOperation::Push(StackValue::Num(n)))
        },
        StackOperation::ToStr => Ok(MachineOperation::Push(StackValue::String(args[0].render()))),
        StackOperation::Println => {
            let a = args.remove(0);
            Ok(MachineOperation::Println(a))
        },
        StackOperation::Equals => Ok(
            MachineOperation::Push(StackValue::Bool(args[0].equals(&args[1]))),
        ),
        StackOperation::Or => Ok(
            MachineOperation::Push(StackValue::Bool(bool_of(&args[0]) || bool_of(&args[1]))),
        ),
        StackOperation::And => Ok(
            MachineOperation::Push(StackValue::Bool(bool_of(&args[0]) && bool_of(&args[1]))),
        ),
        StackOperation::Not => Ok(MachineOperation::Push(StackValue::Bool(!bool_of(&args[0])))),
        StackOperation::LessThan => Ok(
            MachineOperation::Push(StackValue::Bool(num_of(&args[1]) < num_of(&args[0]))),
        ),
        StackOperation::LessThanOrEqualTo => Ok(
            MachineOperation::Push(StackValue::Bool(num_of(&args[1]) <= num_of(&args[0]))),
        ),
        StackOperation::GreaterHan => Ok(
            MachineOperation::Push(StackValue::Bool(num_of(&args[1]) > num_of(&args[0]))),
        ),
        StackOperation::GreaterHanOrEqualto => Ok(
            MachineOperation::Push(StackValue::Bool(num_of(&args[1]) >= num_of(&args[0]))),
        ),
        StackOperation::If => {
            let cond = bool_of(&args[2]);
            let f = args.remove(0);
            let t = args.remove(0);
            Ok(
                MachineOperation::Push(
                    if cond {
                        t
                    } else {
                        f
                    },
                ),
            )
        },
        StackOperation::Jump => Ok(MachineOperation::Jump(num_of(&args[0]) as usize)),
        StackOperation::Duplicate => {
            let a = args.remove(0);
            let copy = a.duplicate();
            Ok(MachineOperation::PushTwo(copy, a))
        },
        StackOperation::Drop => Ok(MachineOperation::NA),
        StackOperation::Rotate => {
            let a = args.remove(0);
            let b = args.remove(0);
            let c = args.remove(0);
            Ok(MachineOperation::PushThree(b, a, c))
        },
        StackOperation::Swap => {
            let a = args.remove(0);
            let b = args.remove(0);
            Ok(MachineOperation::PushTwo(a, b))
        },
        StackOperation::SleepMS => Ok(MachineOperation::Sleep(num_of(&args[0]) as u64)),
        StackOperation::Exit => Ok(MachineOperation::Stop(num_of(&args[0]) as i32)),
        StackOperation::Stop => Ok(MachineOperation::Stop(0)),
        StackOperation::Read => Ok(MachineOperation::ReadLn),
        StackOperation::Over => {
            let a = args.remove(0);
            let b = args.remove(0);
            let copy = b.duplicate();
            Ok(MachineOperation::PushThree(copy, a, b))
        },
        StackOperation::Call => Ok(MachineOperation::Call(num_of(&args[0]) as usize)),
        StackOperation::Return => Ok(MachineOperation::Return),
    }
}

impl StackOperation {
    /// Pops this operation's operands off `stack` and returns what it asks of the machine.
    ///
    /// Operands are popped from the top down. An empty stack gives `EmptyStack`, an
    /// operand of the wrong shape `PatternMismatch`, and a division by zero or a result
    /// out of range `Arithmetic`.
    pub fn apply(self, stack: &mut Vec<StackValue>) -> (r: Result<MachineOperation, StackError>)
        ensures
            match apply_spec(self, values_view(old(stack)@)) {
                Ok((rest, m)) => r is Ok && r->Ok_0@ == m && values_view(final(stack)@) == rest,
                Err((e, rest)) => r is Err && r->Err_0@ == e && values_view(final(stack)@)
                    == rest,
            },
    {
        let shapes = operand_shapes(self);
        assert(shapes@.skip(0) =~= shapes@);
        match pop_exec(stack, &shapes, 0, self) {
            Ok(args) => {
                proof {
                    lemma_pop_operands_len(values_view(old(stack)@), operands(self), self);
                }
                outcome_exec(self, args)
            },
            Err(e) => Err(e),
        }
    }
}

proof fn lemma_pop_operands_len(stack: Seq<ValueView>, shapes: Seq<Operand>, op: StackOperation)
    ensures
        pop_operands(stack, shapes, op) is Ok ==> pop_operands(stack, shapes, op)->Ok_0.0.len()
            == shapes.len(),
    decreases shapes.len(),
{
    if shapes.len() > 0 && stack.len() > 0 {
        lemma_pop_operands_len(stack.drop_last(), shapes.drop_first(), op);
    }
}

} // verus!
