use vstd::prelude::*;

use crate::error::{ErrorView, StackError};
use crate::value::{values_view, StackValue, ValueView};

verus! {

/// The label name that a value defines or refers to, if any.
pub open spec fn label_name(v: ValueView) -> Option<Seq<char>> {
    match v {
        ValueView::Label(n) => Some(n),
        ValueView::PossibleLabel(n) => Some(n),
        _ => None,
    }
}

/// The addresses that the definitions of `name` among `code[0..k]` stand for, in order:
/// a definition at position `i` stands for address `i + 1`.
pub open spec fn definitions(code: Seq<ValueView>, name: Seq<char>, k: int) -> Seq<usize>
    decreases k,
{
    if k <= 0 {
        Seq::empty()
    } else {
        let d = definitions(code, name, k - 1);
        if code[k - 1] == ValueView::Label(name) {
            d.push(k as usize)
        } else {
            d
        }
    }
}

/// How many times `code[0..k]` refers to `name`.
pub open spec fn references(code: Seq<ValueView>, name: Seq<char>, k: int) -> nat
    decreases k,
{
    if k <= 0 {
        0
    } else {
        references(code, name, k - 1) + if code[k - 1] == ValueView::PossibleLabel(name) {
            1nat
        } else {
            0nat
        }
    }
}

pub open spec fn all_definitions(code: Seq<ValueView>, name: Seq<char>) -> Seq<usize> {
    definitions(code, name, code.len() as int)
}

pub open spec fn all_references(code: Seq<ValueView>, name: Seq<char>) -> nat {
    references(code, name, code.len() as int)
}

/// `name` is defined more than once, or referred to and never defined.
pub open spec fn is_faulty(code: Seq<ValueView>, name: Seq<char>) -> bool {
    all_definitions(code, name).len() > 1 || (all_definitions(code, name).len() == 0
        && all_references(code, name) > 0)
}

/// The first position, from `i` on, that names a faulty label.
pub open spec fn first_faulty(code: Seq<ValueView>, i: int) -> Option<int>
    decreases code.len() - i,
{
    if i < 0 || i >= code.len() {
        None
    } else if label_name(code[i]) is Some && is_faulty(code, label_name(code[i])->Some_0) {
        Some(i)
    } else {
        first_faulty(code, i + 1)
    }
}

/// The error that reports the faulty label `name`.
pub open spec fn label_error(code: Seq<ValueView>, name: Seq<char>) -> ErrorView {
    if all_definitions(code, name).len() > 1 {
        ErrorView::MultipleLabelDefinitions { label: name, locations: all_definitions(code, name) }
    } else {
        ErrorView::UndefinedLabel { label: name, times: all_references(code, name) as usize }
    }
}

/// A value of the resolved code: a reference becomes the address of its definition.
pub open spec fn resolved_value(code: Seq<ValueView>, v: ValueView) -> ValueView {
    match v {
        ValueView::PossibleLabel(n) => ValueView::Num(all_definitions(code, n)[0] as isize),
        _ => v,
    }
}

/// Label resolution: the error for the first faulty label, or the code with every
/// reference replaced by the address of its definition.
pub open spec fn resolve(code: Seq<ValueView>) -> Result<Seq<ValueView>, ErrorView> {
    match first_faulty(code, 0) {
        Some(i) => Err(label_error(code, label_name(code[i])->Some_0)),
        None => Ok(code.map_values(|v: ValueView| resolved_value(code, v))),
    }
}

/// The definitions of `name` in `code` and the number of references to it.
pub fn label_uses(code: &Vec<StackValue>, name: &String) -> (r: (Vec<usize>, usize))
    ensures
        r.0@ == all_definitions(values_view(code@), name@),
        r.1 as nat == all_references(values_view(code@), name@),
{
    let ghost c = values_view(code@);
    let mut defs: Vec<usize> = Vec::new();
    let mut refs: usize = 0;
    let mut i: usize = 0;
    while i < code.len()
        invariant
            c == values_view(code@),
            i <= code@.len(),
            defs@ == definitions(c, name@, i as int),
            refs as nat == references(c, name@, i as int),
            refs <= i,
        decreases code@.len() - i,
    {
        match &code[i] {
            StackValue::Label(s) => {
                if *s == *name {
                    defs.push(i + 1);
                }
            },
            StackValue::PossibleLabel(s) => {
                if *s == *name {
                    refs = refs + 1;
                }
            },
            _ => {},
        }
        i = i + 1;
    }
    (defs, refs)
}

/// The label name that `v` defines or refers to, if any.
pub fn name_of(v: &StackValue) -> (r: Option<&String>)
    ensures
        match label_name(v@) {
            Some(n) => r is Some && r->Some_0@ == n,
            None => r is None,
        },
{
    match v {
        StackValue::Label(s) => Some(s),
        StackValue::PossibleLabel(s) => Some(s),
        _ => None,
    }
}

/// Finds the first faulty label of `code` and reports it, or returns `Ok` when there is none.
pub fn check_labels(code: &Vec<StackValue>) -> (r: Result<(), StackError>)
    ensures
        match first_faulty(values_view(code@), 0) {
            Some(i) => r is Err && r->Err_0@ == label_error(
                values_view(code@),
                label_name(values_view(code@)[i])->Some_0,
            ),
            None => r is Ok,
        },
{
    let ghost c = values_view(code@);
    let mut i: usize = 0;
    while i < code.len()
        invariant
            c == values_view(code@),
            i <= code@.len(),
            first_faulty(c, 0) == first_faulty(c, i as int),
        decreases code@.len() - i,
    {
        match name_of(&code[i]) {
            Some(name) => {
                let (defs, refs) = label_uses(code, name);
                if defs.len() > 1 {
                    let label = name.clone();
                    return Err(StackError::MultipleLabelDefinitions { label, locations: defs });
                }
                if defs.len() == 0 && refs > 0 {
                    let label = name.clone();
                    return Err(StackError::UndefinedLabel { label, times: refs });
                }
            },
            None => {},
        }
        i = i + 1;
    }
    Ok(())
}

} // verus!
