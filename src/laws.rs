use vstd::prelude::*;

use crate::error::ErrorView;
use crate::labels::{
    definitions, first_faulty, is_faulty, label_name, references, resolve, resolved_value,
};
use crate::machine::{ends_with, runs, start, step_rel, step_spec, MachineModel, StepResult};
use crate::operations::StackOperation;
use crate::semantics::{apply_spec, outcome, pop_operands, operands, MachineOpView};
use crate::side_effect::Effect;
use crate::operations::{find_op, op_at, OPERATION_COUNT};
use crate::tokenizer::{
    flush, in_string, initial_scan, is_separator, program_values, raw_tokens, scan_from,
    scan_step, ScanState,
};
use crate::value::{
    all_digits, decimal, digit_char, digit_value, digits_of, digits_value, int_literal, is_digit,
    parse_token_spec, ValueView,
};

verus! {

/// The state after `k` steps from `st`, none of which reads input.
pub open spec fn after(st: MachineModel, k: nat) -> MachineModel
    decreases k,
{
    if k == 0 {
        st
    } else {
        step_spec(after(st, (k - 1) as nat), Seq::empty()).0
    }
}

/// `code` holds no `read` operation.
pub open spec fn reads_nothing(code: Seq<ValueView>) -> bool {
    forall|i: int| 0 <= i < code.len() ==> code[i] != ValueView::Operation(StackOperation::Read)
}

proof fn lemma_only_read_reads(op: StackOperation, args: Seq<ValueView>)
    requires
        op != StackOperation::Read,
    ensures
        outcome(op, args) != Ok::<MachineOpView, ErrorView>(MachineOpView::ReadLn),
{
}

/// Without a `read` at the instruction pointer, a step does not depend on the input line,
/// and it keeps the code.
proof fn lemma_step_without_input(st: MachineModel, line: Seq<char>)
    requires
        reads_nothing(st.code),
    ensures
        step_spec(st, line).0 == step_spec(st, Seq::empty()).0,
        step_spec(st, line).1 == step_spec(st, Seq::empty()).1,
        step_spec(st, line).0.code == st.code,
{
    if st.ip < st.code.len() {
        match st.code[st.ip as int] {
            ValueView::Operation(op) => {
                assert(op != StackOperation::Read);
                match pop_operands(st.stack, operands(op), op) {
                    Ok((args, rest)) => {
                        lemma_only_read_reads(op, args);
                    },
                    Err(_) => {},
                }
            },
            _ => {},
        }
    }
}

proof fn lemma_after_keeps_code(st: MachineModel, k: nat)
    requires
        reads_nothing(st.code),
    ensures
        after(st, k).code == st.code,
    decreases k,
{
    if k > 0 {
        lemma_after_keeps_code(st, (k - 1) as nat);
        lemma_step_without_input(after(st, (k - 1) as nat), Seq::empty());
    }
}

proof fn lemma_runs_follow(
    tr: bool,
    s0: MachineModel,
    e0: Seq<Effect>,
    sm: MachineModel,
    em: Seq<Effect>,
    n: nat,
)
    requires
        reads_nothing(s0.code),
        runs(tr, s0, e0, sm, em, n),
    ensures
        sm == after(s0, n),
        forall|k: nat| k < n ==> (#[trigger] step_spec(after(s0, k), Seq::empty())).1 == Ok::<
            StepResult,
            ErrorView,
        >(StepResult::Continue),
    decreases n,
{
    if n > 0 {
        let (sp, ep) = choose|sp: MachineModel, ep: Seq<Effect>|
            runs(tr, s0, e0, sp, ep, (n - 1) as nat) && step_rel(
                tr,
                sp,
                ep,
                sm,
                em,
                Ok(StepResult::Continue),
            );
        lemma_runs_follow(tr, s0, e0, sp, ep, (n - 1) as nat);
        lemma_after_keeps_code(s0, (n - 1) as nat);
        lemma_step_without_input(sp, crate::machine::last_line(em));
    }
}

/// A run of a program without `read` follows `after`: it takes some number `n` of steps
/// that continue, and then one that gives its result.
pub proof fn lemma_run_follows(
    tr: bool,
    s0: MachineModel,
    e0: Seq<Effect>,
    s1: MachineModel,
    e1: Seq<Effect>,
    r: Result<StepResult, ErrorView>,
) -> (n: nat)
    requires
        reads_nothing(s0.code),
        ends_with(tr, s0, e0, s1, e1, r),
    ensures
        forall|k: nat| k < n ==> (#[trigger] step_spec(after(s0, k), Seq::empty())).1 == Ok::<
            StepResult,
            ErrorView,
        >(StepResult::Continue),
        step_spec(after(s0, n), Seq::empty()).0 == s1,
        step_spec(after(s0, n), Seq::empty()).1 == r,
{
    let (n, sm, em) = choose|n: nat, sm: MachineModel, em: Seq<Effect>|
        #[trigger] runs(tr, s0, e0, sm, em, n) && step_rel(tr, sm, em, s1, e1, r);
    lemma_runs_follow(tr, s0, e0, sm, em, n);
    lemma_after_keeps_code(s0, n);
    lemma_step_without_input(sm, crate::machine::last_line(e1));
    n
}

/// The result of an arithmetic operator on `x` (left) and `y` (right), if in range.
pub open spec fn checked_arith(op: StackOperation, x: isize, y: isize) -> Option<isize> {
    match op {
        StackOperation::Plus => x.checked_add(y),
        StackOperation::Minus => x.checked_sub(y),
        StackOperation::Multiply => x.checked_mul(y),
        StackOperation::Divide => x.checked_div(y),
        _ => None,
    }
}

pub open spec fn is_arithmetic(op: StackOperation) -> bool {
    op == StackOperation::Plus || op == StackOperation::Minus || op == StackOperation::Multiply
        || op == StackOperation::Divide
}

/// The program `x y op`.
pub open spec fn binary_program(x: isize, y: isize, op: StackOperation) -> Seq<ValueView> {
    seq![ValueView::Num(x), ValueView::Num(y), ValueView::Operation(op)]
}

/// A value that is neither a label nor an operation is pushed.
proof fn lemma_step_pushes(st: MachineModel, line: Seq<char>)
    requires
        st.ip < st.code.len(),
        !(st.code[st.ip as int] is Label),
        !(st.code[st.ip as int] is Operation),
    ensures
        step_spec(st, line) == (
            MachineModel {
                ip: (st.ip + 1) as usize,
                stack: st.stack.push(st.code[st.ip as int]),
                ..st
            },
            Ok::<StepResult, ErrorView>(StepResult::Continue),
            Seq::<Effect>::empty(),
        ),
{
}

/// At the end of the code the machine stops with exit code 0.
proof fn lemma_step_at_end(st: MachineModel, line: Seq<char>)
    requires
        st.ip == st.code.len(),
    ensures
        step_spec(st, line).1 == Ok::<StepResult, ErrorView>(StepResult::Stop(0)),
        step_spec(st, line).0 == st,
{
}

proof fn lemma_arith_apply(op: StackOperation, x: isize, y: isize)
    requires
        is_arithmetic(op),
    ensures
        apply_spec(op, seq![ValueView::Num(x), ValueView::Num(y)]) == match checked_arith(
            op,
            x,
            y,
        ) {
            Some(v) => Ok::<(Seq<ValueView>, MachineOpView), (ErrorView, Seq<ValueView>)>(
                (Seq::empty(), MachineOpView::Push(ValueView::Num(v))),
            ),
            None => Err((ErrorView::Arithmetic { expr: op.mnemonic_spec() }, Seq::empty())),
        },
{
    let st = seq![ValueView::Num(x), ValueView::Num(y)];
    assert(st.drop_last() =~= seq![ValueView::Num(x)]);
    assert(seq![ValueView::Num(x)].drop_last() =~= Seq::<ValueView>::empty());
    assert(operands(op) == seq![crate::semantics::Operand::Num, crate::semantics::Operand::Num]);
    assert(operands(op).drop_first() =~= seq![crate::semantics::Operand::Num]);
    assert(seq![crate::semantics::Operand::Num].drop_first() =~= Seq::<
        crate::semantics::Operand,
    >::empty());
    let none = Seq::<crate::semantics::Operand>::empty();
    assert(pop_operands(Seq::empty(), none, op) == Ok::<
        (Seq<ValueView>, Seq<ValueView>),
        (ErrorView, Seq<ValueView>),
    >((Seq::empty(), Seq::empty())));
    assert(pop_operands(seq![ValueView::Num(x)], seq![crate::semantics::Operand::Num], op) == Ok::<
        (Seq<ValueView>, Seq<ValueView>),
        (ErrorView, Seq<ValueView>),
    >((seq![ValueView::Num(x)] + Seq::empty(), Seq::empty())));
    assert(seq![ValueView::Num(x)] + Seq::<ValueView>::empty() =~= seq![ValueView::Num(x)]);
    assert(seq![ValueView::Num(y)] + seq![ValueView::Num(x)] =~= seq![
        ValueView::Num(y),
        ValueView::Num(x),
    ]);
    assert(pop_operands(st, operands(op), op) == Ok::<
        (Seq<ValueView>, Seq<ValueView>),
        (ErrorView, Seq<ValueView>),
    >((seq![ValueView::Num(y), ValueView::Num(x)], Seq::empty())));
}

/// An arithmetic operator applied to a machine whose stack holds `x` and `y`.
proof fn lemma_arith_step(st: MachineModel, op: StackOperation, x: isize, y: isize)
    requires
        is_arithmetic(op),
        st.ip < st.code.len(),
        st.code[st.ip as int] == ValueView::Operation(op),
        st.stack == seq![ValueView::Num(x), ValueView::Num(y)],
    ensures
        match checked_arith(op, x, y) {
            Some(v) => step_spec(st, Seq::empty()).1 == Ok::<StepResult, ErrorView>(
                StepResult::Continue,
            ) && step_spec(st, Seq::empty()).0 == (MachineModel {
                ip: (st.ip + 1) as usize,
                stack: seq![ValueView::Num(v)],
                ..st
            }),
            None => step_spec(st, Seq::empty()).1 == Err::<StepResult, ErrorView>(
                ErrorView::Arithmetic { expr: op.mnemonic_spec() },
            ),
        },
{
    lemma_arith_apply(op, x, y);
    match checked_arith(op, x, y) {
        Some(v) => {
            assert(Seq::<ValueView>::empty().push(ValueView::Num(v)) =~= seq![ValueView::Num(v)]);
        },
        None => {},
    }
}

/// For all integers `x` and `y`, a run of `x y +` halts with `x + y` alone on the stack,
/// `x y -` with `x - y`, `x y *` with `x * y` and `x y /` with `x / y` (rounded toward
/// zero); when the result is out of range, or when dividing by zero, the run fails with an
/// arithmetic error naming the operator.
#[verifier::rlimit(50)]
pub proof fn law_arithmetic(
    x: isize,
    y: isize,
    op: StackOperation,
    tr: bool,
    e0: Seq<Effect>,
    s1: MachineModel,
    e1: Seq<Effect>,
    r: Result<StepResult, ErrorView>,
)
    requires
        is_arithmetic(op),
        ends_with(tr, start(binary_program(x, y, op)), e0, s1, e1, r),
        r != Ok::<StepResult, ErrorView>(StepResult::Continue),
    ensures
        match checked_arith(op, x, y) {
            Some(v) => r == Ok::<StepResult, ErrorView>(StepResult::Stop(0)) && s1.stack == seq![
                ValueView::Num(v),
            ],
            None => r == Err::<StepResult, ErrorView>(
                ErrorView::Arithmetic { expr: op.mnemonic_spec() },
            ),
        },
        op == StackOperation::Divide && y == 0 ==> r is Err,
{
    let s0 = start(binary_program(x, y, op));
    assert(reads_nothing(s0.code));
    let n = lemma_run_follows(tr, s0, e0, s1, e1, r);
    lemma_step_pushes(after(s0, 0), Seq::empty());
    assert(after(s0, 1).stack =~= seq![ValueView::Num(x)]);
    lemma_step_pushes(after(s0, 1), Seq::empty());
    assert(after(s0, 2).stack =~= seq![ValueView::Num(x), ValueView::Num(y)]);
    lemma_arith_step(after(s0, 2), op, x, y);
    match checked_arith(op, x, y) {
        Some(v) => {
            lemma_step_at_end(after(s0, 3), Seq::empty());
            if n < 3 {
                assert(step_spec(after(s0, n), Seq::empty()).1 == Ok::<StepResult, ErrorView>(
                    StepResult::Continue,
                ));
            } else if n > 3 {
                assert(step_spec(after(s0, 3), Seq::empty()).1 == Ok::<StepResult, ErrorView>(
                    StepResult::Continue,
                ));
            }
        },
        None => {
            if n < 2 {
                assert(step_spec(after(s0, n), Seq::empty()).1 == Ok::<StepResult, ErrorView>(
                    StepResult::Continue,
                ));
            } else if n > 2 {
                assert(step_spec(after(s0, 2), Seq::empty()).1 == Ok::<StepResult, ErrorView>(
                    StepResult::Continue,
                ));
            }
        },
    }
}

/// `dup` on a stack whose top value is `v` continues with two copies of `v` on top and the
/// rest of the stack unchanged.
pub proof fn law_dup_step(st: MachineModel, line: Seq<char>)
    requires
        st.ip < st.code.len(),
        st.code[st.ip as int] == ValueView::Operation(StackOperation::Duplicate),
        st.stack.len() > 0,
    ensures
        step_spec(st, line).1 == Ok::<StepResult, ErrorView>(StepResult::Continue),
        step_spec(st, line).0.stack == st.stack.push(st.stack.last()),
        step_spec(st, line).0.ip == (st.ip + 1) as usize,
{
    let op = StackOperation::Duplicate;
    let any = seq![crate::semantics::Operand::Any];
    assert(operands(op) == any);
    assert(any.drop_first() =~= Seq::<crate::semantics::Operand>::empty());
    assert(pop_operands(st.stack.drop_last(), any.drop_first(), op) == Ok::<
        (Seq<ValueView>, Seq<ValueView>),
        (ErrorView, Seq<ValueView>),
    >((Seq::empty(), st.stack.drop_last())));
    assert(seq![st.stack.last()] + Seq::<ValueView>::empty() =~= seq![st.stack.last()]);
    assert(st.stack.drop_last().push(st.stack.last()) =~= st.stack);
}

/// The program `v dup dup`.
pub open spec fn dup_dup_program(v: ValueView) -> Seq<ValueView> {
    seq![
        v,
        ValueView::Operation(StackOperation::Duplicate),
        ValueView::Operation(StackOperation::Duplicate),
    ]
}

/// A run of `v dup dup`, for a value `v` that is pushed as it stands, halts with three
/// equal copies of `v` on the stack.
pub proof fn law_dup_dup(
    v: ValueView,
    tr: bool,
    e0: Seq<Effect>,
    s1: MachineModel,
    e1: Seq<Effect>,
    r: Result<StepResult, ErrorView>,
)
    requires
        !(v is Label),
        !(v is Operation),
        ends_with(tr, start(dup_dup_program(v)), e0, s1, e1, r),
        r != Ok::<StepResult, ErrorView>(StepResult::Continue),
    ensures
        r == Ok::<StepResult, ErrorView>(StepResult::Stop(0)),
        s1.stack == seq![v, v, v],
{
    let s0 = start(dup_dup_program(v));
    assert(reads_nothing(s0.code));
    let n = lemma_run_follows(tr, s0, e0, s1, e1, r);
    lemma_step_pushes(after(s0, 0), Seq::empty());
    assert(after(s0, 1).stack =~= seq![v]);
    law_dup_step(after(s0, 1), Seq::empty());
    assert(after(s0, 2).stack =~= seq![v, v]);
    law_dup_step(after(s0, 2), Seq::empty());
    assert(after(s0, 3).stack =~= seq![v, v, v]);
    lemma_step_at_end(after(s0, 3), Seq::empty());
    if n < 3 {
        assert(step_spec(after(s0, n), Seq::empty()).1 == Ok::<StepResult, ErrorView>(
            StepResult::Continue,
        ));
    } else if n > 3 {
        assert(step_spec(after(s0, 3), Seq::empty()).1 == Ok::<StepResult, ErrorView>(
            StepResult::Continue,
        ));
    }
}

proof fn lemma_no_fault_from(c: Seq<ValueView>, j: int, i: int)
    requires
        0 <= j <= i < c.len(),
        first_faulty(c, j) is None,
        label_name(c[i]) is Some,
    ensures
        !is_faulty(c, label_name(c[i])->Some_0),
    decreases i - j,
{
    if j < i {
        lemma_no_fault_from(c, j + 1, i);
    }
}

/// Resolution keeps every definition where it was and leaves no reference.
proof fn lemma_resolved_uses(c: Seq<ValueView>, d: Seq<ValueView>, name: Seq<char>, k: int)
    requires
        d == c.map_values(|v: ValueView| resolved_value(c, v)),
        0 <= k <= c.len(),
    ensures
        definitions(d, name, k) == definitions(c, name, k),
        references(d, name, k) == 0,
    decreases k,
{
    if k > 0 {
        lemma_resolved_uses(c, d, name, k - 1);
        assert(d[k - 1] == resolved_value(c, c[k - 1]));
    }
}

proof fn lemma_resolved_has_no_fault(c: Seq<ValueView>, d: Seq<ValueView>, j: int)
    requires
        d == c.map_values(|v: ValueView| resolved_value(c, v)),
        first_faulty(c, 0) is None,
        0 <= j <= d.len(),
    ensures
        first_faulty(d, j) is None,
    decreases d.len() - j,
{
    if j < d.len() {
        lemma_resolved_has_no_fault(c, d, j + 1);
        assert(d[j] == resolved_value(c, c[j]));
        match label_name(d[j]) {
            Some(name) => {
                lemma_no_fault_from(c, 0, j);
                lemma_resolved_uses(c, d, name, c.len() as int);
            },
            None => {},
        }
    }
}

/// Resolving labels twice is resolving them once: resolved code resolves to itself.
pub proof fn law_resolve_idempotent(code: Seq<ValueView>)
    requires
        resolve(code) is Ok,
    ensures
        resolve(resolve(code)->Ok_0) == resolve(code),
{
    let d = code.map_values(|v: ValueView| resolved_value(code, v));
    lemma_resolved_has_no_fault(code, d, 0);
    assert forall|i: int| 0 <= i < d.len() implies resolved_value(d, d[i]) == d[i] by {
        assert(d[i] == resolved_value(code, code[i]));
    }
    assert(d.map_values(|v: ValueView| resolved_value(d, v)) =~= d);
}


/// The source text of a value that reads back as itself: an integer in decimal, a boolean
/// as its word, a string between double quotes.
pub open spec fn source_form(v: ValueView) -> Seq<char> {
    match v {
        ValueView::Num(n) => decimal(n as int),
        ValueView::Bool(b) => if b {
            "true"@
        } else {
            "false"@
        },
        ValueView::String(s) => seq!['"'] + s + seq!['"'],
        _ => Seq::empty(),
    }
}

/// `v` is an integer, a boolean, or a string without double quotes or backslashes.
pub open spec fn writable(v: ValueView) -> bool {
    match v {
        ValueView::Num(_) => true,
        ValueView::Bool(_) => true,
        ValueView::String(s) => forall|i: int| 0 <= i < s.len() ==> s[i] != '"' && s[i] != '\\',
        _ => false,
    }
}

/// The source forms of `vs`, each followed by a space.
pub open spec fn source_text(vs: Seq<ValueView>) -> Seq<char>
    decreases vs.len(),
{
    if vs.len() == 0 {
        Seq::empty()
    } else {
        source_text(vs.drop_last()) + source_form(vs.last()) + seq![' ']
    }
}

/// The scanner between tokens, with `tokens` completed.
pub open spec fn between(tokens: Seq<Seq<char>>) -> ScanState {
    ScanState { escape: false, comment: false, token: Seq::empty(), tokens }
}

/// A character that only ever extends the token in which it stands.
pub open spec fn plain(c: char) -> bool {
    c != '"' && c != '\\' && c != '#' && !is_separator(c)
}

proof fn lemma_scan_concat(st: ScanState, a: Seq<char>, b: Seq<char>)
    ensures
        scan_from(st, a + b) == scan_from(scan_from(st, a), b),
    decreases b.len(),
{
    if b.len() == 0 {
        assert(a + b =~= a);
    } else {
        lemma_scan_concat(st, a, b.drop_last());
        assert((a + b).drop_last() =~= a + b.drop_last());
        assert((a + b).last() == b.last());
    }
}

proof fn lemma_scan_plain(tokens: Seq<Seq<char>>, t: Seq<char>)
    requires
        forall|i: int| 0 <= i < t.len() ==> plain(t[i]),
    ensures
        scan_from(between(tokens), t) == (ScanState { token: t, ..between(tokens) }),
    decreases t.len(),
{
    if t.len() > 0 {
        lemma_scan_plain(tokens, t.drop_last());
        assert(plain(t[t.len() - 1]));
        assert(t.drop_last().push(t.last()) =~= t);
    } else {
        assert(t =~= Seq::<char>::empty());
    }
}

proof fn lemma_scan_string_body(tokens: Seq<Seq<char>>, s: Seq<char>)
    requires
        forall|i: int| 0 <= i < s.len() ==> s[i] != '"' && s[i] != '\\',
    ensures
        scan_from(between(tokens), seq!['"'] + s) == (ScanState {
            token: seq!['"'] + s,
            ..between(tokens)
        }),
    decreases s.len(),
{
    let st = between(tokens);
    if s.len() == 0 {
        let q = seq!['"'];
        assert(seq!['"'] + s =~= q);
        assert(q.drop_last() =~= Seq::<char>::empty());
        assert(scan_from(st, Seq::<char>::empty()) == st);
        assert(scan_from(st, q) == scan_step(st, '"'));
        assert(st.token.push('"') =~= q);
    } else {
        let p = s.drop_last();
        let c = s.last();
        lemma_scan_string_body(tokens, p);
        let before = ScanState { token: seq!['"'] + p, ..st };
        assert(before.token[0] == '"');
        assert(in_string(before.token));
        assert((seq!['"'] + s).drop_last() =~= seq!['"'] + p);
        assert((seq!['"'] + s).last() == c);
        assert(scan_from(st, seq!['"'] + s) == scan_step(before, c));
        assert(c != '"' && c != '\\');
        assert((seq!['"'] + p).push(c) =~= seq!['"'] + s);
        assert(scan_step(before, c) == (ScanState { token: (seq!['"'] + p).push(c), ..st }));
    }
}

/// Reading a writable value's source form and a space completes exactly that token.
proof fn lemma_scan_value(tokens: Seq<Seq<char>>, v: ValueView)
    requires
        writable(v),
    ensures
        scan_from(between(tokens), source_form(v) + seq![' ']) == between(
            tokens.push(source_form(v)),
        ),
{
    let t = source_form(v);
    lemma_scan_concat(between(tokens), t, seq![' ']);
    assert((t + seq![' ']).drop_last() =~= t);
    match v {
        ValueView::String(s) => {
            lemma_scan_string_body(tokens, s);
            lemma_scan_concat(between(tokens), seq!['"'] + s, seq!['"']);
            assert(seq!['"'] + s + seq!['"'] =~= (seq!['"'] + s).push('"'));
            assert((seq!['"'] + s + seq!['"']).drop_last() =~= seq!['"'] + s);
            assert(seq![' '].drop_last() =~= Seq::<char>::empty());
            assert(seq!['"'].drop_last() =~= Seq::<char>::empty());
        },
        _ => {
            lemma_source_plain(v);
            lemma_scan_plain(tokens, t);
            assert(seq![' '].drop_last() =~= Seq::<char>::empty());
        },
    }
}

proof fn lemma_digit_char(d: int)
    requires
        0 <= d < 10,
    ensures
        is_digit(digit_char(d)),
        digit_value(digit_char(d)) == d,
{
    assert('1' as int == '0' as int + 1);
    assert('2' as int == '0' as int + 2);
    assert('3' as int == '0' as int + 3);
    assert('4' as int == '0' as int + 4);
    assert('5' as int == '0' as int + 5);
    assert('6' as int == '0' as int + 6);
    assert('7' as int == '0' as int + 7);
    assert('8' as int == '0' as int + 8);
    assert('9' as int == '0' as int + 9);
}

proof fn lemma_digits_of(m: nat)
    ensures
        digits_of(m).len() > 0,
        all_digits(digits_of(m)),
        digits_value(digits_of(m)) == m,
    decreases m,
{
    if m >= 10 {
        lemma_digits_of(m / 10);
        let d = digits_of(m / 10).push(digit_char((m % 10) as int));
        lemma_digit_char((m % 10) as int);
        assert(digits_of(m) == d);
        assert(d.last() == digit_char((m % 10) as int));
        assert(digits_value(d) == digits_value(d.drop_last()) * 10 + digit_value(d.last()));
        assert(d.drop_last() =~= digits_of(m / 10));
        vstd::arithmetic::div_mod::lemma_fundamental_div_mod(m as int, 10);
        assert forall|i: int| 0 <= i < d.len() implies is_digit(#[trigger] d[i]) by {
            if i < d.len() - 1 {
                assert(d[i] == digits_of(m / 10)[i]);
            }
        }
    } else {
        lemma_digit_char(m as int);
        assert(digits_of(m).drop_last() =~= Seq::<char>::empty());
        assert(digits_value(Seq::<char>::empty()) == 0);
        assert(digits_value(digits_of(m)) == digits_value(digits_of(m).drop_last()) * 10
            + digit_value(digits_of(m).last()));
    }
}

proof fn lemma_source_plain(v: ValueView)
    requires
        v is Num || v is Bool,
    ensures
        source_form(v).len() > 0,
        forall|i: int| 0 <= i < source_form(v).len() ==> plain(#[trigger] source_form(v)[i]),
{
    reveal_strlit("true");
    reveal_strlit("false");
    match v {
        ValueView::Num(n) => {
            if n < 0 {
                lemma_digits_of((-n) as nat);
                let t = seq!['-'] + digits_of((-n) as nat);
                assert forall|i: int| 0 <= i < t.len() implies plain(#[trigger] t[i]) by {
                    if i > 0 {
                        assert(t[i] == digits_of((-n) as nat)[i - 1]);
                        assert(is_digit(digits_of((-n) as nat)[i - 1]));
                    }
                }
            } else {
                lemma_digits_of(n as nat);
                let t = digits_of(n as nat);
                assert forall|i: int| 0 <= i < t.len() implies plain(#[trigger] t[i]) by {
                    assert(is_digit(t[i]));
                }
            }
        },
        _ => {},
    }
}

/// No operation is named by a token that opens with a double quote.
proof fn lemma_mnemonic_unquoted(op: StackOperation)
    ensures
        op.mnemonic_spec().len() > 0,
        op.mnemonic_spec()[0] != '"',
{
    match op {
        StackOperation::Plus => {
            reveal_strlit("+");
        },
        StackOperation::Minus => {
            reveal_strlit("-");
        },
        StackOperation::Multiply => {
            reveal_strlit("*");
        },
        StackOperation::Divide => {
            reveal_strlit("/");
        },
        StackOperation::ToInt => {
            reveal_strlit("cast_int");
        },
        StackOperation::ToStr => {
            reveal_strlit("cast_str");
        },
        StackOperation::Println => {
            reveal_strlit("println");
        },
        StackOperation::Equals => {
            reveal_strlit("==");
        },
        StackOperation::Or => {
            reveal_strlit("or");
        },
        StackOperation::And => {
            reveal_strlit("and");
        },
        StackOperation::Not => {
            reveal_strlit("not");
        },
        StackOperation::LessThan => {
            reveal_strlit("<");
        },
        StackOperation::LessThanOrEqualTo => {
            reveal_strlit("<=");
        },
        StackOperation::GreaterHan => {
            reveal_strlit(">");
        },
        StackOperation::GreaterHanOrEqualto => {
            reveal_strlit(">=");
        },
        StackOperation::Mod => {
            reveal_strlit("%");
        },
        StackOperation::If => {
            reveal_strlit("if");
        },
        StackOperation::Jump => {
            reveal_strlit("jmp");
        },
        StackOperation::Duplicate => {
            reveal_strlit("dup");
        },
        StackOperation::Drop => {
            reveal_strlit("drop");
        },
        StackOperation::Rotate => {
            reveal_strlit("rot");
        },
        StackOperation::Swap => {
            reveal_strlit("swap");
        },
        StackOperation::SleepMS => {
            reveal_strlit("sleep_ms");
        },
        StackOperation::Exit => {
            reveal_strlit("exit");
        },
        StackOperation::Stop => {
            reveal_strlit("stop");
        },
        StackOperation::Read => {
            reveal_strlit("read");
        },
        StackOperation::Over => {
            reveal_strlit("over");
        },
        StackOperation::Call => {
            reveal_strlit("call");
        },
        StackOperation::Return => {
            reveal_strlit("return");
        },
    }
}

proof fn lemma_quoted_names_nothing(t: Seq<char>, i: int)
    requires
        t.len() > 0,
        t[0] == '"',
        0 <= i,
    ensures
        find_op(t, i) is None,
    decreases OPERATION_COUNT - i,
{
    if i < OPERATION_COUNT {
        lemma_mnemonic_unquoted(op_at(i));
        lemma_quoted_names_nothing(t, i + 1);
    }
}

/// A writable value's source form reads back as the value.
proof fn lemma_parse_source(v: ValueView)
    requires
        writable(v),
    ensures
        parse_token_spec(source_form(v)) == v,
{
    reveal_strlit("true");
    reveal_strlit("false");
    let t = source_form(v);
    match v {
        ValueView::Num(n) => {
            lemma_source_plain(v);
            if n < 0 {
                lemma_digits_of((-n) as nat);
                assert(t.drop_first() =~= digits_of((-n) as nat));
                assert(t[0] == '-');
            } else {
                lemma_digits_of(n as nat);
                assert(is_digit(t[0]));
            }
            assert(t != "true"@) by {
                assert(t[0] != "true"@[0]);
            }
            assert(t != "false"@) by {
                assert(t[0] != "false"@[0]);
            }
        },
        ValueView::Bool(b) => {
            assert("false"@ != "true"@) by {
                assert("false"@.len() != "true"@.len());
            }
        },
        ValueView::String(s) => {
            assert(t[0] == '"');
            assert(t != "true"@) by {
                assert(t[0] != "true"@[0]);
            }
            assert(t != "false"@) by {
                assert(t[0] != "false"@[0]);
            }
            assert(!is_digit(t[0]));
            assert(!all_digits(t));
            assert(int_literal(t) is None);
            lemma_quoted_names_nothing(t, 0);
            assert(t.subrange(1, t.len() - 1) =~= s);
        },
        _ => {},
    }
}

proof fn lemma_scan_text(vs: Seq<ValueView>)
    requires
        forall|i: int| 0 <= i < vs.len() ==> writable(vs[i]),
    ensures
        scan_from(initial_scan(), source_text(vs)) == between(
            vs.map_values(|v: ValueView| source_form(v)),
        ),
    decreases vs.len(),
{
    if vs.len() == 0 {
        assert(vs.map_values(|v: ValueView| source_form(v)) =~= Seq::<Seq<char>>::empty());
    } else {
        let init = vs.drop_last();
        lemma_scan_text(init);
        let front = source_text(init);
        lemma_scan_concat(initial_scan(), front, source_form(vs.last()) + seq![' ']);
        assert(source_text(vs) =~= front + (source_form(vs.last()) + seq![' ']));
        lemma_scan_value(init.map_values(|v: ValueView| source_form(v)), vs.last());
        assert(init.map_values(|v: ValueView| source_form(v)).push(source_form(vs.last()))
            =~= vs.map_values(|v: ValueView| source_form(v)));
    }
}

/// The source forms of `vs` joined by single spaces.
pub open spec fn source_joined(vs: Seq<ValueView>) -> Seq<char> {
    if vs.len() == 0 {
        Seq::empty()
    } else {
        source_text(vs.drop_last()) + source_form(vs.last())
    }
}

/// Reading a writable value's source form, with nothing after it, leaves it as the last
/// token once the input ends.
proof fn lemma_scan_last_value(tokens: Seq<Seq<char>>, v: ValueView)
    requires
        writable(v),
    ensures
        flush(scan_from(between(tokens), source_form(v))).tokens == tokens.push(source_form(v)),
{
    match v {
        ValueView::String(s) => {
            lemma_scan_string_body(tokens, s);
            let t = seq!['"'] + s;
            assert(source_form(v) =~= t.push('"'));
            assert(t.push('"').drop_last() =~= t);
        },
        _ => {
            lemma_source_plain(v);
            lemma_scan_plain(tokens, source_form(v));
        },
    }
}

/// Round trip: integers, booleans and strings (without double quotes or backslashes),
/// written in their source forms and joined by single spaces, tokenize back to the same
/// values.
pub proof fn law_round_trip(vs: Seq<ValueView>)
    requires
        forall|i: int| 0 <= i < vs.len() ==> writable(vs[i]),
    ensures
        program_values(source_joined(vs)) == vs,
{
    let forms = vs.map_values(|v: ValueView| source_form(v));
    if vs.len() == 0 {
        assert(source_joined(vs) =~= Seq::<char>::empty());
        assert(raw_tokens(source_joined(vs)) =~= Seq::<Seq<char>>::empty());
    } else {
        let init = vs.drop_last();
        lemma_scan_text(init);
        lemma_scan_concat(initial_scan(), source_text(init), source_form(vs.last()));
        let front = init.map_values(|v: ValueView| source_form(v));
        lemma_scan_last_value(front, vs.last());
        assert(front.push(source_form(vs.last())) =~= forms);
        assert(raw_tokens(source_joined(vs)) == forms);
    }
    assert forall|i: int| 0 <= i < vs.len() implies parse_token_spec(forms[i]) == vs[i] by {
        lemma_parse_source(vs[i]);
    }
    assert(forms.map_values(|t: Seq<char>| parse_token_spec(t)) =~= vs);
}

} // verus!
