use vstd::prelude::*;

use crate::error::{ErrorView, StackError};
use crate::labels::{check_labels, label_uses, resolve, resolved_value};
use crate::semantics::{apply_spec, MachineOpView, MachineOperation};
use crate::side_effect::{Effect, SideEffect};
use crate::tokenizer::{tokenize, Code};
use crate::value::{render_int, values_view, StackValue, ValueView};

verus! {

/// Whether the machine goes on after a step, or stops with an exit code.
#[derive(Clone, Copy, Debug, PartialEq, Eq, Structural)]
pub enum StepResult {
    Continue,
    Stop(i32),
}

/// The outcome of a run that halted normally.
#[derive(Debug)]
pub struct RunResult {
    pub exit_code: i32,
}

/// The state of a machine, apart from its side-effect port.
pub struct MachineModel {
    pub code: Seq<ValueView>,
    pub ip: usize,
    pub stack: Seq<ValueView>,
    pub returns: Seq<usize>,
}

/// A machine about to run `code` from its start, with empty stacks.
pub open spec fn start(code: Seq<ValueView>) -> MachineModel {
    MachineModel { code, ip: 0, stack: Seq::empty(), returns: Seq::empty() }
}

/// The error that `return` gives when the return stack is empty.
pub open spec fn empty_return_error() -> ErrorView {
    ErrorView::EmptyStack { arg_pattern: "Return"@, expr: "return"@ }
}

/// What carrying out `m` does to the machine; `line` is what `read_line` returned, if called.
pub open spec fn dispatch_spec(st: MachineModel, m: MachineOpView, line: Seq<char>) -> (
    MachineModel,
    Result<StepResult, ErrorView>,
) {
    match m {
        MachineOpView::Call(to) => (
            MachineModel { returns: st.returns.push(st.ip), ip: to, ..st },
            Ok(StepResult::Continue),
        ),
        MachineOpView::Jump(to) => (MachineModel { ip: to, ..st }, Ok(StepResult::Continue)),
        MachineOpView::NA => (st, Ok(StepResult::Continue)),
        MachineOpView::Push(v) => (
            MachineModel { stack: st.stack.push(v), ..st },
            Ok(StepResult::Continue),
        ),
        MachineOpView::PushTwo(v1, v2) => (
            MachineModel { stack: st.stack.push(v1).push(v2), ..st },
            Ok(StepResult::Continue),
        ),
        MachineOpView::PushThree(v1, v2, v3) => (
            MachineModel { stack: st.stack.push(v1).push(v2).push(v3), ..st },
            Ok(StepResult::Continue),
        ),
        MachineOpView::Return => if st.returns.len() == 0 {
            (st, Err(empty_return_error()))
        } else {
            (
                MachineModel { ip: st.returns.last(), returns: st.returns.drop_last(), ..st },
                Ok(StepResult::Continue),
            )
        },
        MachineOpView::Println(_) => (st, Ok(StepResult::Continue)),
        MachineOpView::ReadLn => (
            MachineModel { stack: st.stack.push(ValueView::String(line)), ..st },
            Ok(StepResult::Continue),
        ),
        MachineOpView::Sleep(_) => (st, Ok(StepResult::Continue)),
        MachineOpView::Stop(c) => (st, Ok(StepResult::Stop(c))),
    }
}

/// The calls that carrying out `m` makes through the side-effect port.
pub open spec fn dispatch_events(m: MachineOpView, line: Seq<char>) -> Seq<Effect> {
    match m {
        MachineOpView::Println(v) => seq![Effect::Println(v)],
        MachineOpView::ReadLn => seq![Effect::ReadLine(line)],
        MachineOpView::Sleep(ms) => seq![Effect::Sleep(ms)],
        _ => Seq::empty(),
    }
}

/// One step: the state after it, its result, and the calls it makes through the port.
///
/// At the end of the code the machine stops with exit code 0; past it, the step fails with
/// `OutOfBounds`. Otherwise the value at the instruction pointer is fetched and the pointer
/// advanced: a label does nothing, an operation is applied, any other value is pushed.
pub open spec fn step_spec(st: MachineModel, line: Seq<char>) -> (
    MachineModel,
    Result<StepResult, ErrorView>,
    Seq<Effect>,
) {
    if st.ip == st.code.len() {
        (st, Ok(StepResult::Stop(0)), Seq::empty())
    } else if st.ip > st.code.len() {
        (st, Err(ErrorView::OutOfBounds), Seq::empty())
    } else {
        let v = st.code[st.ip as int];
        let next = MachineModel { ip: (st.ip + 1) as usize, ..st };
        match v {
            ValueView::Label(_) => (next, Ok(StepResult::Continue), Seq::empty()),
            ValueView::Operation(op) => match apply_spec(op, st.stack) {
                Err((e, rest)) => (MachineModel { stack: rest, ..next }, Err(e), Seq::empty()),
                Ok((rest, m)) => {
                    let (after, r) = dispatch_spec(MachineModel { stack: rest, ..next }, m, line);
                    (after, r, dispatch_events(m, line))
                },
            },
            _ => (MachineModel { stack: st.stack.push(v), ..next }, Ok(StepResult::Continue), Seq::empty()),
        }
    }
}

/// The text of the last call in `events`, when that call read a line.
pub open spec fn last_line(events: Seq<Effect>) -> Seq<char> {
    if events.len() > 0 {
        match events.last() {
            Effect::ReadLine(s) => s,
            _ => Seq::empty(),
        }
    } else {
        Seq::empty()
    }
}

/// The step from `st` applies an operation whose operands pop successfully, and so
/// dispatches what the operation asks.
pub open spec fn dispatches(st: MachineModel) -> bool {
    &&& st.ip < st.code.len()
    &&& st.code[st.ip as int] is Operation
    &&& apply_spec(st.code[st.ip as int]->Operation_0, st.stack) is Ok
}

/// The calls of a trace: four lines of text (the pending operation, the instruction, the
/// operand stack and the return stack), a `...` line, and a read that pauses.
pub open spec fn is_trace(p: Seq<Effect>) -> bool {
    &&& p.len() == 6
    &&& forall|i: int|
        0 <= i < 4 ==> (#[trigger] p[i] is Println && p[i]->Println_0 is String)
    &&& p[4] == Effect::Println(ValueView::String("..."@))
    &&& p[5] is ReadLine
}

/// The calls that precede those of the step itself: a trace when tracing is on and the
/// step dispatches, none otherwise.
pub open spec fn pause_fits(tracing: bool, dispatching: bool, pause: Seq<Effect>) -> bool {
    if tracing && dispatching {
        is_trace(pause)
    } else {
        pause.len() == 0
    }
}

/// From history `e0` to `e1`, a dispatch of `m` made its trace, if any, and then its own
/// calls; the line it read, if any, is the last call.
pub open spec fn dispatch_calls(
    tracing: bool,
    e0: Seq<Effect>,
    e1: Seq<Effect>,
    m: MachineOpView,
) -> bool {
    exists|pause: Seq<Effect>|
        e1 == e0 + pause + dispatch_events(m, last_line(e1)) && #[trigger] pause_fits(
            tracing,
            true,
            pause,
        )
}

/// A step from `s0` with port history `e0` to `s1` with history `e1`, with result `r`.
///
/// The line a `read` pushes is the one the port returned. With tracing on, a step that
/// dispatches first writes its trace and pauses, before the operation's own calls.
pub open spec fn step_rel(
    tracing: bool,
    s0: MachineModel,
    e0: Seq<Effect>,
    s1: MachineModel,
    e1: Seq<Effect>,
    r: Result<StepResult, ErrorView>,
) -> bool {
    let (st, res, evs) = step_spec(s0, last_line(e1));
    &&& st == s1
    &&& res == r
    &&& exists|pause: Seq<Effect>|
        e1 == e0 + pause + evs && pause_fits(tracing, dispatches(s0), pause)
}

/// `n` steps, each with result `Continue`, lead from `s0` with history `e0` to `s1` with `e1`.
pub open spec fn runs(
    tracing: bool,
    s0: MachineModel,
    e0: Seq<Effect>,
    s1: MachineModel,
    e1: Seq<Effect>,
    n: nat,
) -> bool
    decreases n,
{
    if n == 0 {
        s0 == s1 && e0 == e1
    } else {
        exists|sm: MachineModel, em: Seq<Effect>|
            runs(tracing, s0, e0, sm, em, (n - 1) as nat) && step_rel(
                tracing,
                sm,
                em,
                s1,
                e1,
                Ok(StepResult::Continue),
            )
    }
}

/// Some number of `Continue` steps from `s0` and then one more step with result `r` lead
/// to `s1` with history `e1`.
pub open spec fn ends_with(
    tracing: bool,
    s0: MachineModel,
    e0: Seq<Effect>,
    s1: MachineModel,
    e1: Seq<Effect>,
    r: Result<StepResult, ErrorView>,
) -> bool {
    exists|n: nat, sm: MachineModel, em: Seq<Effect>|
        #[trigger] runs(tracing, s0, e0, sm, em, n) && step_rel(tracing, sm, em, s1, e1, r)
}

pub open spec fn result_view(r: Result<StepResult, StackError>) -> Result<StepResult, ErrorView> {
    match r {
        Ok(s) => Ok(s),
        Err(e) => Err(e@),
    }
}

/// The largest number of steps a single run takes.
pub const STEP_LIMIT: u64 = 0xffff_ffff_ffff_ffff;

/// The stack machine.
///
/// It owns its code, its operand stack, its return stack and its instruction pointer, and
/// reaches the outside world only through its side-effect port `E`.
pub struct Machine<E: SideEffect> {
    effect: E,
    pub code: Code,
    step: bool,
    instruction_ptr: usize,
    return_stack: Vec<usize>,
    stack: Vec<StackValue>,
    calls: Ghost<Seq<Effect>>,
}

impl<E: SideEffect> Machine<E> {
    pub closed spec fn model(&self) -> MachineModel {
        MachineModel {
            code: values_view(self.code@),
            ip: self.instruction_ptr,
            stack: values_view(self.stack@),
            returns: self.return_stack@,
        }
    }

    /// Whether each dispatch is traced and paused for input.
    pub closed spec fn tracing(&self) -> bool {
        self.step
    }

    /// The calls made so far through the side-effect port.
    pub closed spec fn events(&self) -> Seq<Effect> {
        self.calls@
    }

    /// The side-effect port itself.
    pub closed spec fn port(&self) -> E {
        self.effect
    }

    /// Writes `value` through the port.
    fn port_println(&mut self, value: StackValue)
        ensures
            final(self).model() == old(self).model(),
            final(self).tracing() == old(self).tracing(),
            final(self).events() == old(self).events().push(Effect::Println(value@)),
    {
        let ghost v = value@;
        self.effect.println(value);
        self.calls = Ghost(self.calls@.push(Effect::Println(v)));
    }

    /// Reads a line through the port.
    fn port_read_line(&mut self) -> (r: String)
        ensures
            final(self).model() == old(self).model(),
            final(self).tracing() == old(self).tracing(),
            final(self).events() == old(self).events().push(Effect::ReadLine(r@)),
    {
        let line = self.effect.read_line();
        self.calls = Ghost(self.calls@.push(Effect::ReadLine(line@)));
        line
    }

    /// Sleeps through the port.
    fn port_sleep(&mut self, ms: u64)
        ensures
            final(self).model() == old(self).model(),
            final(self).tracing() == old(self).tracing(),
            final(self).events() == old(self).events().push(Effect::Sleep(ms)),
    {
        self.effect.sleep_ms(ms);
        self.calls = Ghost(self.calls@.push(Effect::Sleep(ms)));
    }

    /// A machine for `code`, with its labels resolved, ready to run from the start with a
    /// fresh default side-effect port.
    ///
    /// Fails with the label resolution's error.
    pub fn new(code: Code) -> (r: Result<Self, StackError>)
        ensures
            match resolve(values_view(code@)) {
                Ok(c) => r is Ok && r->Ok_0.model() == start(c) && !r->Ok_0.tracing()
                    && r->Ok_0.events() == Seq::<Effect>::empty() && call_ensures(
                    E::default,
                    (),
                    r->Ok_0.port(),
                ),
                Err(e) => r is Err && r->Err_0@ == e,
            },
    {
        let code = match Self::preprocess(code) {
            Ok(c) => c,
            Err(e) => {
                return Err(e);
            },
        };
        let stack: Vec<StackValue> = Vec::new();
        let m = Machine {
            effect: E::default(),
            code,
            step: false,
            instruction_ptr: 0,
            return_stack: Vec::new(),
            stack,
            calls: Ghost(Seq::empty()),
        };
        assert(values_view(m.stack@) =~= Seq::empty());
        Ok(m)
    }

    /// A machine for the program text `source`.
    pub fn new_from_source(source: &str) -> (r: Result<Self, StackError>)
        ensures
            match resolve(crate::tokenizer::program_values(source@)) {
                Ok(c) => r is Ok && r->Ok_0.model() == start(c) && !r->Ok_0.tracing()
                    && r->Ok_0.events() == Seq::<Effect>::empty() && call_ensures(
                    E::default,
                    (),
                    r->Ok_0.port(),
                ),
                Err(e) => r is Err && r->Err_0@ == e,
            },
    {
        match tokenize(source) {
            Ok(code) => Self::new(code),
            Err(e) => Err(e),
        }
    }

    /// Turns on tracing: each dispatch first writes the pending operation, the instruction
    /// and both stacks, and waits for a line of input.
    pub fn enable_step(&mut self)
        ensures
            final(self).model() == old(self).model(),
            final(self).tracing(),
            final(self).events() == old(self).events(),
            final(self).port() == old(self).port(),
    {
        self.step = true;
    }

    /// Returns the machine to its start: same code, empty stacks, pointer 0.
    pub fn reset(&mut self)
        ensures
            final(self).model() == start(old(self).model().code),
            final(self).tracing() == old(self).tracing(),
            final(self).events() == old(self).events(),
            final(self).port() == old(self).port(),
    {
        self.instruction_ptr = 0;
        self.return_stack.clear();
        self.stack.clear();
        assert(values_view(self.stack@) =~= Seq::empty());
    }

    /// The side-effect port.
    pub fn effect(&self) -> (r: &E)
        ensures
            *r == self.port(),
    {
        &self.effect
    }

    /// The code the machine runs; the same as the field `code`.
    pub fn code(&self) -> (r: &Code)
        ensures
            values_view(r@) == self.model().code,
    {
        &self.code
    }

    /// A copy of the operand stack, bottom first.
    pub fn stack(&self) -> (r: Vec<StackValue>)
        ensures
            values_view(r@) == self.model().stack,
    {
        let mut r: Vec<StackValue> = Vec::new();
        let mut i: usize = 0;
        while i < self.stack.len()
            invariant
                i <= self.stack@.len(),
                values_view(r@) == values_view(self.stack@).subrange(0, i as int),
            decreases self.stack@.len() - i,
        {
            let ghost r0 = r@;
            let v = self.stack[i].duplicate();
            assert(v@ == values_view(self.stack@)[i as int]);
            r.push(v);
            assert(values_view(r@) =~= values_view(r0).push(v@));
            assert(values_view(self.stack@).subrange(0, i + 1) =~= values_view(self.stack@).subrange(
                0,
                i as int,
            ).push(values_view(self.stack@)[i as int]));
            i = i + 1;
        }
        assert(values_view(self.stack@).subrange(0, i as int) =~= values_view(self.stack@));
        r
    }

    /// Resolves the labels of `code`.
    ///
    /// A label defined more than once gives `MultipleLabelDefinitions` with its definitions;
    /// one referred to and never defined gives `UndefinedLabel` with the number of
    /// references. Otherwise each reference is replaced by the address just after its
    /// definition, and everything else is kept.
    pub fn preprocess(code: Code) -> (r: Result<Code, StackError>)
        ensures
            match resolve(values_view(code@)) {
                Ok(c) => r is Ok && values_view(r->Ok_0@) == c,
                Err(e) => r is Err && r->Err_0@ == e,
            },
    {
        let ghost c = values_view(code@);
        match check_labels(&code) {
            Ok(()) => {},
            Err(e) => {
                return Err(e);
            },
        }
        let mut out: Vec<StackValue> = Vec::new();
        let mut i: usize = 0;
        while i < code.len()
            invariant
                c == values_view(code@),
                crate::labels::first_faulty(c, 0) is None,
                i <= code@.len(),
                values_view(out@) == c.map_values(|v: ValueView| resolved_value(c, v)).subrange(
                    0,
                    i as int,
                ),
            decreases code@.len() - i,
        {
            let v = match &code[i] {
                StackValue::PossibleLabel(name) => {
                    let (defs, _) = label_uses(&code, name);
                    proof {
                        lemma_reference_defined(c, 0, i as int);
                    }
                    StackValue::Num(defs[0] as isize)
                },
                other => other.duplicate(),
            };
            assert(v@ == resolved_value(c, c[i as int]));
            let ghost out0 = out@;
            out.push(v);
            assert(values_view(out@) =~= values_view(out0).push(v@));
            assert(c.map_values(|v: ValueView| resolved_value(c, v)).subrange(0, i + 1)
                =~= c.map_values(|v: ValueView| resolved_value(c, v)).subrange(0, i as int).push(
                resolved_value(c, c[i as int]),
            ));
            i = i + 1;
        }
        assert(c.map_values(|v: ValueView| resolved_value(c, v)).subrange(0, i as int)
            =~= c.map_values(|v: ValueView| resolved_value(c, v)));
        Ok(out)
    }

    /// Moves the instruction pointer to `address`.
    fn jump(&mut self, address: usize)
        ensures
            final(self).model() == (MachineModel { ip: address, ..old(self).model() }),
            final(self).tracing() == old(self).tracing(),
            final(self).events() == old(self).events(),
            final(self).port() == old(self).port(),
    {
        self.instruction_ptr = address;
    }

    /// Writes the trace of a pending dispatch and waits for a line of input.
    fn trace(&mut self, op: &MachineOperation)
        ensures
            final(self).model() == old(self).model(),
            final(self).tracing() == old(self).tracing(),
            final(self).events() == old(self).events() + final(self).events().skip(
                old(self).events().len() as int,
            ),
            is_trace(final(self).events().skip(old(self).events().len() as int)),
    {
        let ghost e0 = self.calls@;
        let line = String::from_str("op:\t").concat(describe(op).as_str());
        let ghost t0 = line@;
        self.port_println(StackValue::String(line));
        let mut line = String::from_str("instruction:\t");
        if self.instruction_ptr >= 1 && self.instruction_ptr - 1 < self.code.len() {
            line = line.concat(self.code[self.instruction_ptr - 1].render().as_str());
        }
        let ghost t1 = line@;
        self.port_println(StackValue::String(line));
        let line = String::from_str("stack:\t").concat(render_values(&self.stack).as_str());
        let ghost t2 = line@;
        self.port_println(StackValue::String(line));
        let line = String::from_str("return_stack:\t").concat(
            render_addresses(&self.return_stack).as_str(),
        );
        let ghost t3 = line@;
        self.port_println(StackValue::String(line));
        self.port_println(StackValue::String(String::from_str("...")));
        let answer = self.port_read_line();
        let ghost p = seq![
            Effect::Println(ValueView::String(t0)),
            Effect::Println(ValueView::String(t1)),
            Effect::Println(ValueView::String(t2)),
            Effect::Println(ValueView::String(t3)),
            Effect::Println(ValueView::String("..."@)),
            Effect::ReadLine(answer@),
        ];
        assert(self.calls@ =~= e0 + p);
        assert(self.calls@.skip(e0.len() as int) =~= p);
    }

    /// Carries out `op`, as `dispatch_spec` describes.
    ///
    /// The line that a `ReadLn` pushes is the one the side-effect port returned.
    pub fn dispatch(&mut self, op: MachineOperation) -> (r: Result<StepResult, StackError>)
        ensures
            ({
                let (st, res) = dispatch_spec(
                    old(self).model(),
                    op@,
                    last_line(final(self).events()),
                );
                &&& final(self).model() == st
                &&& result_view(r) == res
                &&& final(self).tracing() == old(self).tracing()
                &&& dispatch_calls(old(self).tracing(), old(self).events(), final(self).events(), op@)
            }),
    {
        let ghost m0 = self.model();
        let ghost e0 = self.calls@;
        if self.step {
            self.trace(&op);
        }
        let ghost e1 = self.calls@;
        let ghost pause = e1.skip(e0.len() as int);
        assert(e1 =~= e0 + pause);
        assert(pause_fits(self.step, true, pause));
        let ghost m1 = self.model();
        match op {
            MachineOperation::Call(to) => {
                self.return_stack.push(self.instruction_ptr);
                self.jump(to);
            },
            MachineOperation::Jump(to) => {
                self.jump(to);
            },
            MachineOperation::Push(val) => {
                self.stack.push(val);
                assert(values_view(self.stack@) =~= m0.stack.push(op@->Push_0));
            },
            MachineOperation::PushTwo(v1, v2) => {
                self.stack.push(v1);
                self.stack.push(v2);
                assert(values_view(self.stack@) =~= m0.stack.push(v1@).push(v2@));
            },
            MachineOperation::PushThree(v1, v2, v3) => {
                self.stack.push(v1);
                self.stack.push(v2);
                self.stack.push(v3);
                assert(values_view(self.stack@) =~= m0.stack.push(v1@).push(v2@).push(v3@));
            },
            MachineOperation::Return => match self.return_stack.pop() {
                Some(to) => {
                    self.jump(to);
                },
                None => {
                    assert(e1 =~= e0 + pause + Seq::empty());
                    assert(dispatch_events(op@, last_line(self.calls@)) == Seq::<Effect>::empty());
                    assert(self.calls@ == e0 + pause + dispatch_events(op@, last_line(self.calls@))
                        && pause_fits(self.step, true, pause));
                    assert(dispatch_calls(self.step, e0, self.calls@, op@));
                    return Err(
                        StackError::EmptyStack {
                            arg_pattern: String::from_str("Return"),
                            expr: String::from_str("return"),
                        },
                    );
                },
            },
            MachineOperation::Sleep(ms) => {
                self.port_sleep(ms);
            },
            MachineOperation::Println(val) => {
                self.port_println(val);
            },
            MachineOperation::ReadLn => {
                let line = self.port_read_line();
                self.stack.push(StackValue::String(line));
                assert(values_view(self.stack@) =~= m0.stack.push(
                    ValueView::String(last_line(self.calls@)),
                ));
            },
            MachineOperation::NA => {},
            MachineOperation::Stop(code) => {
                assert(e1 =~= e0 + pause + Seq::empty());
                assert(dispatch_events(op@, last_line(self.calls@)) == Seq::<Effect>::empty());
                assert(self.calls@ == e0 + pause + dispatch_events(op@, last_line(self.calls@))
                    && pause_fits(self.step, true, pause));
                assert(dispatch_calls(self.step, e0, self.calls@, op@));
                return Ok(StepResult::Stop(code));
            },
        }
        assert(self.calls@ =~= e0 + pause + dispatch_events(
            op@,
            last_line(self.calls@),
        ));
        assert(self.calls@ == e0 + pause + dispatch_events(op@, last_line(self.calls@))
            && pause_fits(self.step, true, pause));
        assert(dispatch_calls(self.step, e0, self.calls@, op@));
        Ok(StepResult::Continue)
    }

    /// Appends `values` to the operand stack, in order.
    pub fn stack_push(&mut self, values: Vec<StackValue>)
        ensures
            final(self).model() == (MachineModel {
                stack: old(self).model().stack + values_view(values@),
                ..old(self).model()
            }),
            final(self).tracing() == old(self).tracing(),
            final(self).events() == old(self).events(),
            final(self).port() == old(self).port(),
    {
        let ghost added = values@;
        let mut values = values;
        self.stack.append(&mut values);
        assert(values_view(self.stack@) =~= values_view(old(self).stack@) + values_view(added));
    }

    /// Carries out one step, as `step_spec` describes.
    pub fn step(&mut self) -> (r: Result<StepResult, StackError>)
        ensures
            step_rel(
                old(self).tracing(),
                old(self).model(),
                old(self).events(),
                final(self).model(),
                final(self).events(),
                result_view(r),
            ),
            final(self).tracing() == old(self).tracing(),
    {
        let ghost m0 = self.model();
        let ghost e0 = self.calls@;
        if self.instruction_ptr == self.code.len() {
            assert(e0 =~= e0 + Seq::<Effect>::empty() + Seq::<Effect>::empty());
            assert(!dispatches(m0));
            assert(pause_fits(self.step, dispatches(m0), Seq::<Effect>::empty()));
            return Ok(StepResult::Stop(0));
        }
        if self.instruction_ptr > self.code.len() {
            assert(e0 =~= e0 + Seq::<Effect>::empty() + Seq::<Effect>::empty());
            assert(!dispatches(m0));
            assert(pause_fits(self.step, dispatches(m0), Seq::<Effect>::empty()));
            return Err(StackError::OutOfBounds);
        }
        let value = self.code[self.instruction_ptr].duplicate();
        self.instruction_ptr = self.instruction_ptr + 1;
        match value {
            StackValue::Label(_) => {
                assert(e0 =~= e0 + Seq::<Effect>::empty() + Seq::<Effect>::empty());
            assert(!dispatches(m0));
            assert(pause_fits(self.step, dispatches(m0), Seq::<Effect>::empty()));
                Ok(StepResult::Continue)
            },
            StackValue::Operation(op) => match op.apply(&mut self.stack) {
                Ok(m) => {
                    assert(dispatches(m0));
                    self.dispatch(m)
                },
                Err(e) => {
                    assert(e0 =~= e0 + Seq::<Effect>::empty() + Seq::<Effect>::empty());
            assert(!dispatches(m0));
            assert(pause_fits(self.step, dispatches(m0), Seq::<Effect>::empty()));
                    Err(e)
                },
            },
            other => {
                self.stack.push(other);
                assert(values_view(self.stack@) =~= m0.stack.push(value@));
                assert(e0 =~= e0 + Seq::<Effect>::empty() + Seq::<Effect>::empty());
            assert(!dispatches(m0));
            assert(pause_fits(self.step, dispatches(m0), Seq::<Effect>::empty()));
                Ok(StepResult::Continue)
            },
        }
    }

    /// Pushes `args` onto the operand stack and steps until the machine stops or fails.
    ///
    /// Returns the exit code of the step that stopped the machine, or the error of the step
    /// that failed. A run that takes `STEP_LIMIT` steps without either fails with `StepLimit`.
    pub fn run(&mut self, args: Vec<StackValue>) -> (r: Result<RunResult, StackError>)
        ensures
            ({
                let tr = old(self).tracing();
                let s0 = MachineModel {
                    stack: old(self).model().stack + values_view(args@),
                    ..old(self).model()
                };
                let e0 = old(self).events();
                match r {
                    Ok(res) => ends_with(
                        tr,
                        s0,
                        e0,
                        final(self).model(),
                        final(self).events(),
                        Ok(StepResult::Stop(res.exit_code)),
                    ),
                    Err(e) => (e@ == ErrorView::StepLimit && runs(
                        tr,
                        s0,
                        e0,
                        final(self).model(),
                        final(self).events(),
                        STEP_LIMIT as nat,
                    )) || ends_with(tr, s0, e0, final(self).model(), final(self).events(), Err(e@)),
                }
            }),
    {
        self.stack_push(args);
        let ghost tr = self.step;
        let ghost s0 = self.model();
        let ghost e0 = self.calls@;
        let mut left: u64 = STEP_LIMIT;
        let ghost mut n: nat = 0;
        assert(runs(tr, s0, e0, self.model(), self.calls@, 0));
        loop
            invariant
                tr == self.step,
                tr == old(self).tracing(),
                e0 == old(self).events(),
                s0 == (MachineModel {
                    stack: old(self).model().stack + values_view(args@),
                    ..old(self).model()
                }),
                runs(tr, s0, e0, self.model(), self.calls@, n),
                n == STEP_LIMIT - left,
            decreases left,
        {
            if left == 0 {
                return Err(StackError::StepLimit);
            }
            let ghost sm = self.model();
            let ghost em = self.calls@;
            let res = self.step();
            match res {
                Err(e) => {
                    assert(runs(tr, s0, e0, sm, em, n));
                    assert(step_rel(tr, sm, em, self.model(), self.calls@, Err(e@)));
                    assert(ends_with(tr, s0, e0, self.model(), self.calls@, Err(e@)));
                    return Err(e);
                },
                Ok(StepResult::Stop(exit_code)) => {
                    assert(runs(tr, s0, e0, sm, em, n));
                    assert(step_rel(
                        tr,
                        sm,
                        em,
                        self.model(),
                        self.calls@,
                        Ok(StepResult::Stop(exit_code)),
                    ));
                    assert(ends_with(
                        tr,
                        s0,
                        e0,
                        self.model(),
                        self.calls@,
                        Ok(StepResult::Stop(exit_code)),
                    ));
                    return Ok(RunResult { exit_code });
                },
                Ok(StepResult::Continue) => {
                    proof {
                        assert(step_rel(
                            tr,
                            sm,
                            em,
                            self.model(),
                            self.calls@,
                            Ok(StepResult::Continue),
                        ));
                        assert(runs(tr, s0, e0, self.model(), self.calls@, n + 1));
                        n = n + 1;
                    }
                },
            }
            left = left - 1;
        }
    }
}

/// Every reference of a code without faulty labels has a definition.
proof fn lemma_reference_defined(c: Seq<ValueView>, j: int, i: int)
    requires
        0 <= j <= i < c.len(),
        crate::labels::first_faulty(c, j) is None,
        c[i] is PossibleLabel,
    ensures
        crate::labels::all_definitions(c, c[i]->PossibleLabel_0).len() == 1,
    decreases i - j,
{
    if j < i {
        lemma_reference_defined(c, j + 1, i);
    } else {
        lemma_references_positive(c, c[i]->PossibleLabel_0, i, c.len() as int);
    }
}

proof fn lemma_references_positive(c: Seq<ValueView>, name: Seq<char>, i: int, k: int)
    requires
        0 <= i < k <= c.len(),
        c[i] == ValueView::PossibleLabel(name),
    ensures
        crate::labels::references(c, name, k) > 0,
    decreases k,
{
    if k - 1 > i {
        lemma_references_positive(c, name, i, k - 1);
    }
}

/// The text form of a machine operation, for traces.
fn describe(op: &MachineOperation) -> String {
    match op {
        MachineOperation::Call(to) => String::from_str("Call ").concat(
            render_int_usize(*to).as_str(),
        ),
        MachineOperation::Jump(to) => String::from_str("Jump ").concat(
            render_int_usize(*to).as_str(),
        ),
        MachineOperation::NA => String::from_str("NA"),
        MachineOperation::Push(v) => String::from_str("Push ").concat(v.render().as_str()),
        MachineOperation::PushTwo(v1, v2) => String::from_str("PushTwo ").concat(
            v1.render().as_str(),
        ).concat(" ").concat(v2.render().as_str()),
        MachineOperation::PushThree(v1, v2, v3) => String::from_str("PushThree ").concat(
            v1.render().as_str(),
        ).concat(" ").concat(v2.render().as_str()).concat(" ").concat(v3.render().as_str()),
        MachineOperation::Return => String::from_str("Return"),
        MachineOperation::Println(v) => String::from_str("Println ").concat(v.render().as_str()),
        MachineOperation::ReadLn => String::from_str("ReadLn"),
        MachineOperation::Sleep(ms) => String::from_str("Sleep ").concat(
            render_int_usize(*ms as usize).as_str(),
        ),
        MachineOperation::Stop(c) => String::from_str("Stop ").concat(
            render_int(*c as isize).as_str(),
        ),
    }
}

fn render_int_usize(n: usize) -> String {
    if n <= isize::MAX as usize {
        render_int(n as isize)
    } else {
        String::from_str("?")
    }
}

/// The text forms of `values`, bottom first, within brackets.
fn render_values(values: &Vec<StackValue>) -> String {
    let mut s = String::from_str("[");
    let mut i: usize = 0;
    while i < values.len()
        decreases values@.len() - i,
    {
        if i > 0 {
            s = s.concat(", ");
        }
        s = s.concat(values[i].render().as_str());
        i = i + 1;
    }
    s.concat("]")
}

/// The addresses `values`, bottom first, within brackets.
fn render_addresses(values: &Vec<usize>) -> String {
    let mut s = String::from_str("[");
    let mut i: usize = 0;
    while i < values.len()
        decreases values@.len() - i,
    {
        if i > 0 {
            s = s.concat(", ");
        }
        s = s.concat(render_int_usize(values[i]).as_str());
        i = i + 1;
    }
    s.concat("]")
}

} // verus!
