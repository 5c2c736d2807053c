use vstd::prelude::*;

use crate::value::{StackValue, ValueView};

verus! {

/// One call that the machine made through its side-effect port.
pub enum Effect {
    Println(ValueView),
    ReadLine(Seq<char>),
    Sleep(u64),
}

/// The machine's port to the outside world: output, input and time.
///
/// The machine reaches the world only through this port, so a recording implementation
/// makes a run deterministic and observable.
pub trait SideEffect: Default {
    /// Writes the text form of `value` and a line break.
    fn println(&mut self, value: StackValue);

    /// Reads one line, without surrounding whitespace.
    fn read_line(&mut self) -> String;

    /// Blocks for `duration` milliseconds.
    fn sleep_ms(&mut self, duration: u64);
}

} // verus!
