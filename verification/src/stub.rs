//! A scripted peripheral: a verified `BiDirectional` implementation whose
//! answers come from a fixed script and which records every call that
//! settles, so a caller can observe exactly what the blocking adapters
//! issued. Each method's contract pins the outcome the script dictates for
//! it, step by step.

use crate::spi_bidi::{BiDirectional, Event, NbResult};
use vstd::prelude::*;

verus! {

/// Error code a scripted peripheral reports once its script is used up.
pub const ERR_SCRIPT_END: u64 = 1;

/// Error code a scripted peripheral reports when a read lands on a step
/// that carries no word.
pub const ERR_NO_WORD: u64 = 2;

/// One scripted outcome; each primitive call consumes the next one.
#[derive(Clone, Copy, PartialEq, Eq, Debug)]
pub enum Step<W> {
    /// The call settles; a read hands back this word.
    Give(W),
    /// The call settles; reads fail on it with `ERR_NO_WORD`, since it
    /// carries no word to hand back.
    Accept,
    /// The hardware is not ready yet: the call answers would-block once.
    Block,
    /// The call hard-fails with this error code.
    Fail(u64),
}

/// A peripheral that answers from a script. `pos` is the number of steps
/// consumed; `calls` records every call that settled, in order, would-block
/// answers excluded. A call past the end of the script hard-fails with
/// `ERR_SCRIPT_END` and consumes nothing.
pub struct ScriptedPeripheral<W> {
    /// Outcomes for successive primitive calls, consumed front to back.
    pub steps: Vec<Step<W>>,
    /// How many steps have been consumed.
    pub pos: usize,
    /// The calls observed so far.
    pub calls: Vec<Event<W, u64>>,
}

impl<W: Copy> ScriptedPeripheral<W> {
    /// A peripheral at the start of `steps`, with nothing observed yet.
    pub fn new(steps: Vec<Step<W>>) -> (p: ScriptedPeripheral<W>)
        ensures
            p.steps@ == steps@,
            p.pos == 0,
            p.calls@ == Seq::<Event<W, u64>>::empty(),
    {
        ScriptedPeripheral { steps, pos: 0, calls: Vec::new() }
    }
}

impl<W: Copy> BiDirectional<W> for ScriptedPeripheral<W> {
    type Error = u64;

    open spec fn log(&self) -> Seq<Event<W, u64>> {
        self.calls@
    }

    open spec fn budget(&self) -> nat {
        if self.pos < self.steps@.len() {
            (self.steps@.len() - self.pos) as nat
        } else {
            0
        }
    }

    fn try_trx_init(&mut self, output: bool) -> (r: NbResult<(), u64>)
        ensures
            final(self).steps@ == old(self).steps@,
            old(self).pos < old(self).steps@.len() ==> final(self).pos == old(self).pos + 1
                && match old(self).steps@[old(self).pos as int] {
                Step::Block => r is WouldBlock && final(self).calls@ == old(self).calls@,
                Step::Fail(code) => r == NbResult::<(), u64>::Error(code) && final(self).calls@
                    == old(self).calls@.push((Event::TrxInit { output, result: Err(code) })),
                _ => r == NbResult::<(), u64>::Ready(()) && final(self).calls@ == old(
                    self,
                ).calls@.push((Event::TrxInit { output, result: Ok(()) })),
            },
            old(self).pos >= old(self).steps@.len() ==> final(self).pos == old(self).pos && r
                == NbResult::<(), u64>::Error(ERR_SCRIPT_END) && final(self).calls@ == old(
                self,
            ).calls@.push((Event::TrxInit { output, result: Err(ERR_SCRIPT_END) })),
    {
        if self.pos < self.steps.len() {
            let step = self.steps[self.pos];
            self.pos = self.pos + 1;
            match step {
                Step::Block => NbResult::WouldBlock,
                Step::Fail(code) => {
                    self.calls.push(Event::TrxInit { output, result: Err(code) });
                    NbResult::Error(code)
                },
                _ => {
                    self.calls.push(Event::TrxInit { output, result: Ok(()) });
                    NbResult::Ready(())
                },
            }
        } else {
            self.calls.push(Event::TrxInit { output, result: Err(ERR_SCRIPT_END) });
            NbResult::Error(ERR_SCRIPT_END)
        }
    }

    fn try_read(&mut self, last: bool) -> (r: NbResult<W, u64>)
        ensures
            final(self).steps@ == old(self).steps@,
            old(self).pos < old(self).steps@.len() ==> final(self).pos == old(self).pos + 1
                && match old(self).steps@[old(self).pos as int] {
                Step::Block => r is WouldBlock && final(self).calls@ == old(self).calls@,
                Step::Give(w) => r == NbResult::<W, u64>::Ready(w) && final(self).calls@ == old(
                    self,
                ).calls@.push((Event::Read { last, result: Ok(w) })),
                Step::Accept => r == NbResult::<W, u64>::Error(ERR_NO_WORD) && final(self).calls@
                    == old(self).calls@.push((Event::Read { last, result: Err(ERR_NO_WORD) })),
                Step::Fail(code) => r == NbResult::<W, u64>::Error(code) && final(self).calls@
                    == old(self).calls@.push((Event::Read { last, result: Err(code) })),
            },
            old(self).pos >= old(self).steps@.len() ==> final(self).pos == old(self).pos && r
                == NbResult::<W, u64>::Error(ERR_SCRIPT_END) && final(self).calls@ == old(
                self,
            ).calls@.push((Event::Read { last, result: Err(ERR_SCRIPT_END) })),
    {
        if self.pos < self.steps.len() {
            let step = self.steps[self.pos];
            self.pos = self.pos + 1;
            match step {
                Step::Block => NbResult::WouldBlock,
                Step::Fail(code) => {
                    self.calls.push(Event::Read { last, result: Err(code) });
                    NbResult::Error(code)
                },
                Step::Give(w) => {
                    self.calls.push(Event::Read { last, result: Ok(w) });
                    NbResult::Ready(w)
                },
                Step::Accept => {
                    self.calls.push(Event::Read { last, result: Err(ERR_NO_WORD) });
                    NbResult::Error(ERR_NO_WORD)
                },
            }
        } else {
            self.calls.push(Event::Read { last, result: Err(ERR_SCRIPT_END) });
            NbResult::Error(ERR_SCRIPT_END)
        }
    }

    fn try_send(&mut self, word: W) -> (r: NbResult<(), u64>)
        ensures
            final(self).steps@ == old(self).steps@,
            old(self).pos < old(self).steps@.len() ==> final(self).pos == old(self).pos + 1
                && match old(self).steps@[old(self).pos as int] {
                Step::Block => r is WouldBlock && final(self).calls@ == old(self).calls@,
                Step::Fail(code) => r == NbResult::<(), u64>::Error(code) && final(self).calls@
                    == old(self).calls@.push((Event::Send { word, result: Err(code) })),
                _ => r == NbResult::<(), u64>::Ready(()) && final(self).calls@ == old(
                    self,
                ).calls@.push((Event::Send { word, result: Ok(()) })),
            },
            old(self).pos >= old(self).steps@.len() ==> final(self).pos == old(self).pos && r
                == NbResult::<(), u64>::Error(ERR_SCRIPT_END) && final(self).calls@ == old(
                self,
            ).calls@.push((Event::Send { word, result: Err(ERR_SCRIPT_END) })),
    {
        if self.pos < self.steps.len() {
            let step = self.steps[self.pos];
            self.pos = self.pos + 1;
            match step {
                Step::Block => NbResult::WouldBlock,
                Step::Fail(code) => {
                    self.calls.push(Event::Send { word, result: Err(code) });
                    NbResult::Error(code)
                },
                _ => {
                    self.calls.push(Event::Send { word, result: Ok(()) });
                    NbResult::Ready(())
                },
            }
        } else {
            self.calls.push(Event::Send { word, result: Err(ERR_SCRIPT_END) });
            NbResult::Error(ERR_SCRIPT_END)
        }
    }

    fn try_send_finish(&mut self) -> (r: NbResult<(), u64>)
        ensures
            final(self).steps@ == old(self).steps@,
            old(self).pos < old(self).steps@.len() ==> final(self).pos == old(self).pos + 1
                && match old(self).steps@[old(self).pos as int] {
                Step::Block => r is WouldBlock && final(self).calls@ == old(self).calls@,
                Step::Fail(code) => r == NbResult::<(), u64>::Error(code) && final(self).calls@
                    == old(self).calls@.push((Event::SendFinish { result: Err(code) })),
                _ => r == NbResult::<(), u64>::Ready(()) && final(self).calls@ == old(
                    self,
                ).calls@.push((Event::SendFinish { result: Ok(()) })),
            },
            old(self).pos >= old(self).steps@.len() ==> final(self).pos == old(self).pos && r
                == NbResult::<(), u64>::Error(ERR_SCRIPT_END) && final(self).calls@ == old(
                self,
            ).calls@.push((Event::SendFinish { result: Err(ERR_SCRIPT_END) })),
    {
        if self.pos < self.steps.len() {
            let step = self.steps[self.pos];
            self.pos = self.pos + 1;
            match step {
                Step::Block => NbResult::WouldBlock,
                Step::Fail(code) => {
                    self.calls.push(Event::SendFinish { result: Err(code) });
                    NbResult::Error(code)
                },
                _ => {
                    self.calls.push(Event::SendFinish { result: Ok(()) });
                    NbResult::Ready(())
                },
            }
        } else {
            self.calls.push(Event::SendFinish { result: Err(ERR_SCRIPT_END) });
            NbResult::Error(ERR_SCRIPT_END)
        }
    }
}

impl<W: Copy> crate::blocking::read::Default<W> for ScriptedPeripheral<W> {}

impl<W: Copy> crate::blocking::write::Default<W> for ScriptedPeripheral<W> {}

} // verus!
