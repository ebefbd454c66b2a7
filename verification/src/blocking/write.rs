//! Default blocking write implementations: any peripheral that satisfies
//! the non-blocking `BiDirectional` contract gains the blocking `Write` and
//! `WriteIter` APIs through the marker trait here.

use crate::spi_bidi::{
    block_send, block_send_finish, block_trx_init, send_events, write_failed_at, BiDirectional,
    Event,
};
use vstd::prelude::*;

verus! {

/// Default implementation of `blocking::spi_bidi::Write<W>` and
/// `blocking::spi_bidi::WriteIter<W>` for implementers of
/// `spi_bidi::BiDirectional<W>`.
pub trait Default<W>: BiDirectional<W> {}

impl<W: Copy, S: Default<W>> crate::blocking::spi_bidi::Write<W> for S {
    type Error = <S as BiDirectional<W>>::Error;

    open spec fn log(&self) -> Seq<Event<W, <S as BiDirectional<W>>::Error>> {
        BiDirectional::log(self)
    }

    fn try_write(&mut self, words: &Vec<W>) -> (r: Result<(), <S as BiDirectional<W>>::Error>) {
        if let Err(e) = block_trx_init(self, true) {
            return Err(e);
        }
        let n = words.len();
        let mut i: usize = 0;
        while i < n
            invariant
                i <= n,
                n == words@.len(),
                BiDirectional::log(self) == BiDirectional::log(old(self)).push(
                    (Event::TrxInit { output: true, result: Ok(()) }),
                ) + send_events(words@.subrange(0, i as int)),
            decreases n - i,
        {
            let ghost prefix = words@.subrange(0, i as int);
            match block_send(self, words[i]) {
                Ok(_) => {
                    proof {
                        assert(words@.subrange(0, (i + 1) as int) =~= prefix.push(
                            words@[i as int],
                        ));
                        assert(send_events::<W, <S as BiDirectional<W>>::Error>(
                            words@.subrange(0, (i + 1) as int),
                        ) =~= send_events(prefix).push(
                            (Event::Send { word: words@[i as int], result: Ok(()) }),
                        ));
                        assert(BiDirectional::log(self) =~= BiDirectional::log(old(self)).push(
                            (Event::TrxInit { output: true, result: Ok(()) }),
                        ) + send_events(words@.subrange(0, (i + 1) as int)));
                    }
                },
                Err(e) => {
                    proof {
                        assert(BiDirectional::log(self) =~= BiDirectional::log(old(self)).push(
                            (Event::TrxInit { output: true, result: Ok(()) }),
                        ) + send_events(words@.subrange(0, i as int)) + seq![
                            (Event::Send { word: words@[i as int], result: Err(e) }),
                        ]);
                        assert(write_failed_at(
                            BiDirectional::log(old(self)),
                            BiDirectional::log(self),
                            words@,
                            i as int,
                            e,
                        ));
                    }
                    return Err(e);
                },
            }
            i = i + 1;
        }
        proof {
            assert(words@.subrange(0, n as int) =~= words@);
        }
        match block_send_finish(self) {
            Ok(_) => {
                proof {
                    assert(BiDirectional::log(self) =~= BiDirectional::log(old(self)).push(
                        (Event::TrxInit { output: true, result: Ok(()) }),
                    ) + send_events(words@) + seq![(Event::SendFinish { result: Ok(()) })]);
                }
                Ok(())
            },
            Err(e) => {
                proof {
                    assert(BiDirectional::log(self) =~= BiDirectional::log(old(self)).push(
                        (Event::TrxInit { output: true, result: Ok(()) }),
                    ) + send_events(words@) + seq![(Event::SendFinish { result: Err(e) })]);
                }
                Err(e)
            },
        }
    }
}

impl<W: Copy, S: Default<W>> crate::blocking::spi_bidi::WriteIter<W> for S {
    type Error = <S as BiDirectional<W>>::Error;

    open spec fn log(&self) -> Seq<Event<W, <S as BiDirectional<W>>::Error>> {
        BiDirectional::log(self)
    }

    fn try_write_iter(&mut self, words: Vec<W>) -> (r: Result<
        (),
        <S as BiDirectional<W>>::Error,
    >) {
        if let Err(e) = block_trx_init(self, true) {
            return Err(e);
        }
        let n = words.len();
        let mut i: usize = 0;
        while i < n
            invariant
                i <= n,
                n == words@.len(),
                BiDirectional::log(self) == BiDirectional::log(old(self)).push(
                    (Event::TrxInit { output: true, result: Ok(()) }),
                ) + send_events(words@.subrange(0, i as int)),
            decreases n - i,
        {
            let ghost prefix = words@.subrange(0, i as int);
            match block_send(self, words[i]) {
                Ok(_) => {
                    proof {
                        assert(words@.subrange(0, (i + 1) as int) =~= prefix.push(
                            words@[i as int],
                        ));
                        assert(send_events::<W, <S as BiDirectional<W>>::Error>(
                            words@.subrange(0, (i + 1) as int),
                        ) =~= send_events(prefix).push(
                            (Event::Send { word: words@[i as int], result: Ok(()) }),
                        ));
                        assert(BiDirectional::log(self) =~= BiDirectional::log(old(self)).push(
                            (Event::TrxInit { output: true, result: Ok(()) }),
                        ) + send_events(words@.subrange(0, (i + 1) as int)));
                    }
                },
                Err(e) => {
                    proof {
                        assert(BiDirectional::log(self) =~= BiDirectional::log(old(self)).push(
                            (Event::TrxInit { output: true, result: Ok(()) }),
                        ) + send_events(words@.subrange(0, i as int)) + seq![
                            (Event::Send { word: words@[i as int], result: Err(e) }),
                        ]);
                        assert(write_failed_at(
                            BiDirectional::log(old(self)),
                            BiDirectional::log(self),
                            words@,
                            i as int,
                            e,
                        ));
                    }
                    return Err(e);
                },
            }
            i = i + 1;
        }
        proof {
            assert(words@.subrange(0, n as int) =~= words@);
        }
        match block_send_finish(self) {
            Ok(_) => {
                proof {
                    assert(BiDirectional::log(self) =~= BiDirectional::log(old(self)).push(
                        (Event::TrxInit { output: true, result: Ok(()) }),
                    ) + send_events(words@) + seq![(Event::SendFinish { result: Ok(()) })]);
                }
                Ok(())
            },
            Err(e) => {
                proof {
                    assert(BiDirectional::log(self) =~= BiDirectional::log(old(self)).push(
                        (Event::TrxInit { output: true, result: Ok(()) }),
                    ) + send_events(words@) + seq![(Event::SendFinish { result: Err(e) })]);
                }
                Err(e)
            },
        }
    }
}

} // verus!
