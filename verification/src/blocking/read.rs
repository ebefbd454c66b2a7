//! Default blocking read implementations: any peripheral that satisfies the
//! non-blocking `BiDirectional` contract gains the blocking `Read` and
//! `ReadIter` APIs through the marker trait here.

use crate::spi_bidi::{
    block_read, block_trx_init, read_events, read_failed_at, BiDirectional, Event,
};
use vstd::prelude::*;

verus! {

/// Default implementation of `blocking::spi_bidi::Read<W>` and
/// `blocking::spi_bidi::ReadIter<W>` for implementers of
/// `spi_bidi::BiDirectional<W>`.
pub trait Default<W>: BiDirectional<W> {}

/// In the one-slot lookahead walk, how many positions are still to fill
/// when `pending` is the next position to read into.
spec fn slots_left(pending: Option<usize>, n: int) -> int {
    match pending {
        Some(k) => n - k,
        None => 0,
    }
}

impl<W, S: Default<W>> crate::blocking::spi_bidi::Read<W> for S {
    type Error = <S as BiDirectional<W>>::Error;

    open spec fn log(&self) -> Seq<Event<W, <S as BiDirectional<W>>::Error>> {
        BiDirectional::log(self)
    }

    fn try_read(&mut self, words: &mut Vec<W>) -> (r: Result<
        (),
        <S as BiDirectional<W>>::Error,
    >) {
        if let Err(e) = block_trx_init(self, false) {
            return Err(e);
        }
        let n = words.len();
        let mut i: usize = 0;
        while i < n
            invariant
                i <= n,
                n == old(words)@.len(),
                words.len() == n,
                forall|m: int| i <= m < n ==> words@[m] == old(words)@[m],
                BiDirectional::log(self) == BiDirectional::log(old(self)).push(
                    (Event::TrxInit { output: false, result: Ok(()) }),
                ) + read_events(words@.subrange(0, i as int), n as int),
            decreases n - i,
        {
            let ghost prefix = words@.subrange(0, i as int);
            match block_read(self, i + 1 == n) {
                Ok(w) => {
                    words.set(i, w);
                    proof {
                        let wv = words@[i as int];
                        assert(words@.subrange(0, (i + 1) as int) =~= prefix.push(wv));
                        assert(read_events::<W, <S as BiDirectional<W>>::Error>(
                            words@.subrange(0, (i + 1) as int),
                            n as int,
                        ) =~= read_events(prefix, n as int).push(
                            (Event::Read { last: i as int == n - 1, result: Ok(wv) }),
                        ));
                        assert(BiDirectional::log(self) =~= BiDirectional::log(old(self)).push(
                            (Event::TrxInit { output: false, result: Ok(()) }),
                        ) + read_events(words@.subrange(0, (i + 1) as int), n as int));
                    }
                },
                Err(e) => {
                    proof {
                        assert(words@.subrange(i as int, n as int) =~= old(words)@.subrange(
                            i as int,
                            n as int,
                        ));
                        assert(BiDirectional::log(self) =~= BiDirectional::log(old(self)).push(
                            (Event::TrxInit { output: false, result: Ok(()) }),
                        ) + read_events(words@.subrange(0, i as int), n as int) + seq![
                            (Event::Read { last: i as int == n - 1, result: Err(e) }),
                        ]);
                        assert(read_failed_at(
                            BiDirectional::log(old(self)),
                            BiDirectional::log(self),
                            old(words)@,
                            words@,
                            i as int,
                            e,
                        ));
                    }
                    return Err(e);
                },
            }
            i = i + 1;
        }
        proof {
            assert(words@.subrange(0, n as int) =~= words@);
        }
        Ok(())
    }
}

impl<W, S: Default<W>> crate::blocking::spi_bidi::ReadIter<W> for S {
    type Error = <S as BiDirectional<W>>::Error;

    open spec fn log(&self) -> Seq<Event<W, <S as BiDirectional<W>>::Error>> {
        BiDirectional::log(self)
    }

    fn try_read_iter(&mut self, words: &mut Vec<W>) -> (r: Result<
        (),
        <S as BiDirectional<W>>::Error,
    >) {
        if let Err(e) = block_trx_init(self, false) {
            return Err(e);
        }
        let n = words.len();
        // One-slot lookahead: `pending` is the position about to be read
        // into, and is pulled ahead of each read, so the final read is
        // flagged the moment the pull finds nothing further — without the
        // walk comparing positions against the length up front.
        let mut pending: Option<usize> = if n > 0 {
            Some(0)
        } else {
            None
        };
        proof {
            assert(words@.subrange(0, 0) =~= Seq::<W>::empty());
            assert(BiDirectional::log(self) + read_events(words@.subrange(0, 0), n as int)
                =~= BiDirectional::log(self));
            if n == 0 {
                assert(BiDirectional::log(self) + read_events(words@, n as int)
                    =~= BiDirectional::log(self));
            }
        }
        while pending.is_some()
            invariant
                n == old(words)@.len(),
                words.len() == n,
                pending matches Some(k) ==> k < n && (forall|m: int|
                    k <= m < n ==> words@[m] == old(words)@[m]) && BiDirectional::log(self)
                    == BiDirectional::log(old(self)).push(
                    (Event::TrxInit { output: false, result: Ok(()) }),
                ) + read_events(words@.subrange(0, k as int), n as int),
                pending is None ==> BiDirectional::log(self) == BiDirectional::log(old(self)).push(
                    (Event::TrxInit { output: false, result: Ok(()) }),
                ) + read_events(words@, n as int),
            decreases slots_left(pending, n as int),
        {
            let w = pending.unwrap();
            pending = if w + 1 < n {
                Some(w + 1)
            } else {
                None
            };
            let ghost prefix = words@.subrange(0, w as int);
            match block_read(self, pending.is_none()) {
                Ok(word) => {
                    words.set(w, word);
                    proof {
                        let wv = words@[w as int];
                        assert(words@.subrange(0, (w + 1) as int) =~= prefix.push(wv));
                        assert(read_events::<W, <S as BiDirectional<W>>::Error>(
                            words@.subrange(0, (w + 1) as int),
                            n as int,
                        ) =~= read_events(prefix, n as int).push(
                            (Event::Read { last: w as int == n - 1, result: Ok(wv) }),
                        ));
                        assert(BiDirectional::log(self) =~= BiDirectional::log(old(self)).push(
                            (Event::TrxInit { output: false, result: Ok(()) }),
                        ) + read_events(words@.subrange(0, (w + 1) as int), n as int));
                        if w + 1 == n {
                            assert(words@.subrange(0, (w + 1) as int) =~= words@);
                        }
                    }
                },
                Err(e) => {
                    proof {
                        assert(words@.subrange(w as int, n as int) =~= old(words)@.subrange(
                            w as int,
                            n as int,
                        ));
                        assert(BiDirectional::log(self) =~= BiDirectional::log(old(self)).push(
                            (Event::TrxInit { output: false, result: Ok(()) }),
                        ) + read_events(words@.subrange(0, w as int), n as int) + seq![
                            (Event::Read { last: w as int == n - 1, result: Err(e) }),
                        ]);
                        assert(read_failed_at(
                            BiDirectional::log(old(self)),
                            BiDirectional::log(self),
                            old(words)@,
                            words@,
                            w as int,
                            e,
                        ));
                    }
                    return Err(e);
                },
            }
        }
        Ok(())
    }
}

} // verus!
