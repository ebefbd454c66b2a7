//! Non-blocking bidirectional SPI: the capability contract a peripheral
//! driver implements, together with the ghost model of the calls it
//! observes.

use vstd::prelude::*;

verus! {

/// Outcome of one non-blocking primitive operation: the operation completed
/// with a value, the hardware was not ready yet and the call must be
/// retried, or the peripheral reported a hard failure.
#[derive(Clone, Copy, PartialEq, Eq, Debug)]
pub enum NbResult<T, E> {
    Ready(T),
    WouldBlock,
    Error(E),
}

/// One call the peripheral observed, as recorded in the ghost call log,
/// with the outcome it reported: `Ok` with the value handed back, or `Err`
/// with the very error value the peripheral raised. A would-block answer
/// is not an observation: the caller simply retries.
#[derive(PartialEq, Eq, Debug)]
#[allow(inconsistent_fields)]
pub enum Event<W, E> {
    /// Direction setup for a send (`output`) or a read segment.
    TrxInit { output: bool, result: Result<(), E> },
    /// One read; `last` is the flag the caller passed.
    Read { last: bool, result: Result<W, E> },
    /// One word pushed onto the bus.
    Send { word: W, result: Result<(), E> },
    /// The explicit end of a send segment.
    SendFinish { result: Result<(), E> },
}

/// The calls a complete read of `words` issues after its direction setup:
/// one read per position, in order, with `last` set exactly on the call for
/// position `n - 1`.
pub open spec fn read_events<W, E>(words: Seq<W>, n: int) -> Seq<Event<W, E>> {
    Seq::new(words.len(), |i: int| (Event::Read { last: i == n - 1, result: Ok(words[i]) }))
}

/// The calls a complete write of `words` issues after its direction setup
/// and before its finish step: one send per word, in order.
pub open spec fn send_events<W, E>(words: Seq<W>) -> Seq<Event<W, E>> {
    Seq::new(words.len(), |i: int| (Event::Send { word: words[i], result: Ok(()) }))
}

/// The whole log of a successful buffer read: the log so far, one direction
/// setup for reading, then the reads in position order.
pub open spec fn read_ok_log<W, E>(pre: Seq<Event<W, E>>, words: Seq<W>) -> Seq<Event<W, E>> {
    pre.push((Event::TrxInit { output: false, result: Ok(()) })) + read_events(
        words,
        words.len() as int,
    )
}

/// The whole log of a successful write: the log so far, one direction setup
/// for sending, the sends in order, then exactly one finish step.
pub open spec fn write_ok_log<W, E>(pre: Seq<Event<W, E>>, words: Seq<W>) -> Seq<Event<W, E>> {
    pre.push((Event::TrxInit { output: true, result: Ok(()) })) + send_events(words) + seq![
        (Event::SendFinish { result: Ok(()) }),
    ]
}

/// A read over a buffer of length `n` hard-failed with `err` on the call
/// for position `j`: positions `0..j` hold the words the peripheral
/// returned for them, positions `j..n` are untouched, and no call after the
/// failing one was issued.
pub open spec fn read_failed_at<W, E>(
    pre_log: Seq<Event<W, E>>,
    post_log: Seq<Event<W, E>>,
    pre_words: Seq<W>,
    post_words: Seq<W>,
    j: int,
    err: E,
) -> bool {
    let n = pre_words.len() as int;
    &&& 0 <= j < n
    &&& post_words.len() == n
    &&& post_words.subrange(j, n) == pre_words.subrange(j, n)
    &&& post_log == pre_log.push((Event::TrxInit { output: false, result: Ok(()) }))
        + read_events(post_words.subrange(0, j), n) + seq![
        (Event::Read { last: j == n - 1, result: Err(err) }),
    ]
}

/// How a read that returns `Err(err)` left the peripheral and the buffer:
/// either the direction setup itself raised `err` and the buffer is
/// untouched, or some read call raised it and everything fetched before is
/// visible. Either way the failing call carries the very error value the
/// caller got back.
pub open spec fn read_aborted<W, E>(
    pre_log: Seq<Event<W, E>>,
    post_log: Seq<Event<W, E>>,
    pre_words: Seq<W>,
    post_words: Seq<W>,
    err: E,
) -> bool {
    ||| (post_words == pre_words && post_log == pre_log.push(
        (Event::TrxInit { output: false, result: Err(err) }),
    ))
    ||| (exists|j: int|
        #[trigger] read_failed_at(pre_log, post_log, pre_words, post_words, j, err))
}

/// A write hard-failed with `err` on the send for position `j`: the words
/// before it were sent in order, and no call after the failing one was
/// issued.
pub open spec fn write_failed_at<W, E>(
    pre_log: Seq<Event<W, E>>,
    post_log: Seq<Event<W, E>>,
    words: Seq<W>,
    j: int,
    err: E,
) -> bool {
    &&& 0 <= j < words.len()
    &&& post_log == pre_log.push((Event::TrxInit { output: true, result: Ok(()) }))
        + send_events(words.subrange(0, j)) + seq![
        (Event::Send { word: words[j], result: Err(err) }),
    ]
}

/// How a write that returns `Err(err)` left the peripheral: the direction
/// setup raised `err`, or some send raised it after the ones before went
/// through, or every send went through and the finish step raised it. The
/// failing call carries the very error value the caller got back.
pub open spec fn write_aborted<W, E>(
    pre_log: Seq<Event<W, E>>,
    post_log: Seq<Event<W, E>>,
    words: Seq<W>,
    err: E,
) -> bool {
    ||| post_log == pre_log.push((Event::TrxInit { output: true, result: Err(err) }))
    ||| (exists|j: int| #[trigger] write_failed_at(pre_log, post_log, words, j, err))
    ||| post_log == pre_log.push((Event::TrxInit { output: true, result: Ok(()) }))
        + send_events(words) + seq![(Event::SendFinish { result: Err(err) })]
}

/// Bi-Directional (master mode)
///
/// Managing the slave-select lines is the task of the user of this
/// interface. Each time communication switches between reading and sending,
/// the direction must be set up again with a call to `try_trx_init`.
///
/// The ghost `log` is the sequence of calls the peripheral has observed;
/// each method's contract says what one call appends to it, error values
/// included. The ghost `budget` bounds the would-block answers still to
/// come: every would-block answer strictly decreases it, which is how the
/// contract expresses that a retried primitive eventually settles, and what
/// lets the polling adapters prove their loops finish.
///
/// Some SPIs can work with 8-bit *and* 16-bit words; a driver can implement
/// this trait for several `Word` types to allow operation in each mode.
pub trait BiDirectional<Word>: Sized {
    /// An enumeration of SPI errors
    type Error;

    /// The calls this peripheral has observed so far.
    spec fn log(&self) -> Seq<Event<Word, Self::Error>>;

    /// Strictly decreases on every would-block answer.
    spec fn budget(&self) -> nat;

    /// Initialize a read or send action
    fn try_trx_init(&mut self, output: bool) -> (r: NbResult<(), Self::Error>)
        ensures
            r is WouldBlock ==> final(self).log() == old(self).log() && final(self).budget()
                < old(self).budget(),
            r is Ready ==> final(self).log() == old(self).log().push(
                (Event::TrxInit { output, result: Ok(()) }),
            ),
            r matches NbResult::Error(e) ==> final(self).log() == old(self).log().push(
                (Event::TrxInit { output, result: Err(e) }),
            ),
    ;

    /// Reads the word stored in the shift register; `last` must be true
    /// exactly on the final read of the segment.
    fn try_read(&mut self, last: bool) -> (r: NbResult<Word, Self::Error>)
        ensures
            r is WouldBlock ==> final(self).log() == old(self).log() && final(self).budget()
                < old(self).budget(),
            r matches NbResult::Ready(word) ==> final(self).log() == old(self).log().push(
                (Event::Read { last, result: Ok(word) }),
            ),
            r matches NbResult::Error(e) ==> final(self).log() == old(self).log().push(
                (Event::Read { last, result: Err(e) }),
            ),
    ;

    /// Sends a word to the slave
    fn try_send(&mut self, word: Word) -> (r: NbResult<(), Self::Error>)
        ensures
            r is WouldBlock ==> final(self).log() == old(self).log() && final(self).budget()
                < old(self).budget(),
            r is Ready ==> final(self).log() == old(self).log().push(
                (Event::Send { word, result: Ok(()) }),
            ),
            r matches NbResult::Error(e) ==> final(self).log() == old(self).log().push(
                (Event::Send { word, result: Err(e) }),
            ),
    ;

    /// Finish a read or send action
    fn try_send_finish(&mut self) -> (r: NbResult<(), Self::Error>)
        ensures
            r is WouldBlock ==> final(self).log() == old(self).log() && final(self).budget()
                < old(self).budget(),
            r is Ready ==> final(self).log() == old(self).log().push(
                (Event::SendFinish { result: Ok(()) }),
            ),
            r matches NbResult::Error(e) ==> final(self).log() == old(self).log().push(
                (Event::SendFinish { result: Err(e) }),
            ),
    ;
}

/// Polls `try_trx_init` until the peripheral settles: a would-block answer
/// is retried transparently, anything else is returned. The direction
/// setup, with the outcome handed back, is the log's last entry when this
/// returns.
pub fn block_trx_init<W, S: BiDirectional<W>>(p: &mut S, output: bool) -> (r: Result<
    (),
    S::Error,
>)
    ensures
        r is Ok ==> final(p).log() == old(p).log().push(
            (Event::TrxInit { output, result: Ok(()) }),
        ),
        r matches Err(e) ==> final(p).log() == old(p).log().push(
            (Event::TrxInit { output, result: Err(e) }),
        ),
{
    loop
        invariant_except_break
            p.log() == old(p).log(),
        ensures
            p.log() == old(p).log().push((Event::TrxInit { output, result: Ok(()) })),
        decreases p.budget(),
    {
        match p.try_trx_init(output) {
            NbResult::Ready(_) => {
                break;
            },
            NbResult::WouldBlock => {},
            NbResult::Error(e) => {
                return Err(e);
            },
        }
    }
    Ok(())
}

/// Polls `try_read` until the peripheral settles, handing back the word it
/// returned. The read, with the outcome handed back, is the log's last
/// entry when this returns.
pub fn block_read<W, S: BiDirectional<W>>(p: &mut S, last: bool) -> (r: Result<W, S::Error>)
    ensures
        r matches Ok(word) ==> final(p).log() == old(p).log().push(
            (Event::Read { last, result: Ok(word) }),
        ),
        r matches Err(e) ==> final(p).log() == old(p).log().push(
            (Event::Read { last, result: Err(e) }),
        ),
{
    loop
        invariant
            p.log() == old(p).log(),
        decreases p.budget(),
    {
        match p.try_read(last) {
            NbResult::Ready(word) => {
                return Ok(word);
            },
            NbResult::WouldBlock => {},
            NbResult::Error(e) => {
                return Err(e);
            },
        }
    }
}

/// Polls `try_send` until the peripheral settles. The send, with the
/// outcome handed back, is the log's last entry when this returns.
pub fn block_send<W: Copy, S: BiDirectional<W>>(p: &mut S, word: W) -> (r: Result<(), S::Error>)
    ensures
        r is Ok ==> final(p).log() == old(p).log().push((Event::Send { word, result: Ok(()) })),
        r matches Err(e) ==> final(p).log() == old(p).log().push(
            (Event::Send { word, result: Err(e) }),
        ),
{
    loop
        invariant_except_break
            p.log() == old(p).log(),
        ensures
            p.log() == old(p).log().push((Event::Send { word, result: Ok(()) })),
        decreases p.budget(),
    {
        match p.try_send(word) {
            NbResult::Ready(_) => {
                break;
            },
            NbResult::WouldBlock => {},
            NbResult::Error(e) => {
                return Err(e);
            },
        }
    }
    Ok(())
}

/// Polls `try_send_finish` until the peripheral settles. The finish step,
/// with the outcome handed back, is the log's last entry when this returns.
pub fn block_send_finish<W, S: BiDirectional<W>>(p: &mut S) -> (r: Result<(), S::Error>)
    ensures
        r is Ok ==> final(p).log() == old(p).log().push((Event::SendFinish { result: Ok(()) })),
        r matches Err(e) ==> final(p).log() == old(p).log().push(
            (Event::SendFinish { result: Err(e) }),
        ),
{
    loop
        invariant_except_break
            p.log() == old(p).log(),
        ensures
            p.log() == old(p).log().push((Event::SendFinish { result: Ok(()) })),
        decreases p.budget(),
    {
        match p.try_send_finish() {
            NbResult::Ready(_) => {
                break;
            },
            NbResult::WouldBlock => {},
            NbResult::Error(e) => {
                return Err(e);
            },
        }
    }
    Ok(())
}

/// Law: a successful read of `n` words issues one direction setup and then
/// exactly `n` reads in position order, with `last` true exactly on the
/// call for position `n - 1`.
pub proof fn lemma_read_log_shape<W, E>(pre: Seq<Event<W, E>>, words: Seq<W>)
    ensures
        read_ok_log(pre, words).len() == pre.len() + 1 + words.len(),
        read_ok_log(pre, words).subrange(0, pre.len() as int) == pre,
        read_ok_log(pre, words)[pre.len() as int] == (Event::<W, E>::TrxInit {
            output: false,
            result: Ok(()),
        }),
        forall|i: int|
            0 <= i < words.len() ==> read_ok_log(pre, words)[pre.len() + 1 + i] == (Event::<
                W,
                E,
            >::Read {
                last: i == words.len() - 1,
                result: Ok(words[i]),
            }),
{
    assert(read_ok_log(pre, words).subrange(0, pre.len() as int) =~= pre);
}

/// Law: a read of a single-word buffer flags its one and only read call as
/// the last.
pub proof fn lemma_single_read_is_last<W, E>(pre: Seq<Event<W, E>>, words: Seq<W>)
    requires
        words.len() == 1,
    ensures
        read_ok_log(pre, words) == pre + seq![
            (Event::TrxInit { output: false, result: Ok(()) }),
            (Event::Read { last: true, result: Ok(words[0]) }),
        ],
{
    assert(read_ok_log(pre, words) =~= pre + seq![
        (Event::TrxInit { output: false, result: Ok(()) }),
        (Event::Read { last: true, result: Ok(words[0]) }),
    ]);
}

/// Law: a read over an empty buffer issues the direction setup and nothing
/// else.
pub proof fn lemma_empty_read_log<W, E>(pre: Seq<Event<W, E>>, words: Seq<W>)
    requires
        words.len() == 0,
    ensures
        read_ok_log(pre, words) == pre.push((Event::TrxInit { output: false, result: Ok(()) })),
{
    assert(read_ok_log(pre, words) =~= pre.push(
        (Event::TrxInit { output: false, result: Ok(()) }),
    ));
}

/// Law: a successful write of `n` words, the empty sequence included,
/// issues one direction setup, then exactly `n` sends in order, then
/// exactly one finish step.
pub proof fn lemma_write_log_shape<W, E>(pre: Seq<Event<W, E>>, words: Seq<W>)
    ensures
        write_ok_log(pre, words).len() == pre.len() + 2 + words.len(),
        write_ok_log(pre, words).subrange(0, pre.len() as int) == pre,
        write_ok_log(pre, words)[pre.len() as int] == (Event::<W, E>::TrxInit {
            output: true,
            result: Ok(()),
        }),
        forall|i: int|
            0 <= i < words.len() ==> write_ok_log(pre, words)[pre.len() + 1 + i] == (Event::<
                W,
                E,
            >::Send {
                word: words[i],
                result: Ok(()),
            }),
        write_ok_log(pre, words).last() == (Event::<W, E>::SendFinish { result: Ok(()) }),
{
    assert(write_ok_log(pre, words).subrange(0, pre.len() as int) =~= pre);
}

/// Law: when a read over a buffer of length `n` hard-fails on the call for
/// position `j`, that call is the log's last entry — nothing was issued
/// after it — it carries the very error the caller got back, the setup and
/// the earlier reads stand before it in order, and positions `0..j` of the
/// buffer hold the words those reads returned.
pub proof fn lemma_read_failure_is_final<W, E>(
    pre_log: Seq<Event<W, E>>,
    post_log: Seq<Event<W, E>>,
    pre_words: Seq<W>,
    post_words: Seq<W>,
    j: int,
    err: E,
)
    requires
        read_failed_at(pre_log, post_log, pre_words, post_words, j, err),
    ensures
        post_log.len() == pre_log.len() + 2 + j,
        post_log.subrange(0, pre_log.len() as int) == pre_log,
        post_log[pre_log.len() as int] == (Event::<W, E>::TrxInit {
            output: false,
            result: Ok(()),
        }),
        forall|m: int|
            0 <= m < j ==> post_log[pre_log.len() + 1 + m] == (Event::<W, E>::Read {
                last: m == pre_words.len() - 1,
                result: Ok(post_words[m]),
            }),
        post_log.last() == (Event::<W, E>::Read {
            last: j == pre_words.len() - 1,
            result: Err(err),
        }),
{
    assert(post_log.subrange(0, pre_log.len() as int) =~= pre_log);
}

/// Law: when a write of `words` hard-fails on the send for position `j`,
/// that send is the log's last entry — nothing was issued after it, the
/// finish step included — it carries the very error the caller got back,
/// and the setup and the earlier sends stand before it in order.
pub proof fn lemma_write_failure_is_final<W, E>(
    pre_log: Seq<Event<W, E>>,
    post_log: Seq<Event<W, E>>,
    words: Seq<W>,
    j: int,
    err: E,
)
    requires
        write_failed_at(pre_log, post_log, words, j, err),
    ensures
        post_log.len() == pre_log.len() + 2 + j,
        post_log.subrange(0, pre_log.len() as int) == pre_log,
        post_log[pre_log.len() as int] == (Event::<W, E>::TrxInit {
            output: true,
            result: Ok(()),
        }),
        forall|m: int|
            0 <= m < j ==> post_log[pre_log.len() + 1 + m] == (Event::<W, E>::Send {
                word: words[m],
                result: Ok(()),
            }),
        post_log.last() == (Event::<W, E>::Send { word: words[j], result: Err(err) }),
{
    assert(post_log.subrange(0, pre_log.len() as int) =~= pre_log);
}

} // verus!
