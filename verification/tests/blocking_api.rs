//! The blocking adapters exercised against a scripted peripheral: call
//! order, last-word flags, would-block retries and error propagation.

use spi_bidi::blocking::spi_bidi::{Read, ReadIter, Write, WriteIter};
use spi_bidi::spi_bidi::{block_read, block_send, block_send_finish, block_trx_init, Event};
use spi_bidi::stub::{ScriptedPeripheral, Step, ERR_NO_WORD, ERR_SCRIPT_END};

#[test]
fn read_three_words_in_order() {
    let mut p = ScriptedPeripheral::new(vec![
        Step::Accept,
        Step::Give(0x11u8),
        Step::Give(0x22),
        Step::Give(0x33),
    ]);
    let mut buf: Vec<u8> = vec![0, 0, 0];
    assert_eq!(p.try_read(&mut buf), Ok(()));
    assert_eq!(buf, vec![0x11, 0x22, 0x33]);
    assert_eq!(
        p.calls,
        vec![
            Event::TrxInit { output: false, result: Ok(()) },
            Event::Read { last: false, result: Ok(0x11) },
            Event::Read { last: false, result: Ok(0x22) },
            Event::Read { last: true, result: Ok(0x33) },
        ]
    );
}

#[test]
fn read_single_word_flags_last() {
    let mut p = ScriptedPeripheral::new(vec![Step::Accept, Step::Give(0x5au8)]);
    let mut buf: Vec<u8> = vec![0];
    assert_eq!(p.try_read(&mut buf), Ok(()));
    assert_eq!(buf, vec![0x5a]);
    assert_eq!(
        p.calls,
        vec![
            Event::TrxInit { output: false, result: Ok(()) },
            Event::Read { last: true, result: Ok(0x5a) },
        ]
    );
}

#[test]
fn read_empty_buffer_issues_init_only() {
    let mut p = ScriptedPeripheral::new(vec![Step::Accept]);
    let mut buf: Vec<u8> = vec![];
    assert_eq!(p.try_read(&mut buf), Ok(()));
    assert!(buf.is_empty());
    assert_eq!(p.calls, vec![Event::TrxInit { output: false, result: Ok(()) }]);
}

#[test]
fn read_retries_would_block_transparently() {
    let mut p = ScriptedPeripheral::new(vec![
        Step::Block,
        Step::Block,
        Step::Accept,
        Step::Block,
        Step::Give(0x7fu8),
    ]);
    let mut buf: Vec<u8> = vec![0];
    assert_eq!(p.try_read(&mut buf), Ok(()));
    assert_eq!(buf, vec![0x7f]);
    // the would-block answers leave no trace in what the stub observed
    assert_eq!(
        p.calls,
        vec![
            Event::TrxInit { output: false, result: Ok(()) },
            Event::Read { last: true, result: Ok(0x7f) },
        ]
    );
}

#[test]
fn read_error_keeps_partial_buffer() {
    let mut p = ScriptedPeripheral::new(vec![
        Step::Accept,
        Step::Give(1u8),
        Step::Give(2),
        Step::Fail(7),
    ]);
    let mut buf: Vec<u8> = vec![9, 9, 9, 9];
    assert_eq!(p.try_read(&mut buf), Err(7));
    // positions fetched before the failure keep their words, the rest are untouched
    assert_eq!(buf, vec![1, 2, 9, 9]);
    // the failing call is the last one observed; nothing was issued after it
    assert_eq!(
        p.calls,
        vec![
            Event::TrxInit { output: false, result: Ok(()) },
            Event::Read { last: false, result: Ok(1) },
            Event::Read { last: false, result: Ok(2) },
            Event::Read { last: false, result: Err(7) },
        ]
    );
}

#[test]
fn read_init_error_propagates_before_any_read() {
    let mut p = ScriptedPeripheral::new(vec![Step::Fail(3)]);
    let mut buf: Vec<u8> = vec![9, 9];
    assert_eq!(p.try_read(&mut buf), Err(3));
    assert_eq!(buf, vec![9, 9]);
    assert_eq!(p.calls, vec![Event::TrxInit { output: false, result: Err(3) }]);
}

#[test]
fn read_past_script_end_fails() {
    let mut p = ScriptedPeripheral::new(vec![Step::Accept]);
    let mut buf: Vec<u8> = vec![0];
    assert_eq!(p.try_read(&mut buf), Err(ERR_SCRIPT_END));
    assert_eq!(
        p.calls,
        vec![
            Event::TrxInit { output: false, result: Ok(()) },
            Event::Read { last: true, result: Err(ERR_SCRIPT_END) },
        ]
    );
}

#[test]
fn read_on_wordless_step_fails() {
    let mut p = ScriptedPeripheral::new(vec![Step::Accept, Step::Accept]);
    let mut buf: Vec<u8> = vec![0];
    assert_eq!(p.try_read(&mut buf), Err(ERR_NO_WORD));
    assert_eq!(
        p.calls,
        vec![
            Event::TrxInit { output: false, result: Ok(()) },
            Event::Read { last: true, result: Err(ERR_NO_WORD) },
        ]
    );
}

#[test]
fn read_iter_empty_issues_init_and_no_reads() {
    let mut p = ScriptedPeripheral::new(vec![Step::Accept]);
    let mut buf: Vec<u8> = vec![];
    assert_eq!(p.try_read_iter(&mut buf), Ok(()));
    assert_eq!(p.calls, vec![Event::TrxInit { output: false, result: Ok(()) }]);
}

#[test]
fn read_iter_single_word_flags_last() {
    let mut p = ScriptedPeripheral::new(vec![Step::Accept, Step::Give(0xabu8)]);
    let mut buf: Vec<u8> = vec![0];
    assert_eq!(p.try_read_iter(&mut buf), Ok(()));
    assert_eq!(buf, vec![0xab]);
    assert_eq!(
        p.calls,
        vec![
            Event::TrxInit { output: false, result: Ok(()) },
            Event::Read { last: true, result: Ok(0xab) },
        ]
    );
}

#[test]
fn read_iter_three_words_in_order() {
    let mut p = ScriptedPeripheral::new(vec![
        Step::Accept,
        Step::Give(4u8),
        Step::Block,
        Step::Give(5),
        Step::Give(6),
    ]);
    let mut buf: Vec<u8> = vec![0, 0, 0];
    assert_eq!(p.try_read_iter(&mut buf), Ok(()));
    assert_eq!(buf, vec![4, 5, 6]);
    assert_eq!(
        p.calls,
        vec![
            Event::TrxInit { output: false, result: Ok(()) },
            Event::Read { last: false, result: Ok(4) },
            Event::Read { last: false, result: Ok(5) },
            Event::Read { last: true, result: Ok(6) },
        ]
    );
}

#[test]
fn read_iter_error_keeps_partial_buffer() {
    let mut p = ScriptedPeripheral::new(vec![Step::Accept, Step::Give(8u8), Step::Fail(11)]);
    let mut buf: Vec<u8> = vec![0, 0, 0];
    assert_eq!(p.try_read_iter(&mut buf), Err(11));
    assert_eq!(buf, vec![8, 0, 0]);
    assert_eq!(
        p.calls,
        vec![
            Event::TrxInit { output: false, result: Ok(()) },
            Event::Read { last: false, result: Ok(8) },
            Event::Read { last: false, result: Err(11) },
        ]
    );
}

#[test]
fn write_sends_in_order_then_finishes() {
    let mut p = ScriptedPeripheral::new(vec![
        Step::Accept,
        Step::Accept,
        Step::Accept,
        Step::Accept,
        Step::Accept,
    ]);
    let words: Vec<u8> = vec![0xa0, 0xa1, 0xa2];
    assert_eq!(p.try_write(&words), Ok(()));
    assert_eq!(
        p.calls,
        vec![
            Event::TrxInit { output: true, result: Ok(()) },
            Event::Send { word: 0xa0, result: Ok(()) },
            Event::Send { word: 0xa1, result: Ok(()) },
            Event::Send { word: 0xa2, result: Ok(()) },
            Event::SendFinish { result: Ok(()) },
        ]
    );
}

#[test]
fn write_empty_still_finishes() {
    let mut p = ScriptedPeripheral::new(vec![Step::Accept, Step::Accept]);
    let words: Vec<u8> = vec![];
    assert_eq!(p.try_write(&words), Ok(()));
    assert_eq!(
        p.calls,
        vec![
            Event::TrxInit { output: true, result: Ok(()) },
            Event::SendFinish { result: Ok(()) },
        ]
    );
}

#[test]
fn write_error_on_second_send_stops_there() {
    let mut p = ScriptedPeripheral::new(vec![Step::Accept, Step::Accept, Step::Fail(9)]);
    let words: Vec<u8> = vec![0xaa, 0xbb, 0xcc];
    assert_eq!(p.try_write(&words), Err(9));
    // no send of the third word and no finish step after the failure
    assert_eq!(
        p.calls,
        vec![
            Event::TrxInit { output: true, result: Ok(()) },
            Event::Send { word: 0xaa, result: Ok(()) },
            Event::Send { word: 0xbb, result: Err(9) },
        ]
    );
}

#[test]
fn write_finish_error_propagates() {
    let mut p = ScriptedPeripheral::new(vec![Step::Accept, Step::Accept, Step::Fail(13)]);
    let words: Vec<u8> = vec![0x42];
    assert_eq!(p.try_write(&words), Err(13));
    assert_eq!(
        p.calls,
        vec![
            Event::TrxInit { output: true, result: Ok(()) },
            Event::Send { word: 0x42, result: Ok(()) },
            Event::SendFinish { result: Err(13) },
        ]
    );
}

#[test]
fn write_retries_would_block_transparently() {
    let mut p = ScriptedPeripheral::new(vec![
        Step::Block,
        Step::Accept,
        Step::Block,
        Step::Accept,
        Step::Block,
        Step::Accept,
    ]);
    let words: Vec<u8> = vec![0x10];
    assert_eq!(p.try_write(&words), Ok(()));
    assert_eq!(
        p.calls,
        vec![
            Event::TrxInit { output: true, result: Ok(()) },
            Event::Send { word: 0x10, result: Ok(()) },
            Event::SendFinish { result: Ok(()) },
        ]
    );
}

#[test]
fn write_iter_empty_issues_init_and_finish_only() {
    let mut p = ScriptedPeripheral::new(vec![Step::Accept, Step::Accept]);
    assert_eq!(p.try_write_iter(Vec::<u8>::new()), Ok(()));
    assert_eq!(
        p.calls,
        vec![
            Event::TrxInit { output: true, result: Ok(()) },
            Event::SendFinish { result: Ok(()) },
        ]
    );
}

#[test]
fn write_iter_sends_in_order_then_finishes() {
    let mut p = ScriptedPeripheral::new(vec![
        Step::Accept,
        Step::Accept,
        Step::Accept,
        Step::Accept,
    ]);
    assert_eq!(p.try_write_iter(vec![1u8, 2]), Ok(()));
    assert_eq!(
        p.calls,
        vec![
            Event::TrxInit { output: true, result: Ok(()) },
            Event::Send { word: 1, result: Ok(()) },
            Event::Send { word: 2, result: Ok(()) },
            Event::SendFinish { result: Ok(()) },
        ]
    );
}

#[test]
fn sixteen_bit_words_transfer() {
    let mut p = ScriptedPeripheral::new(vec![
        Step::Accept,
        Step::Give(0x1234u16),
        Step::Give(0xfedc),
    ]);
    let mut buf: Vec<u16> = vec![0, 0];
    assert_eq!(p.try_read(&mut buf), Ok(()));
    assert_eq!(buf, vec![0x1234, 0xfedc]);
    assert_eq!(
        p.calls,
        vec![
            Event::TrxInit { output: false, result: Ok(()) },
            Event::Read { last: false, result: Ok(0x1234) },
            Event::Read { last: true, result: Ok(0xfedc) },
        ]
    );
}

#[test]
fn polling_helpers_retry_until_settled() {
    let mut p = ScriptedPeripheral::new(vec![
        Step::Block,
        Step::Accept,
        Step::Block,
        Step::Block,
        Step::Give(9u8),
        Step::Accept,
        Step::Accept,
    ]);
    assert_eq!(block_trx_init(&mut p, false), Ok(()));
    assert_eq!(block_read(&mut p, true), Ok(9));
    assert_eq!(block_send(&mut p, 4), Ok(()));
    assert_eq!(block_send_finish(&mut p), Ok(()));
    assert_eq!(
        p.calls,
        vec![
            Event::TrxInit { output: false, result: Ok(()) },
            Event::Read { last: true, result: Ok(9) },
            Event::Send { word: 4, result: Ok(()) },
            Event::SendFinish { result: Ok(()) },
        ]
    );
}

#[test]
fn polling_helpers_surface_hard_errors() {
    let mut p = ScriptedPeripheral::new(vec![Step::Block, Step::Fail(21)]);
    assert_eq!(block_send(&mut p, 1u8), Err(21));
    assert_eq!(p.calls, vec![Event::Send { word: 1, result: Err(21) }]);
}

#[test]
fn scripted_peripheral_starts_fresh() {
    let p = ScriptedPeripheral::new(vec![Step::Give(1u8), Step::Block]);
    assert_eq!(p.pos, 0);
    assert!(p.calls.is_empty());
    assert_eq!(p.steps, vec![Step::Give(1), Step::Block]);
}
