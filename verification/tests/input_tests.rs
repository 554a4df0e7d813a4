use kernel_console::decoder::KeyDecoder;
use kernel_console::input::{
    add_scancode, push_char, InputContext, InputStream, PollResult, PushOutcome, ScancodeStream,
    CHAR_QUEUE_CAPACITY, SCANCODE_QUEUE_CAPACITY,
};
use kernel_console::queue::ScancodeQueue;

#[test]
fn scancode_push_before_initialization_is_refused() {
    let mut ctx = InputContext::new();
    let outcome = add_scancode(&mut ctx, 5);
    assert!(matches!(outcome, PushOutcome::Uninitialized));
}

#[test]
fn scancode_stream_initializes_once() {
    let mut ctx = InputContext::new();
    assert!(ScancodeStream::new(&mut ctx).is_ok());
    assert!(ScancodeStream::new(&mut ctx).is_err());
}

#[test]
fn queue_overflow_drops_the_newest_item() {
    let mut ctx = InputContext::new();
    let stream = ScancodeStream::new(&mut ctx).ok().unwrap();
    let mut dropped = 0;
    let mut i = 0;
    while i < SCANCODE_QUEUE_CAPACITY + 1 {
        match add_scancode(&mut ctx, i as u8) {
            PushOutcome::Dropped => dropped += 1,
            PushOutcome::Stored(_) => {}
            PushOutcome::Uninitialized => panic!("queue was initialized"),
        }
        i += 1;
    }
    assert_eq!(dropped, 1);
    assert_eq!(ctx.scancodes.as_ref().unwrap().len(), SCANCODE_QUEUE_CAPACITY);
    // the stored items drain in push order; the dropped one is absent
    let mut k = 0;
    while k < SCANCODE_QUEUE_CAPACITY {
        match stream.poll_next(&mut ctx, 1) {
            PollResult::Ready(sc) => assert_eq!(sc, k as u8),
            PollResult::Pending => panic!("item missing"),
        }
        k += 1;
    }
    assert!(matches!(stream.poll_next(&mut ctx, 1), PollResult::Pending));
}

#[test]
fn standalone_queue_is_fifo() {
    let mut q = ScancodeQueue::new(3);
    assert!(q.push(10).is_ok());
    assert!(q.push(20).is_ok());
    assert!(q.push(30).is_ok());
    assert_eq!(q.push(40), Err(40));
    assert_eq!(q.pop(), Some(10));
    assert_eq!(q.pop(), Some(20));
    assert_eq!(q.pop(), Some(30));
    assert_eq!(q.pop(), None);
}

#[test]
fn poll_registers_waker_and_push_wakes_it() {
    let mut ctx = InputContext::new();
    let stream = ScancodeStream::new(&mut ctx).ok().unwrap();
    // nothing queued: the poll suspends and registers the task
    assert!(matches!(stream.poll_next(&mut ctx, 7), PollResult::Pending));
    // the next push hands exactly that task back for waking
    match add_scancode(&mut ctx, 42) {
        PushOutcome::Stored(woken) => assert_eq!(woken, Some(7)),
        _ => panic!("push failed"),
    }
    match stream.poll_next(&mut ctx, 7) {
        PollResult::Ready(sc) => assert_eq!(sc, 42),
        PollResult::Pending => panic!("item present but poll pended"),
    }
}

#[test]
fn char_stream_delivers_in_order() {
    let mut ctx = InputContext::new();
    let stream = InputStream;
    assert!(matches!(push_char(&mut ctx, 'x'), PushOutcome::Stored(None)));
    assert!(matches!(push_char(&mut ctx, 'y'), PushOutcome::Stored(None)));
    assert!(matches!(stream.poll_next(&mut ctx, 3), PollResult::Ready('x')));
    assert!(matches!(stream.poll_next(&mut ctx, 3), PollResult::Ready('y')));
    assert!(matches!(stream.poll_next(&mut ctx, 3), PollResult::Pending));
    match push_char(&mut ctx, 'z') {
        PushOutcome::Stored(woken) => assert_eq!(woken, Some(3)),
        _ => panic!("push failed"),
    }
}

#[test]
fn char_queue_overflow_drops() {
    let mut ctx = InputContext::new();
    let mut stored = 0;
    let mut dropped = 0;
    let mut i = 0;
    while i < CHAR_QUEUE_CAPACITY + 2 {
        match push_char(&mut ctx, 'c') {
            PushOutcome::Stored(_) => stored += 1,
            PushOutcome::Dropped => dropped += 1,
            PushOutcome::Uninitialized => panic!("character queue always exists"),
        }
        i += 1;
    }
    assert_eq!(stored, CHAR_QUEUE_CAPACITY);
    assert_eq!(dropped, 2);
}

#[test]
fn decoder_turns_scancode_into_character() {
    let mut ctx = InputContext::new();
    let mut kd = KeyDecoder::new();
    let stream = InputStream;
    // scan-code set 1: 0x1E is the make code of the A key
    let outcomes = kd.handle_scancode(&mut ctx, 0x1e);
    assert_eq!(outcomes.len(), 1);
    assert!(matches!(outcomes[0], PushOutcome::Stored(_)));
    assert!(matches!(stream.poll_next(&mut ctx, 1), PollResult::Ready('a')));
}

#[test]
fn decoder_reencodes_arrow_keys_as_escape_pairs() {
    let mut ctx = InputContext::new();
    let mut kd = KeyDecoder::new();
    let stream = InputStream;
    // extended prefix: completes no key yet
    let first = kd.handle_scancode(&mut ctx, 0xe0);
    assert_eq!(first.len(), 0);
    // left arrow: two pushes, escape then '<'
    let second = kd.handle_scancode(&mut ctx, 0x4b);
    assert_eq!(second.len(), 2);
    assert!(matches!(stream.poll_next(&mut ctx, 1), PollResult::Ready('\x1b')));
    assert!(matches!(stream.poll_next(&mut ctx, 1), PollResult::Ready('<')));
    // right arrow
    kd.handle_scancode(&mut ctx, 0xe0);
    kd.handle_scancode(&mut ctx, 0x4d);
    assert!(matches!(stream.poll_next(&mut ctx, 1), PollResult::Ready('\x1b')));
    assert!(matches!(stream.poll_next(&mut ctx, 1), PollResult::Ready('>')));
}

#[test]
fn decoder_ignores_key_release() {
    let mut ctx = InputContext::new();
    let mut kd = KeyDecoder::new();
    let stream = InputStream;
    kd.handle_scancode(&mut ctx, 0x1e);
    // 0x9E is the break code of the A key: no character results
    kd.handle_scancode(&mut ctx, 0x9e);
    assert!(matches!(stream.poll_next(&mut ctx, 1), PollResult::Ready('a')));
    assert!(matches!(stream.poll_next(&mut ctx, 1), PollResult::Pending));
}

#[test]
fn decoder_applies_shift_modifier() {
    let mut ctx = InputContext::new();
    let mut kd = KeyDecoder::new();
    let stream = InputStream;
    kd.handle_scancode(&mut ctx, 0x2a); // left shift down
    kd.handle_scancode(&mut ctx, 0x1e); // A key
    match stream.poll_next(&mut ctx, 1) {
        PollResult::Ready(c) => assert_eq!(c, 'A'),
        PollResult::Pending => panic!("no character decoded"),
    }
}
