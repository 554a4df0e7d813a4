//! The key-decoder stage: it consumes raw scan codes, feeds them through
//! the stateful PS/2 protocol decoder and the fixed US 104-key layout, and
//! re-encodes what comes out for the character queue. Printable keys pass
//! through as their character; the left and right arrow keys become the
//! two-character control sequences escape-`<` and escape-`>`, pushed as two
//! separate operations (a full queue can split the pair); all other
//! non-printable keys are ignored.

use vstd::prelude::*;
use pc_keyboard::{DecodedKey, HandleControl, KeyCode, KeyEvent, Keyboard, ScancodeSet1};
use pc_keyboard::layouts::Us104Key;
use crate::input::{push_char, spec_push_event, InputContext, PushOutcome};

verus! {

#[verifier::external_type_specification]
#[verifier::external_body]
pub struct ExKeyEvent(KeyEvent);

#[verifier::external_type_specification]
#[verifier::external_body]
pub struct ExDecodedKey(DecodedKey);

#[verifier::external_type_specification]
#[verifier::external_body]
pub struct ExPcKeyboardError(pc_keyboard::Error);

/// Holds the outside crate's stateful keyboard decoder; its generic bounds
/// keep the type itself from being declared to the verifier, so it lives in
/// this opaque shell.
#[verifier::external_body]
pub struct KeyboardState {
    inner: Keyboard<Us104Key, ScancodeSet1>,
}

/// Relies on `Keyboard::new`: a fresh decoder for scan-code set 1 and the
/// US 104-key layout, with control characters left alone.
#[verifier::external_body]
fn new_keyboard() -> KeyboardState {
    KeyboardState { inner: Keyboard::new(ScancodeSet1::new(), Us104Key, HandleControl::Ignore) }
}

/// Relies on `Keyboard::add_byte`, the stateful multi-byte protocol
/// decoder: a scan code may complete a key event, await more bytes, or be
/// a protocol error.
#[verifier::external_body]
fn keyboard_add_byte(
    kb: &mut KeyboardState,
    b: u8,
) -> Result<Option<KeyEvent>, pc_keyboard::Error> {
    kb.inner.add_byte(b)
}

/// Relies on `Keyboard::process_keyevent`, which applies modifier state and
/// the layout to a key event, sometimes yielding a decoded key.
#[verifier::external_body]
fn keyboard_process_keyevent(
    kb: &mut KeyboardState,
    ev: KeyEvent,
) -> Option<DecodedKey> {
    kb.inner.process_keyevent(ev)
}

/// What a decoded key means to this pipeline.
#[derive(Clone, Copy, Debug)]
pub enum KeyInput {
    /// A key that decoded to a character.
    Printable(char),
    /// The left arrow key.
    ArrowLeft,
    /// The right arrow key.
    ArrowRight,
    /// Any other non-printable key; ignored.
    Other,
}

/// Relies on matching the two `DecodedKey` variants and, among the raw key
/// codes, the left and right arrow keys; every other raw key is beyond this
/// pipeline's interest.
#[verifier::external_body]
fn key_input_of(key: DecodedKey) -> KeyInput {
    match key {
        DecodedKey::Unicode(character) => KeyInput::Printable(character),
        DecodedKey::RawKey(code) => match code {
            KeyCode::ArrowLeft => KeyInput::ArrowLeft,
            KeyCode::ArrowRight => KeyInput::ArrowRight,
            _ => KeyInput::Other,
        },
    }
}

/// The characters a key contributes to the character stream.
pub open spec fn key_chars(key: KeyInput) -> Seq<char> {
    match key {
        KeyInput::Printable(c) => seq![c],
        KeyInput::ArrowLeft => seq!['\x1b', '<'],
        KeyInput::ArrowRight => seq!['\x1b', '>'],
        KeyInput::Other => Seq::<char>::empty(),
    }
}

/// The effect of pushing several characters one at a time: the queue and
/// waker after all pushes, and each push's own outcome, in order.
pub struct MultiPushStep {
    /// The queue contents afterwards.
    pub items: Seq<char>,
    /// The waker registration afterwards.
    pub waker: Option<u64>,
    /// One outcome per attempted push.
    pub outcomes: Seq<PushOutcome>,
}

/// Characters pushed one at a time, each dropped individually when the
/// queue is full at that moment.
pub open spec fn spec_push_chars(
    items: Seq<char>,
    cap: nat,
    waker: Option<u64>,
    cs: Seq<char>,
) -> MultiPushStep
    decreases cs.len(),
{
    if cs.len() == 0 {
        MultiPushStep { items, waker, outcomes: Seq::<PushOutcome>::empty() }
    } else {
        let st = spec_push_event(items, cap, waker, cs[0]);
        let rest = spec_push_chars(st.items, cap, st.waker, cs.drop_first());
        MultiPushStep {
            items: rest.items,
            waker: rest.waker,
            outcomes: seq![st.outcome] + rest.outcomes,
        }
    }
}

/// Pushes a key's characters into the character queue, one push per
/// character, and reports every push's outcome so the caller can emit a
/// diagnostic for each dropped character and deliver each wake.
pub fn push_key_chars(ctx: &mut InputContext, key: KeyInput) -> (r: Vec<PushOutcome>)
    ensures
        final(ctx).scancodes == old(ctx).scancodes,
        final(ctx).scancode_waker == old(ctx).scancode_waker,
        final(ctx).chars.cap() == old(ctx).chars.cap(),
        ({
            let st = spec_push_chars(
                old(ctx).chars@,
                old(ctx).chars.cap(),
                old(ctx).char_waker.registered(),
                key_chars(key),
            );
            final(ctx).chars@ == st.items && final(ctx).char_waker.registered() == st.waker
                && r@ == st.outcomes
        }),
{
    let ghost items0 = ctx.chars@;
    let ghost cap = ctx.chars.cap();
    let ghost w0 = ctx.char_waker.registered();
    let mut outcomes: Vec<PushOutcome> = Vec::new();
    match key {
        KeyInput::Printable(c) => {
            let o = push_char(ctx, c);
            outcomes.push(o);
            proof {
                reveal_with_fuel(spec_push_chars, 3);
                let cs = key_chars(KeyInput::Printable(c));
                let st = spec_push_event(items0, cap, w0, c);
                assert(cs.drop_first() =~= Seq::<char>::empty());
                assert(seq![st.outcome] + Seq::<PushOutcome>::empty() =~= seq![st.outcome]);
                assert(outcomes@ =~= seq![st.outcome]);
                let stf = spec_push_chars(items0, cap, w0, key_chars(key));
                assert(ctx.chars@ == stf.items);
                assert(ctx.char_waker.registered() == stf.waker);
                assert(outcomes@ == stf.outcomes);
            }
        },
        KeyInput::ArrowLeft => {
            let o1 = push_char(ctx, '\x1b');
            outcomes.push(o1);
            let o2 = push_char(ctx, '<');
            outcomes.push(o2);
            proof {
                reveal_with_fuel(spec_push_chars, 3);
                let cs = key_chars(KeyInput::ArrowLeft);
                let st0 = spec_push_event(items0, cap, w0, '\x1b');
                let st1 = spec_push_event(st0.items, cap, st0.waker, '<');
                assert(cs.drop_first() =~= seq!['<']);
                assert(cs.drop_first().drop_first() =~= Seq::<char>::empty());
                assert(seq![st1.outcome] + Seq::<PushOutcome>::empty() =~= seq![st1.outcome]);
                assert(seq![st0.outcome] + seq![st1.outcome] =~= seq![st0.outcome, st1.outcome]);
                assert(outcomes@ =~= seq![st0.outcome, st1.outcome]);
                let stf = spec_push_chars(items0, cap, w0, key_chars(key));
                assert(ctx.chars@ == stf.items);
                assert(ctx.char_waker.registered() == stf.waker);
                assert(outcomes@ == stf.outcomes);
            }
        },
        KeyInput::ArrowRight => {
            let o1 = push_char(ctx, '\x1b');
            outcomes.push(o1);
            let o2 = push_char(ctx, '>');
            outcomes.push(o2);
            proof {
                reveal_with_fuel(spec_push_chars, 3);
                let cs = key_chars(KeyInput::ArrowRight);
                let st0 = spec_push_event(items0, cap, w0, '\x1b');
                let st1 = spec_push_event(st0.items, cap, st0.waker, '>');
                assert(cs.drop_first() =~= seq!['>']);
                assert(cs.drop_first().drop_first() =~= Seq::<char>::empty());
                assert(seq![st1.outcome] + Seq::<PushOutcome>::empty() =~= seq![st1.outcome]);
                assert(seq![st0.outcome] + seq![st1.outcome] =~= seq![st0.outcome, st1.outcome]);
                assert(outcomes@ =~= seq![st0.outcome, st1.outcome]);
                let stf = spec_push_chars(items0, cap, w0, key_chars(key));
                assert(ctx.chars@ == stf.items);
                assert(ctx.char_waker.registered() == stf.waker);
                assert(outcomes@ == stf.outcomes);
            }
        },
        KeyInput::Other => {
            proof {
                assert(outcomes@ =~= Seq::<PushOutcome>::empty());
            }
        },
    }
    outcomes
}

/// The decoder task's state: the stateful PS/2 decoder with its layout and
/// modifier state.
pub struct KeyDecoder {
    keyboard: KeyboardState,
}

impl KeyDecoder {
    /// A fresh decoder.
    pub fn new() -> KeyDecoder {
        KeyDecoder { keyboard: new_keyboard() }
    }

    /// One step of the decoder task: feed one scan code through the
    /// protocol decoder and the layout, and push whatever characters the
    /// decoded key stands for. Whatever the decoder answered, the character
    /// queue evolves by the pushes of some key's characters (the empty
    /// sequence when the scan code completed no key), and the scan-code
    /// side of the context is untouched.
    pub fn handle_scancode(&mut self, ctx: &mut InputContext, scancode: u8) -> (r: Vec<
        PushOutcome,
    >)
        ensures
            final(ctx).scancodes == old(ctx).scancodes,
            final(ctx).scancode_waker == old(ctx).scancode_waker,
            final(ctx).chars.cap() == old(ctx).chars.cap(),
            exists|key: KeyInput|
                {
                    let st = spec_push_chars(
                        old(ctx).chars@,
                        old(ctx).chars.cap(),
                        old(ctx).char_waker.registered(),
                        #[trigger] key_chars(key),
                    );
                    final(ctx).chars@ == st.items && final(ctx).char_waker.registered()
                        == st.waker && r@ == st.outcomes
                },
    {
        match keyboard_add_byte(&mut self.keyboard, scancode) {
            Ok(maybe_event) => match maybe_event {
                Some(event) => match keyboard_process_keyevent(&mut self.keyboard, event) {
                    Some(key) => {
                        let input = key_input_of(key);
                        let outcomes = push_key_chars(ctx, input);
                        proof {
                            let st = spec_push_chars(
                                old(ctx).chars@,
                                old(ctx).chars.cap(),
                                old(ctx).char_waker.registered(),
                                key_chars(input),
                            );
                            assert(ctx.chars@ == st.items && ctx.char_waker.registered()
                                == st.waker && outcomes@ == st.outcomes);
                        }
                        outcomes
                    },
                    None => no_key_outcomes(ctx),
                },
                None => no_key_outcomes(ctx),
            },
            Err(_) => no_key_outcomes(ctx),
        }
    }
}

/// The outcome list when a scan code completed no key: nothing is pushed.
fn no_key_outcomes(ctx: &mut InputContext) -> (r: Vec<PushOutcome>)
    ensures
        *final(ctx) == *old(ctx),
        ({
            let st = spec_push_chars(
                old(ctx).chars@,
                old(ctx).chars.cap(),
                old(ctx).char_waker.registered(),
                key_chars(KeyInput::Other),
            );
            final(ctx).chars@ == st.items && final(ctx).char_waker.registered() == st.waker
                && r@ == st.outcomes
        }),
{
    let outcomes: Vec<PushOutcome> = Vec::new();
    proof {
        assert(outcomes@ =~= Seq::<PushOutcome>::empty());
    }
    outcomes
}

} // verus!
