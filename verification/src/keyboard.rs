use vstd::prelude::*;

use pc_keyboard::layouts::Us104Key;
use pc_keyboard::{DecodedKey, HandleControl, KeyEvent, PS2Keyboard, ScancodeSet1};

verus! {

#[verifier::external_type_specification]
#[verifier::external_body]
pub struct ExKeyEvent(KeyEvent);

/// What one raw scancode byte decoded to: nothing (the byte may be part of
/// a longer sequence, a key release, or garbage), a printable character, or
/// a non-printable key named by a debug description.
pub enum KeyOutcome {
    NoEvent,
    Printable(char),
    NonPrintable(String),
}

/// A scancode-set decoder holding partial multi-byte sequences across
/// calls. Mutated once per raw scancode byte received; produces zero or one
/// logical key event per call. The device state is pc_keyboard's and is
/// opaque here: Verus sees nothing inside it.
#[verifier::external_body]
pub struct KeyboardDecoder {
    dev: PS2Keyboard<Us104Key, ScancodeSet1>,
}

/// Relies on pc_keyboard::PS2Keyboard::new: a scancode-set-1, US-layout
/// decoder that starts with no partial multi-byte sequence.
#[verifier::external_body]
fn new_keyboard_device() -> KeyboardDecoder {
    KeyboardDecoder { dev: PS2Keyboard::new(ScancodeSet1::new(), Us104Key, HandleControl::Ignore) }
}

/// Relies on pc_keyboard::PS2Keyboard::add_byte: feeds one raw scancode
/// byte to the decoder and hands back a complete key event when one
/// finishes; a decode error is treated as the absence of an event, as the
/// interrupt handler ignores such bytes.
#[verifier::external_body]
fn kb_add_byte(decoder: &mut KeyboardDecoder, code: u8) -> (r: Option<KeyEvent>) {
    match decoder.dev.add_byte(code) {
        Ok(ev) => ev,
        Err(_) => None,
    }
}

/// Relies on pc_keyboard::PS2Keyboard::process_keyevent: resolves a key
/// event against the layout and modifier state to either a printable
/// character, a non-printable key, or nothing (for example a key release).
#[verifier::external_body]
fn kb_process_event(decoder: &mut KeyboardDecoder, ev: KeyEvent) -> (r: KeyOutcome) {
    match decoder.dev.process_keyevent(ev) {
        Some(DecodedKey::Unicode(c)) => KeyOutcome::Printable(c),
        Some(DecodedKey::RawKey(k)) => KeyOutcome::NonPrintable(format!("{:?}", k)),
        None => KeyOutcome::NoEvent,
    }
}

impl KeyboardDecoder {
    /// A decoder holding no partial sequence.
    pub fn new() -> KeyboardDecoder {
        new_keyboard_device()
    }

    /// Feeds one raw scancode byte and resolves any completed key event.
    pub fn decode_scancode(&mut self, code: u8) -> KeyOutcome {
        match kb_add_byte(self, code) {
            Some(ev) => kb_process_event(self, ev),
            None => KeyOutcome::NoEvent,
        }
    }
}

} // verus!
