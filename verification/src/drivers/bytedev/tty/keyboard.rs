//! The keyboard: it turns scancodes into key events.
use vstd::prelude::*;

verus! {

/// A shift key is held.
pub const SHIFT_MASK: u8 = 0x1;

/// A control key is held.
pub const CTRL_MASK: u8 = 0x2;

/// The previous scancode was an escape code.
pub const ESC_MASK: u8 = 0x4;

/// Scancodes of the special keys.
pub const LSHIFT: u8 = 0x2a;
pub const RSHIFT: u8 = 0x36;
pub const CTRL: u8 = 0x1d;
pub const ESC0: u8 = 0xe0;
pub const ESC1: u8 = 0xe1;

/// With control held, these scroll the terminal.
pub const SCROLL_UP: u8 = 0x0e;
pub const SCROLL_DOWN: u8 = 0x1c;

/// The function keys F1 to F10 switch terminals.
pub const VT_KEY_LOW: u8 = 0x3b;
pub const VT_KEY_HIGH: u8 = 0x44;

/// A scancode with this bit set is a key release.
pub const BREAK_MASK: u8 = 0x80;

/// The last scancode of an ordinary key.
pub const NORMAL_KEY_HIGH: u8 = 0x39;

/// First initialisation stage: nothing to do.
pub fn init_stage1() {
}

/// What a key press means.
#[derive(Clone, Copy, Debug, PartialEq, Eq, Structural)]
pub enum KeyboardEvent {
    /// A character was typed.
    Normal(u8),
    /// Switch to the terminal with this number.
    Switch(u8),
    /// Scroll the view up.
    ScrollUp,
    /// Scroll the view down.
    ScrollDown,
}

/// The handler of a keyboard that has none: it ignores every event.
pub fn default_handler(_e: KeyboardEvent) {
}

/// The character of an ordinary key without shift (scancodes 0 to 0x39).
pub open spec fn normal_scancode(sc: u8) -> u8 {
    match sc {
        0x00 => 0x00,
        0x01 => 0x1b,
        0x02 => 0x31,
        0x03 => 0x32,
        0x04 => 0x33,
        0x05 => 0x34,
        0x06 => 0x35,
        0x07 => 0x36,
        0x08 => 0x37,
        0x09 => 0x38,
        0x0a => 0x39,
        0x0b => 0x30,
        0x0c => 0x2d,
        0x0d => 0x3d,
        0x0e => 0x08,
        0x0f => 0x09,
        0x10 => 0x71,
        0x11 => 0x77,
        0x12 => 0x65,
        0x13 => 0x72,
        0x14 => 0x74,
        0x15 => 0x79,
        0x16 => 0x75,
        0x17 => 0x69,
        0x18 => 0x6f,
        0x19 => 0x70,
        0x1a => 0x5b,
        0x1b => 0x5d,
        0x1c => 0x0a,
        0x1d => 0x00,
        0x1e => 0x61,
        0x1f => 0x73,
        0x20 => 0x64,
        0x21 => 0x66,
        0x22 => 0x67,
        0x23 => 0x68,
        0x24 => 0x6a,
        0x25 => 0x6b,
        0x26 => 0x6c,
        0x27 => 0x3b,
        0x28 => 0x27,
        0x29 => 0x60,
        0x2a => 0x00,
        0x2b => 0x5c,
        0x2c => 0x7a,
        0x2d => 0x78,
        0x2e => 0x63,
        0x2f => 0x76,
        0x30 => 0x62,
        0x31 => 0x6e,
        0x32 => 0x6d,
        0x33 => 0x2c,
        0x34 => 0x2e,
        0x35 => 0x2f,
        0x36 => 0x00,
        0x37 => 0x00,
        0x38 => 0x00,
        0x39 => 0x20,
        _ => 0,
    }
}

/// The character of an ordinary key with shift (scancodes 0 to 0x39).
pub open spec fn shift_scancode(sc: u8) -> u8 {
    match sc {
        0x00 => 0x00,
        0x01 => 0x1b,
        0x02 => 0x21,
        0x03 => 0x40,
        0x04 => 0x23,
        0x05 => 0x24,
        0x06 => 0x25,
        0x07 => 0x5e,
        0x08 => 0x26,
        0x09 => 0x2a,
        0x0a => 0x28,
        0x0b => 0x29,
        0x0c => 0x5f,
        0x0d => 0x2b,
        0x0e => 0x08,
        0x0f => 0x09,
        0x10 => 0x51,
        0x11 => 0x57,
        0x12 => 0x45,
        0x13 => 0x52,
        0x14 => 0x54,
        0x15 => 0x59,
        0x16 => 0x55,
        0x17 => 0x49,
        0x18 => 0x4f,
        0x19 => 0x50,
        0x1a => 0x7b,
        0x1b => 0x7d,
        0x1c => 0x0a,
        0x1d => 0x00,
        0x1e => 0x41,
        0x1f => 0x53,
        0x20 => 0x44,
        0x21 => 0x46,
        0x22 => 0x47,
        0x23 => 0x48,
        0x24 => 0x4a,
        0x25 => 0x4b,
        0x26 => 0x4c,
        0x27 => 0x3a,
        0x28 => 0x22,
        0x29 => 0x7e,
        0x2a => 0x00,
        0x2b => 0x7c,
        0x2c => 0x5a,
        0x2d => 0x58,
        0x2e => 0x43,
        0x2f => 0x56,
        0x30 => 0x42,
        0x31 => 0x4e,
        0x32 => 0x4d,
        0x33 => 0x3c,
        0x34 => 0x3e,
        0x35 => 0x3f,
        0x36 => 0x00,
        0x37 => 0x00,
        0x38 => 0x00,
        0x39 => 0x20,
        _ => 0,
    }
}

fn normal_char(sc: u8) -> (r: u8)
    ensures
        r == normal_scancode(sc),
{
    match sc {
        0x00 => 0x00,
        0x01 => 0x1b,
        0x02 => 0x31,
        0x03 => 0x32,
        0x04 => 0x33,
        0x05 => 0x34,
        0x06 => 0x35,
        0x07 => 0x36,
        0x08 => 0x37,
        0x09 => 0x38,
        0x0a => 0x39,
        0x0b => 0x30,
        0x0c => 0x2d,
        0x0d => 0x3d,
        0x0e => 0x08,
        0x0f => 0x09,
        0x10 => 0x71,
        0x11 => 0x77,
        0x12 => 0x65,
        0x13 => 0x72,
        0x14 => 0x74,
        0x15 => 0x79,
        0x16 => 0x75,
        0x17 => 0x69,
        0x18 => 0x6f,
        0x19 => 0x70,
        0x1a => 0x5b,
        0x1b => 0x5d,
        0x1c => 0x0a,
        0x1d => 0x00,
        0x1e => 0x61,
        0x1f => 0x73,
        0x20 => 0x64,
        0x21 => 0x66,
        0x22 => 0x67,
        0x23 => 0x68,
        0x24 => 0x6a,
        0x25 => 0x6b,
        0x26 => 0x6c,
        0x27 => 0x3b,
        0x28 => 0x27,
        0x29 => 0x60,
        0x2a => 0x00,
        0x2b => 0x5c,
        0x2c => 0x7a,
        0x2d => 0x78,
        0x2e => 0x63,
        0x2f => 0x76,
        0x30 => 0x62,
        0x31 => 0x6e,
        0x32 => 0x6d,
        0x33 => 0x2c,
        0x34 => 0x2e,
        0x35 => 0x2f,
        0x36 => 0x00,
        0x37 => 0x00,
        0x38 => 0x00,
        0x39 => 0x20,
        _ => 0,
    }
}

fn shift_char(sc: u8) -> (r: u8)
    ensures
        r == shift_scancode(sc),
{
    match sc {
        0x00 => 0x00,
        0x01 => 0x1b,
        0x02 => 0x21,
        0x03 => 0x40,
        0x04 => 0x23,
        0x05 => 0x24,
        0x06 => 0x25,
        0x07 => 0x5e,
        0x08 => 0x26,
        0x09 => 0x2a,
        0x0a => 0x28,
        0x0b => 0x29,
        0x0c => 0x5f,
        0x0d => 0x2b,
        0x0e => 0x08,
        0x0f => 0x09,
        0x10 => 0x51,
        0x11 => 0x57,
        0x12 => 0x45,
        0x13 => 0x52,
        0x14 => 0x54,
        0x15 => 0x59,
        0x16 => 0x55,
        0x17 => 0x49,
        0x18 => 0x4f,
        0x19 => 0x50,
        0x1a => 0x7b,
        0x1b => 0x7d,
        0x1c => 0x0a,
        0x1d => 0x00,
        0x1e => 0x41,
        0x1f => 0x53,
        0x20 => 0x44,
        0x21 => 0x46,
        0x22 => 0x47,
        0x23 => 0x48,
        0x24 => 0x4a,
        0x25 => 0x4b,
        0x26 => 0x4c,
        0x27 => 0x3a,
        0x28 => 0x22,
        0x29 => 0x7e,
        0x2a => 0x00,
        0x2b => 0x7c,
        0x2c => 0x5a,
        0x2d => 0x58,
        0x2e => 0x43,
        0x2f => 0x56,
        0x30 => 0x42,
        0x31 => 0x4e,
        0x32 => 0x4d,
        0x33 => 0x3c,
        0x34 => 0x3e,
        0x35 => 0x3f,
        0x36 => 0x00,
        0x37 => 0x00,
        0x38 => 0x00,
        0x39 => 0x20,
        _ => 0,
    }
}

/// What the scancode `inp` does when the held keys are `mask`: the new held
/// keys and the event, if any.
///
/// A release of shift or control clears its bit; other releases are ignored.
/// Pressing shift or control sets its bit. After an escape code the next key
/// is ignored. The function keys switch terminals; with control held,
/// backspace scrolls up and enter scrolls down. Ordinary keys give their
/// character, shifted with shift held; with control held they give the
/// control character of their shifted character, when it has one.
pub open spec fn decode_spec(mask: u8, inp: u8) -> (u8, Option<KeyboardEvent>) {
    let sc = inp & !BREAK_MASK;
    if inp & BREAK_MASK != 0 {
        if sc == LSHIFT || sc == RSHIFT {
            (mask & !SHIFT_MASK, None)
        } else if sc == CTRL {
            (mask & !CTRL_MASK, None)
        } else {
            (mask, None)
        }
    } else if sc == LSHIFT || sc == RSHIFT {
        (mask | SHIFT_MASK, None)
    } else if sc == CTRL {
        (mask | CTRL_MASK, None)
    } else if mask & ESC_MASK != 0 {
        (mask & !ESC_MASK, None)
    } else if sc == ESC0 || sc == ESC1 {
        (mask | ESC_MASK, None)
    } else if sc >= VT_KEY_LOW && sc <= VT_KEY_HIGH {
        (mask, Some(KeyboardEvent::Switch((sc - VT_KEY_LOW) as u8)))
    } else if (mask & CTRL_MASK) != 0 && sc == SCROLL_DOWN {
        (mask, Some(KeyboardEvent::ScrollDown))
    } else if (mask & CTRL_MASK) != 0 && sc == SCROLL_UP {
        (mask, Some(KeyboardEvent::ScrollUp))
    } else if sc > NORMAL_KEY_HIGH {
        (mask, None)
    } else if mask & CTRL_MASK != 0 {
        let c = shift_scancode(sc);
        if c >= 0x40 && c < 0x60 {
            (mask, Some(KeyboardEvent::Normal((c - 0x40) as u8)))
        } else {
            (mask, None)
        }
    } else if mask & SHIFT_MASK != 0 {
        (mask, Some(KeyboardEvent::Normal(shift_scancode(sc))))
    } else {
        (mask, Some(KeyboardEvent::Normal(normal_scancode(sc))))
    }
}

/// The keyboard: the keys held and the handler that gets the events.
pub struct Keyboard<H> {
    pub curmask: u8,
    pub handler: H,
}

impl<H> Keyboard<H> {
    /// Send the events to `handler` from now on.
    pub fn set_handler(&mut self, handler: H)
        ensures
            final(self).handler == handler,
            final(self).curmask == old(self).curmask,
    {
        self.handler = handler;
    }

    /// Take the scancode `inp` read from the keyboard: update the keys held
    /// and return the event for the handler, if any.
    pub fn handle_interrupt(&mut self, inp: u8) -> (r: Option<KeyboardEvent>)
        ensures
            (final(self).curmask, r) == decode_spec(old(self).curmask, inp),
            final(self).handler == old(self).handler,
    {
        let sc = inp & !BREAK_MASK;
        if inp & BREAK_MASK != 0 {
            if sc == LSHIFT || sc == RSHIFT {
                self.curmask = self.curmask & !SHIFT_MASK;
            } else if sc == CTRL {
                self.curmask = self.curmask & !CTRL_MASK;
            }
            None
        } else if sc == LSHIFT || sc == RSHIFT {
            self.curmask = self.curmask | SHIFT_MASK;
            None
        } else if sc == CTRL {
            self.curmask = self.curmask | CTRL_MASK;
            None
        } else if self.curmask & ESC_MASK != 0 {
            self.curmask = self.curmask & !ESC_MASK;
            None
        } else if sc == ESC0 || sc == ESC1 {
            self.curmask = self.curmask | ESC_MASK;
            None
        } else if sc >= VT_KEY_LOW && sc <= VT_KEY_HIGH {
            Some(KeyboardEvent::Switch(sc - VT_KEY_LOW))
        } else if (self.curmask & CTRL_MASK) != 0 && sc == SCROLL_DOWN {
            Some(KeyboardEvent::ScrollDown)
        } else if (self.curmask & CTRL_MASK) != 0 && sc == SCROLL_UP {
            Some(KeyboardEvent::ScrollUp)
        } else if sc > NORMAL_KEY_HIGH {
            None
        } else if self.curmask & CTRL_MASK != 0 {
            let c = shift_char(sc);
            if c >= 0x40 && c < 0x60 {
                Some(KeyboardEvent::Normal(c - 0x40))
            } else {
                None
            }
        } else if self.curmask & SHIFT_MASK != 0 {
            Some(KeyboardEvent::Normal(shift_char(sc)))
        } else {
            Some(KeyboardEvent::Normal(normal_char(sc)))
        }
    }
}

/// Pressing shift or control and letting it go again: while held its bit is
/// set, once released it is clear, the bits of the other keys stay as they
/// were, and neither scancode gives an event.
pub proof fn lemma_modifier_press_release(mask: u8, key: u8)
    requires
        key == LSHIFT || key == RSHIFT || key == CTRL,
    ensures
        ({
            let bit = if key == CTRL { CTRL_MASK } else { SHIFT_MASK };
            let (held, e1) = decode_spec(mask, key);
            let (released, e2) = decode_spec(held, key | BREAK_MASK);
            &&& e1 is None
            &&& e2 is None
            &&& held == mask | bit
            &&& released == (mask | bit) & !bit
            &&& released & !bit == mask & !bit
            &&& released & bit == 0
        }),
{
    assert(key & !0x80u8 == key && key & 0x80u8 == 0) by (bit_vector)
        requires
            key == 0x2a || key == 0x36 || key == 0x1d,
    ;
    assert((key | 0x80u8) & 0x80u8 != 0 && (key | 0x80u8) & !0x80u8 == key) by (bit_vector)
        requires
            key == 0x2a || key == 0x36 || key == 0x1d,
    ;
    let bit: u8 = if key == CTRL { CTRL_MASK } else { SHIFT_MASK };
    assert(((mask | bit) & !bit) & !bit == mask & !bit && ((mask | bit) & !bit) & bit == 0) by (bit_vector);
}

/// Releasing a key other than shift or control gives no event and leaves the
/// keys held as they were.
pub proof fn lemma_ordinary_release_ignored(mask: u8, inp: u8)
    requires
        inp >= 0x80,
        inp != 0x80 + LSHIFT,
        inp != 0x80 + RSHIFT,
        inp != 0x80 + CTRL,
    ensures
        decode_spec(mask, inp) == (mask, Option::<KeyboardEvent>::None),
{
    assert(inp & 0x80u8 != 0) by (bit_vector)
        requires
            inp >= 0x80,
    ;
    assert(inp & !0x80u8 != 0x2a && inp & !0x80u8 != 0x36 && inp & !0x80u8 != 0x1d) by (bit_vector)
        requires
            inp >= 0x80,
            inp != 0xaa,
            inp != 0xb6,
            inp != 0x9d,
    ;
}

} // verus!
