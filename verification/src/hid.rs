//! Plain values of the human-interface protocols: pointer reports, key events
//! and what the firmware's device tree says of an I2C bus.

use vstd::prelude::*;

verus! {

/// Buttons of a boot-protocol mouse.
#[derive(Clone, Copy, Debug, PartialEq, Eq, Structural)]
pub struct MouseButtons {
    bits: u8,
}

impl MouseButtons {
    pub const LEFT: u8 = 1;

    pub const RIGHT: u8 = 2;

    pub const MIDDLE: u8 = 4;

    /// The button bits.
    pub closed spec fn view(&self) -> u8 {
        self.bits
    }

    /// There are three buttons.
    pub open spec fn wf(self) -> bool {
        self@ & 7 == self@
    }

    /// Buttons are their bits.
    pub proof fn lemma_bits(self, other: MouseButtons)
        ensures
            self == other <==> self@ == other@,
    {
    }

    /// Takes the three button bits of a report byte.
    pub fn from_bits(bits: u8) -> (b: MouseButtons)
        ensures
            b.wf(),
            b@ == bits & 7,
    {
        assert((bits & 7) & 7 == bits & 7) by (bit_vector);
        MouseButtons { bits: bits & 7 }
    }

    /// The button bits.
    pub fn bits(self) -> (r: u8)
        ensures
            r == self@,
    {
        self.bits
    }
}

/// One boot-protocol mouse report.
#[derive(Clone, Copy, Debug, PartialEq, Eq, Structural)]
pub struct BootMouseReport {
    pub buttons: MouseButtons,
    pub x_delta: i8,
    pub y_delta: i8,
}

/// Bytes of a boot keyboard report, of a boot mouse report, and keys of a
/// keyboard report.
pub const REPORT_BYTES: usize = 8;

pub const BOOT_MOUSE_REPORT_BYTES: usize = 3;

/// A frame that a device sent: the end of its reset, or a report.
#[derive(Clone, Copy, Debug, PartialEq, Eq)]
pub enum InputFrame<'a> {
    Reset,
    Report(&'a [u8]),
}

/// Why a frame is no report of the expected kind.
#[derive(Clone, Copy, Debug, PartialEq, Eq, Structural)]
pub enum ProtocolError {
    Truncated,
    InvalidInputLength,
    NotBootKeyboardReport,
    NotBootMouseReport,
    UnexpectedReportId,
    Other(u8),
}

/// Why a keyboard report says nothing of its keys.
#[derive(Clone, Copy, Debug, PartialEq, Eq, Structural)]
pub enum DecodeError {
    Rollover,
    Other(u8),
}

/// A key that went down or up: its number, the character that it stands for, if
/// it is one, and the bytes that it sends to a terminal otherwise.
#[derive(Clone, Debug, PartialEq, Eq)]
pub struct KeyEvent {
    pub usage: u8,
    pub pressed: bool,
    pub ascii: Option<u8>,
    pub terminal: Vec<u8>,
}

/// A [`KeyEvent`] as plain data.
#[verifier::ext_equal]
pub struct KeyEventView {
    pub usage: u8,
    pub pressed: bool,
    pub ascii: Option<u8>,
    pub terminal: Seq<u8>,
}

impl View for KeyEvent {
    type V = KeyEventView;

    open spec fn view(&self) -> KeyEventView {
        KeyEventView {
            usage: self.usage,
            pressed: self.pressed,
            ascii: self.ascii,
            terminal: self.terminal@,
        }
    }
}

/// A device's mouse report, which may have a number of its own.
#[derive(Clone, Copy, Debug, PartialEq, Eq, Structural)]
pub struct MouseReport {
    pub report_id: Option<u8>,
}

/// A letter in its other case; any other byte as it is.
pub open spec fn other_case(b: u8) -> u8 {
    if 0x61 <= b <= 0x7a {
        (b - 0x20) as u8
    } else if 0x41 <= b <= 0x5a {
        (b + 0x20) as u8
    } else {
        b
    }
}

/// A character as caps lock leaves it: it swaps the case of letters and nothing
/// else.
pub fn apply_caps_lock_to_ascii(byte: u8, caps_lock: bool) -> (r: u8)
    ensures
        r == (if caps_lock {
            other_case(byte)
        } else {
            byte
        }),
{
    if !caps_lock {
        byte
    } else if 0x61 <= byte && byte <= 0x7a {
        byte - 0x20
    } else if 0x41 <= byte && byte <= 0x5a {
        byte + 0x20
    } else {
        byte
    }
}

/// What a device on the bus is.
#[derive(Clone, Copy, Debug, PartialEq, Eq, Structural)]
pub enum HidDeviceKind {
    Keyboard,
    Touchpad,
    Unknown,
}

/// A device's attention line as the kernel encodes it, and whether that
/// encoding names a GPIO interrupt.
#[derive(Clone, Copy, Debug, PartialEq, Eq, Structural)]
pub struct AttentionIrq {
    pub encoded: u32,
    pub is_gpio: bool,
}

/// One device on the bus.
#[derive(Clone, Copy, Debug, PartialEq, Eq, Structural)]
pub struct HidDeviceTopology {
    pub kind: HidDeviceKind,
    pub i2c_address: u8,
    pub hid_descriptor_register: u16,
    pub interrupt: AttentionIrq,
}

/// A controller and the devices on its bus.
#[derive(Debug)]
pub struct I2cHidBusTopology {
    pub controller_mmio_base: u64,
    pub controller_mmio_length: u64,
    pub bus_frequency_hz: u32,
    pub devices: Vec<HidDeviceTopology>,
}

/// A controller and the keyboard on its bus.
#[derive(Clone, Copy, Debug, PartialEq, Eq, Structural)]
pub struct KeyboardTopology {
    pub controller_mmio_base: u64,
    pub controller_mmio_length: u64,
    pub bus_frequency_hz: u32,
    pub i2c_address: u8,
    pub hid_descriptor_register: u16,
    pub keyboard_interrupt: AttentionIrq,
}

/// Caps lock makes capitals of small letters and small letters of capitals, and twice is not at all; no
/// other byte changes.
pub proof fn caps_lock_swaps_the_case(b: u8)
    ensures
        0x61 <= b <= 0x7a ==> other_case(b) + 0x20 == b,
        0x41 <= b <= 0x5a ==> other_case(b) == b + 0x20,
        b < 0x41 || (0x5a < b && b < 0x61) || b > 0x7a ==> other_case(b) == b,
        other_case(other_case(b)) == b,
{
}

} // verus!
