use vstd::prelude::*;

verus! {

/// The ways an inbound record can fail to parse. A parse failure drops
/// the faulty record only; the session stays usable.
#[derive(Clone, Copy, Debug, PartialEq, Eq, Structural)]
pub enum StreamFormatError {
    /// The first byte of the record is not a defined attention identifier.
    InvalidAID { aid: u8 },
    /// The record ended inside a multi-byte order.
    UnexpectedEOR,
    /// An unknown opcode, a reserved-bit violation, or an out-of-range
    /// enumerant.
    InvalidData,
}

/// The fixed 64-entry translation table that maps a 6-bit value to an
/// EBCDIC byte that stays printable through systems which convert the
/// data stream unconditionally. Every entry keeps its index in the low
/// 6 bits and has at least one of the two high bits set.
pub open spec fn spec_wcc_trans(i: u8) -> u8 {
    match i {
        0x00 => 0x40,
        0x01 => 0xc1,
        0x02 => 0xc2,
        0x03 => 0xc3,
        0x04 => 0xc4,
        0x05 => 0xc5,
        0x06 => 0xc6,
        0x07 => 0xc7,
        0x08 => 0xc8,
        0x09 => 0xc9,
        0x0a => 0x4a,
        0x0b => 0x4b,
        0x0c => 0x4c,
        0x0d => 0x4d,
        0x0e => 0x4e,
        0x0f => 0x4f,
        0x10 => 0x50,
        0x11 => 0xd1,
        0x12 => 0xd2,
        0x13 => 0xd3,
        0x14 => 0xd4,
        0x15 => 0xd5,
        0x16 => 0xd6,
        0x17 => 0xd7,
        0x18 => 0xd8,
        0x19 => 0xd9,
        0x1a => 0x5a,
        0x1b => 0x5b,
        0x1c => 0x5c,
        0x1d => 0x5d,
        0x1e => 0x5e,
        0x1f => 0x5f,
        0x20 => 0x60,
        0x21 => 0x61,
        0x22 => 0xe2,
        0x23 => 0xe3,
        0x24 => 0xe4,
        0x25 => 0xe5,
        0x26 => 0xe6,
        0x27 => 0xe7,
        0x28 => 0xe8,
        0x29 => 0xe9,
        0x2a => 0x6a,
        0x2b => 0x6b,
        0x2c => 0x6c,
        0x2d => 0x6d,
        0x2e => 0x6e,
        0x2f => 0x6f,
        0x30 => 0xf0,
        0x31 => 0xf1,
        0x32 => 0xf2,
        0x33 => 0xf3,
        0x34 => 0xf4,
        0x35 => 0xf5,
        0x36 => 0xf6,
        0x37 => 0xf7,
        0x38 => 0xf8,
        0x39 => 0xf9,
        0x3a => 0x7a,
        0x3b => 0x7b,
        0x3c => 0x7c,
        0x3d => 0x7d,
        0x3e => 0x7e,
        0x3f => 0x7f,
        _ => 0x40,
    }
}

/// The wire byte for a WCC or field-attribute value: the low 6 bits run
/// through the translation table.
pub open spec fn spec_make_printable(v: u8) -> u8 {
    spec_wcc_trans(v % 64)
}

/// Every table entry keeps its 6-bit index recoverable and is itself a
/// printable (non-control) byte.
pub proof fn lemma_wcc_trans_inverse()
    ensures
        forall|i: u8| i < 64 ==> (#[trigger] spec_wcc_trans(i)) % 64 == i,
        forall|i: u8| i < 64 ==> (#[trigger] spec_wcc_trans(i)) >= 0x40,
{
}

/// Translate a 6-bit value (the low 6 bits of `val`) to its printable
/// EBCDIC wire byte.
pub fn make_ascii_translatable(val: u8) -> (r: u8)
    ensures
        r == spec_make_printable(val),
{
    match val % 64 {
        0x00 => 0x40,
        0x01 => 0xc1,
        0x02 => 0xc2,
        0x03 => 0xc3,
        0x04 => 0xc4,
        0x05 => 0xc5,
        0x06 => 0xc6,
        0x07 => 0xc7,
        0x08 => 0xc8,
        0x09 => 0xc9,
        0x0a => 0x4a,
        0x0b => 0x4b,
        0x0c => 0x4c,
        0x0d => 0x4d,
        0x0e => 0x4e,
        0x0f => 0x4f,
        0x10 => 0x50,
        0x11 => 0xd1,
        0x12 => 0xd2,
        0x13 => 0xd3,
        0x14 => 0xd4,
        0x15 => 0xd5,
        0x16 => 0xd6,
        0x17 => 0xd7,
        0x18 => 0xd8,
        0x19 => 0xd9,
        0x1a => 0x5a,
        0x1b => 0x5b,
        0x1c => 0x5c,
        0x1d => 0x5d,
        0x1e => 0x5e,
        0x1f => 0x5f,
        0x20 => 0x60,
        0x21 => 0x61,
        0x22 => 0xe2,
        0x23 => 0xe3,
        0x24 => 0xe4,
        0x25 => 0xe5,
        0x26 => 0xe6,
        0x27 => 0xe7,
        0x28 => 0xe8,
        0x29 => 0xe9,
        0x2a => 0x6a,
        0x2b => 0x6b,
        0x2c => 0x6c,
        0x2d => 0x6d,
        0x2e => 0x6e,
        0x2f => 0x6f,
        0x30 => 0xf0,
        0x31 => 0xf1,
        0x32 => 0xf2,
        0x33 => 0xf3,
        0x34 => 0xf4,
        0x35 => 0xf5,
        0x36 => 0xf6,
        0x37 => 0xf7,
        0x38 => 0xf8,
        0x39 => 0xf9,
        0x3a => 0x7a,
        0x3b => 0x7b,
        0x3c => 0x7c,
        0x3d => 0x7d,
        0x3e => 0x7e,
        0x3f => 0x7f,
        _ => 0x40,
    }
}

/// Write Control Character flags. The two high bits are reserved and
/// supplied on the wire by the translation table.
#[derive(Clone, Copy, Debug, PartialEq, Eq, Hash, Structural)]
pub struct WCC {
    pub bits: u8,
}

impl WCC {
    pub const UNUSED: u8 = 0x80;

    pub const RESET: u8 = 0x40;

    pub const PRINT_FLAG1: u8 = 0x20;

    pub const PRINT_FLAG2: u8 = 0x10;

    pub const START_PRINTER: u8 = 0x08;

    pub const SOUND_ALARM: u8 = 0x04;

    pub const KBD_RESTORE: u8 = 0x02;

    pub const RESET_MDT: u8 = 0x01;

    /// Assemble a WCC from its flag bits.
    pub fn new(bits: u8) -> (w: WCC)
        ensures
            w.bits == bits,
    {
        WCC { bits }
    }

    /// The byte this WCC puts on the wire: its low 6 bits through the
    /// translation table.
    pub fn to_ascii_compat(self) -> (r: u8)
        ensures
            r == spec_make_printable(self.bits),
    {
        make_ascii_translatable(self.bits)
    }

    /// Recover the WCC flags from a wire byte: the table only decorates
    /// the high bits, so the low 6 bits are the flags themselves.
    pub fn from_ascii_compat(value: u8) -> (w: WCC)
        ensures
            w.bits == value % 64,
    {
        WCC { bits: value % 64 }
    }
}

/// A WCC or field-attribute value comes back intact from its printable
/// wire byte: the table only decorates the two high bits.
pub proof fn lemma_printable_round_trip(v: u8)
    requires
        v < 0x40,
    ensures
        spec_make_printable(v) % 64 == v,
{
    lemma_wcc_trans_inverse();
}

/// Per-field mode bits. Bit 0x02 is undefined for field attributes and
/// its presence on the wire is a reserved-bit violation.
#[derive(Clone, Copy, Debug, PartialEq, Eq, Hash, Structural)]
pub struct FieldAttribute {
    pub bits: u8,
}

impl FieldAttribute {
    pub const HI_1: u8 = 0x40;

    pub const HI_2: u8 = 0x80;

    pub const PROTECTED: u8 = 0x20;

    pub const NUMERIC: u8 = 0x10;

    pub const NON_DISPLAY: u8 = 0x0C;

    pub const DISPLAY_SELECTOR_PEN_DETECTABLE: u8 = 0x04;

    pub const INTENSE_SELECTOR_PEN_DETECTABLE: u8 = 0x08;

    pub const MODIFIED: u8 = 0x01;

    pub const NONE: u8 = 0x00;

    /// A bit pattern is a defined set of field-attribute flags exactly
    /// when the undefined bit 0x02 is clear.
    pub open spec fn spec_valid_bits(bits: u8) -> bool {
        (bits / 2) % 2 == 0
    }

    /// Assemble a field attribute from defined flag bits; a pattern with
    /// the undefined bit set is refused.
    pub fn from_bits(bits: u8) -> (r: Option<FieldAttribute>)
        ensures
            Self::spec_valid_bits(bits) ==> r == Some(FieldAttribute { bits }),
            !Self::spec_valid_bits(bits) ==> r is None,
    {
        if (bits / 2) % 2 == 0 {
            Some(FieldAttribute { bits })
        } else {
            None
        }
    }

    /// Whether the PROTECTED flag is set.
    pub open spec fn spec_protected(self) -> bool {
        (self.bits / 0x20) % 2 == 1
    }

    /// This attribute with the PROTECTED flag forced on or off and every
    /// other flag kept.
    pub fn with_protected(self, on: bool) -> (r: FieldAttribute)
        ensures
            r == self.spec_with_protected(on),
    {
        let already: bool = (self.bits / 0x20) % 2 == 1;
        if on && !already {
            FieldAttribute { bits: self.bits + 0x20 }
        } else if !on && already {
            FieldAttribute { bits: self.bits - 0x20 }
        } else {
            self
        }
    }

    pub open spec fn spec_with_protected(self, on: bool) -> FieldAttribute {
        if on && !self.spec_protected() {
            FieldAttribute { bits: (self.bits + 0x20) as u8 }
        } else if !on && self.spec_protected() {
            FieldAttribute { bits: (self.bits - 0x20) as u8 }
        } else {
            self
        }
    }
}

/// Field outlining flags (underline, right, overline, left).
#[derive(Clone, Copy, Debug, PartialEq, Eq, Hash, Structural)]
pub struct FieldOutline {
    pub bits: u8,
}

impl FieldOutline {
    pub const NO_OUTLINE: u8 = 0x00;

    pub const UNDERLINE: u8 = 0x01;

    pub const RIGHT: u8 = 0x02;

    pub const OVERLINE: u8 = 0x04;

    pub const LEFT: u8 = 0x08;

    /// The four defined flags are the low four bits.
    pub open spec fn spec_valid_bits(bits: u8) -> bool {
        bits < 0x10
    }

    pub fn from_bits(bits: u8) -> (r: Option<FieldOutline>)
        ensures
            Self::spec_valid_bits(bits) ==> r == Some(FieldOutline { bits }),
            !Self::spec_valid_bits(bits) ==> r is None,
    {
        if bits < 0x10 {
            Some(FieldOutline { bits })
        } else {
            None
        }
    }
}

/// Field validation flags (mandatory fill, mandatory entry, trigger).
#[derive(Clone, Copy, Debug, PartialEq, Eq, Hash, Structural)]
pub struct FieldValidation {
    pub bits: u8,
}

impl FieldValidation {
    pub const MANDATORY_FILL: u8 = 0x04;

    pub const MANDATORY_ENTRY: u8 = 0x02;

    pub const TRIGGER: u8 = 0x01;

    /// The three defined flags are the low three bits.
    pub open spec fn spec_valid_bits(bits: u8) -> bool {
        bits < 0x08
    }

    pub fn from_bits(bits: u8) -> (r: Option<FieldValidation>)
        ensures
            Self::spec_valid_bits(bits) ==> r == Some(FieldValidation { bits }),
            !Self::spec_valid_bits(bits) ==> r is None,
    {
        if bits < 0x08 {
            Some(FieldValidation { bits })
        } else {
            None
        }
    }
}

/// The 3270 extended color set.
#[derive(Clone, Copy, Debug, PartialEq, Eq, Hash, Structural)]
pub enum Color {
    Default,
    NeutralBG,
    Blue,
    Red,
    Pink,
    Green,
    Turquoise,
    Yellow,
    NeutralFG,
    Black,
    DeepBlue,
    Orange,
    Purple,
    PaleGreen,
    PaleTurquoise,
    Grey,
    White,
}

impl Color {
    /// The byte this value encodes to.
    pub open spec fn spec_byte(self) -> u8 {
        match self {
            Color::Default => 0x00,
            Color::NeutralBG => 0xf0,
            Color::Blue => 0xf1,
            Color::Red => 0xf2,
            Color::Pink => 0xf3,
            Color::Green => 0xf4,
            Color::Turquoise => 0xf5,
            Color::Yellow => 0xf6,
            Color::NeutralFG => 0xf7,
            Color::Black => 0xf8,
            Color::DeepBlue => 0xf9,
            Color::Orange => 0xfa,
            Color::Purple => 0xfb,
            Color::PaleGreen => 0xfc,
            Color::PaleTurquoise => 0xfd,
            Color::Grey => 0xfe,
            Color::White => 0xff,
        }
    }

    /// The value a byte decodes to, if any.
    pub open spec fn spec_from_byte(b: u8) -> Option<Color> {
        match b {
            0x00 => Some(Color::Default),
            0xf0 => Some(Color::NeutralBG),
            0xf1 => Some(Color::Blue),
            0xf2 => Some(Color::Red),
            0xf3 => Some(Color::Pink),
            0xf4 => Some(Color::Green),
            0xf5 => Some(Color::Turquoise),
            0xf6 => Some(Color::Yellow),
            0xf7 => Some(Color::NeutralFG),
            0xf8 => Some(Color::Black),
            0xf9 => Some(Color::DeepBlue),
            0xfa => Some(Color::Orange),
            0xfb => Some(Color::Purple),
            0xfc => Some(Color::PaleGreen),
            0xfd => Some(Color::PaleTurquoise),
            0xfe => Some(Color::Grey),
            0xff => Some(Color::White),
            _ => None,
        }
    }

    /// Encode this value as its wire byte.
    pub fn to_byte(self) -> (r: u8)
        ensures
            r == self.spec_byte(),
    {
        match self {
            Color::Default => 0x00,
            Color::NeutralBG => 0xf0,
            Color::Blue => 0xf1,
            Color::Red => 0xf2,
            Color::Pink => 0xf3,
            Color::Green => 0xf4,
            Color::Turquoise => 0xf5,
            Color::Yellow => 0xf6,
            Color::NeutralFG => 0xf7,
            Color::Black => 0xf8,
            Color::DeepBlue => 0xf9,
            Color::Orange => 0xfa,
            Color::Purple => 0xfb,
            Color::PaleGreen => 0xfc,
            Color::PaleTurquoise => 0xfd,
            Color::Grey => 0xfe,
            Color::White => 0xff,
        }
    }

    /// Decode a wire byte; unknown values are invalid data.
    pub fn try_from_byte(b: u8) -> (r: Result<Color, StreamFormatError>)
        ensures
            Self::spec_from_byte(b) is Some ==> r == Ok::<Color, StreamFormatError>(Self::spec_from_byte(b).unwrap()),
            Self::spec_from_byte(b) is None ==> r == Err::<Color, StreamFormatError>(StreamFormatError::InvalidData),
    {
        match b {
            0x00 => Ok(Color::Default),
            0xf0 => Ok(Color::NeutralBG),
            0xf1 => Ok(Color::Blue),
            0xf2 => Ok(Color::Red),
            0xf3 => Ok(Color::Pink),
            0xf4 => Ok(Color::Green),
            0xf5 => Ok(Color::Turquoise),
            0xf6 => Ok(Color::Yellow),
            0xf7 => Ok(Color::NeutralFG),
            0xf8 => Ok(Color::Black),
            0xf9 => Ok(Color::DeepBlue),
            0xfa => Ok(Color::Orange),
            0xfb => Ok(Color::Purple),
            0xfc => Ok(Color::PaleGreen),
            0xfd => Ok(Color::PaleTurquoise),
            0xfe => Ok(Color::Grey),
            0xff => Ok(Color::White),
            _ => Err(StreamFormatError::InvalidData),
        }
    }
}

/// Encoding a Color and decoding the byte gives the value back.
pub proof fn lemma_color_round_trip(v: Color)
    ensures
        Color::spec_from_byte(v.spec_byte()) == Some(v),
{
}

/// Extended field highlighting modes.
#[derive(Clone, Copy, Debug, PartialEq, Eq, Hash, Structural)]
pub enum Highlighting {
    Default,
    Normal,
    Blink,
    Reverse,
    Underscore,
}

impl Highlighting {
    /// The byte this value encodes to.
    pub open spec fn spec_byte(self) -> u8 {
        match self {
            Highlighting::Default => 0x00,
            Highlighting::Normal => 0xf0,
            Highlighting::Blink => 0xf1,
            Highlighting::Reverse => 0xf2,
            Highlighting::Underscore => 0xf4,
        }
    }

    /// The value a byte decodes to, if any.
    pub open spec fn spec_from_byte(b: u8) -> Option<Highlighting> {
        match b {
            0x00 => Some(Highlighting::Default),
            0xf0 => Some(Highlighting::Normal),
            0xf1 => Some(Highlighting::Blink),
            0xf2 => Some(Highlighting::Reverse),
            0xf4 => Some(Highlighting::Underscore),
            _ => None,
        }
    }

    /// Encode this value as its wire byte.
    pub fn to_byte(self) -> (r: u8)
        ensures
            r == self.spec_byte(),
    {
        match self {
            Highlighting::Default => 0x00,
            Highlighting::Normal => 0xf0,
            Highlighting::Blink => 0xf1,
            Highlighting::Reverse => 0xf2,
            Highlighting::Underscore => 0xf4,
        }
    }

    /// Decode a wire byte; unknown values are invalid data.
    pub fn try_from_byte(b: u8) -> (r: Result<Highlighting, StreamFormatError>)
        ensures
            Self::spec_from_byte(b) is Some ==> r == Ok::<Highlighting, StreamFormatError>(Self::spec_from_byte(b).unwrap()),
            Self::spec_from_byte(b) is None ==> r == Err::<Highlighting, StreamFormatError>(StreamFormatError::InvalidData),
    {
        match b {
            0x00 => Ok(Highlighting::Default),
            0xf0 => Ok(Highlighting::Normal),
            0xf1 => Ok(Highlighting::Blink),
            0xf2 => Ok(Highlighting::Reverse),
            0xf4 => Ok(Highlighting::Underscore),
            _ => Err(StreamFormatError::InvalidData),
        }
    }
}

/// Encoding a Highlighting and decoding the byte gives the value back.
pub proof fn lemma_highlighting_round_trip(v: Highlighting)
    ensures
        Highlighting::spec_from_byte(v.spec_byte()) == Some(v),
{
}

/// Field transparency modes.
#[derive(Clone, Copy, Debug, PartialEq, Eq, Hash, Structural)]
pub enum Transparency {
    Default,
    Or,
    Xor,
    Opaque,
}

impl Transparency {
    /// The byte this value encodes to.
    pub open spec fn spec_byte(self) -> u8 {
        match self {
            Transparency::Default => 0x00,
            Transparency::Or => 0xf0,
            Transparency::Xor => 0xf1,
            Transparency::Opaque => 0xf2,
        }
    }

    /// The value a byte decodes to, if any.
    pub open spec fn spec_from_byte(b: u8) -> Option<Transparency> {
        match b {
            0x00 => Some(Transparency::Default),
            0xf0 => Some(Transparency::Or),
            0xf1 => Some(Transparency::Xor),
            0xf2 => Some(Transparency::Opaque),
            _ => None,
        }
    }

    /// Encode this value as its wire byte.
    pub fn to_byte(self) -> (r: u8)
        ensures
            r == self.spec_byte(),
    {
        match self {
            Transparency::Default => 0x00,
            Transparency::Or => 0xf0,
            Transparency::Xor => 0xf1,
            Transparency::Opaque => 0xf2,
        }
    }

    /// Decode a wire byte; unknown values are invalid data.
    pub fn try_from_byte(b: u8) -> (r: Result<Transparency, StreamFormatError>)
        ensures
            Self::spec_from_byte(b) is Some ==> r == Ok::<Transparency, StreamFormatError>(Self::spec_from_byte(b).unwrap()),
            Self::spec_from_byte(b) is None ==> r == Err::<Transparency, StreamFormatError>(StreamFormatError::InvalidData),
    {
        match b {
            0x00 => Ok(Transparency::Default),
            0xf0 => Ok(Transparency::Or),
            0xf1 => Ok(Transparency::Xor),
            0xf2 => Ok(Transparency::Opaque),
            _ => Err(StreamFormatError::InvalidData),
        }
    }
}

/// Encoding a Transparency and decoding the byte gives the value back.
pub proof fn lemma_transparency_round_trip(v: Transparency)
    ensures
        Transparency::spec_from_byte(v.spec_byte()) == Some(v),
{
}

/// The five outbound 3270 commands.
#[derive(Clone, Copy, Debug, PartialEq, Eq, Hash, Structural)]
pub enum WriteCommandCode {
    Write,
    EraseWrite,
    EraseWriteAlternate,
    EraseAllUnprotected,
    WriteStructuredField,
}

impl WriteCommandCode {
    pub open spec fn spec_code(self) -> u8 {
        match self {
            WriteCommandCode::Write => 0xF1,
            WriteCommandCode::EraseWrite => 0xF5,
            WriteCommandCode::EraseWriteAlternate => 0x7E,
            WriteCommandCode::EraseAllUnprotected => 0x6F,
            WriteCommandCode::WriteStructuredField => 0xF3,
        }
    }

    /// The command byte that introduces an outbound record.
    pub fn to_command_code(self) -> (r: u8)
        ensures
            r == self.spec_code(),
    {
        match self {
            WriteCommandCode::Write => 0xF1,
            WriteCommandCode::EraseWrite => 0xF5,
            WriteCommandCode::EraseWriteAlternate => 0x7E,
            WriteCommandCode::EraseAllUnprotected => 0x6F,
            WriteCommandCode::WriteStructuredField => 0xF3,
        }
    }
}

/// One extended field attribute: a (type, value) pair on the wire.
#[derive(Clone, Copy, Debug, PartialEq, Eq, Hash, Structural)]
pub enum ExtendedFieldAttribute {
    /// Reset every extended attribute to its default.
    AllAttributes,
    ExtendedHighlighting(Highlighting),
    ForegroundColor(Color),
    CharacterSet(u8),
    BackgroundColor(Color),
    Transparency(Transparency),
    FieldAttribute(FieldAttribute),
    FieldValidation(FieldValidation),
    FieldOutlining(FieldOutline),
}

impl ExtendedFieldAttribute {
    /// The (type, value) byte pair this attribute encodes to. A basic
    /// field attribute runs through the printable translation table.
    pub open spec fn spec_encoded(self) -> (u8, u8) {
        match self {
            ExtendedFieldAttribute::AllAttributes => (0x00, 0x00),
            ExtendedFieldAttribute::ExtendedHighlighting(h) => (0x41, h.spec_byte()),
            ExtendedFieldAttribute::ForegroundColor(c) => (0x42, c.spec_byte()),
            ExtendedFieldAttribute::CharacterSet(cs) => (0x43, cs),
            ExtendedFieldAttribute::BackgroundColor(c) => (0x45, c.spec_byte()),
            ExtendedFieldAttribute::Transparency(t) => (0x46, t.spec_byte()),
            ExtendedFieldAttribute::FieldAttribute(fa) => (0xC0, spec_make_printable(fa.bits)),
            ExtendedFieldAttribute::FieldValidation(v) => (0xC1, v.bits),
            ExtendedFieldAttribute::FieldOutlining(o) => (0xC2, o.bits),
        }
    }

    /// The attribute a (type, value) pair decodes to, or the error.
    pub open spec fn spec_from_pair(t: u8, v: u8) -> Result<ExtendedFieldAttribute, StreamFormatError> {
        match t {
            0x00 => if v == 0x00 {
                Ok(ExtendedFieldAttribute::AllAttributes)
            } else {
                Err(StreamFormatError::InvalidData)
            },
            0x41 => match Highlighting::spec_from_byte(v) {
                Some(h) => Ok(ExtendedFieldAttribute::ExtendedHighlighting(h)),
                None => Err(StreamFormatError::InvalidData),
            },
            0x42 => match Color::spec_from_byte(v) {
                Some(c) => Ok(ExtendedFieldAttribute::ForegroundColor(c)),
                None => Err(StreamFormatError::InvalidData),
            },
            0x43 => Ok(ExtendedFieldAttribute::CharacterSet(v)),
            0x45 => match Color::spec_from_byte(v) {
                Some(c) => Ok(ExtendedFieldAttribute::BackgroundColor(c)),
                None => Err(StreamFormatError::InvalidData),
            },
            0x46 => match Transparency::spec_from_byte(v) {
                Some(tr) => Ok(ExtendedFieldAttribute::Transparency(tr)),
                None => Err(StreamFormatError::InvalidData),
            },
            0xC0 => if FieldAttribute::spec_valid_bits((v % 64) as u8) {
                Ok(ExtendedFieldAttribute::FieldAttribute(FieldAttribute { bits: (v % 64) as u8 }))
            } else {
                Err(StreamFormatError::InvalidData)
            },
            0xC1 => if FieldValidation::spec_valid_bits(v) {
                Ok(ExtendedFieldAttribute::FieldValidation(FieldValidation { bits: v }))
            } else {
                Err(StreamFormatError::InvalidData)
            },
            0xC2 => if FieldOutline::spec_valid_bits(v) {
                Ok(ExtendedFieldAttribute::FieldOutlining(FieldOutline { bits: v }))
            } else {
                Err(StreamFormatError::InvalidData)
            },
            _ => Err(StreamFormatError::InvalidData),
        }
    }

    /// Encode this attribute as its (type, value) byte pair.
    pub fn encoded(self) -> (r: (u8, u8))
        ensures
            r == self.spec_encoded(),
    {
        match self {
            ExtendedFieldAttribute::AllAttributes => (0x00, 0x00),
            ExtendedFieldAttribute::ExtendedHighlighting(h) => (0x41, h.to_byte()),
            ExtendedFieldAttribute::ForegroundColor(c) => (0x42, c.to_byte()),
            ExtendedFieldAttribute::CharacterSet(cs) => (0x43, cs),
            ExtendedFieldAttribute::BackgroundColor(c) => (0x45, c.to_byte()),
            ExtendedFieldAttribute::Transparency(t) => (0x46, t.to_byte()),
            ExtendedFieldAttribute::FieldAttribute(fa) => (0xC0, make_ascii_translatable(fa.bits)),
            ExtendedFieldAttribute::FieldValidation(v) => (0xC1, v.bits),
            ExtendedFieldAttribute::FieldOutlining(o) => (0xC2, o.bits),
        }
    }

    /// Decode a (type, value) byte pair into an attribute.
    pub fn try_from_pair(t: u8, v: u8) -> (r: Result<ExtendedFieldAttribute, StreamFormatError>)
        ensures
            r == Self::spec_from_pair(t, v),
    {
        match t {
            0x00 => if v == 0x00 {
                Ok(ExtendedFieldAttribute::AllAttributes)
            } else {
                Err(StreamFormatError::InvalidData)
            },
            0x41 => match Highlighting::try_from_byte(v) {
                Ok(h) => Ok(ExtendedFieldAttribute::ExtendedHighlighting(h)),
                Err(e) => Err(e),
            },
            0x42 => match Color::try_from_byte(v) {
                Ok(c) => Ok(ExtendedFieldAttribute::ForegroundColor(c)),
                Err(e) => Err(e),
            },
            0x43 => Ok(ExtendedFieldAttribute::CharacterSet(v)),
            0x45 => match Color::try_from_byte(v) {
                Ok(c) => Ok(ExtendedFieldAttribute::BackgroundColor(c)),
                Err(e) => Err(e),
            },
            0x46 => match Transparency::try_from_byte(v) {
                Ok(tr) => Ok(ExtendedFieldAttribute::Transparency(tr)),
                Err(e) => Err(e),
            },
            0xC0 => match FieldAttribute::from_bits(v % 64) {
                Some(fa) => Ok(ExtendedFieldAttribute::FieldAttribute(fa)),
                None => Err(StreamFormatError::InvalidData),
            },
            0xC1 => match FieldValidation::from_bits(v) {
                Some(fv) => Ok(ExtendedFieldAttribute::FieldValidation(fv)),
                None => Err(StreamFormatError::InvalidData),
            },
            0xC2 => match FieldOutline::from_bits(v) {
                Some(fo) => Ok(ExtendedFieldAttribute::FieldOutlining(fo)),
                None => Err(StreamFormatError::InvalidData),
            },
            _ => Err(StreamFormatError::InvalidData),
        }
    }

    /// An attribute round-trips through its byte pair: a basic field
    /// attribute must keep to the 6 low bits with the undefined bit
    /// clear, validation and outlining to their defined flags.
    pub open spec fn spec_wf(self) -> bool {
        match self {
            ExtendedFieldAttribute::FieldAttribute(fa) => fa.bits < 0x40
                && FieldAttribute::spec_valid_bits(fa.bits),
            ExtendedFieldAttribute::FieldValidation(v) => FieldValidation::spec_valid_bits(v.bits),
            ExtendedFieldAttribute::FieldOutlining(o) => FieldOutline::spec_valid_bits(o.bits),
            _ => true,
        }
    }
}

/// A well-formed extended attribute survives the round trip through its
/// encoded byte pair.
pub proof fn lemma_efa_round_trip(e: ExtendedFieldAttribute)
    requires
        e.spec_wf(),
    ensures
        ExtendedFieldAttribute::spec_from_pair(e.spec_encoded().0, e.spec_encoded().1) == Ok::<ExtendedFieldAttribute, StreamFormatError>(e),
{
    lemma_wcc_trans_inverse();
    match e {
        ExtendedFieldAttribute::ExtendedHighlighting(h) => lemma_highlighting_round_trip(h),
        ExtendedFieldAttribute::ForegroundColor(c) => lemma_color_round_trip(c),
        ExtendedFieldAttribute::BackgroundColor(c) => lemma_color_round_trip(c),
        ExtendedFieldAttribute::Transparency(t) => lemma_transparency_round_trip(t),
        _ => (),
    }
}

/// Encode and decode cell positions on a rectangular screen buffer.
#[derive(Clone, Copy, Debug, PartialEq, Eq, Structural)]
pub struct BufferAddressCalculator {
    pub width: u16,
    pub height: u16,
}

impl BufferAddressCalculator {
    /// A usable geometry: at least one cell, and every address fits the
    /// 14-bit outbound encoding.
    pub open spec fn spec_wf(self) -> bool {
        0 < self.width && 0 < self.height && self.width * self.height <= 0x4000
    }

    /// The buffer address of the cell at row `y`, column `x`.
    pub fn encode_address(self, y: u16, x: u16) -> (addr: u16)
        requires
            self.spec_wf(),
            y < self.height,
            x < self.width,
        ensures
            addr == y * self.width + x,
            addr < self.width * self.height,
    {
        proof {
            assert(y * self.width + x < self.width * self.height) by (nonlinear_arith)
                requires
                    y < self.height,
                    x < self.width,
                    0 < self.width,
            {}
        }
        y * self.width + x
    }

    /// The address of the bottom-right cell.
    pub fn last_address(self) -> (addr: u16)
        requires
            self.spec_wf(),
        ensures
            addr == self.width * self.height - 1,
    {
        proof {
            assert(1 <= self.width * self.height) by (nonlinear_arith)
                requires
                    0 < self.width,
                    0 < self.height,
            {}
        }
        self.width * self.height - 1
    }

    /// The (row, column) of a buffer address.
    pub fn decode_address(self, addr: u16) -> (rc: (u16, u16))
        requires
            0 < self.width,
        ensures
            rc.0 == addr / self.width,
            rc.1 == addr % self.width,
    {
        (addr / self.width, addr % self.width)
    }

    /// Decoding an encoded cell position gives the position back, for
    /// every row under the height and column under the width.
    pub proof fn lemma_address_round_trip(self, y: u16, x: u16)
        requires
            self.spec_wf(),
            y < self.height,
            x < self.width,
        ensures
            (y * self.width + x) as int / self.width as int == y,
            (y * self.width + x) as int % self.width as int == x,
    {
        assert((y * self.width + x) as int == y as int * self.width as int + x as int)
            by (nonlinear_arith)
            requires
                y < self.height,
                x < self.width,
                0 < self.width,
                self.width * self.height <= 0x4000,
        {}
        vstd::arithmetic::div_mod::lemma_fundamental_div_mod_converse(
            (y * self.width + x) as int,
            self.width as int,
            y as int,
            x as int,
        );
    }
}

/// Attention identifiers: the key that caused an inbound record.
#[derive(Clone, Copy, Debug, PartialEq, Eq, PartialOrd, Ord, Hash, Structural)]
pub enum AID {
    NoAIDGenerated,
    NoAIDGeneratedPrinter,
    StructuredField,
    ReadPartition,
    TriggerAction,
    SysReq,
    PF1,
    PF2,
    PF3,
    PF4,
    PF5,
    PF6,
    PF7,
    PF8,
    PF9,
    PF10,
    PF11,
    PF12,
    PF13,
    PF14,
    PF15,
    PF16,
    PF17,
    PF18,
    PF19,
    PF20,
    PF21,
    PF22,
    PF23,
    PF24,
    PA1,
    PA2,
    PA3,
    Clear,
    ClearPartition,
    Enter,
    SelectorPenAttention,
    MagReaderOperatorID,
    MagReaderNumber,
}

impl AID {
    /// The byte each attention identifier travels as.
    pub open spec fn spec_byte(self) -> u8 {
        match self {
            AID::NoAIDGenerated => 0x60,
            AID::NoAIDGeneratedPrinter => 0xe8,
            AID::StructuredField => 0x88,
            AID::ReadPartition => 0x61,
            AID::TriggerAction => 0x7f,
            AID::SysReq => 0xf0,
            AID::PF1 => 0xf1,
            AID::PF2 => 0xf2,
            AID::PF3 => 0xf3,
            AID::PF4 => 0xf4,
            AID::PF5 => 0xf5,
            AID::PF6 => 0xf6,
            AID::PF7 => 0xf7,
            AID::PF8 => 0xf8,
            AID::PF9 => 0xf9,
            AID::PF10 => 0x7a,
            AID::PF11 => 0x7b,
            AID::PF12 => 0x7c,
            AID::PF13 => 0xc1,
            AID::PF14 => 0xc2,
            AID::PF15 => 0xc3,
            AID::PF16 => 0xc4,
            AID::PF17 => 0xc5,
            AID::PF18 => 0xc6,
            AID::PF19 => 0xc7,
            AID::PF20 => 0xc8,
            AID::PF21 => 0xc9,
            AID::PF22 => 0x4a,
            AID::PF23 => 0x4b,
            AID::PF24 => 0x4c,
            AID::PA1 => 0x6c,
            AID::PA2 => 0x6e,
            AID::PA3 => 0x6b,
            AID::Clear => 0x6d,
            AID::ClearPartition => 0x6a,
            AID::Enter => 0x7d,
            AID::SelectorPenAttention => 0x7e,
            AID::MagReaderOperatorID => 0xe6,
            AID::MagReaderNumber => 0xe7,
        }
    }

    /// The attention identifier a byte decodes to, if it is one of the
    /// 39 defined values.
    pub open spec fn spec_from_byte(b: u8) -> Option<AID> {
        match b {
            0x60 => Some(AID::NoAIDGenerated),
            0xe8 => Some(AID::NoAIDGeneratedPrinter),
            0x88 => Some(AID::StructuredField),
            0x61 => Some(AID::ReadPartition),
            0x7f => Some(AID::TriggerAction),
            0xf0 => Some(AID::SysReq),
            0xf1 => Some(AID::PF1),
            0xf2 => Some(AID::PF2),
            0xf3 => Some(AID::PF3),
            0xf4 => Some(AID::PF4),
            0xf5 => Some(AID::PF5),
            0xf6 => Some(AID::PF6),
            0xf7 => Some(AID::PF7),
            0xf8 => Some(AID::PF8),
            0xf9 => Some(AID::PF9),
            0x7a => Some(AID::PF10),
            0x7b => Some(AID::PF11),
            0x7c => Some(AID::PF12),
            0xc1 => Some(AID::PF13),
            0xc2 => Some(AID::PF14),
            0xc3 => Some(AID::PF15),
            0xc4 => Some(AID::PF16),
            0xc5 => Some(AID::PF17),
            0xc6 => Some(AID::PF18),
            0xc7 => Some(AID::PF19),
            0xc8 => Some(AID::PF20),
            0xc9 => Some(AID::PF21),
            0x4a => Some(AID::PF22),
            0x4b => Some(AID::PF23),
            0x4c => Some(AID::PF24),
            0x6c => Some(AID::PA1),
            0x6e => Some(AID::PA2),
            0x6b => Some(AID::PA3),
            0x6d => Some(AID::Clear),
            0x6a => Some(AID::ClearPartition),
            0x7d => Some(AID::Enter),
            0x7e => Some(AID::SelectorPenAttention),
            0xe6 => Some(AID::MagReaderOperatorID),
            0xe7 => Some(AID::MagReaderNumber),
            _ => None,
        }
    }

    /// Encode this attention identifier as its wire byte.
    pub fn to_byte(self) -> (r: u8)
        ensures
            r == self.spec_byte(),
    {
        match self {
            AID::NoAIDGenerated => 0x60,
            AID::NoAIDGeneratedPrinter => 0xe8,
            AID::StructuredField => 0x88,
            AID::ReadPartition => 0x61,
            AID::TriggerAction => 0x7f,
            AID::SysReq => 0xf0,
            AID::PF1 => 0xf1,
            AID::PF2 => 0xf2,
            AID::PF3 => 0xf3,
            AID::PF4 => 0xf4,
            AID::PF5 => 0xf5,
            AID::PF6 => 0xf6,
            AID::PF7 => 0xf7,
            AID::PF8 => 0xf8,
            AID::PF9 => 0xf9,
            AID::PF10 => 0x7a,
            AID::PF11 => 0x7b,
            AID::PF12 => 0x7c,
            AID::PF13 => 0xc1,
            AID::PF14 => 0xc2,
            AID::PF15 => 0xc3,
            AID::PF16 => 0xc4,
            AID::PF17 => 0xc5,
            AID::PF18 => 0xc6,
            AID::PF19 => 0xc7,
            AID::PF20 => 0xc8,
            AID::PF21 => 0xc9,
            AID::PF22 => 0x4a,
            AID::PF23 => 0x4b,
            AID::PF24 => 0x4c,
            AID::PA1 => 0x6c,
            AID::PA2 => 0x6e,
            AID::PA3 => 0x6b,
            AID::Clear => 0x6d,
            AID::ClearPartition => 0x6a,
            AID::Enter => 0x7d,
            AID::SelectorPenAttention => 0x7e,
            AID::MagReaderOperatorID => 0xe6,
            AID::MagReaderNumber => 0xe7,
        }
    }

    /// Decode a wire byte; a byte outside the 39 defined values reports
    /// itself in the error.
    pub fn try_from_byte(b: u8) -> (r: Result<AID, StreamFormatError>)
        ensures
            Self::spec_from_byte(b) is Some ==> r == Ok::<AID, StreamFormatError>(Self::spec_from_byte(b).unwrap()),
            Self::spec_from_byte(b) is None ==> r == Err::<AID, StreamFormatError>(StreamFormatError::InvalidAID { aid: b }),
    {
        match b {
            0x60 => Ok(AID::NoAIDGenerated),
            0xe8 => Ok(AID::NoAIDGeneratedPrinter),
            0x88 => Ok(AID::StructuredField),
            0x61 => Ok(AID::ReadPartition),
            0x7f => Ok(AID::TriggerAction),
            0xf0 => Ok(AID::SysReq),
            0xf1 => Ok(AID::PF1),
            0xf2 => Ok(AID::PF2),
            0xf3 => Ok(AID::PF3),
            0xf4 => Ok(AID::PF4),
            0xf5 => Ok(AID::PF5),
            0xf6 => Ok(AID::PF6),
            0xf7 => Ok(AID::PF7),
            0xf8 => Ok(AID::PF8),
            0xf9 => Ok(AID::PF9),
            0x7a => Ok(AID::PF10),
            0x7b => Ok(AID::PF11),
            0x7c => Ok(AID::PF12),
            0xc1 => Ok(AID::PF13),
            0xc2 => Ok(AID::PF14),
            0xc3 => Ok(AID::PF15),
            0xc4 => Ok(AID::PF16),
            0xc5 => Ok(AID::PF17),
            0xc6 => Ok(AID::PF18),
            0xc7 => Ok(AID::PF19),
            0xc8 => Ok(AID::PF20),
            0xc9 => Ok(AID::PF21),
            0x4a => Ok(AID::PF22),
            0x4b => Ok(AID::PF23),
            0x4c => Ok(AID::PF24),
            0x6c => Ok(AID::PA1),
            0x6e => Ok(AID::PA2),
            0x6b => Ok(AID::PA3),
            0x6d => Ok(AID::Clear),
            0x6a => Ok(AID::ClearPartition),
            0x7d => Ok(AID::Enter),
            0x7e => Ok(AID::SelectorPenAttention),
            0xe6 => Ok(AID::MagReaderOperatorID),
            0xe7 => Ok(AID::MagReaderNumber),
            _ => Err(StreamFormatError::InvalidAID { aid: b }),
        }
    }
}

/// Decoding is a left inverse of encoding on the attention identifiers,
/// so encoding is injective.
pub proof fn lemma_aid_enum_round_trip(a: AID)
    ensures
        AID::spec_from_byte(a.spec_byte()) == Some(a),
{
}

/// Encoding is a left inverse of decoding on the 39 defined bytes, so
/// byte-to-enum-to-byte is the identity there.
pub proof fn lemma_aid_byte_round_trip(b: u8)
    requires
        AID::spec_from_byte(b) is Some,
    ensures
        AID::spec_from_byte(b).unwrap().spec_byte() == b,
{
}

/// One element of a 3270 Write command body.
#[derive(Clone, Debug)]
pub enum WriteOrder {
    StartField(FieldAttribute),
    /// The attribute list must include a FieldAttribute variant.
    StartFieldExtended(Vec<ExtendedFieldAttribute>),
    SetBufferAddress(u16),
    SetAttribute(ExtendedFieldAttribute),
    ModifyField(Vec<ExtendedFieldAttribute>),
    InsertCursor(u16),
    ProgramTab,
    RepeatToAddress(u16, char),
    EraseUnprotectedToAddress(u16),
    GraphicEscape(u8),
    SendText(String),
}

/// The mathematical shape of a write order: lists as sequences, text as
/// a character sequence.
pub enum OrderView {
    StartField(FieldAttribute),
    StartFieldExtended(Seq<ExtendedFieldAttribute>),
    SetBufferAddress(u16),
    SetAttribute(ExtendedFieldAttribute),
    ModifyField(Seq<ExtendedFieldAttribute>),
    InsertCursor(u16),
    ProgramTab,
    RepeatToAddress(u16, char),
    EraseUnprotectedToAddress(u16),
    GraphicEscape(u8),
    SendText(Seq<char>),
}

impl View for WriteOrder {
    type V = OrderView;

    open spec fn view(&self) -> OrderView {
        match self {
            WriteOrder::StartField(fa) => OrderView::StartField(*fa),
            WriteOrder::StartFieldExtended(attrs) => OrderView::StartFieldExtended(attrs@),
            WriteOrder::SetBufferAddress(a) => OrderView::SetBufferAddress(*a),
            WriteOrder::SetAttribute(e) => OrderView::SetAttribute(*e),
            WriteOrder::ModifyField(attrs) => OrderView::ModifyField(attrs@),
            WriteOrder::InsertCursor(a) => OrderView::InsertCursor(*a),
            WriteOrder::ProgramTab => OrderView::ProgramTab,
            WriteOrder::RepeatToAddress(a, ch) => OrderView::RepeatToAddress(*a, *ch),
            WriteOrder::EraseUnprotectedToAddress(a) => OrderView::EraseUnprotectedToAddress(*a),
            WriteOrder::GraphicEscape(b) => OrderView::GraphicEscape(*b),
            WriteOrder::SendText(s) => OrderView::SendText(s@),
        }
    }
}

impl DeepView for WriteOrder {
    type V = OrderView;

    open spec fn deep_view(&self) -> OrderView {
        self.view()
    }
}

/// The flat byte pairs of an extended-attribute list.
pub open spec fn spec_serialize_pairs(attrs: Seq<ExtendedFieldAttribute>) -> Seq<u8>
    decreases attrs.len(),
{
    if attrs.len() == 0 {
        Seq::empty()
    } else {
        seq![attrs[0].spec_encoded().0, attrs[0].spec_encoded().1] + spec_serialize_pairs(
            attrs.skip(1),
        )
    }
}

pub proof fn lemma_serialize_pairs_push(attrs: Seq<ExtendedFieldAttribute>, e: ExtendedFieldAttribute)
    ensures
        spec_serialize_pairs(attrs.push(e)) == spec_serialize_pairs(attrs) + seq![
            e.spec_encoded().0,
            e.spec_encoded().1,
        ],
    decreases attrs.len(),
{
    let ghost tail: Seq<u8> = seq![e.spec_encoded().0, e.spec_encoded().1];
    if attrs.len() == 0 {
        assert(attrs.push(e).skip(1) =~= Seq::<ExtendedFieldAttribute>::empty());
        assert(spec_serialize_pairs(Seq::<ExtendedFieldAttribute>::empty())
            == Seq::<u8>::empty());
        assert(attrs.push(e)[0] == e);
        assert(spec_serialize_pairs(attrs.push(e)) =~= spec_serialize_pairs(attrs) + tail);
    } else {
        assert(attrs.push(e).skip(1) =~= attrs.skip(1).push(e));
        lemma_serialize_pairs_push(attrs.skip(1), e);
        assert(attrs.push(e)[0] == attrs[0]);
        assert(spec_serialize_pairs(attrs.push(e)) == seq![
            attrs[0].spec_encoded().0,
            attrs[0].spec_encoded().1,
        ] + (spec_serialize_pairs(attrs.skip(1)) + tail));
        assert(spec_serialize_pairs(attrs.push(e)) =~= spec_serialize_pairs(attrs) + tail);
    }
}

/// The two bytes of an outbound 14-bit buffer address, high byte first.
pub open spec fn spec_addr_bytes(a: u16) -> Seq<u8> {
    seq![(a / 256) as u8, (a % 256) as u8]
}

/// The byte encoding of one write order.
pub open spec fn spec_serialize_order(o: OrderView) -> Seq<u8> {
    match o {
        OrderView::StartField(fa) => seq![0x1Du8, spec_make_printable(fa.bits)],
        OrderView::StartFieldExtended(attrs) => seq![0x29u8, attrs.len() as u8]
            + spec_serialize_pairs(attrs),
        OrderView::SetBufferAddress(a) => seq![0x11u8] + spec_addr_bytes(a),
        OrderView::SetAttribute(e) => seq![0x28u8, e.spec_encoded().0, e.spec_encoded().1],
        OrderView::ModifyField(attrs) => seq![0x2Cu8, attrs.len() as u8] + spec_serialize_pairs(
            attrs,
        ),
        OrderView::InsertCursor(a) => seq![0x13u8] + spec_addr_bytes(a),
        OrderView::ProgramTab => seq![0x05u8],
        OrderView::RepeatToAddress(a, ch) => seq![0x3Cu8] + spec_addr_bytes(a) + seq![
            crate::encoding::encode_char_spec(ch),
        ],
        OrderView::EraseUnprotectedToAddress(a) => seq![0x12u8] + spec_addr_bytes(a),
        OrderView::GraphicEscape(b) => seq![0x08u8, b],
        OrderView::SendText(t) => crate::encoding::encode_seq(t),
    }
}

/// The byte encoding of an order sequence, in declared order.
pub open spec fn spec_serialize_orders(os: Seq<OrderView>) -> Seq<u8>
    decreases os.len(),
{
    if os.len() == 0 {
        Seq::empty()
    } else {
        spec_serialize_order(os[0]) + spec_serialize_orders(os.skip(1))
    }
}

pub proof fn lemma_serialize_orders_push(os: Seq<OrderView>, o: OrderView)
    ensures
        spec_serialize_orders(os.push(o)) == spec_serialize_orders(os) + spec_serialize_order(o),
    decreases os.len(),
{
    if os.len() == 0 {
        assert(os.push(o).skip(1) =~= Seq::<OrderView>::empty());
        assert(spec_serialize_orders(Seq::<OrderView>::empty()) == Seq::<u8>::empty());
        assert(os.push(o)[0] == o);
        assert(spec_serialize_orders(os.push(o)) =~= spec_serialize_orders(os)
            + spec_serialize_order(o));
    } else {
        assert(os.push(o).skip(1) =~= os.skip(1).push(o));
        lemma_serialize_orders_push(os.skip(1), o);
        assert(os.push(o)[0] == os[0]);
        assert(spec_serialize_orders(os.push(o)) == spec_serialize_order(os[0])
            + (spec_serialize_orders(os.skip(1)) + spec_serialize_order(o)));
        assert(spec_serialize_orders(os.push(o)) =~= spec_serialize_orders(os)
            + spec_serialize_order(o));
    }
}

/// Append the byte pairs of an attribute list to the output.
fn serialize_attr_pairs(attrs: &Vec<ExtendedFieldAttribute>, output: &mut Vec<u8>)
    ensures
        final(output)@ == old(output)@ + spec_serialize_pairs(attrs@),
{
    let ghost base: Seq<u8> = output@;
    let mut i: usize = 0;
    while i < attrs.len()
        invariant
            i <= attrs@.len(),
            output@ == base + spec_serialize_pairs(attrs@.take(i as int)),
        decreases attrs@.len() - i,
    {
        let (t, v) = attrs[i].encoded();
        output.push(t);
        output.push(v);
        proof {
            lemma_serialize_pairs_push(attrs@.take(i as int), attrs@[i as int]);
            assert(attrs@.take(i as int).push(attrs@[i as int]) =~= attrs@.take(i + 1 as int));
            assert(output@ =~= base + spec_serialize_pairs(attrs@.take(i + 1 as int)));
        }
        i = i + 1;
    }
    proof {
        assert(attrs@.take(attrs@.len() as int) =~= attrs@);
    }
}

/// Push the two bytes of a 14-bit buffer address.
fn push_addr(addr: u16, output: &mut Vec<u8>)
    ensures
        final(output)@ == old(output)@ + spec_addr_bytes(addr),
{
    output.push((addr / 256) as u8);
    output.push((addr % 256) as u8);
    proof {
        assert(output@ =~= old(output)@ + spec_addr_bytes(addr));
    }
}

impl WriteOrder {
    /// Append this order\'s byte encoding to the output.
    pub fn serialize(&self, output: &mut Vec<u8>)
        ensures
            final(output)@ == old(output)@ + spec_serialize_order(self@),
    {
        match self {
            WriteOrder::StartField(attr) => {
                output.push(0x1D);
                output.push(make_ascii_translatable(attr.bits));
                proof {
                    assert(output@ =~= old(output)@ + spec_serialize_order(self@));
                }
            },
            WriteOrder::StartFieldExtended(attrs) => {
                output.push(0x29);
                output.push(attrs.len() as u8);
                serialize_attr_pairs(attrs, output);
                proof {
                    assert(output@ =~= old(output)@ + spec_serialize_order(self@));
                }
            },
            WriteOrder::SetBufferAddress(addr) => {
                output.push(0x11);
                push_addr(*addr, output);
                proof {
                    assert(output@ =~= old(output)@ + spec_serialize_order(self@));
                }
            },
            WriteOrder::SetAttribute(attr) => {
                let (t, v) = attr.encoded();
                output.push(0x28);
                output.push(t);
                output.push(v);
                proof {
                    assert(output@ =~= old(output)@ + spec_serialize_order(self@));
                }
            },
            WriteOrder::ModifyField(attrs) => {
                output.push(0x2C);
                output.push(attrs.len() as u8);
                serialize_attr_pairs(attrs, output);
                proof {
                    assert(output@ =~= old(output)@ + spec_serialize_order(self@));
                }
            },
            WriteOrder::InsertCursor(addr) => {
                output.push(0x13);
                push_addr(*addr, output);
                proof {
                    assert(output@ =~= old(output)@ + spec_serialize_order(self@));
                }
            },
            WriteOrder::ProgramTab => {
                output.push(0x05);
                proof {
                    assert(output@ =~= old(output)@ + spec_serialize_order(self@));
                }
            },
            WriteOrder::RepeatToAddress(addr, ch) => {
                output.push(0x3C);
                push_addr(*addr, output);
                output.push(crate::encoding::to_cp037_char(*ch));
                proof {
                    assert(output@ =~= old(output)@ + spec_serialize_order(self@));
                }
            },
            WriteOrder::EraseUnprotectedToAddress(addr) => {
                output.push(0x12);
                push_addr(*addr, output);
                proof {
                    assert(output@ =~= old(output)@ + spec_serialize_order(self@));
                }
            },
            WriteOrder::GraphicEscape(ch) => {
                output.push(0x08);
                output.push(*ch);
                proof {
                    assert(output@ =~= old(output)@ + spec_serialize_order(self@));
                }
            },
            WriteOrder::SendText(text) => {
                let mut bytes: Vec<u8> = crate::encoding::to_cp037(text.as_str());
                output.append(&mut bytes);
                proof {
                    assert(output@ =~= old(output)@ + spec_serialize_order(self@));
                }
            },
        }
    }
}

/// An outbound Write command: command byte, WCC, then the orders.
#[derive(Clone, Debug)]
pub struct WriteCommand {
    pub command: WriteCommandCode,
    pub wcc: WCC,
    pub orders: Vec<WriteOrder>,
}

/// The byte encoding of a whole Write command.
pub open spec fn spec_serialize_command(c: WriteCommandCode, wcc: WCC, os: Seq<OrderView>) -> Seq<
    u8,
> {
    seq![c.spec_code(), spec_make_printable(wcc.bits)] + spec_serialize_orders(os)
}

impl WriteCommand {
    /// Append the full byte encoding of this command to the output.
    pub fn serialize(&self, output: &mut Vec<u8>)
        ensures
            final(output)@ == old(output)@ + spec_serialize_command(
                self.command,
                self.wcc,
                self.orders.deep_view(),
            ),
    {
        output.push(self.command.to_command_code());
        output.push(self.wcc.to_ascii_compat());
        let ghost base: Seq<u8> = output@;
        let mut i: usize = 0;
        while i < self.orders.len()
            invariant
                i <= self.orders@.len(),
                output@ == base + spec_serialize_orders(self.orders.deep_view().take(i as int)),
            decreases self.orders@.len() - i,
        {
            self.orders[i].serialize(output);
            proof {
                lemma_serialize_orders_push(
                    self.orders.deep_view().take(i as int),
                    self.orders.deep_view()[i as int],
                );
                assert(self.orders.deep_view().take(i as int).push(
                    self.orders.deep_view()[i as int],
                ) =~= self.orders.deep_view().take(i + 1 as int));
            }
            i = i + 1;
        }
        proof {
            assert(self.orders.deep_view().take(self.orders@.len() as int) =~= self.orders.deep_view());
            assert(output@ =~= old(output)@ + spec_serialize_command(
                self.command,
                self.wcc,
                self.orders.deep_view(),
            ));
        }
    }

    /// The full byte encoding of this command.
    pub fn to_bytes(&self) -> (r: Vec<u8>)
        ensures
            r@ == spec_serialize_command(self.command, self.wcc, self.orders.deep_view()),
    {
        let mut out: Vec<u8> = Vec::new();
        self.serialize(&mut out);
        out
    }
}

/// Decode an inbound 2-byte buffer address. The top two bits of the
/// first byte select the form: 00 is the 14-bit big-endian form, 01 and
/// 11 are the 12-bit form built from the low 6 bits of each byte, and
/// 10 is not implemented.
pub open spec fn spec_parse_addr(b0: u8, b1: u8) -> Result<u16, StreamFormatError> {
    if b0 < 0x40 {
        Ok((((b0 as int) * 256 + (b1 as int)) as u16))
    } else if b0 / 64 == 1 || b0 / 64 == 3 {
        Ok(((((b0 % 64) as int) * 64 + ((b1 % 64) as int)) as u16))
    } else {
        Err(StreamFormatError::InvalidData)
    }
}

/// Decode an inbound 2-byte buffer address.
pub fn parse_addr(b0: u8, b1: u8) -> (r: Result<u16, StreamFormatError>)
    ensures
        r == spec_parse_addr(b0, b1),
{
    if b0 < 0x40 {
        Ok((b0 as u16) * 256 + (b1 as u16))
    } else if b0 / 64 == 1 || b0 / 64 == 3 {
        Ok(((b0 % 64) as u16) * 64 + ((b1 % 64) as u16))
    } else {
        Err(StreamFormatError::InvalidData)
    }
}

/// A 14-bit address comes back intact from its two outbound bytes.
pub proof fn lemma_addr_round_trip(a: u16)
    requires
        a < 0x4000,
    ensures
        spec_parse_addr((a / 256) as u8, (a % 256) as u8) == Ok::<u16, StreamFormatError>(a),
{
}

/// The length of the text run at the head of the bytes: the count of
/// leading bytes at or above 0x40.
pub open spec fn spec_text_run_len(s: Seq<u8>) -> nat
    decreases s.len(),
{
    if s.len() == 0 || s[0] < 0x40 {
        0
    } else {
        1 + spec_text_run_len(s.skip(1))
    }
}

pub proof fn lemma_text_run_len_bounds(s: Seq<u8>)
    ensures
        spec_text_run_len(s) <= s.len(),
        s.len() > 0 && s[0] >= 0x40 ==> spec_text_run_len(s) >= 1,
    decreases s.len(),
{
    if s.len() == 0 || s[0] < 0x40 {
    } else {
        lemma_text_run_len_bounds(s.skip(1));
    }
}

/// Every byte inside the run is at or above 0x40, and the run is
/// maximal: it ends only at the end of the bytes or at a byte below
/// 0x40.
pub proof fn lemma_text_run_len_split(s: Seq<u8>, k: int)
    requires
        0 <= k <= s.len(),
        forall|j: int| 0 <= j < k ==> s[j] >= 0x40,
        k == s.len() || s[k] < 0x40,
    ensures
        spec_text_run_len(s) == k,
    decreases k,
{
    if k == 0 {
    } else {
        lemma_text_run_len_split(s.skip(1), k - 1);
    }
}

/// The characters that a text run decodes to.
pub open spec fn spec_decode_run(s: Seq<u8>, n: int) -> Seq<char> {
    Seq::new(n as nat, |k: int| crate::encoding::decode_char_spec(s[k]))
}

/// Parse `n` extended-attribute byte pairs from the head of the bytes.
pub open spec fn spec_parse_pairs(s: Seq<u8>, n: int) -> Result<
    Seq<ExtendedFieldAttribute>,
    StreamFormatError,
>
    decreases n,
{
    if n <= 0 {
        Ok(Seq::empty())
    } else if s.len() < 2 {
        Err(StreamFormatError::UnexpectedEOR)
    } else {
        match ExtendedFieldAttribute::spec_from_pair(s[0], s[1]) {
            Err(e) => Err(e),
            Ok(a) => match spec_parse_pairs(s.skip(2), n - 1) {
                Err(e) => Err(e),
                Ok(rest) => Ok(seq![a] + rest),
            },
        }
    }
}

/// Parse one order from the head of the bytes; on success the result
/// carries the order and how many bytes it consumed.
pub open spec fn spec_parse_one(s: Seq<u8>) -> Result<(OrderView, int), StreamFormatError> {
    let b0 = s[0];
    if b0 == 0x1D {
        if s.len() < 2 {
            Err(StreamFormatError::UnexpectedEOR)
        } else if FieldAttribute::spec_valid_bits((s[1] % 64) as u8) {
            Ok((OrderView::StartField(FieldAttribute { bits: (s[1] % 64) as u8 }), 2))
        } else {
            Err(StreamFormatError::InvalidData)
        }
    } else if b0 == 0x29 {
        if s.len() < 2 {
            Err(StreamFormatError::UnexpectedEOR)
        } else if s[1] == 0 {
            Err(StreamFormatError::InvalidData)
        } else if s.len() < 2 + 2 * (s[1] as int) {
            Err(StreamFormatError::UnexpectedEOR)
        } else {
            match spec_parse_pairs(s.skip(2), s[1] as int) {
                Err(e) => Err(e),
                Ok(attrs) => Ok((OrderView::StartFieldExtended(attrs), 2 + 2 * (s[1] as int))),
            }
        }
    } else if b0 == 0x11 {
        if s.len() < 3 {
            Err(StreamFormatError::UnexpectedEOR)
        } else {
            match spec_parse_addr(s[1], s[2]) {
                Err(e) => Err(e),
                Ok(a) => Ok((OrderView::SetBufferAddress(a), 3)),
            }
        }
    } else if b0 == 0x28 {
        if s.len() < 3 {
            Err(StreamFormatError::UnexpectedEOR)
        } else {
            match ExtendedFieldAttribute::spec_from_pair(s[1], s[2]) {
                Err(e) => Err(e),
                Ok(a) => Ok((OrderView::SetAttribute(a), 3)),
            }
        }
    } else if b0 == 0x2C {
        if s.len() < 2 {
            Err(StreamFormatError::UnexpectedEOR)
        } else if s.len() < 2 + 2 * (s[1] as int) {
            Err(StreamFormatError::UnexpectedEOR)
        } else {
            match spec_parse_pairs(s.skip(2), s[1] as int) {
                Err(e) => Err(e),
                Ok(attrs) => Ok((OrderView::ModifyField(attrs), 2 + 2 * (s[1] as int))),
            }
        }
    } else if b0 == 0x13 {
        if s.len() < 3 {
            Err(StreamFormatError::UnexpectedEOR)
        } else {
            match spec_parse_addr(s[1], s[2]) {
                Err(e) => Err(e),
                Ok(a) => Ok((OrderView::InsertCursor(a), 3)),
            }
        }
    } else if b0 == 0x05 {
        Ok((OrderView::ProgramTab, 1))
    } else if b0 == 0x3C {
        if s.len() < 4 {
            Err(StreamFormatError::UnexpectedEOR)
        } else {
            match spec_parse_addr(s[1], s[2]) {
                Err(e) => Err(e),
                Ok(a) => Ok(
                    (OrderView::RepeatToAddress(a, crate::encoding::decode_char_spec(s[3])), 4),
                ),
            }
        }
    } else if b0 == 0x12 {
        if s.len() < 3 {
            Err(StreamFormatError::UnexpectedEOR)
        } else {
            match spec_parse_addr(s[1], s[2]) {
                Err(e) => Err(e),
                Ok(a) => Ok((OrderView::EraseUnprotectedToAddress(a), 3)),
            }
        }
    } else if b0 == 0x08 {
        if s.len() < 2 {
            Err(StreamFormatError::UnexpectedEOR)
        } else {
            Ok((OrderView::GraphicEscape(s[1]), 2))
        }
    } else if b0 >= 0x40 {
        Ok(
            (
                OrderView::SendText(spec_decode_run(s, spec_text_run_len(s) as int)),
                spec_text_run_len(s) as int,
            ),
        )
    } else {
        Err(StreamFormatError::InvalidData)
    }
}

/// On success the consumed count is at least one byte and no more than
/// what is there.
pub proof fn lemma_parse_one_bounds(s: Seq<u8>)
    requires
        s.len() > 0,
    ensures
        spec_parse_one(s) matches Ok(on) ==> 1 <= on.1 <= s.len(),
{
    lemma_text_run_len_bounds(s);
}

/// Parse the whole order stream at the head of the bytes.
pub open spec fn spec_parse_orders(s: Seq<u8>) -> Result<Seq<OrderView>, StreamFormatError>
    decreases s.len(),
    via spec_parse_orders_decreases
{
    if s.len() == 0 {
        Ok(Seq::empty())
    } else {
        match spec_parse_one(s) {
            Err(e) => Err(e),
            Ok((o, n)) => match spec_parse_orders(s.skip(n)) {
                Err(e) => Err(e),
                Ok(rest) => Ok(seq![o] + rest),
            },
        }
    }
}

#[via_fn]
proof fn spec_parse_orders_decreases(s: Seq<u8>) {
    if s.len() > 0 {
        lemma_parse_one_bounds(s);
    }
}

/// Whether an order-stream parse result agrees with the specification
/// parser on the given bytes.
pub open spec fn parse_orders_matches(
    s: Seq<u8>,
    r: Result<Vec<WriteOrder>, StreamFormatError>,
) -> bool {
    match r {
        Ok(v) => spec_parse_orders(s) == Ok::<Seq<OrderView>, StreamFormatError>(v.deep_view()),
        Err(e) => spec_parse_orders(s) == Err::<Seq<OrderView>, StreamFormatError>(e),
    }
}

/// Parse `count` extended-attribute pairs beginning at `start`.
fn parse_attr_pairs(bytes: &[u8], start: usize, count: usize) -> (r: Result<
    Vec<ExtendedFieldAttribute>,
    StreamFormatError,
>)
    requires
        start + 2 * count <= bytes@.len(),
    ensures
        match r {
            Ok(v) => spec_parse_pairs(bytes@.skip(start as int), count as int)
                == Ok::<Seq<ExtendedFieldAttribute>, StreamFormatError>(v@),
            Err(e) => spec_parse_pairs(bytes@.skip(start as int), count as int)
                == Err::<Seq<ExtendedFieldAttribute>, StreamFormatError>(e),
        },
{
    let blen: usize = bytes.len();
    let mut attrs: Vec<ExtendedFieldAttribute> = Vec::new();
    let mut pos: usize = start;
    let mut k: usize = 0;
    while k < count
        invariant
            k <= count,
            pos == start + 2 * k,
            start + 2 * count <= blen,
            blen == bytes@.len(),
            attrs@.len() == k,
            ({
                match spec_parse_pairs(bytes@.skip(pos as int), count - k) {
                    Ok(rest) => spec_parse_pairs(bytes@.skip(start as int), count as int)
                        == Ok::<Seq<ExtendedFieldAttribute>, StreamFormatError>(attrs@ + rest),
                    Err(e) => spec_parse_pairs(bytes@.skip(start as int), count as int)
                        == Err::<Seq<ExtendedFieldAttribute>, StreamFormatError>(e),
                }
            }),
        decreases count - k,
    {
        let ghost tail: Seq<u8> = bytes@.skip(pos as int);
        proof {
            assert(tail.len() >= 2);
            assert(tail[0] == bytes@[pos as int]);
            assert(tail[1] == bytes@[pos as int + 1]);
            assert(tail.skip(2) =~= bytes@.skip(pos as int + 2));
        }
        let t: u8 = bytes[pos];
        let v: u8 = bytes[pos + 1];
        match ExtendedFieldAttribute::try_from_pair(t, v) {
            Err(e) => {
                return Err(e);
            },
            Ok(a) => {
                proof {
                    match spec_parse_pairs(bytes@.skip(pos as int + 2), count - k - 1) {
                        Ok(rest) => {
                            assert(attrs@ + (seq![a] + rest) =~= attrs@.push(a) + rest);
                        },
                        Err(_) => {},
                    }
                }
                attrs.push(a);
                pos = pos + 2;
                k = k + 1;
            },
        }
    }
    proof {
        assert(spec_parse_pairs(bytes@.skip(pos as int), 0) == Ok::<
            Seq<ExtendedFieldAttribute>,
            StreamFormatError,
        >(Seq::empty()));
        assert(attrs@ + Seq::<ExtendedFieldAttribute>::empty() =~= attrs@);
    }
    Ok(attrs)
}

/// Parse the order stream that begins at `start` and runs to the end of
/// the record.
pub fn parse_orders(bytes: &[u8], start: usize) -> (r: Result<Vec<WriteOrder>, StreamFormatError>)
    requires
        start <= bytes@.len(),
    ensures
        parse_orders_matches(bytes@.skip(start as int), r),
{
    let len: usize = bytes.len();
    let mut orders: Vec<WriteOrder> = Vec::new();
    let mut i: usize = start;
    while i < len
        invariant
            start <= i <= len,
            len == bytes@.len(),
            ({
                match spec_parse_orders(bytes@.skip(i as int)) {
                    Ok(rest) => spec_parse_orders(bytes@.skip(start as int)) == Ok::<
                        Seq<OrderView>,
                        StreamFormatError,
                    >(orders.deep_view() + rest),
                    Err(e) => spec_parse_orders(bytes@.skip(start as int)) == Err::<
                        Seq<OrderView>,
                        StreamFormatError,
                    >(e),
                }
            }),
        decreases len - i,
    {
        let ghost s: Seq<u8> = bytes@.skip(i as int);
        proof {
            assert(s.len() == len - i);
            assert(forall|j: int| 0 <= j < s.len() ==> s[j] == bytes@[i + j]);
        }
        let b0: u8 = bytes[i];
        let parsed: (WriteOrder, usize) = if b0 == 0x1D {
            if len - i < 2 {
                proof { lemma_parse_step_err(bytes@, start as int, i as int, orders.deep_view(), StreamFormatError::UnexpectedEOR); }
                return Err(StreamFormatError::UnexpectedEOR);
            }
            match FieldAttribute::from_bits(bytes[i + 1] % 64) {
                Some(fa) => (WriteOrder::StartField(fa), 2),
                None => {
                    proof { lemma_parse_step_err(bytes@, start as int, i as int, orders.deep_view(), StreamFormatError::InvalidData); }
                    return Err(StreamFormatError::InvalidData);
                },
            }
        } else if b0 == 0x29 {
            if len - i < 2 {
                proof { lemma_parse_step_err(bytes@, start as int, i as int, orders.deep_view(), StreamFormatError::UnexpectedEOR); }
                return Err(StreamFormatError::UnexpectedEOR);
            }
            let count: usize = bytes[i + 1] as usize;
            if count == 0 {
                proof { lemma_parse_step_err(bytes@, start as int, i as int, orders.deep_view(), StreamFormatError::InvalidData); }
                return Err(StreamFormatError::InvalidData);
            }
            if len - i - 2 < 2 * count {
                proof { lemma_parse_step_err(bytes@, start as int, i as int, orders.deep_view(), StreamFormatError::UnexpectedEOR); }
                return Err(StreamFormatError::UnexpectedEOR);
            }
            proof {
                assert(bytes@.skip(i + 2) =~= s.skip(2));
            }
            match parse_attr_pairs(bytes, i + 2, count) {
                Err(e) => {
                    proof { lemma_parse_step_err(bytes@, start as int, i as int, orders.deep_view(), e); }
                    return Err(e);
                },
                Ok(attrs) => (WriteOrder::StartFieldExtended(attrs), 2 + 2 * count),
            }
        } else if b0 == 0x11 {
            if len - i < 3 {
                proof { lemma_parse_step_err(bytes@, start as int, i as int, orders.deep_view(), StreamFormatError::UnexpectedEOR); }
                return Err(StreamFormatError::UnexpectedEOR);
            }
            match parse_addr(bytes[i + 1], bytes[i + 2]) {
                Err(e) => {
                    proof { lemma_parse_step_err(bytes@, start as int, i as int, orders.deep_view(), e); }
                    return Err(e);
                },
                Ok(a) => (WriteOrder::SetBufferAddress(a), 3),
            }
        } else if b0 == 0x28 {
            if len - i < 3 {
                proof { lemma_parse_step_err(bytes@, start as int, i as int, orders.deep_view(), StreamFormatError::UnexpectedEOR); }
                return Err(StreamFormatError::UnexpectedEOR);
            }
            match ExtendedFieldAttribute::try_from_pair(bytes[i + 1], bytes[i + 2]) {
                Err(e) => {
                    proof { lemma_parse_step_err(bytes@, start as int, i as int, orders.deep_view(), e); }
                    return Err(e);
                },
                Ok(a) => (WriteOrder::SetAttribute(a), 3),
            }
        } else if b0 == 0x2C {
            if len - i < 2 {
                proof { lemma_parse_step_err(bytes@, start as int, i as int, orders.deep_view(), StreamFormatError::UnexpectedEOR); }
                return Err(StreamFormatError::UnexpectedEOR);
            }
            let count: usize = bytes[i + 1] as usize;
            if len - i - 2 < 2 * count {
                proof { lemma_parse_step_err(bytes@, start as int, i as int, orders.deep_view(), StreamFormatError::UnexpectedEOR); }
                return Err(StreamFormatError::UnexpectedEOR);
            }
            proof {
                assert(bytes@.skip(i + 2) =~= s.skip(2));
            }
            match parse_attr_pairs(bytes, i + 2, count) {
                Err(e) => {
                    proof { lemma_parse_step_err(bytes@, start as int, i as int, orders.deep_view(), e); }
                    return Err(e);
                },
                Ok(attrs) => (WriteOrder::ModifyField(attrs), 2 + 2 * count),
            }
        } else if b0 == 0x13 {
            if len - i < 3 {
                proof { lemma_parse_step_err(bytes@, start as int, i as int, orders.deep_view(), StreamFormatError::UnexpectedEOR); }
                return Err(StreamFormatError::UnexpectedEOR);
            }
            match parse_addr(bytes[i + 1], bytes[i + 2]) {
                Err(e) => {
                    proof { lemma_parse_step_err(bytes@, start as int, i as int, orders.deep_view(), e); }
                    return Err(e);
                },
                Ok(a) => (WriteOrder::InsertCursor(a), 3),
            }
        } else if b0 == 0x05 {
            (WriteOrder::ProgramTab, 1)
        } else if b0 == 0x3C {
            if len - i < 4 {
                proof { lemma_parse_step_err(bytes@, start as int, i as int, orders.deep_view(), StreamFormatError::UnexpectedEOR); }
                return Err(StreamFormatError::UnexpectedEOR);
            }
            match parse_addr(bytes[i + 1], bytes[i + 2]) {
                Err(e) => {
                    proof { lemma_parse_step_err(bytes@, start as int, i as int, orders.deep_view(), e); }
                    return Err(e);
                },
                Ok(a) => (
                    WriteOrder::RepeatToAddress(a, crate::encoding::from_cp037(bytes[i + 3])),
                    4,
                ),
            }
        } else if b0 == 0x12 {
            if len - i < 3 {
                proof { lemma_parse_step_err(bytes@, start as int, i as int, orders.deep_view(), StreamFormatError::UnexpectedEOR); }
                return Err(StreamFormatError::UnexpectedEOR);
            }
            match parse_addr(bytes[i + 1], bytes[i + 2]) {
                Err(e) => {
                    proof { lemma_parse_step_err(bytes@, start as int, i as int, orders.deep_view(), e); }
                    return Err(e);
                },
                Ok(a) => (WriteOrder::EraseUnprotectedToAddress(a), 3),
            }
        } else if b0 == 0x08 {
            if len - i < 2 {
                proof { lemma_parse_step_err(bytes@, start as int, i as int, orders.deep_view(), StreamFormatError::UnexpectedEOR); }
                return Err(StreamFormatError::UnexpectedEOR);
            }
            (WriteOrder::GraphicEscape(bytes[i + 1]), 2)
        } else if b0 >= 0x40 {
            let mut j: usize = i;
            while j < len && bytes[j] >= 0x40
                invariant
                    i <= j <= len,
                    len == bytes@.len(),
                    forall|q: int| i <= q < j ==> bytes@[q] >= 0x40,
                decreases len - j,
            {
                j = j + 1;
            }
            proof {
                lemma_text_run_len_split(s, j - i);
            }
            let mut text: String = String::new();
            let mut k: usize = i;
            while k < j
                invariant
                    i <= k <= j <= len,
                    len == bytes@.len(),
                    text@.len() == k - i,
                    forall|q: int| 0 <= q < k - i ==> text@[q]
                        == crate::encoding::decode_char_spec(bytes@[i + q]),
                decreases j - k,
            {
                let c: char = crate::encoding::from_cp037(bytes[k]);
                crate::encoding::push_char(&mut text, c);
                k = k + 1;
            }
            proof {
                assert(text@ =~= spec_decode_run(s, (j - i) as int));
            }
            (WriteOrder::SendText(text), j - i)
        } else {
            proof { lemma_parse_step_err(bytes@, start as int, i as int, orders.deep_view(), StreamFormatError::InvalidData); }
            return Err(StreamFormatError::InvalidData);
        };
        let (order, n) = parsed;
        let ghost prev: Seq<OrderView> = orders.deep_view();
        proof {
            assert(spec_parse_one(s) == Ok::<(OrderView, int), StreamFormatError>((order@, n as int)));
            lemma_parse_step_ok(bytes@, start as int, i as int, prev, order@, n as int);
        }
        orders.push(order);
        i = i + n;
        proof {
            assert(orders.deep_view() =~= prev.push(order@));
        }
    }
    proof {
        assert(bytes@.skip(i as int) =~= Seq::<u8>::empty());
        assert(spec_parse_orders(Seq::<u8>::empty()) == Ok::<Seq<OrderView>, StreamFormatError>(
            Seq::empty(),
        ));
        assert(orders.deep_view() + Seq::<OrderView>::empty() =~= orders.deep_view());
    }
    Ok(orders)
}

/// A parse error at the current position is the error of the whole
/// stream parse.
proof fn lemma_parse_step_err(
    b: Seq<u8>,
    start: int,
    i: int,
    prefix: Seq<OrderView>,
    e: StreamFormatError,
)
    requires
        0 <= start <= i < b.len(),
        spec_parse_one(b.skip(i)) == Err::<(OrderView, int), StreamFormatError>(e)
            || (spec_parse_orders(b.skip(i)) == Err::<Seq<OrderView>, StreamFormatError>(e)),
        ({
            match spec_parse_orders(b.skip(i)) {
                Ok(rest) => spec_parse_orders(b.skip(start)) == Ok::<
                    Seq<OrderView>,
                    StreamFormatError,
                >(prefix + rest),
                Err(e2) => spec_parse_orders(b.skip(start)) == Err::<
                    Seq<OrderView>,
                    StreamFormatError,
                >(e2),
            }
        }),
    ensures
        spec_parse_orders(b.skip(start)) == Err::<Seq<OrderView>, StreamFormatError>(e),
{
}

/// Consuming one parsed order advances the stream parse by that order.
proof fn lemma_parse_step_ok(
    b: Seq<u8>,
    start: int,
    i: int,
    prefix: Seq<OrderView>,
    o: OrderView,
    n: int,
)
    requires
        0 <= start <= i < b.len(),
        1 <= n <= b.len() - i,
        spec_parse_one(b.skip(i)) == Ok::<(OrderView, int), StreamFormatError>((o, n)),
        ({
            match spec_parse_orders(b.skip(i)) {
                Ok(rest) => spec_parse_orders(b.skip(start)) == Ok::<
                    Seq<OrderView>,
                    StreamFormatError,
                >(prefix + rest),
                Err(e2) => spec_parse_orders(b.skip(start)) == Err::<
                    Seq<OrderView>,
                    StreamFormatError,
                >(e2),
            }
        }),
    ensures
        ({
            match spec_parse_orders(b.skip(i + n)) {
                Ok(rest) => spec_parse_orders(b.skip(start)) == Ok::<
                    Seq<OrderView>,
                    StreamFormatError,
                >(prefix.push(o) + rest),
                Err(e2) => spec_parse_orders(b.skip(start)) == Err::<
                    Seq<OrderView>,
                    StreamFormatError,
                >(e2),
            }
        }),
{
    assert(b.skip(i).skip(n) =~= b.skip(i + n));
    match spec_parse_orders(b.skip(i + n)) {
        Ok(rest) => {
            assert(spec_parse_orders(b.skip(i)) == Ok::<Seq<OrderView>, StreamFormatError>(
                seq![o] + rest,
            ));
            assert(prefix + (seq![o] + rest) =~= prefix.push(o) + rest);
        },
        Err(e2) => {},
    }
}

/// An inbound record: attention identifier, cursor address, and the
/// orders the client sent back.
#[derive(Clone, Debug)]
pub struct IncomingRecord {
    pub aid: AID,
    pub addr: u16,
    pub orders: Vec<WriteOrder>,
}

/// The mathematical shape of an inbound record.
pub struct RecordView {
    pub aid: AID,
    pub addr: u16,
    pub orders: Seq<OrderView>,
}

impl View for IncomingRecord {
    type V = RecordView;

    open spec fn view(&self) -> RecordView {
        RecordView { aid: self.aid, addr: self.addr, orders: self.orders.deep_view() }
    }
}

/// Parse a whole inbound record: the attention identifier, the 2-byte
/// cursor address, then the order stream.
pub open spec fn spec_parse_record(s: Seq<u8>) -> Result<RecordView, StreamFormatError> {
    if s.len() < 3 {
        Err(StreamFormatError::UnexpectedEOR)
    } else {
        match AID::spec_from_byte(s[0]) {
            None => Err(StreamFormatError::InvalidAID { aid: s[0] }),
            Some(aid) => match spec_parse_addr(s[1], s[2]) {
                Err(e) => Err(e),
                Ok(addr) => match spec_parse_orders(s.skip(3)) {
                    Err(e) => Err(e),
                    Ok(orders) => Ok(RecordView { aid, addr, orders }),
                },
            },
        }
    }
}

impl IncomingRecord {
    /// Parse one inbound record. A failure reports a typed error and
    /// leaves the caller free to parse the next record.
    pub fn parse_record(record: &[u8]) -> (r: Result<IncomingRecord, StreamFormatError>)
        ensures
            match r {
                Ok(rec) => spec_parse_record(record@) == Ok::<RecordView, StreamFormatError>(rec@),
                Err(e) => spec_parse_record(record@) == Err::<RecordView, StreamFormatError>(e),
            },
    {
        if record.len() < 3 {
            return Err(StreamFormatError::UnexpectedEOR);
        }
        let aid: AID = match AID::try_from_byte(record[0]) {
            Err(e) => {
                return Err(e);
            },
            Ok(aid) => aid,
        };
        let addr: u16 = match parse_addr(record[1], record[2]) {
            Err(e) => {
                return Err(e);
            },
            Ok(addr) => addr,
        };
        match parse_orders(record, 3) {
            Err(e) => Err(e),
            Ok(orders) => Ok(IncomingRecord { aid, addr, orders }),
        }
    }
}

/// A record that can be sent to the client, together with the shape of
/// the reply it solicits.
pub trait OutputRecord {
    type Response;

    /// The full wire bytes of this record, before telnet framing.
    fn record_bytes(&self) -> Vec<u8>;
}

impl OutputRecord for WriteCommand {
    type Response = IncomingRecord;

    fn record_bytes(&self) -> Vec<u8> {
        self.to_bytes()
    }
}

/// The text and order count of the run of SendText orders at the head
/// of the sequence.
pub open spec fn spec_text_prefix(os: Seq<OrderView>) -> (Seq<char>, int)
    decreases os.len(),
{
    if os.len() == 0 {
        (Seq::empty(), 0)
    } else {
        match os[0] {
            OrderView::SendText(t) => {
                let (rest, k) = spec_text_prefix(os.skip(1));
                (t + rest, k + 1)
            },
            _ => (Seq::empty(), 0),
        }
    }
}

pub proof fn lemma_text_prefix_bounds(os: Seq<OrderView>)
    ensures
        0 <= spec_text_prefix(os).1 <= os.len(),
        os.len() > 0 && os[0] is SendText ==> spec_text_prefix(os).1 >= 1,
        spec_text_prefix(os).1 < os.len() ==> !(os[spec_text_prefix(os).1] is SendText),
    decreases os.len(),
{
    if os.len() > 0 && os[0] is SendText {
        lemma_text_prefix_bounds(os.skip(1));
    }
}

/// The shape an order sequence takes after one pass through the codec:
/// runs of SendText orders coalesce into one, and empty SendText orders
/// disappear. Every other order is kept as it stands.
pub open spec fn spec_normalize(os: Seq<OrderView>) -> Seq<OrderView>
    decreases os.len(),
    via spec_normalize_decreases
{
    if os.len() == 0 {
        Seq::empty()
    } else if os[0] is SendText {
        let (txt, k) = spec_text_prefix(os);
        if txt.len() == 0 {
            spec_normalize(os.skip(k))
        } else {
            seq![OrderView::SendText(txt)] + spec_normalize(os.skip(k))
        }
    } else {
        seq![os[0]] + spec_normalize(os.skip(1))
    }
}

#[via_fn]
proof fn spec_normalize_decreases(os: Seq<OrderView>) {
    lemma_text_prefix_bounds(os);
}

/// The orders that survive one pass through the codec unchanged: the
/// conditions under which serializing and parsing is lossless. Basic
/// field attributes keep to their 6 defined bits, extended-attribute
/// lists fit the one-byte count, every StartFieldExtended includes a
/// FieldAttribute entry, addresses fit the 14-bit outbound form, and
/// every character is CP037-representable.
pub open spec fn spec_wf_order(o: OrderView) -> bool {
    match o {
        OrderView::StartField(fa) => fa.bits < 0x40 && FieldAttribute::spec_valid_bits(fa.bits),
        OrderView::StartFieldExtended(attrs) => attrs.len() <= 255 && (exists|i: int|
            0 <= i < attrs.len() && attrs[i] is FieldAttribute) && (forall|i: int|
            0 <= i < attrs.len() ==> (#[trigger] attrs[i]).spec_wf()),
        OrderView::SetBufferAddress(a) => a < 0x4000,
        OrderView::SetAttribute(e) => e.spec_wf(),
        OrderView::ModifyField(attrs) => attrs.len() <= 255 && (forall|i: int|
            0 <= i < attrs.len() ==> (#[trigger] attrs[i]).spec_wf()),
        OrderView::InsertCursor(a) => a < 0x4000,
        OrderView::ProgramTab => true,
        OrderView::RepeatToAddress(a, ch) => a < 0x4000 && crate::encoding::representable(ch),
        OrderView::EraseUnprotectedToAddress(a) => a < 0x4000,
        OrderView::GraphicEscape(_) => true,
        OrderView::SendText(t) => forall|i: int|
            0 <= i < t.len() ==> crate::encoding::representable(#[trigger] t[i]),
    }
}

/// An attribute list serializes to two bytes per entry.
proof fn lemma_serialize_pairs_len(attrs: Seq<ExtendedFieldAttribute>)
    ensures
        spec_serialize_pairs(attrs).len() == 2 * attrs.len(),
    decreases attrs.len(),
{
    if attrs.len() > 0 {
        lemma_serialize_pairs_len(attrs.skip(1));
    }
}

/// Parsing the serialized byte pairs of a well-formed attribute list
/// gives the list back, whatever follows the pairs.
proof fn lemma_parse_pairs_serialized(attrs: Seq<ExtendedFieldAttribute>, tail: Seq<u8>)
    requires
        forall|i: int| 0 <= i < attrs.len() ==> (#[trigger] attrs[i]).spec_wf(),
    ensures
        spec_parse_pairs(spec_serialize_pairs(attrs) + tail, attrs.len() as int) == Ok::<
            Seq<ExtendedFieldAttribute>,
            StreamFormatError,
        >(attrs),
    decreases attrs.len(),
{
    lemma_serialize_pairs_len(attrs);
    if attrs.len() == 0 {
        assert(spec_parse_pairs(spec_serialize_pairs(attrs) + tail, 0) == Ok::<
            Seq<ExtendedFieldAttribute>,
            StreamFormatError,
        >(Seq::empty()));
        assert(attrs =~= Seq::<ExtendedFieldAttribute>::empty());
    } else {
        let b = spec_serialize_pairs(attrs) + tail;
        lemma_efa_round_trip(attrs[0]);
        assert(b[0] == attrs[0].spec_encoded().0);
        assert(b[1] == attrs[0].spec_encoded().1);
        assert(b.skip(2) =~= spec_serialize_pairs(attrs.skip(1)) + tail);
        lemma_parse_pairs_serialized(attrs.skip(1), tail);
        assert(seq![attrs[0]] + attrs.skip(1) =~= attrs);
    }
}

/// Every order but SendText serializes to at least one byte, and its
/// first byte is an opcode below 0x40.
proof fn lemma_serialized_head_byte(o: OrderView)
    requires
        !(o is SendText),
    ensures
        spec_serialize_order(o).len() >= 1,
        spec_serialize_order(o)[0] < 0x40,
{
    match o {
        OrderView::StartFieldExtended(attrs) => lemma_serialize_pairs_len(attrs),
        OrderView::ModifyField(attrs) => lemma_serialize_pairs_len(attrs),
        _ => (),
    }
}

/// Parsing the serialization of one well-formed order (other than
/// SendText) consumes exactly its bytes and gives the order back,
/// whatever follows it.
proof fn lemma_parse_one_serialized(o: OrderView, tail: Seq<u8>)
    requires
        spec_wf_order(o),
        !(o is SendText),
    ensures
        spec_parse_one(spec_serialize_order(o) + tail) == Ok::<
            (OrderView, int),
            StreamFormatError,
        >((o, spec_serialize_order(o).len() as int)),
{
    let b = spec_serialize_order(o) + tail;
    lemma_wcc_trans_inverse();
    match o {
        OrderView::StartField(fa) => {
            assert(b[0] == 0x1D && b[1] == spec_make_printable(fa.bits));
            assert(fa.bits % 64 == fa.bits);
            assert(spec_wcc_trans(fa.bits) % 64 == fa.bits);
        },
        OrderView::StartFieldExtended(attrs) => {
            lemma_serialize_pairs_len(attrs);
            assert(b[0] == 0x29 && b[1] == attrs.len() as u8);
            assert(exists|i: int| 0 <= i < attrs.len() && attrs[i] is FieldAttribute);
            assert(attrs.len() >= 1);
            assert(b[1] as int == attrs.len());
            assert(b.skip(2) =~= spec_serialize_pairs(attrs) + tail);
            lemma_parse_pairs_serialized(attrs, tail);
        },
        OrderView::SetBufferAddress(a) => {
            assert(b[0] == 0x11);
            assert(b[1] == (a / 256) as u8 && b[2] == (a % 256) as u8);
            lemma_addr_round_trip(a);
        },
        OrderView::SetAttribute(e) => {
            assert(b[0] == 0x28);
            lemma_efa_round_trip(e);
        },
        OrderView::ModifyField(attrs) => {
            lemma_serialize_pairs_len(attrs);
            assert(b[0] == 0x2C && b[1] == attrs.len() as u8);
            assert(b[1] as int == attrs.len());
            assert(b.skip(2) =~= spec_serialize_pairs(attrs) + tail);
            lemma_parse_pairs_serialized(attrs, tail);
        },
        OrderView::InsertCursor(a) => {
            assert(b[0] == 0x13);
            lemma_addr_round_trip(a);
        },
        OrderView::ProgramTab => {
            assert(b[0] == 0x05);
        },
        OrderView::RepeatToAddress(a, ch) => {
            assert(b[0] == 0x3C);
            assert(b[1] == (a / 256) as u8 && b[2] == (a % 256) as u8);
            assert(b[3] == crate::encoding::encode_char_spec(ch));
            lemma_addr_round_trip(a);
            crate::encoding::lemma_cp037_round_trip(ch);
        },
        OrderView::EraseUnprotectedToAddress(a) => {
            assert(b[0] == 0x12);
            lemma_addr_round_trip(a);
        },
        OrderView::GraphicEscape(g) => {
            assert(b[0] == 0x08 && b[1] == g);
        },
        OrderView::SendText(_) => (),
    }
}

/// The serialization of a sequence that begins with SendText orders is
/// the encoded gathered text followed by the serialization of the rest,
/// and the gathered text is representable character by character.
proof fn lemma_serialize_text_prefix(os: Seq<OrderView>)
    requires
        forall|i: int| 0 <= i < os.len() ==> spec_wf_order(#[trigger] os[i]),
    ensures
        ({
            let (txt, k) = spec_text_prefix(os);
            &&& spec_serialize_orders(os) == crate::encoding::encode_seq(txt)
                + spec_serialize_orders(os.skip(k))
            &&& forall|i: int| 0 <= i < txt.len() ==> crate::encoding::representable(
                #[trigger] txt[i],
            )
        }),
    decreases os.len(),
{
    let (txt, k) = spec_text_prefix(os);
    lemma_text_prefix_bounds(os);
    if os.len() == 0 || !(os[0] is SendText) {
        assert(k == 0);
        assert(txt =~= Seq::<char>::empty());
        assert(crate::encoding::encode_seq(txt) =~= Seq::<u8>::empty());
        assert(os.skip(0) =~= os);
        assert(crate::encoding::encode_seq(txt) + spec_serialize_orders(os) =~=
            spec_serialize_orders(os));
    } else {
        let t0 = os[0]->SendText_0;
        let (rest, k1) = spec_text_prefix(os.skip(1));
        lemma_serialize_text_prefix(os.skip(1));
        assert(os.skip(1).skip(k1) =~= os.skip(k1 + 1));
        assert(crate::encoding::encode_seq(t0 + rest) =~= crate::encoding::encode_seq(t0)
            + crate::encoding::encode_seq(rest));
        assert(spec_serialize_orders(os) == crate::encoding::encode_seq(t0)
            + (crate::encoding::encode_seq(rest) + spec_serialize_orders(os.skip(k))));
        assert(crate::encoding::encode_seq(t0) + (crate::encoding::encode_seq(rest)
            + spec_serialize_orders(os.skip(k))) =~= (crate::encoding::encode_seq(t0)
            + crate::encoding::encode_seq(rest)) + spec_serialize_orders(os.skip(k)));
        assert(spec_wf_order(os[0]));
        assert(forall|i: int| 0 <= i < txt.len() ==> crate::encoding::representable(
            #[trigger] txt[i],
        )) by {
            assert(forall|i: int| 0 <= i < t0.len() ==> crate::encoding::representable(
                #[trigger] t0[i],
            ));
            assert(forall|i: int| 0 <= i < txt.len() && i >= t0.len()
                ==> txt[i] == rest[i - t0.len()]);
        }
    }
}

/// Parsing the serialization of a well-formed order sequence gives the
/// sequence back in its normalized shape: this is the codec round-trip
/// law. Runs of SendText orders come back coalesced into one and empty
/// SendText orders disappear; every other order returns exactly as it
/// was serialized.
pub proof fn lemma_serialize_parse_round_trip(os: Seq<OrderView>)
    requires
        forall|i: int| 0 <= i < os.len() ==> spec_wf_order(#[trigger] os[i]),
    ensures
        spec_parse_orders(spec_serialize_orders(os)) == Ok::<Seq<OrderView>, StreamFormatError>(
            spec_normalize(os),
        ),
    decreases os.len(),
{
    let b = spec_serialize_orders(os);
    if os.len() == 0 {
        assert(b =~= Seq::<u8>::empty());
    } else if !(os[0] is SendText) {
        let o = os[0];
        let n = spec_serialize_order(o).len() as int;
        lemma_serialized_head_byte(o);
        assert(b =~= spec_serialize_order(o) + spec_serialize_orders(os.skip(1)));
        lemma_parse_one_serialized(o, spec_serialize_orders(os.skip(1)));
        assert(spec_parse_one(b) == Ok::<(OrderView, int), StreamFormatError>((o, n)));
        assert(b.skip(n) =~= spec_serialize_orders(os.skip(1)));
        assert(forall|i: int| 0 <= i < os.skip(1).len() ==> spec_wf_order(
            #[trigger] os.skip(1)[i],
        ));
        lemma_serialize_parse_round_trip(os.skip(1));
        assert(b.len() > 0);
        assert(seq![o] + spec_normalize(os.skip(1)) =~= spec_normalize(os));
    } else {
        let (txt, k) = spec_text_prefix(os);
        lemma_text_prefix_bounds(os);
        lemma_serialize_text_prefix(os);
        assert(forall|i: int| 0 <= i < os.skip(k).len() ==> spec_wf_order(
            #[trigger] os.skip(k)[i],
        ));
        lemma_serialize_parse_round_trip(os.skip(k));
        let rest_bytes = spec_serialize_orders(os.skip(k));
        if txt.len() == 0 {
            assert(crate::encoding::encode_seq(txt) =~= Seq::<u8>::empty());
            assert(b =~= rest_bytes);
        } else {
            let n = txt.len() as int;
            assert(b.len() == n + rest_bytes.len()) by {
                assert(crate::encoding::encode_seq(txt).len() == n);
            }
            assert(forall|j: int| 0 <= j < n ==> b[j] == crate::encoding::encode_char_spec(
                txt[j],
            )) by {
                assert(forall|j: int| 0 <= j < n ==> b[j] == crate::encoding::encode_seq(
                    txt,
                )[j]);
            }
            assert(forall|j: int| 0 <= j < n ==> b[j] >= 0x40) by {
                assert(forall|c: char| crate::encoding::encode_char_spec(c) >= 0x40);
            }
            if k < os.len() {
                assert(!(os[k] is SendText));
                lemma_serialized_head_byte(os[k]);
                assert(rest_bytes =~= spec_serialize_order(os[k]) + spec_serialize_orders(
                    os.skip(k).skip(1),
                )) by {
                    assert(os.skip(k)[0] == os[k]);
                }
                assert(b[n] == rest_bytes[0]);
                assert(b[n] < 0x40);
                lemma_text_run_len_split(b, n);
            } else {
                assert(os.skip(k) =~= Seq::<OrderView>::empty());
                assert(rest_bytes =~= Seq::<u8>::empty());
                assert(b.len() == n);
                lemma_text_run_len_split(b, n);
            }
            assert(spec_text_run_len(b) == n);
            assert(spec_decode_run(b, n) =~= txt) by {
                assert(forall|j: int| 0 <= j < n ==> crate::encoding::decode_char_spec(
                    crate::encoding::encode_char_spec(#[trigger] txt[j]),
                ) == txt[j]) by {
                    assert forall|j: int| 0 <= j < n implies crate::encoding::decode_char_spec(
                        crate::encoding::encode_char_spec(#[trigger] txt[j]),
                    ) == txt[j] by {
                        crate::encoding::lemma_cp037_round_trip(txt[j]);
                    }
                }
            }
            assert(spec_parse_one(b) == Ok::<(OrderView, int), StreamFormatError>((
                OrderView::SendText(txt),
                n,
            )));
            assert(b.skip(n) =~= rest_bytes);
            assert(seq![OrderView::SendText(txt)] + spec_normalize(os.skip(k))
                =~= spec_normalize(os));
        }
    }
}

} // verus!
