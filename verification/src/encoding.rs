use vstd::prelude::*;

verus! {

/// The Latin-1 code point that code page 037 assigns to the byte `b`.
/// CP037 is a permutation of the 256 Latin-1 code points.
pub open spec fn cp037_to_latin1(b: u8) -> u8 {
    match b {
        0x00 => 0x00,
        0x01 => 0x01,
        0x02 => 0x02,
        0x03 => 0x03,
        0x04 => 0x9c,
        0x05 => 0x09,
        0x06 => 0x86,
        0x07 => 0x7f,
        0x08 => 0x97,
        0x09 => 0x8d,
        0x0a => 0x8e,
        0x0b => 0x0b,
        0x0c => 0x0c,
        0x0d => 0x0d,
        0x0e => 0x0e,
        0x0f => 0x0f,
        0x10 => 0x10,
        0x11 => 0x11,
        0x12 => 0x12,
        0x13 => 0x13,
        0x14 => 0x9d,
        0x15 => 0x85,
        0x16 => 0x08,
        0x17 => 0x87,
        0x18 => 0x18,
        0x19 => 0x19,
        0x1a => 0x92,
        0x1b => 0x8f,
        0x1c => 0x1c,
        0x1d => 0x1d,
        0x1e => 0x1e,
        0x1f => 0x1f,
        0x20 => 0x80,
        0x21 => 0x81,
        0x22 => 0x82,
        0x23 => 0x83,
        0x24 => 0x84,
        0x25 => 0x0a,
        0x26 => 0x17,
        0x27 => 0x1b,
        0x28 => 0x88,
        0x29 => 0x89,
        0x2a => 0x8a,
        0x2b => 0x8b,
        0x2c => 0x8c,
        0x2d => 0x05,
        0x2e => 0x06,
        0x2f => 0x07,
        0x30 => 0x90,
        0x31 => 0x91,
        0x32 => 0x16,
        0x33 => 0x93,
        0x34 => 0x94,
        0x35 => 0x95,
        0x36 => 0x96,
        0x37 => 0x04,
        0x38 => 0x98,
        0x39 => 0x99,
        0x3a => 0x9a,
        0x3b => 0x9b,
        0x3c => 0x14,
        0x3d => 0x15,
        0x3e => 0x9e,
        0x3f => 0x1a,
        0x40 => 0x20,
        0x41 => 0xa0,
        0x42 => 0xe2,
        0x43 => 0xe4,
        0x44 => 0xe0,
        0x45 => 0xe1,
        0x46 => 0xe3,
        0x47 => 0xe5,
        0x48 => 0xe7,
        0x49 => 0xf1,
        0x4a => 0xa2,
        0x4b => 0x2e,
        0x4c => 0x3c,
        0x4d => 0x28,
        0x4e => 0x2b,
        0x4f => 0x7c,
        0x50 => 0x26,
        0x51 => 0xe9,
        0x52 => 0xea,
        0x53 => 0xeb,
        0x54 => 0xe8,
        0x55 => 0xed,
        0x56 => 0xee,
        0x57 => 0xef,
        0x58 => 0xec,
        0x59 => 0xdf,
        0x5a => 0x21,
        0x5b => 0x24,
        0x5c => 0x2a,
        0x5d => 0x29,
        0x5e => 0x3b,
        0x5f => 0xac,
        0x60 => 0x2d,
        0x61 => 0x2f,
        0x62 => 0xc2,
        0x63 => 0xc4,
        0x64 => 0xc0,
        0x65 => 0xc1,
        0x66 => 0xc3,
        0x67 => 0xc5,
        0x68 => 0xc7,
        0x69 => 0xd1,
        0x6a => 0xa6,
        0x6b => 0x2c,
        0x6c => 0x25,
        0x6d => 0x5f,
        0x6e => 0x3e,
        0x6f => 0x3f,
        0x70 => 0xf8,
        0x71 => 0xc9,
        0x72 => 0xca,
        0x73 => 0xcb,
        0x74 => 0xc8,
        0x75 => 0xcd,
        0x76 => 0xce,
        0x77 => 0xcf,
        0x78 => 0xcc,
        0x79 => 0x60,
        0x7a => 0x3a,
        0x7b => 0x23,
        0x7c => 0x40,
        0x7d => 0x27,
        0x7e => 0x3d,
        0x7f => 0x22,
        0x80 => 0xd8,
        0x81 => 0x61,
        0x82 => 0x62,
        0x83 => 0x63,
        0x84 => 0x64,
        0x85 => 0x65,
        0x86 => 0x66,
        0x87 => 0x67,
        0x88 => 0x68,
        0x89 => 0x69,
        0x8a => 0xab,
        0x8b => 0xbb,
        0x8c => 0xf0,
        0x8d => 0xfd,
        0x8e => 0xfe,
        0x8f => 0xb1,
        0x90 => 0xb0,
        0x91 => 0x6a,
        0x92 => 0x6b,
        0x93 => 0x6c,
        0x94 => 0x6d,
        0x95 => 0x6e,
        0x96 => 0x6f,
        0x97 => 0x70,
        0x98 => 0x71,
        0x99 => 0x72,
        0x9a => 0xaa,
        0x9b => 0xba,
        0x9c => 0xe6,
        0x9d => 0xb8,
        0x9e => 0xc6,
        0x9f => 0xa4,
        0xa0 => 0xb5,
        0xa1 => 0x7e,
        0xa2 => 0x73,
        0xa3 => 0x74,
        0xa4 => 0x75,
        0xa5 => 0x76,
        0xa6 => 0x77,
        0xa7 => 0x78,
        0xa8 => 0x79,
        0xa9 => 0x7a,
        0xaa => 0xa1,
        0xab => 0xbf,
        0xac => 0xd0,
        0xad => 0xdd,
        0xae => 0xde,
        0xaf => 0xae,
        0xb0 => 0x5e,
        0xb1 => 0xa3,
        0xb2 => 0xa5,
        0xb3 => 0xb7,
        0xb4 => 0xa9,
        0xb5 => 0xa7,
        0xb6 => 0xb6,
        0xb7 => 0xbc,
        0xb8 => 0xbd,
        0xb9 => 0xbe,
        0xba => 0x5b,
        0xbb => 0x5d,
        0xbc => 0xaf,
        0xbd => 0xa8,
        0xbe => 0xb4,
        0xbf => 0xd7,
        0xc0 => 0x7b,
        0xc1 => 0x41,
        0xc2 => 0x42,
        0xc3 => 0x43,
        0xc4 => 0x44,
        0xc5 => 0x45,
        0xc6 => 0x46,
        0xc7 => 0x47,
        0xc8 => 0x48,
        0xc9 => 0x49,
        0xca => 0xad,
        0xcb => 0xf4,
        0xcc => 0xf6,
        0xcd => 0xf2,
        0xce => 0xf3,
        0xcf => 0xf5,
        0xd0 => 0x7d,
        0xd1 => 0x4a,
        0xd2 => 0x4b,
        0xd3 => 0x4c,
        0xd4 => 0x4d,
        0xd5 => 0x4e,
        0xd6 => 0x4f,
        0xd7 => 0x50,
        0xd8 => 0x51,
        0xd9 => 0x52,
        0xda => 0xb9,
        0xdb => 0xfb,
        0xdc => 0xfc,
        0xdd => 0xf9,
        0xde => 0xfa,
        0xdf => 0xff,
        0xe0 => 0x5c,
        0xe1 => 0xf7,
        0xe2 => 0x53,
        0xe3 => 0x54,
        0xe4 => 0x55,
        0xe5 => 0x56,
        0xe6 => 0x57,
        0xe7 => 0x58,
        0xe8 => 0x59,
        0xe9 => 0x5a,
        0xea => 0xb2,
        0xeb => 0xd4,
        0xec => 0xd6,
        0xed => 0xd2,
        0xee => 0xd3,
        0xef => 0xd5,
        0xf0 => 0x30,
        0xf1 => 0x31,
        0xf2 => 0x32,
        0xf3 => 0x33,
        0xf4 => 0x34,
        0xf5 => 0x35,
        0xf6 => 0x36,
        0xf7 => 0x37,
        0xf8 => 0x38,
        0xf9 => 0x39,
        0xfa => 0xb3,
        0xfb => 0xdb,
        0xfc => 0xdc,
        0xfd => 0xd9,
        0xfe => 0xda,
        0xff => 0x9f,
    }
}

/// The CP037 byte assigned to the Latin-1 code point `l`; code points
/// at or above 0x100 have no CP037 byte and fall back to space (0x40).
pub open spec fn latin1_to_cp037(l: u32) -> u8 {
    match l {
        0x00 => 0x00,
        0x01 => 0x01,
        0x02 => 0x02,
        0x03 => 0x03,
        0x04 => 0x37,
        0x05 => 0x2d,
        0x06 => 0x2e,
        0x07 => 0x2f,
        0x08 => 0x16,
        0x09 => 0x05,
        0x0a => 0x25,
        0x0b => 0x0b,
        0x0c => 0x0c,
        0x0d => 0x0d,
        0x0e => 0x0e,
        0x0f => 0x0f,
        0x10 => 0x10,
        0x11 => 0x11,
        0x12 => 0x12,
        0x13 => 0x13,
        0x14 => 0x3c,
        0x15 => 0x3d,
        0x16 => 0x32,
        0x17 => 0x26,
        0x18 => 0x18,
        0x19 => 0x19,
        0x1a => 0x3f,
        0x1b => 0x27,
        0x1c => 0x1c,
        0x1d => 0x1d,
        0x1e => 0x1e,
        0x1f => 0x1f,
        0x20 => 0x40,
        0x21 => 0x5a,
        0x22 => 0x7f,
        0x23 => 0x7b,
        0x24 => 0x5b,
        0x25 => 0x6c,
        0x26 => 0x50,
        0x27 => 0x7d,
        0x28 => 0x4d,
        0x29 => 0x5d,
        0x2a => 0x5c,
        0x2b => 0x4e,
        0x2c => 0x6b,
        0x2d => 0x60,
        0x2e => 0x4b,
        0x2f => 0x61,
        0x30 => 0xf0,
        0x31 => 0xf1,
        0x32 => 0xf2,
        0x33 => 0xf3,
        0x34 => 0xf4,
        0x35 => 0xf5,
        0x36 => 0xf6,
        0x37 => 0xf7,
        0x38 => 0xf8,
        0x39 => 0xf9,
        0x3a => 0x7a,
        0x3b => 0x5e,
        0x3c => 0x4c,
        0x3d => 0x7e,
        0x3e => 0x6e,
        0x3f => 0x6f,
        0x40 => 0x7c,
        0x41 => 0xc1,
        0x42 => 0xc2,
        0x43 => 0xc3,
        0x44 => 0xc4,
        0x45 => 0xc5,
        0x46 => 0xc6,
        0x47 => 0xc7,
        0x48 => 0xc8,
        0x49 => 0xc9,
        0x4a => 0xd1,
        0x4b => 0xd2,
        0x4c => 0xd3,
        0x4d => 0xd4,
        0x4e => 0xd5,
        0x4f => 0xd6,
        0x50 => 0xd7,
        0x51 => 0xd8,
        0x52 => 0xd9,
        0x53 => 0xe2,
        0x54 => 0xe3,
        0x55 => 0xe4,
        0x56 => 0xe5,
        0x57 => 0xe6,
        0x58 => 0xe7,
        0x59 => 0xe8,
        0x5a => 0xe9,
        0x5b => 0xba,
        0x5c => 0xe0,
        0x5d => 0xbb,
        0x5e => 0xb0,
        0x5f => 0x6d,
        0x60 => 0x79,
        0x61 => 0x81,
        0x62 => 0x82,
        0x63 => 0x83,
        0x64 => 0x84,
        0x65 => 0x85,
        0x66 => 0x86,
        0x67 => 0x87,
        0x68 => 0x88,
        0x69 => 0x89,
        0x6a => 0x91,
        0x6b => 0x92,
        0x6c => 0x93,
        0x6d => 0x94,
        0x6e => 0x95,
        0x6f => 0x96,
        0x70 => 0x97,
        0x71 => 0x98,
        0x72 => 0x99,
        0x73 => 0xa2,
        0x74 => 0xa3,
        0x75 => 0xa4,
        0x76 => 0xa5,
        0x77 => 0xa6,
        0x78 => 0xa7,
        0x79 => 0xa8,
        0x7a => 0xa9,
        0x7b => 0xc0,
        0x7c => 0x4f,
        0x7d => 0xd0,
        0x7e => 0xa1,
        0x7f => 0x07,
        0x80 => 0x20,
        0x81 => 0x21,
        0x82 => 0x22,
        0x83 => 0x23,
        0x84 => 0x24,
        0x85 => 0x15,
        0x86 => 0x06,
        0x87 => 0x17,
        0x88 => 0x28,
        0x89 => 0x29,
        0x8a => 0x2a,
        0x8b => 0x2b,
        0x8c => 0x2c,
        0x8d => 0x09,
        0x8e => 0x0a,
        0x8f => 0x1b,
        0x90 => 0x30,
        0x91 => 0x31,
        0x92 => 0x1a,
        0x93 => 0x33,
        0x94 => 0x34,
        0x95 => 0x35,
        0x96 => 0x36,
        0x97 => 0x08,
        0x98 => 0x38,
        0x99 => 0x39,
        0x9a => 0x3a,
        0x9b => 0x3b,
        0x9c => 0x04,
        0x9d => 0x14,
        0x9e => 0x3e,
        0x9f => 0xff,
        0xa0 => 0x41,
        0xa1 => 0xaa,
        0xa2 => 0x4a,
        0xa3 => 0xb1,
        0xa4 => 0x9f,
        0xa5 => 0xb2,
        0xa6 => 0x6a,
        0xa7 => 0xb5,
        0xa8 => 0xbd,
        0xa9 => 0xb4,
        0xaa => 0x9a,
        0xab => 0x8a,
        0xac => 0x5f,
        0xad => 0xca,
        0xae => 0xaf,
        0xaf => 0xbc,
        0xb0 => 0x90,
        0xb1 => 0x8f,
        0xb2 => 0xea,
        0xb3 => 0xfa,
        0xb4 => 0xbe,
        0xb5 => 0xa0,
        0xb6 => 0xb6,
        0xb7 => 0xb3,
        0xb8 => 0x9d,
        0xb9 => 0xda,
        0xba => 0x9b,
        0xbb => 0x8b,
        0xbc => 0xb7,
        0xbd => 0xb8,
        0xbe => 0xb9,
        0xbf => 0xab,
        0xc0 => 0x64,
        0xc1 => 0x65,
        0xc2 => 0x62,
        0xc3 => 0x66,
        0xc4 => 0x63,
        0xc5 => 0x67,
        0xc6 => 0x9e,
        0xc7 => 0x68,
        0xc8 => 0x74,
        0xc9 => 0x71,
        0xca => 0x72,
        0xcb => 0x73,
        0xcc => 0x78,
        0xcd => 0x75,
        0xce => 0x76,
        0xcf => 0x77,
        0xd0 => 0xac,
        0xd1 => 0x69,
        0xd2 => 0xed,
        0xd3 => 0xee,
        0xd4 => 0xeb,
        0xd5 => 0xef,
        0xd6 => 0xec,
        0xd7 => 0xbf,
        0xd8 => 0x80,
        0xd9 => 0xfd,
        0xda => 0xfe,
        0xdb => 0xfb,
        0xdc => 0xfc,
        0xdd => 0xad,
        0xde => 0xae,
        0xdf => 0x59,
        0xe0 => 0x44,
        0xe1 => 0x45,
        0xe2 => 0x42,
        0xe3 => 0x46,
        0xe4 => 0x43,
        0xe5 => 0x47,
        0xe6 => 0x9c,
        0xe7 => 0x48,
        0xe8 => 0x54,
        0xe9 => 0x51,
        0xea => 0x52,
        0xeb => 0x53,
        0xec => 0x58,
        0xed => 0x55,
        0xee => 0x56,
        0xef => 0x57,
        0xf0 => 0x8c,
        0xf1 => 0x49,
        0xf2 => 0xcd,
        0xf3 => 0xce,
        0xf4 => 0xcb,
        0xf5 => 0xcf,
        0xf6 => 0xcc,
        0xf7 => 0xe1,
        0xf8 => 0x70,
        0xf9 => 0xdd,
        0xfa => 0xde,
        0xfb => 0xdb,
        0xfc => 0xdc,
        0xfd => 0x8d,
        0xfe => 0x8e,
        0xff => 0xdf,
        _ => 0x40,
    }
}

/// The character that an inbound CP037 byte decodes to.
pub open spec fn decode_char_spec(b: u8) -> char {
    cp037_to_latin1(b) as char
}

/// The byte that a character encodes to on the wire: unknown characters
/// map to the EBCDIC space 0x40, and any byte below 0x40 is coerced to
/// 0x40 so that the data stream never carries a control code.
pub open spec fn encode_char_spec(c: char) -> u8 {
    let raw = latin1_to_cp037(c as u32);
    if raw < 0x40 {
        0x40
    } else {
        raw
    }
}

/// A character is CP037-representable when some data-stream byte (one at
/// or above 0x40) decodes to it.
pub open spec fn representable(c: char) -> bool {
    (c as u32) < 0x100 && latin1_to_cp037(c as u32) >= 0x40
}

/// The byte sequence that a character sequence encodes to.
pub open spec fn encode_seq(s: Seq<char>) -> Seq<u8> {
    Seq::new(s.len(), |i: int| encode_char_spec(s[i]))
}

/// An interface for single-byte character sets.
pub trait SBCS {
    fn from_unicode(ch: char) -> Option<u8>;

    fn to_unicode(ch: u8) -> char;
}

/// Decode one CP037 byte to the character it stands for.
pub fn from_cp037(b: u8) -> (c: char)
    ensures
        c == decode_char_spec(b),
{
    let l: u8 = match b {
        0x00 => 0x00,
        0x01 => 0x01,
        0x02 => 0x02,
        0x03 => 0x03,
        0x04 => 0x9c,
        0x05 => 0x09,
        0x06 => 0x86,
        0x07 => 0x7f,
        0x08 => 0x97,
        0x09 => 0x8d,
        0x0a => 0x8e,
        0x0b => 0x0b,
        0x0c => 0x0c,
        0x0d => 0x0d,
        0x0e => 0x0e,
        0x0f => 0x0f,
        0x10 => 0x10,
        0x11 => 0x11,
        0x12 => 0x12,
        0x13 => 0x13,
        0x14 => 0x9d,
        0x15 => 0x85,
        0x16 => 0x08,
        0x17 => 0x87,
        0x18 => 0x18,
        0x19 => 0x19,
        0x1a => 0x92,
        0x1b => 0x8f,
        0x1c => 0x1c,
        0x1d => 0x1d,
        0x1e => 0x1e,
        0x1f => 0x1f,
        0x20 => 0x80,
        0x21 => 0x81,
        0x22 => 0x82,
        0x23 => 0x83,
        0x24 => 0x84,
        0x25 => 0x0a,
        0x26 => 0x17,
        0x27 => 0x1b,
        0x28 => 0x88,
        0x29 => 0x89,
        0x2a => 0x8a,
        0x2b => 0x8b,
        0x2c => 0x8c,
        0x2d => 0x05,
        0x2e => 0x06,
        0x2f => 0x07,
        0x30 => 0x90,
        0x31 => 0x91,
        0x32 => 0x16,
        0x33 => 0x93,
        0x34 => 0x94,
        0x35 => 0x95,
        0x36 => 0x96,
        0x37 => 0x04,
        0x38 => 0x98,
        0x39 => 0x99,
        0x3a => 0x9a,
        0x3b => 0x9b,
        0x3c => 0x14,
        0x3d => 0x15,
        0x3e => 0x9e,
        0x3f => 0x1a,
        0x40 => 0x20,
        0x41 => 0xa0,
        0x42 => 0xe2,
        0x43 => 0xe4,
        0x44 => 0xe0,
        0x45 => 0xe1,
        0x46 => 0xe3,
        0x47 => 0xe5,
        0x48 => 0xe7,
        0x49 => 0xf1,
        0x4a => 0xa2,
        0x4b => 0x2e,
        0x4c => 0x3c,
        0x4d => 0x28,
        0x4e => 0x2b,
        0x4f => 0x7c,
        0x50 => 0x26,
        0x51 => 0xe9,
        0x52 => 0xea,
        0x53 => 0xeb,
        0x54 => 0xe8,
        0x55 => 0xed,
        0x56 => 0xee,
        0x57 => 0xef,
        0x58 => 0xec,
        0x59 => 0xdf,
        0x5a => 0x21,
        0x5b => 0x24,
        0x5c => 0x2a,
        0x5d => 0x29,
        0x5e => 0x3b,
        0x5f => 0xac,
        0x60 => 0x2d,
        0x61 => 0x2f,
        0x62 => 0xc2,
        0x63 => 0xc4,
        0x64 => 0xc0,
        0x65 => 0xc1,
        0x66 => 0xc3,
        0x67 => 0xc5,
        0x68 => 0xc7,
        0x69 => 0xd1,
        0x6a => 0xa6,
        0x6b => 0x2c,
        0x6c => 0x25,
        0x6d => 0x5f,
        0x6e => 0x3e,
        0x6f => 0x3f,
        0x70 => 0xf8,
        0x71 => 0xc9,
        0x72 => 0xca,
        0x73 => 0xcb,
        0x74 => 0xc8,
        0x75 => 0xcd,
        0x76 => 0xce,
        0x77 => 0xcf,
        0x78 => 0xcc,
        0x79 => 0x60,
        0x7a => 0x3a,
        0x7b => 0x23,
        0x7c => 0x40,
        0x7d => 0x27,
        0x7e => 0x3d,
        0x7f => 0x22,
        0x80 => 0xd8,
        0x81 => 0x61,
        0x82 => 0x62,
        0x83 => 0x63,
        0x84 => 0x64,
        0x85 => 0x65,
        0x86 => 0x66,
        0x87 => 0x67,
        0x88 => 0x68,
        0x89 => 0x69,
        0x8a => 0xab,
        0x8b => 0xbb,
        0x8c => 0xf0,
        0x8d => 0xfd,
        0x8e => 0xfe,
        0x8f => 0xb1,
        0x90 => 0xb0,
        0x91 => 0x6a,
        0x92 => 0x6b,
        0x93 => 0x6c,
        0x94 => 0x6d,
        0x95 => 0x6e,
        0x96 => 0x6f,
        0x97 => 0x70,
        0x98 => 0x71,
        0x99 => 0x72,
        0x9a => 0xaa,
        0x9b => 0xba,
        0x9c => 0xe6,
        0x9d => 0xb8,
        0x9e => 0xc6,
        0x9f => 0xa4,
        0xa0 => 0xb5,
        0xa1 => 0x7e,
        0xa2 => 0x73,
        0xa3 => 0x74,
        0xa4 => 0x75,
        0xa5 => 0x76,
        0xa6 => 0x77,
        0xa7 => 0x78,
        0xa8 => 0x79,
        0xa9 => 0x7a,
        0xaa => 0xa1,
        0xab => 0xbf,
        0xac => 0xd0,
        0xad => 0xdd,
        0xae => 0xde,
        0xaf => 0xae,
        0xb0 => 0x5e,
        0xb1 => 0xa3,
        0xb2 => 0xa5,
        0xb3 => 0xb7,
        0xb4 => 0xa9,
        0xb5 => 0xa7,
        0xb6 => 0xb6,
        0xb7 => 0xbc,
        0xb8 => 0xbd,
        0xb9 => 0xbe,
        0xba => 0x5b,
        0xbb => 0x5d,
        0xbc => 0xaf,
        0xbd => 0xa8,
        0xbe => 0xb4,
        0xbf => 0xd7,
        0xc0 => 0x7b,
        0xc1 => 0x41,
        0xc2 => 0x42,
        0xc3 => 0x43,
        0xc4 => 0x44,
        0xc5 => 0x45,
        0xc6 => 0x46,
        0xc7 => 0x47,
        0xc8 => 0x48,
        0xc9 => 0x49,
        0xca => 0xad,
        0xcb => 0xf4,
        0xcc => 0xf6,
        0xcd => 0xf2,
        0xce => 0xf3,
        0xcf => 0xf5,
        0xd0 => 0x7d,
        0xd1 => 0x4a,
        0xd2 => 0x4b,
        0xd3 => 0x4c,
        0xd4 => 0x4d,
        0xd5 => 0x4e,
        0xd6 => 0x4f,
        0xd7 => 0x50,
        0xd8 => 0x51,
        0xd9 => 0x52,
        0xda => 0xb9,
        0xdb => 0xfb,
        0xdc => 0xfc,
        0xdd => 0xf9,
        0xde => 0xfa,
        0xdf => 0xff,
        0xe0 => 0x5c,
        0xe1 => 0xf7,
        0xe2 => 0x53,
        0xe3 => 0x54,
        0xe4 => 0x55,
        0xe5 => 0x56,
        0xe6 => 0x57,
        0xe7 => 0x58,
        0xe8 => 0x59,
        0xe9 => 0x5a,
        0xea => 0xb2,
        0xeb => 0xd4,
        0xec => 0xd6,
        0xed => 0xd2,
        0xee => 0xd3,
        0xef => 0xd5,
        0xf0 => 0x30,
        0xf1 => 0x31,
        0xf2 => 0x32,
        0xf3 => 0x33,
        0xf4 => 0x34,
        0xf5 => 0x35,
        0xf6 => 0x36,
        0xf7 => 0x37,
        0xf8 => 0x38,
        0xf9 => 0x39,
        0xfa => 0xb3,
        0xfb => 0xdb,
        0xfc => 0xdc,
        0xfd => 0xd9,
        0xfe => 0xda,
        0xff => 0x9f,
    };
    l as char
}

/// Encode one character as its CP037 data-stream byte.
pub fn to_cp037_char(c: char) -> (b: u8)
    ensures
        b == encode_char_spec(c),
{
    let code: u32 = c as u32;
    let raw: u8 = match code {
        0x00 => 0x00,
        0x01 => 0x01,
        0x02 => 0x02,
        0x03 => 0x03,
        0x04 => 0x37,
        0x05 => 0x2d,
        0x06 => 0x2e,
        0x07 => 0x2f,
        0x08 => 0x16,
        0x09 => 0x05,
        0x0a => 0x25,
        0x0b => 0x0b,
        0x0c => 0x0c,
        0x0d => 0x0d,
        0x0e => 0x0e,
        0x0f => 0x0f,
        0x10 => 0x10,
        0x11 => 0x11,
        0x12 => 0x12,
        0x13 => 0x13,
        0x14 => 0x3c,
        0x15 => 0x3d,
        0x16 => 0x32,
        0x17 => 0x26,
        0x18 => 0x18,
        0x19 => 0x19,
        0x1a => 0x3f,
        0x1b => 0x27,
        0x1c => 0x1c,
        0x1d => 0x1d,
        0x1e => 0x1e,
        0x1f => 0x1f,
        0x20 => 0x40,
        0x21 => 0x5a,
        0x22 => 0x7f,
        0x23 => 0x7b,
        0x24 => 0x5b,
        0x25 => 0x6c,
        0x26 => 0x50,
        0x27 => 0x7d,
        0x28 => 0x4d,
        0x29 => 0x5d,
        0x2a => 0x5c,
        0x2b => 0x4e,
        0x2c => 0x6b,
        0x2d => 0x60,
        0x2e => 0x4b,
        0x2f => 0x61,
        0x30 => 0xf0,
        0x31 => 0xf1,
        0x32 => 0xf2,
        0x33 => 0xf3,
        0x34 => 0xf4,
        0x35 => 0xf5,
        0x36 => 0xf6,
        0x37 => 0xf7,
        0x38 => 0xf8,
        0x39 => 0xf9,
        0x3a => 0x7a,
        0x3b => 0x5e,
        0x3c => 0x4c,
        0x3d => 0x7e,
        0x3e => 0x6e,
        0x3f => 0x6f,
        0x40 => 0x7c,
        0x41 => 0xc1,
        0x42 => 0xc2,
        0x43 => 0xc3,
        0x44 => 0xc4,
        0x45 => 0xc5,
        0x46 => 0xc6,
        0x47 => 0xc7,
        0x48 => 0xc8,
        0x49 => 0xc9,
        0x4a => 0xd1,
        0x4b => 0xd2,
        0x4c => 0xd3,
        0x4d => 0xd4,
        0x4e => 0xd5,
        0x4f => 0xd6,
        0x50 => 0xd7,
        0x51 => 0xd8,
        0x52 => 0xd9,
        0x53 => 0xe2,
        0x54 => 0xe3,
        0x55 => 0xe4,
        0x56 => 0xe5,
        0x57 => 0xe6,
        0x58 => 0xe7,
        0x59 => 0xe8,
        0x5a => 0xe9,
        0x5b => 0xba,
        0x5c => 0xe0,
        0x5d => 0xbb,
        0x5e => 0xb0,
        0x5f => 0x6d,
        0x60 => 0x79,
        0x61 => 0x81,
        0x62 => 0x82,
        0x63 => 0x83,
        0x64 => 0x84,
        0x65 => 0x85,
        0x66 => 0x86,
        0x67 => 0x87,
        0x68 => 0x88,
        0x69 => 0x89,
        0x6a => 0x91,
        0x6b => 0x92,
        0x6c => 0x93,
        0x6d => 0x94,
        0x6e => 0x95,
        0x6f => 0x96,
        0x70 => 0x97,
        0x71 => 0x98,
        0x72 => 0x99,
        0x73 => 0xa2,
        0x74 => 0xa3,
        0x75 => 0xa4,
        0x76 => 0xa5,
        0x77 => 0xa6,
        0x78 => 0xa7,
        0x79 => 0xa8,
        0x7a => 0xa9,
        0x7b => 0xc0,
        0x7c => 0x4f,
        0x7d => 0xd0,
        0x7e => 0xa1,
        0x7f => 0x07,
        0x80 => 0x20,
        0x81 => 0x21,
        0x82 => 0x22,
        0x83 => 0x23,
        0x84 => 0x24,
        0x85 => 0x15,
        0x86 => 0x06,
        0x87 => 0x17,
        0x88 => 0x28,
        0x89 => 0x29,
        0x8a => 0x2a,
        0x8b => 0x2b,
        0x8c => 0x2c,
        0x8d => 0x09,
        0x8e => 0x0a,
        0x8f => 0x1b,
        0x90 => 0x30,
        0x91 => 0x31,
        0x92 => 0x1a,
        0x93 => 0x33,
        0x94 => 0x34,
        0x95 => 0x35,
        0x96 => 0x36,
        0x97 => 0x08,
        0x98 => 0x38,
        0x99 => 0x39,
        0x9a => 0x3a,
        0x9b => 0x3b,
        0x9c => 0x04,
        0x9d => 0x14,
        0x9e => 0x3e,
        0x9f => 0xff,
        0xa0 => 0x41,
        0xa1 => 0xaa,
        0xa2 => 0x4a,
        0xa3 => 0xb1,
        0xa4 => 0x9f,
        0xa5 => 0xb2,
        0xa6 => 0x6a,
        0xa7 => 0xb5,
        0xa8 => 0xbd,
        0xa9 => 0xb4,
        0xaa => 0x9a,
        0xab => 0x8a,
        0xac => 0x5f,
        0xad => 0xca,
        0xae => 0xaf,
        0xaf => 0xbc,
        0xb0 => 0x90,
        0xb1 => 0x8f,
        0xb2 => 0xea,
        0xb3 => 0xfa,
        0xb4 => 0xbe,
        0xb5 => 0xa0,
        0xb6 => 0xb6,
        0xb7 => 0xb3,
        0xb8 => 0x9d,
        0xb9 => 0xda,
        0xba => 0x9b,
        0xbb => 0x8b,
        0xbc => 0xb7,
        0xbd => 0xb8,
        0xbe => 0xb9,
        0xbf => 0xab,
        0xc0 => 0x64,
        0xc1 => 0x65,
        0xc2 => 0x62,
        0xc3 => 0x66,
        0xc4 => 0x63,
        0xc5 => 0x67,
        0xc6 => 0x9e,
        0xc7 => 0x68,
        0xc8 => 0x74,
        0xc9 => 0x71,
        0xca => 0x72,
        0xcb => 0x73,
        0xcc => 0x78,
        0xcd => 0x75,
        0xce => 0x76,
        0xcf => 0x77,
        0xd0 => 0xac,
        0xd1 => 0x69,
        0xd2 => 0xed,
        0xd3 => 0xee,
        0xd4 => 0xeb,
        0xd5 => 0xef,
        0xd6 => 0xec,
        0xd7 => 0xbf,
        0xd8 => 0x80,
        0xd9 => 0xfd,
        0xda => 0xfe,
        0xdb => 0xfb,
        0xdc => 0xfc,
        0xdd => 0xad,
        0xde => 0xae,
        0xdf => 0x59,
        0xe0 => 0x44,
        0xe1 => 0x45,
        0xe2 => 0x42,
        0xe3 => 0x46,
        0xe4 => 0x43,
        0xe5 => 0x47,
        0xe6 => 0x9c,
        0xe7 => 0x48,
        0xe8 => 0x54,
        0xe9 => 0x51,
        0xea => 0x52,
        0xeb => 0x53,
        0xec => 0x58,
        0xed => 0x55,
        0xee => 0x56,
        0xef => 0x57,
        0xf0 => 0x8c,
        0xf1 => 0x49,
        0xf2 => 0xcd,
        0xf3 => 0xce,
        0xf4 => 0xcb,
        0xf5 => 0xcf,
        0xf6 => 0xcc,
        0xf7 => 0xe1,
        0xf8 => 0x70,
        0xf9 => 0xdd,
        0xfa => 0xde,
        0xfb => 0xdb,
        0xfc => 0xdc,
        0xfd => 0x8d,
        0xfe => 0x8e,
        0xff => 0xdf,
        _ => 0x40,
    };
    if raw < 0x40 {
        0x40
    } else {
        raw
    }
}

/// Encode a string as CP037 data-stream bytes, character by character.
pub fn to_cp037(text: &str) -> (r: Vec<u8>)
    ensures
        r@ == encode_seq(text@),
{
    let len: usize = text.unicode_len();
    let mut r: Vec<u8> = Vec::new();
    let mut i: usize = 0;
    while i < len
        invariant
            i <= len,
            len == text@.len(),
            r@.len() == i,
            forall|j: int| 0 <= j < i ==> r@[j] == encode_char_spec(text@[j]),
        decreases len - i,
    {
        let c: char = text.get_char(i);
        r.push(to_cp037_char(c));
        i = i + 1;
    }
    proof {
        assert(r@ =~= encode_seq(text@));
    }
    r
}

/// Encoding never produces a control byte: every encoded byte is at
/// least the EBCDIC space.
pub proof fn lemma_encode_char_printable(c: char)
    ensures
        encode_char_spec(c) >= 0x40,
{
}

/// Decoding is the inverse of the encoding permutation on every
/// Latin-1 code point.
pub proof fn lemma_cp037_permutation_inverse(l: u32)
    requires
        l < 0x100,
    ensures
        cp037_to_latin1(latin1_to_cp037(l)) as u32 == l,
{
}

/// Every CP037-representable character survives the round trip through
/// the wire encoding.
pub proof fn lemma_cp037_round_trip(c: char)
    requires
        representable(c),
    ensures
        decode_char_spec(encode_char_spec(c)) == c,
{
    lemma_cp037_permutation_inverse(c as u32);
}


/// Relies on String::push: it appends exactly the one character to the
/// end of the string.
#[verifier::external_body]
pub fn push_char(s: &mut String, c: char)
    ensures
        final(s)@ == old(s)@.push(c),
{
    s.push(c);
}

} // verus!
