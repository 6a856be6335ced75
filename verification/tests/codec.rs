use tn3270::encoding::{from_cp037, to_cp037, to_cp037_char};
use tn3270::stream::{
    make_ascii_translatable, parse_addr, parse_orders, BufferAddressCalculator, Color,
    ExtendedFieldAttribute, FieldAttribute, FieldOutline, FieldValidation, Highlighting,
    IncomingRecord, OutputRecord, StreamFormatError, Transparency, WriteCommand,
    WriteCommandCode, WriteOrder, AID, WCC,
};

#[test]
fn cp037_ascii_letters() {
    assert_eq!(to_cp037("A"), vec![0xC1]);
    assert_eq!(to_cp037("Hi"), vec![0xC8, 0x89]);
    assert_eq!(to_cp037("ALICE"), vec![0xC1, 0xD3, 0xC9, 0xC3, 0xC5]);
    assert_eq!(from_cp037(0xC1), 'A');
    assert_eq!(from_cp037(0x40), ' ');
}

#[test]
fn cp037_unknown_maps_to_space() {
    // Not a Latin-1 scalar: falls back to the EBCDIC space.
    assert_eq!(to_cp037_char('\u{20AC}'), 0x40);
    // A control code would be below 0x40 and is coerced up to space.
    assert_eq!(to_cp037_char('\n'), 0x40);
}

#[test]
fn cp037_never_emits_control_bytes() {
    for code in 0u32..0x250 {
        if let Some(c) = char::from_u32(code) {
            assert!(to_cp037_char(c) >= 0x40);
        }
    }
}

#[test]
fn cp037_round_trip_all_printable_bytes() {
    for b in 0x40u16..=0xFF {
        let b = b as u8;
        assert_eq!(to_cp037_char(from_cp037(b)), b);
    }
}

#[test]
fn wcc_translation_keeps_low_bits() {
    for i in 0u8..64 {
        let t = make_ascii_translatable(i);
        assert_eq!(t % 64, i);
        assert!(t >= 0x40);
    }
    assert_eq!(make_ascii_translatable(0x03), 0xC3);
    assert_eq!(WCC::new(WCC::RESET_MDT | WCC::KBD_RESTORE).to_ascii_compat(), 0xC3);
    assert_eq!(WCC::from_ascii_compat(0xC3).bits, 0x03);
}

const AID_BYTES: [u8; 39] = [
    0x60, 0xE8, 0x88, 0x61, 0x7F, 0xF0, 0xF1, 0xF2, 0xF3, 0xF4, 0xF5, 0xF6, 0xF7, 0xF8, 0xF9,
    0x7A, 0x7B, 0x7C, 0xC1, 0xC2, 0xC3, 0xC4, 0xC5, 0xC6, 0xC7, 0xC8, 0xC9, 0x4A, 0x4B, 0x4C,
    0x6C, 0x6E, 0x6B, 0x6D, 0x6A, 0x7D, 0x7E, 0xE6, 0xE7,
];

#[test]
fn aid_byte_round_trip_over_defined_bytes() {
    for &b in AID_BYTES.iter() {
        let aid = AID::try_from_byte(b).expect("defined byte must decode");
        assert_eq!(aid.to_byte(), b);
    }
    assert_eq!(AID::Enter.to_byte(), 0x7D);
    assert_eq!(AID::PF10.to_byte(), 0x7A);
    assert_eq!(AID::Clear.to_byte(), 0x6D);
}

#[test]
fn aid_undefined_bytes_are_invalid() {
    for b in 0u16..=0xFF {
        let b = b as u8;
        if !AID_BYTES.contains(&b) {
            assert_eq!(AID::try_from_byte(b), Err(StreamFormatError::InvalidAID { aid: b }));
        }
    }
}

#[test]
fn address_round_trip_default_geometry() {
    let acalc = BufferAddressCalculator { width: 80, height: 24 };
    assert_eq!(acalc.last_address(), 1919);
    for y in 0u16..24 {
        for x in 0u16..80 {
            let addr = acalc.encode_address(y, x);
            assert_eq!(acalc.decode_address(addr), (y, x));
        }
    }
    assert_eq!(acalc.encode_address(1, 31), 111);
}

#[test]
fn twelve_bit_address_decode() {
    // Top bits 01 select the 12-bit form: low 6 bits of each byte.
    assert_eq!(parse_addr(0x4B, 0xD4), Ok(724));
    let acalc = BufferAddressCalculator { width: 80, height: 24 };
    assert_eq!(acalc.decode_address(724), (9, 4));
    // Top bits 00 select the 14-bit big-endian form.
    assert_eq!(parse_addr(0x00, 0xC9), Ok(201));
    assert_eq!(parse_addr(0x07, 0x7F), Ok(1919));
    // Top bits 10 are not implemented.
    assert_eq!(parse_addr(0x80, 0x00), Err(StreamFormatError::InvalidData));
}

#[test]
fn color_highlighting_transparency_codes() {
    assert_eq!(Color::White.to_byte(), 0xFF);
    assert_eq!(Color::try_from_byte(0xF4), Ok(Color::Green));
    assert_eq!(Color::try_from_byte(0x42), Err(StreamFormatError::InvalidData));
    assert_eq!(Highlighting::Underscore.to_byte(), 0xF4);
    assert_eq!(Highlighting::try_from_byte(0xF3), Err(StreamFormatError::InvalidData));
    assert_eq!(Transparency::try_from_byte(0xF2), Ok(Transparency::Opaque));
    assert_eq!(Transparency::try_from_byte(0x01), Err(StreamFormatError::InvalidData));
}

#[test]
fn extended_attribute_pairs() {
    let fa = FieldAttribute { bits: FieldAttribute::PROTECTED };
    assert_eq!(ExtendedFieldAttribute::FieldAttribute(fa).encoded(), (0xC0, 0x60));
    assert_eq!(ExtendedFieldAttribute::AllAttributes.encoded(), (0x00, 0x00));
    assert_eq!(
        ExtendedFieldAttribute::ForegroundColor(Color::Red).encoded(),
        (0x42, 0xF2)
    );
    assert_eq!(
        ExtendedFieldAttribute::try_from_pair(0x42, 0xF2),
        Ok(ExtendedFieldAttribute::ForegroundColor(Color::Red))
    );
    assert_eq!(
        ExtendedFieldAttribute::try_from_pair(0x00, 0x05),
        Err(StreamFormatError::InvalidData)
    );
    // Reserved bit 0x02 in a field attribute is refused.
    assert_eq!(
        ExtendedFieldAttribute::try_from_pair(0xC0, 0x02),
        Err(StreamFormatError::InvalidData)
    );
    assert_eq!(
        ExtendedFieldAttribute::try_from_pair(0xC1, 0x05),
        Ok(ExtendedFieldAttribute::FieldValidation(FieldValidation { bits: 0x05 }))
    );
    assert_eq!(
        ExtendedFieldAttribute::try_from_pair(0xC2, 0x1F),
        Err(StreamFormatError::InvalidData)
    );
    assert!(FieldOutline::from_bits(0x0F).is_some());
    assert!(FieldAttribute::from_bits(0x22).is_none());
}

#[test]
fn minimal_write_serialization() {
    let cmd = WriteCommand {
        command: WriteCommandCode::Write,
        wcc: WCC::new(WCC::RESET_MDT | WCC::KBD_RESTORE),
        orders: vec![
            WriteOrder::SetBufferAddress(0),
            WriteOrder::SendText(String::from("A")),
        ],
    };
    assert_eq!(cmd.to_bytes(), vec![0xF1, 0xC3, 0x11, 0x00, 0x00, 0xC1]);
}

#[test]
fn erase_write_field_frame_serialization() {
    let acalc = BufferAddressCalculator { width: 80, height: 24 };
    let cmd = WriteCommand {
        command: WriteCommandCode::EraseWrite,
        wcc: WCC::new(WCC::RESET_MDT | WCC::KBD_RESTORE),
        orders: vec![
            WriteOrder::SetBufferAddress(0),
            WriteOrder::EraseUnprotectedToAddress(acalc.last_address()),
            WriteOrder::SetBufferAddress(acalc.encode_address(1, 31)),
            WriteOrder::StartFieldExtended(vec![ExtendedFieldAttribute::FieldAttribute(
                FieldAttribute { bits: FieldAttribute::PROTECTED },
            )]),
            WriteOrder::SendText(String::from("Hi")),
        ],
    };
    // The protected field attribute byte travels through the printable
    // translation table: 0x20 becomes 0x60.
    assert_eq!(
        cmd.to_bytes(),
        vec![
            0xF5, 0xC3, 0x11, 0x00, 0x00, 0x12, 0x07, 0x7F, 0x11, 0x00, 0x6F, 0x29, 0x01, 0xC0,
            0x60, 0xC8, 0x89,
        ]
    );
}

#[test]
fn read_modified_reply_parses() {
    let wire: [u8; 11] = [0x7D, 0x4B, 0xD4, 0x11, 0x00, 0xC9, 0xC1, 0xD3, 0xC9, 0xC3, 0xC5];
    let rec = IncomingRecord::parse_record(&wire).expect("well-formed record");
    assert_eq!(rec.aid, AID::Enter);
    // 0x4B 0xD4 is the 12-bit form: (0x0B << 6) | 0x14 = 724.
    assert_eq!(rec.addr, 724);
    assert_eq!(rec.orders.len(), 2);
    assert!(matches!(rec.orders[0], WriteOrder::SetBufferAddress(201)));
    match &rec.orders[1] {
        WriteOrder::SendText(s) => assert_eq!(s, "ALICE"),
        other => panic!("expected SendText, got {:?}", other),
    }
}

#[test]
fn invalid_aid_drops_record_only() {
    let bad: [u8; 3] = [0x01, 0x00, 0x00];
    assert!(matches!(
        IncomingRecord::parse_record(&bad),
        Err(StreamFormatError::InvalidAID { aid: 0x01 })
    ));
    // The next record still parses: the parser is restartable.
    let good: [u8; 3] = [0x7D, 0x00, 0x00];
    let rec = IncomingRecord::parse_record(&good).expect("valid record after a bad one");
    assert_eq!(rec.aid, AID::Enter);
    assert_eq!(rec.addr, 0);
    assert!(rec.orders.is_empty());
}

#[test]
fn parse_errors_are_typed() {
    // Record ends before AID + address are complete.
    assert!(matches!(
        IncomingRecord::parse_record(&[0x7D, 0x4B]),
        Err(StreamFormatError::UnexpectedEOR)
    ));
    // StartField missing its attribute byte.
    assert!(matches!(
        IncomingRecord::parse_record(&[0x7D, 0x00, 0x00, 0x1D]),
        Err(StreamFormatError::UnexpectedEOR)
    ));
    // StartField with the reserved bit set.
    assert!(matches!(
        IncomingRecord::parse_record(&[0x7D, 0x00, 0x00, 0x1D, 0x02]),
        Err(StreamFormatError::InvalidData)
    ));
    // StartFieldExtended with a zero attribute count.
    assert!(matches!(
        IncomingRecord::parse_record(&[0x7D, 0x00, 0x00, 0x29, 0x00]),
        Err(StreamFormatError::InvalidData)
    ));
    // An unknown opcode below 0x40.
    assert!(matches!(
        IncomingRecord::parse_record(&[0x7D, 0x00, 0x00, 0x3F]),
        Err(StreamFormatError::InvalidData)
    ));
}

#[test]
fn serialize_parse_round_trip_all_orders() {
    let orders = vec![
        WriteOrder::StartField(FieldAttribute { bits: FieldAttribute::PROTECTED }),
        WriteOrder::StartFieldExtended(vec![
            ExtendedFieldAttribute::FieldAttribute(FieldAttribute {
                bits: FieldAttribute::NUMERIC,
            }),
            ExtendedFieldAttribute::ExtendedHighlighting(Highlighting::Blink),
        ]),
        WriteOrder::SetBufferAddress(100),
        WriteOrder::SetAttribute(ExtendedFieldAttribute::BackgroundColor(Color::Blue)),
        WriteOrder::ModifyField(vec![]),
        WriteOrder::InsertCursor(5),
        WriteOrder::ProgramTab,
        WriteOrder::RepeatToAddress(200, 'x'),
        WriteOrder::EraseUnprotectedToAddress(1919),
        WriteOrder::GraphicEscape(0xC1),
        WriteOrder::SendText(String::from("AB")),
        WriteOrder::SendText(String::new()),
        WriteOrder::SendText(String::from("CD")),
    ];
    let mut wire: Vec<u8> = Vec::new();
    for o in orders.iter() {
        o.serialize(&mut wire);
    }
    let parsed = parse_orders(&wire, 0).expect("serialized orders parse back");
    // The three SendText runs coalesce into one; the empty one vanishes.
    assert_eq!(parsed.len(), 11);
    assert!(matches!(
        parsed[0],
        WriteOrder::StartField(FieldAttribute { bits: 0x20 })
    ));
    match &parsed[1] {
        WriteOrder::StartFieldExtended(attrs) => {
            assert_eq!(attrs.len(), 2);
            assert!(matches!(
                attrs[0],
                ExtendedFieldAttribute::FieldAttribute(FieldAttribute { bits: 0x10 })
            ));
            assert!(matches!(
                attrs[1],
                ExtendedFieldAttribute::ExtendedHighlighting(Highlighting::Blink)
            ));
        },
        other => panic!("expected StartFieldExtended, got {:?}", other),
    }
    assert!(matches!(parsed[2], WriteOrder::SetBufferAddress(100)));
    assert!(matches!(
        parsed[3],
        WriteOrder::SetAttribute(ExtendedFieldAttribute::BackgroundColor(Color::Blue))
    ));
    assert!(matches!(&parsed[4], WriteOrder::ModifyField(v) if v.is_empty()));
    assert!(matches!(parsed[5], WriteOrder::InsertCursor(5)));
    assert!(matches!(parsed[6], WriteOrder::ProgramTab));
    assert!(matches!(parsed[7], WriteOrder::RepeatToAddress(200, 'x')));
    assert!(matches!(parsed[8], WriteOrder::EraseUnprotectedToAddress(1919)));
    assert!(matches!(parsed[9], WriteOrder::GraphicEscape(0xC1)));
    match &parsed[10] {
        WriteOrder::SendText(s) => assert_eq!(s, "ABCD"),
        other => panic!("expected SendText, got {:?}", other),
    }
}

#[test]
fn command_codes() {
    assert_eq!(WriteCommandCode::Write.to_command_code(), 0xF1);
    assert_eq!(WriteCommandCode::EraseWrite.to_command_code(), 0xF5);
    assert_eq!(WriteCommandCode::EraseWriteAlternate.to_command_code(), 0x7E);
    assert_eq!(WriteCommandCode::EraseAllUnprotected.to_command_code(), 0x6F);
    assert_eq!(WriteCommandCode::WriteStructuredField.to_command_code(), 0xF3);
}

#[test]
fn parse_never_panics_on_arbitrary_bytes() {
    // A small linear congruential generator keeps the test
    // deterministic while exercising arbitrary byte patterns.
    let mut state: u64 = 0x2545F4914F6CDD1D;
    let mut next = move || {
        state = state.wrapping_mul(6364136223846793005).wrapping_add(1442695040888963407);
        (state >> 33) as u8
    };
    for round in 0..2000 {
        let len = (round % 37) as usize;
        let record: Vec<u8> = (0..len).map(|_| next()).collect();
        match IncomingRecord::parse_record(&record) {
            Ok(_) => {},
            Err(
                StreamFormatError::InvalidAID { .. }
                | StreamFormatError::UnexpectedEOR
                | StreamFormatError::InvalidData,
            ) => {},
        }
    }
}

#[test]
fn empty_record_is_unexpected_eor() {
    assert!(matches!(
        IncomingRecord::parse_record(&[]),
        Err(StreamFormatError::UnexpectedEOR)
    ));
}

#[test]
fn graphic_escape_does_not_merge_text_runs() {
    let orders = vec![
        WriteOrder::SendText(String::from("A")),
        WriteOrder::GraphicEscape(0xC8),
        WriteOrder::SendText(String::from("B")),
    ];
    let mut wire: Vec<u8> = Vec::new();
    for o in orders.iter() {
        o.serialize(&mut wire);
    }
    assert_eq!(wire, vec![0xC1, 0x08, 0xC8, 0xC2]);
    let parsed = parse_orders(&wire, 0).unwrap();
    assert_eq!(parsed.len(), 3);
    assert!(matches!(&parsed[0], WriteOrder::SendText(s) if s == "A"));
    assert!(matches!(parsed[1], WriteOrder::GraphicEscape(0xC8)));
    assert!(matches!(&parsed[2], WriteOrder::SendText(s) if s == "B"));
}

#[test]
fn output_record_bytes_match_serialization() {
    let cmd = WriteCommand {
        command: WriteCommandCode::Write,
        wcc: WCC::new(0x03),
        orders: vec![WriteOrder::ProgramTab],
    };
    assert_eq!(cmd.record_bytes(), cmd.to_bytes());
    assert_eq!(cmd.record_bytes(), vec![0xF1, 0xC3, 0x05]);
}
