use tn3270::screen::{Field, FieldData, Screen};
use tn3270::session::{SessionCore, SessionError};
use tn3270::telnet::TelnetEvent;
use tn3270::stream::{
    BufferAddressCalculator, ExtendedFieldAttribute, FieldAttribute, IncomingRecord,
    WriteCommandCode, WriteOrder, AID,
};

#[test]
fn negotiation_with_scripted_peer() {
    let mut core = SessionCore::new();
    let opening = core.initial_negotiation();
    assert_eq!(opening, vec![255, 253, 24, 255, 251, 24]);
    assert!(!core.is_ready());

    // Peer: WILL TTYPE. We acknowledge (DO TTYPE comes from the parser)
    // and ask for the terminal type (SB TTYPE SEND).
    let replies = core.receive_bytes(&[255, 251, 24]).unwrap();
    assert_eq!(replies, vec![255, 253, 24, 255, 250, 24, 1, 255, 240]);
    assert!(!core.is_ready());

    // Peer: SB TTYPE IS IBM-3278-2 SE. We store the type and negotiate
    // EOR and BINARY in both directions.
    let mut sb: Vec<u8> = vec![255, 250, 24, 0];
    sb.extend_from_slice(b"IBM-3278-2");
    sb.extend_from_slice(&[255, 240]);
    let replies = core.receive_bytes(&sb).unwrap();
    assert_eq!(
        replies,
        vec![255, 251, 25, 255, 253, 25, 255, 251, 0, 255, 253, 0]
    );
    assert_eq!(core.term_type.as_deref(), Some(b"IBM-3278-2".as_slice()));
    assert!(!core.is_ready());

    // Peer: DO EOR, WILL EOR, DO BINARY, WILL BINARY.
    core.receive_bytes(&[255, 253, 25]).unwrap();
    core.receive_bytes(&[255, 251, 25]).unwrap();
    assert!(!core.is_ready());
    core.receive_bytes(&[255, 253, 0]).unwrap();
    core.receive_bytes(&[255, 251, 0]).unwrap();
    assert!(core.is_ready());
}

#[test]
fn iac_escape_round_trip() {
    // A literal 0xFF is doubled on the wire and the frame ends IAC EOR.
    let framed = SessionCore::frame_record(&[0x01, 0x02, 0xFF]);
    assert_eq!(framed, vec![0x01, 0x02, 0xFF, 0xFF, 0xFF, 0xEF]);

    // The receiving side reassembles the original payload.
    let mut core = SessionCore::new();
    core.receive_bytes(&framed).unwrap();
    assert_eq!(core.take_record(), Some(vec![0x01, 0x02, 0xFF]));
    assert_eq!(core.take_record(), None);
}

#[test]
fn frame_without_iac_is_untouched() {
    let framed = SessionCore::frame_record(&[0xF1, 0xC3, 0x11, 0x00, 0x00, 0xC1]);
    assert_eq!(framed, vec![0xF1, 0xC3, 0x11, 0x00, 0x00, 0xC1, 0xFF, 0xEF]);
}

#[test]
fn records_arrive_in_order() {
    let mut core = SessionCore::new();
    let mut wire = SessionCore::frame_record(&[0x01]);
    wire.extend_from_slice(&SessionCore::frame_record(&[0x02, 0x03]));
    core.receive_bytes(&wire).unwrap();
    assert!(core.has_record());
    assert_eq!(core.take_record(), Some(vec![0x01]));
    assert_eq!(core.take_record(), Some(vec![0x02, 0x03]));
    assert_eq!(core.take_record(), None);
    assert!(!core.has_record());
}

#[test]
fn partial_record_waits_for_eor() {
    let mut core = SessionCore::new();
    core.receive_bytes(&[0x01, 0x02]).unwrap();
    assert!(!core.has_record());
    core.receive_bytes(&[0x03, 0xFF, 0xEF]).unwrap();
    assert_eq!(core.take_record(), Some(vec![0x01, 0x02, 0x03]));
}

#[test]
fn present_screen_and_apply_reply() {
    let acalc = BufferAddressCalculator { width: 80, height: 24 };
    let mut screen = Screen {
        fields: vec![
            Field::at(1, 0).ro_text("Login:"),
            Field::at(1, 10).rw_text(""),
        ],
    };
    let cmd = screen.compile(acalc);
    assert!(matches!(cmd.command, WriteCommandCode::EraseWrite));
    assert_eq!(cmd.wcc.bits, 0x03);
    // Four orders place each field.
    assert_eq!(cmd.orders.len(), 8);

    // The client answers: Enter, cursor at (3, 20), text for the
    // read-write field whose attribute sits at cell 90.
    let enc = acalc.encode_address(1, 10);
    assert_eq!(enc, 90);
    let reply: Vec<u8> = vec![
        0x7D,
        0x00,
        0x00,
        0x11,
        0x00,
        (enc + 1) as u8,
        0xC1,
        0xD3,
        0xC9,
        0xC3,
        0xC5,
    ];
    let rec = IncomingRecord::parse_record(&reply).unwrap();
    let resp = screen.apply_response(&rec, acalc);
    assert_eq!(resp.aid, AID::Enter);
    match &screen.fields[1].data {
        FieldData::RW(s) => assert_eq!(s, "ALICE"),
        other => panic!("read-write slot expected, got {:?}", other),
    }
    // The read-only field is untouched.
    match &screen.fields[0].data {
        FieldData::RO(s) => assert_eq!(s, "Login:"),
        other => panic!("read-only slot expected, got {:?}", other),
    }
}

#[test]
fn compiled_field_wire_bytes() {
    let acalc = BufferAddressCalculator { width: 80, height: 24 };
    let screen = Screen {
        fields: vec![Field::at(1, 31).ro_text("Hi")],
    };
    let cmd = screen.compile(acalc);
    // SetBufferAddress(111), StartFieldExtended([protected]),
    // SendText("Hi"), then a protected StartField closing the gap.
    assert_eq!(
        cmd.to_bytes(),
        vec![
            0xF5, 0xC3, 0x11, 0x00, 0x6F, 0x29, 0x01, 0xC0, 0x60, 0xC8, 0x89, 0x1D, 0x60,
        ]
    );
}

#[test]
fn mccp_decompression_is_refused() {
    let mut core = SessionCore::new();
    let mut send: Vec<u8> = Vec::new();
    let r = core.handle_event(TelnetEvent::Decompress(vec![0x00]), &mut send);
    assert_eq!(r, Err(SessionError::Unsupported));
    assert!(send.is_empty());
}

#[test]
fn compile_keeps_and_protects_explicit_field_attributes() {
    let acalc = BufferAddressCalculator { width: 80, height: 24 };
    let numeric = ExtendedFieldAttribute::FieldAttribute(FieldAttribute {
        bits: FieldAttribute::NUMERIC,
    });
    let screen = Screen {
        fields: vec![
            Field::at(0, 0).with_attr(numeric).rw_text("x"),
            Field::at(0, 40).with_attr(numeric).ro_text("y"),
        ],
    };
    let cmd = screen.compile(acalc);
    // A read-write field keeps its attribute with PROTECTED clear; a
    // read-only field gets PROTECTED added to it.
    match &cmd.orders[1] {
        WriteOrder::StartFieldExtended(attrs) => {
            assert_eq!(attrs.len(), 1);
            assert!(matches!(
                attrs[0],
                ExtendedFieldAttribute::FieldAttribute(FieldAttribute { bits: 0x10 })
            ));
        },
        other => panic!("expected StartFieldExtended, got {:?}", other),
    }
    match &cmd.orders[5] {
        WriteOrder::StartFieldExtended(attrs) => {
            assert!(matches!(
                attrs[0],
                ExtendedFieldAttribute::FieldAttribute(FieldAttribute { bits: 0x30 })
            ));
        },
        other => panic!("expected StartFieldExtended, got {:?}", other),
    }
}
