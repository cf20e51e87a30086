use helpdesk_core::codec::{parse_client_frame, server_frame_json, uuid_string};
use helpdesk_core::ids::{MessageId, TicketId, UserId};
use helpdesk_core::message::ChatMessage;

#[test]
fn parses_a_plain_frame() {
    let f = parse_client_frame("{\"content\":\"hello\",\"is_from_customer\":true}").unwrap();
    assert_eq!(f.content, "hello");
    assert!(f.is_from_customer);
}

#[test]
fn field_order_and_whitespace_do_not_matter() {
    let f = parse_client_frame(
        " { \"is_from_customer\" : false , \"content\" : \"hi\" } ",
    )
    .unwrap();
    assert_eq!(f.content, "hi");
    assert!(!f.is_from_customer);
}

#[test]
fn unknown_fields_are_ignored_even_nested() {
    let f = parse_client_frame(
        "{\"meta\":{\"a\":[1,2,{\"b\":null}],\"c\":\"x\"},\"content\":\"ok\",\"is_from_customer\":true,\"n\":-1.5e3}",
    )
    .unwrap();
    assert_eq!(f.content, "ok");
}

#[test]
fn escapes_resolve_as_serde_json_resolves_them() {
    let text = "{\"content\":\"a\\n\\t\\\"q\\\\\\/\\u00e9\\ud83d\\ude00\",\"is_from_customer\":true}";
    let f = parse_client_frame(text).unwrap();
    // the same string through serde_json's reader
    let v: serde_json::Value = serde_json::from_str("\"a\\n\\t\\\"q\\\\\\/\\u00e9\\ud83d\\ude00\"").unwrap();
    assert_eq!(f.content, v.as_str().unwrap());
    assert_eq!(f.content, "a\n\t\"q\\/\u{e9}\u{1F600}");
}

#[test]
fn malformed_frames_are_refused() {
    for text in [
        "{\"foo\":\"bar\"}",                                      // missing both fields
        "{\"content\":\"x\"}",                                      // missing flag
        "{\"is_from_customer\":true}",                              // missing content
        "{\"content\":1,\"is_from_customer\":true}",                // wrong type
        "{\"content\":\"x\",\"is_from_customer\":\"true\"}",        // wrong type
        "{\"content\":\"x\",\"is_from_customer\":true",             // unclosed
        "{\"content\":\"x\",\"is_from_customer\":true} trailing",   // trailing text
        "[\"content\"]",                                            // not an object
        "{\"content\":\"x\",\"content\":\"y\",\"is_from_customer\":true}", // duplicate
        "{\"content\":\"\\ud800\",\"is_from_customer\":true}",      // lone surrogate
        "{\"content\":\"x\",\"is_from_customer\":true,}",           // trailing comma
        "",
    ] {
        assert!(parse_client_frame(text).is_none(), "accepted: {}", text);
    }
    // the ones that break the JSON grammar itself are also refused by
    // serde_json's reader
    for text in [
        "{\"content\":\"x\",\"is_from_customer\":true",
        "{\"content\":\"x\",\"is_from_customer\":true} trailing",
        "{\"content\":\"\\ud800\",\"is_from_customer\":true}",
        "{\"content\":\"x\",\"is_from_customer\":true,}",
        "",
    ] {
        assert!(serde_json::from_str::<serde_json::Value>(text).is_err());
    }
}

#[test]
fn renders_the_canonical_wire_frame() {
    let m = ChatMessage {
        id: MessageId(0x0123456789abcdef0123456789abcdefu128),
        ticket_id: TicketId(1),
        sender_id: UserId(2),
        content: String::from("he said \"hi\"\n"),
        is_from_customer: false,
        created_at: String::from("2024-05-01T10:00:00+00:00"),
    };
    let bytes = server_frame_json(&m);
    let text = String::from_utf8(bytes).unwrap();
    assert_eq!(
        text,
        "{\"id\":\"01234567-89ab-cdef-0123-456789abcdef\",\
         \"ticket_id\":\"00000000-0000-0000-0000-000000000001\",\
         \"sender_id\":\"00000000-0000-0000-0000-000000000002\",\
         \"content\":\"he said \\\"hi\\\"\\n\",\
         \"is_from_customer\":false,\
         \"created_at\":\"2024-05-01T10:00:00+00:00\"}"
    );
}

#[test]
fn rendered_frames_escape_like_serde_json() {
    let m = ChatMessage {
        id: MessageId(3),
        ticket_id: TicketId(4),
        sender_id: UserId(5),
        content: String::from("tab\t quote\" back\\ ctrl\u{1} text \u{e9}"),
        is_from_customer: true,
        created_at: String::from("2024-05-01T10:00:00+00:00"),
    };
    let text = String::from_utf8(server_frame_json(&m)).unwrap();
    let expected_content = serde_json::to_string(m.content.as_str()).unwrap();
    assert!(text.contains(&format!("\"content\":{}", expected_content)));
}

#[test]
fn a_rendered_frame_reads_back_with_the_same_content_and_flag() {
    let m = ChatMessage {
        id: MessageId(7),
        ticket_id: TicketId(8),
        sender_id: UserId(9),
        content: String::from("line one\nline two \"quoted\" \\ caf\u{e9} \u{1F600}\u{1}"),
        is_from_customer: true,
        created_at: String::from("2024-05-01T10:00:00+00:00"),
    };
    // A server frame is a JSON object whose extra fields the frame reader
    // skips, so the canonical content and flag survive a full round trip.
    let text = String::from_utf8(server_frame_json(&m)).unwrap();
    let back = parse_client_frame(&text).unwrap();
    assert_eq!(back.content, m.content);
    assert_eq!(back.is_from_customer, m.is_from_customer);
}

#[test]
fn uuid_strings_match_the_uuid_crate() {
    for n in [0u128, 1, 0xffffffffffffffffffffffffffffffffu128, 0x0123456789abcdef0123456789abcdefu128] {
        let mine = uuid_string(n);
        let theirs = uuid::Uuid::from_u128(n).hyphenated().to_string();
        assert_eq!(mine, theirs);
    }
}
