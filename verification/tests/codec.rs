use router_core::codec::encode_event;
use router_core::gateway::NewComment;

fn frame(uid: &str, text: &str) -> String {
    let msg = NewComment { uid: uid.to_string(), text: text.to_string() };
    encode_event(&msg).iter().collect()
}

#[test]
fn encodes_a_plain_notification() {
    assert_eq!(frame("u1", "hi"), "{\"uid\":\"u1\",\"text\":\"hi\"}");
}

#[test]
fn encodes_empty_fields() {
    assert_eq!(frame("", ""), "{\"uid\":\"\",\"text\":\"\"}");
}

#[test]
fn escapes_quotes_and_backslashes() {
    assert_eq!(
        frame("a\"b", "c\\d"),
        "{\"uid\":\"a\\\"b\",\"text\":\"c\\\\d\"}"
    );
}

#[test]
fn escapes_named_control_characters() {
    assert_eq!(
        frame("a\nb", "c\td\re\u{8}f\u{c}g"),
        "{\"uid\":\"a\\nb\",\"text\":\"c\\td\\re\\bf\\fg\"}"
    );
}

#[test]
fn escapes_other_control_characters_as_hex() {
    assert_eq!(
        frame("\u{1}", "\u{1f}"),
        "{\"uid\":\"\\u0001\",\"text\":\"\\u001f\"}"
    );
}

#[test]
fn passes_non_ascii_text_through_unchanged() {
    assert_eq!(
        frame("héllo", "naïve → 日本"),
        "{\"uid\":\"héllo\",\"text\":\"naïve → 日本\"}"
    );
}
