use web_gateway::ids::{id_text, new_id, parse_id};

const ID: u128 = 0x550e8400_e29b_41d4_a716_446655440000;
const TEXT: &str = "550e8400-e29b-41d4-a716-446655440000";

#[test]
fn identifiers_are_read_in_each_notation() {
    assert_eq!(parse_id(TEXT), Some(ID));
    assert_eq!(parse_id("550e8400e29b41d4a716446655440000"), Some(ID));
    assert_eq!(parse_id("{550e8400-e29b-41d4-a716-446655440000}"), Some(ID));
    assert_eq!(parse_id("urn:uuid:550e8400-e29b-41d4-a716-446655440000"), Some(ID));
    assert_eq!(parse_id("550E8400-E29B-41D4-A716-446655440000"), Some(ID));
}

#[test]
fn other_texts_are_no_identifiers() {
    assert_eq!(parse_id(""), None);
    assert_eq!(parse_id("not-a-uuid"), None);
    assert_eq!(parse_id("550e8400-e29b-41d4-a716-44665544000"), None);
    assert_eq!(parse_id("550e8400-e29b-41d4-a716-44665544000g"), None);
}

#[test]
fn identifiers_are_written_in_lower_case_with_hyphens() {
    assert_eq!(id_text(ID), TEXT);
    assert_eq!(id_text(0), "00000000-0000-0000-0000-000000000000");
    assert_eq!(id_text(u128::MAX), "ffffffff-ffff-ffff-ffff-ffffffffffff");
}

#[test]
fn written_identifiers_are_read_back() {
    for id in [0u128, 1, ID, u128::MAX, 0xdeadbeef] {
        assert_eq!(parse_id(&id_text(id)), Some(id));
    }
}

#[test]
fn new_identifiers_are_marked_as_random() {
    let text = id_text(new_id());
    let chars: Vec<char> = text.chars().collect();
    assert_eq!(chars[14], '4');
    assert!(matches!(chars[19], '8' | '9' | 'a' | 'b'));
    assert_ne!(new_id(), new_id());
}
