use mcscan::errors::{ParseError, PayloadFault};
use mcscan::filter::{matches_criteria, MatchCriteria};
use mcscan::status::{parse_status_payload, Description, StatusResponse};

fn parse_ok(bytes: &[u8]) -> StatusResponse {
    match parse_status_payload(bytes) {
        Ok(st) => st,
        Err(e) => panic!("payload should parse, got {:?}", e),
    }
}

fn parse_fault(bytes: &[u8]) -> PayloadFault {
    match parse_status_payload(bytes) {
        Ok(_) => panic!("payload should be rejected"),
        Err(ParseError::InvalidPayload(f)) => f,
    }
}

#[test]
fn description_as_bare_string_normalizes() {
    let st = parse_ok(
        br#"{"description":"Hello","players":{"max":10,"online":0},"version":{"name":"1.20","protocol":763}}"#,
    );
    assert!(matches!(st.description, Description::Plain(_)));
    assert_eq!(st.description.text(), "Hello");
}

#[test]
fn description_as_object_normalizes_to_same_text() {
    let st = parse_ok(
        br#"{"description":{"text":"Hello"},"players":{"max":10,"online":0},"version":{"name":"1.20","protocol":763}}"#,
    );
    assert!(matches!(st.description, Description::Object { .. }));
    assert_eq!(st.description.text(), "Hello");
}

#[test]
fn description_object_extra_formatting_fields_are_ignored() {
    let st = parse_ok(
        br#"{"description":{"bold":true,"text":"Hi","color":"red"},"players":{"max":1,"online":0},"version":{"name":"x","protocol":0}}"#,
    );
    assert_eq!(st.description.text(), "Hi");
}

#[test]
fn missing_sample_parses_to_empty_sequence() {
    let st = parse_ok(
        br#"{"description":"d","players":{"max":20,"online":3},"version":{"name":"1.19","protocol":700}}"#,
    );
    assert_eq!(st.players.max, 20);
    assert_eq!(st.players.online, 3);
    assert!(st.players.sample.is_empty());
}

#[test]
fn present_sample_is_kept_in_order() {
    let st = parse_ok(
        br#"{"description":"d","players":{"max":20,"online":2,"sample":[{"name":"a","id":"1"},{"name":"b","id":"2"}]},"version":{"name":"v","protocol":5}}"#,
    );
    assert_eq!(st.players.sample.len(), 2);
    assert_eq!(st.players.sample[0].name, "a");
    assert_eq!(st.players.sample[0].id, "1");
    assert_eq!(st.players.sample[1].name, "b");
    assert_eq!(st.players.sample[1].id, "2");
    assert_eq!(st.version.name, "v");
    assert_eq!(st.version.protocol, 5);
}

#[test]
fn invalid_json_is_not_json() {
    assert_eq!(parse_fault(b"{"), PayloadFault::NotJson);
    assert_eq!(parse_fault(&[0xFF, 0xFE]), PayloadFault::NotJson);
}

#[test]
fn non_object_root_is_rejected() {
    assert_eq!(parse_fault(b"[1,2]"), PayloadFault::NotObject);
    assert_eq!(parse_fault(b"\"hi\""), PayloadFault::NotObject);
}

#[test]
fn missing_description_is_rejected() {
    assert_eq!(
        parse_fault(br#"{"players":{"max":1,"online":0},"version":{"name":"v","protocol":1}}"#),
        PayloadFault::MissingDescription
    );
}

#[test]
fn bad_description_shapes_are_rejected() {
    assert_eq!(
        parse_fault(
            br#"{"description":5,"players":{"max":1,"online":0},"version":{"name":"v","protocol":1}}"#
        ),
        PayloadFault::BadDescription
    );
    assert_eq!(
        parse_fault(
            br#"{"description":{"bold":true},"players":{"max":1,"online":0},"version":{"name":"v","protocol":1}}"#
        ),
        PayloadFault::BadDescription
    );
}

#[test]
fn missing_or_bad_players_is_rejected() {
    assert_eq!(
        parse_fault(br#"{"description":"d","version":{"name":"v","protocol":1}}"#),
        PayloadFault::MissingPlayers
    );
    assert_eq!(
        parse_fault(br#"{"description":"d","players":7,"version":{"name":"v","protocol":1}}"#),
        PayloadFault::BadPlayers
    );
}

#[test]
fn bad_max_is_rejected() {
    for players in [
        r#"{"online":0}"#,
        r#"{"max":"many","online":0}"#,
        r#"{"max":-1,"online":0}"#,
        r#"{"max":4294967296,"online":0}"#,
        r#"{"max":1.5,"online":0}"#,
    ] {
        let payload = format!(
            r#"{{"description":"d","players":{},"version":{{"name":"v","protocol":1}}}}"#,
            players
        );
        assert_eq!(parse_fault(payload.as_bytes()), PayloadFault::BadMax);
    }
}

#[test]
fn bad_online_is_rejected() {
    assert_eq!(
        parse_fault(br#"{"description":"d","players":{"max":1},"version":{"name":"v","protocol":1}}"#),
        PayloadFault::BadOnline
    );
}

#[test]
fn bad_sample_is_rejected() {
    for players in [
        r#"{"max":1,"online":0,"sample":5}"#,
        r#"{"max":1,"online":0,"sample":[{"name":"a"}]}"#,
        r#"{"max":1,"online":0,"sample":[{"name":"a","id":7}]}"#,
        r#"{"max":1,"online":0,"sample":["x"]}"#,
    ] {
        let payload = format!(
            r#"{{"description":"d","players":{},"version":{{"name":"v","protocol":1}}}}"#,
            players
        );
        assert_eq!(parse_fault(payload.as_bytes()), PayloadFault::BadSample);
    }
}

#[test]
fn missing_or_bad_version_is_rejected() {
    assert_eq!(
        parse_fault(br#"{"description":"d","players":{"max":1,"online":0}}"#),
        PayloadFault::MissingVersion
    );
    assert_eq!(
        parse_fault(br#"{"description":"d","players":{"max":1,"online":0},"version":9}"#),
        PayloadFault::BadVersion
    );
    assert_eq!(
        parse_fault(
            br#"{"description":"d","players":{"max":1,"online":0},"version":{"name":"v"}}"#
        ),
        PayloadFault::BadVersion
    );
}

fn status(max: u32, description: &str) -> StatusResponse {
    let text = format!(
        r#"{{"description":{:?},"players":{{"max":{},"online":0}},"version":{{"name":"v","protocol":1}}}}"#,
        description, max
    );
    parse_ok(text.as_bytes())
}

#[test]
fn filter_exact_match() {
    let criteria = MatchCriteria {
        target_slot_count: 35,
        target_motd: "A Minecraft Server".to_string(),
    };
    assert!(matches_criteria(&status(35, "A Minecraft Server"), &criteria));
}

#[test]
fn filter_rejects_off_by_one_slot_count() {
    let criteria = MatchCriteria {
        target_slot_count: 35,
        target_motd: "A Minecraft Server".to_string(),
    };
    assert!(!matches_criteria(&status(34, "A Minecraft Server"), &criteria));
    assert!(!matches_criteria(&status(36, "A Minecraft Server"), &criteria));
}

#[test]
fn filter_rejects_one_character_motd_change() {
    let criteria = MatchCriteria {
        target_slot_count: 35,
        target_motd: "A Minecraft Server".to_string(),
    };
    assert!(!matches_criteria(&status(35, "A Minecraft server"), &criteria));
    assert!(!matches_criteria(&status(35, "A Minecraft Server "), &criteria));
}

#[test]
fn filter_rejects_empty_description_even_against_empty_target() {
    let criteria = MatchCriteria { target_slot_count: 35, target_motd: String::new() };
    assert!(!matches_criteria(&status(35, ""), &criteria));
}
