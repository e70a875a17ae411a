use nostr_likes::event::{Event, EventId, Tag};

const PARENT_ID: &str = "2be17aa3031bdcb006f0fce80c146dea9c1c0268b0af2398bb673365c6444d45";
const OTHER_ID: &str = "13adc511de7e1cfcf1c6b7f6365fb5a03442d7bcacf565ea57fa7770912c023d";

// A record as a relay sends it.
const PARENT: &str = r#"{"id":"2be17aa3031bdcb006f0fce80c146dea9c1c0268b0af2398bb673365c6444d45","pubkey":"f86c44a2de95d9149b51c6a29afeabba264c18e2fa7c49de93424a0c56947785","created_at":1640839235,"kind":4,"tags":[["p","13adc511de7e1cfcf1c6b7f6365fb5a03442d7bcacf565ea57fa7770912c023d"]],"content":"uRuvYr585B80L6rSJiHocw==?iv=oh6LVqdsYYol3JfFnXTbPA==","sig":"a5d9290ef9659083c490b303eb7ee41356d8778ff19f2f91776c8dc4443388a64ffcf336e61af4c25c05ac3ae952d1ced889ed655b67790891222aaa15b99fdd"}"#;

// The same record with its members in another order and with spaces.
const PARENT_REORDERED: &str = r#"{ "content": "uRuvYr585B80L6rSJiHocw==?iv=oh6LVqdsYYol3JfFnXTbPA==", "created_at": 1640839235, "id": "2be17aa3031bdcb006f0fce80c146dea9c1c0268b0af2398bb673365c6444d45", "kind": 4, "pubkey": "f86c44a2de95d9149b51c6a29afeabba264c18e2fa7c49de93424a0c56947785", "sig": "a5d9290ef9659083c490b303eb7ee41356d8778ff19f2f91776c8dc4443388a64ffcf336e61af4c25c05ac3ae952d1ced889ed655b67790891222aaa15b99fdd", "tags": [["p", "13adc511de7e1cfcf1c6b7f6365fb5a03442d7bcacf565ea57fa7770912c023d"]] }"#;

// A reaction to `PARENT`, with tags of several kinds around the reference.
const REACTION: &str = r#"{"id":"00000000000000000000000000000000000000000000000000000000000000aa","pubkey":"7e7e9c42a91bfef19fa929e5fda1b72e0ebc1a4c1141673e2794234d86addf4e","created_at":1700000000,"kind":7,"tags":[["p","f86c44a2de95d9149b51c6a29afeabba264c18e2fa7c49de93424a0c56947785"],["e","13adc511de7e1cfcf1c6b7f6365fb5a03442d7bcacf565ea57fa7770912c023d","spam"],["e","2be17aa3031bdcb006f0fce80c146dea9c1c0268b0af2398bb673365c6444d45","wss://relay.example.com"],["t","nostr"],["e","13adc511de7e1cfcf1c6b7f6365fb5a03442d7bcacf565ea57fa7770912c023d"]],"content":"+","sig":"a5d9290ef9659083c490b303eb7ee41356d8778ff19f2f91776c8dc4443388a64ffcf336e61af4c25c05ac3ae952d1ced889ed655b67790891222aaa15b99fdd"}"#;

fn event_id(byte: u8) -> EventId {
    EventId::from_bytes([byte; 32])
}

#[test]
fn an_event_id_is_its_bytes() {
    let mut bytes = [0u8; 32];
    for (i, b) in bytes.iter_mut().enumerate() {
        *b = i as u8;
    }
    let id = EventId::from_bytes(bytes);
    assert_eq!(id.bytes, bytes);
    assert_eq!(id, EventId { bytes });
}

#[test]
fn event_ids_are_equal_where_every_byte_is() {
    assert_eq!(event_id(7), event_id(7));
    assert_ne!(event_id(7), event_id(8));
    let mut first = [7u8; 32];
    first[0] = 8;
    assert_ne!(EventId::from_bytes(first), event_id(7));
    let mut last = [7u8; 32];
    last[31] = 8;
    assert_ne!(EventId::from_bytes(last), event_id(7));
}

#[test]
fn an_event_id_is_written_as_64_lower_case_digits() {
    assert_eq!(event_id(0xab).to_hex(), "ab".repeat(32));
    assert_eq!(EventId::from_hex(PARENT_ID).unwrap().to_hex(), PARENT_ID);
}

#[test]
fn an_event_id_is_read_from_digits_of_either_case() {
    let lower = EventId::from_hex(PARENT_ID).unwrap();
    let upper = EventId::from_hex(&PARENT_ID.to_uppercase()).unwrap();
    assert_eq!(lower, upper);
    assert_eq!(lower.bytes[0], 0x2b);
    assert_eq!(lower.bytes[1], 0xe1);
    assert_eq!(lower.bytes[31], 0x45);
}

#[test]
fn an_event_id_is_not_read_from_anything_else() {
    assert_eq!(EventId::from_hex(""), None);
    assert_eq!(EventId::from_hex(&PARENT_ID[..62]), None);
    assert_eq!(EventId::from_hex(&PARENT_ID[..63]), None);
    assert_eq!(EventId::from_hex(&format!("{}00", PARENT_ID)), None);
    assert_eq!(EventId::from_hex(&format!("{}g", &PARENT_ID[..63])), None);
    assert_eq!(EventId::from_hex(&"é".repeat(32)), None);
}

#[test]
fn event_id_hex_agrees_with_the_protocol_library() {
    let theirs = nostr_sdk::EventId::from_hex(PARENT_ID).unwrap();
    let ours = EventId::from_hex(PARENT_ID).unwrap();
    assert_eq!(&ours.bytes[..], theirs.as_bytes());
    assert_eq!(ours.to_hex(), theirs.to_hex());
    assert!(nostr_sdk::EventId::from_hex(PARENT_ID.to_uppercase()).is_ok());
    assert!(nostr_sdk::EventId::from_hex(&PARENT_ID[..62]).is_err());
    assert!(nostr_sdk::EventId::from_hex(format!("{}00", PARENT_ID)).is_err());
}

#[test]
fn the_parent_is_the_first_reference() {
    let event = Event::new(
        event_id(1),
        vec![Tag::Other, Tag::Event(event_id(2)), Tag::Other, Tag::Event(event_id(3))],
        "{}".to_string(),
    );
    assert_eq!(event.parent(), Some(event_id(2)));
    let event = Event::new(event_id(1), vec![Tag::Event(event_id(9))], "{}".to_string());
    assert_eq!(event.parent(), Some(event_id(9)));
}

#[test]
fn an_event_without_a_reference_has_no_parent() {
    let event = Event::new(event_id(1), vec![], "{}".to_string());
    assert_eq!(event.parent(), None);
    let event = Event::new(event_id(1), vec![Tag::Other, Tag::Other], "{}".to_string());
    assert_eq!(event.parent(), None);
}

#[test]
fn an_event_may_refer_to_itself() {
    let event = Event::new(event_id(1), vec![Tag::Event(event_id(1))], "{}".to_string());
    assert_eq!(event.parent(), Some(event_id(1)));
}

#[test]
fn a_copy_of_an_event_equals_it() {
    let event = Event::new(
        event_id(1),
        vec![Tag::Other, Tag::Event(event_id(2))],
        r#"{"content":"+"}"#.to_string(),
    );
    let copy = event.clone();
    assert_eq!(copy, event);
    assert_eq!(copy.id, event_id(1));
    assert_eq!(copy.tags, vec![Tag::Other, Tag::Event(event_id(2))]);
    assert_eq!(copy.json, r#"{"content":"+"}"#);
}

#[test]
fn events_differ_where_a_part_does() {
    let event = Event::new(event_id(1), vec![Tag::Event(event_id(2))], "{}".to_string());
    assert_ne!(event, Event::new(event_id(3), vec![Tag::Event(event_id(2))], "{}".to_string()));
    assert_ne!(event, Event::new(event_id(1), vec![Tag::Event(event_id(3))], "{}".to_string()));
    assert_ne!(event, Event::new(event_id(1), vec![Tag::Other], "{}".to_string()));
    assert_ne!(event, Event::new(event_id(1), vec![], "{}".to_string()));
    assert_ne!(
        event,
        Event::new(
            event_id(1),
            vec![Tag::Event(event_id(2)), Tag::Other],
            "{}".to_string()
        )
    );
    assert_ne!(event, Event::new(event_id(1), vec![Tag::Event(event_id(2))], "{ }".to_string()));
}

#[test]
fn a_record_is_read_into_an_event() {
    let event = Event::from_json(PARENT).unwrap();
    assert_eq!(event.id, EventId::from_hex(PARENT_ID).unwrap());
    assert_eq!(event.tags, vec![Tag::Other]);
    assert_eq!(event.json, PARENT);
    assert_eq!(event.parent(), None);
}

#[test]
fn a_record_is_written_out_in_one_form() {
    let event = Event::from_json(PARENT_REORDERED).unwrap();
    assert_eq!(event.json, PARENT);
    assert_eq!(event, Event::from_json(PARENT).unwrap());
}

#[test]
fn the_references_of_a_record_are_told_from_its_other_tags() {
    let event = Event::from_json(REACTION).unwrap();
    let parent = EventId::from_hex(PARENT_ID).unwrap();
    let other = EventId::from_hex(OTHER_ID).unwrap();
    assert_eq!(
        event.tags,
        vec![Tag::Other, Tag::Other, Tag::Event(parent), Tag::Other, Tag::Event(other)]
    );
    assert_eq!(event.parent(), Some(parent));
    assert_eq!(event.id.bytes[31], 0xaa);
    assert_eq!(event.json, REACTION);
}

#[test]
fn reading_a_record_does_not_check_its_signature() {
    let record: nostr_sdk::Event = nostr_sdk::serde_json::from_str(REACTION).unwrap();
    assert!(record.verify().is_err());
    assert!(Event::from_json(REACTION).is_some());
}

#[test]
fn what_is_no_record_is_not_read() {
    assert_eq!(Event::from_json(""), None);
    assert_eq!(Event::from_json("{}"), None);
    assert_eq!(Event::from_json("[]"), None);
    assert_eq!(Event::from_json("null"), None);
    assert_eq!(Event::from_json(&PARENT[..PARENT.len() - 1]), None);
    assert_eq!(Event::from_json(&PARENT.replace("2be17aa3", "2be17aa")), None);
    assert_eq!(Event::from_json(&PARENT.replace("\"kind\":4", "\"kind\":\"four\"")), None);
    assert_eq!(Event::from_json(&format!("{} {}", PARENT, PARENT)), None);
}
