use sonor::{discovery_peers, find_room, peer_locations, room_uuid, uuid_at_location, SpeakerInfo, ZoneGroups};

fn info(name: &str, uuid: &str, location: &str) -> SpeakerInfo {
    SpeakerInfo {
        name: name.to_string(),
        uuid: uuid.to_string(),
        location: location.to_string(),
    }
}

fn topology() -> ZoneGroups {
    vec![
        ("A".to_string(), vec![info("Office", "A", "http://a"), info("Kitchen", "K", "http://k")]),
        ("D".to_string(), vec![info("Den", "D", "http://d")]),
    ]
}

#[test]
fn no_responder_means_nothing_to_resolve() {
    assert!(discovery_peers(None).is_empty());
}

#[test]
fn every_member_of_every_group_is_resolved() {
    assert_eq!(discovery_peers(Some(topology())), vec!["http://a", "http://k", "http://d"]);
    assert_eq!(peer_locations(&topology()), vec!["http://a", "http://k", "http://d"]);
    assert!(peer_locations(&Vec::new()).is_empty());
}

#[test]
fn find_picks_the_matching_room() {
    let names = vec!["Office".to_string(), "Kitchen".to_string(), "Den".to_string()];
    assert_eq!(find_room(&names, "Kitchen"), Some(1));
    assert_eq!(find_room(&names, "kitchen"), Some(1));
    assert_eq!(find_room(&names, "KITCHEN"), Some(1));
    assert_eq!(find_room(&names, "Garage"), None);
    assert_eq!(find_room(&Vec::new(), "Kitchen"), None);
}

#[test]
fn find_takes_the_first_of_equal_names() {
    let names = vec!["den".to_string(), "Den".to_string()];
    assert_eq!(find_room(&names, "DEN"), Some(0));
}

#[test]
fn rooms_and_locations_lead_to_uuids() {
    let groups = topology();
    assert_eq!(room_uuid(&groups, "kitchen"), Some("K".to_string()));
    assert_eq!(room_uuid(&groups, "Den"), Some("D".to_string()));
    assert_eq!(room_uuid(&groups, "Garage"), None);
    assert_eq!(uuid_at_location(&groups, "http://d"), Some("D".to_string()));
    assert_eq!(uuid_at_location(&groups, "http://D"), None);
}
