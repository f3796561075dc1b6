use sonor::{parse_zone_group_state, DecodeError, SpeakerInfo};
use std::collections::hash_map::DefaultHasher;
use std::hash::{Hash, Hasher};

const TWO_GROUPS: &str = r#"<ZoneGroupState><ZoneGroups>
  <ZoneGroup Coordinator="A" ID="A:1">
    <ZoneGroupMember UUID="A" Location="http://10.0.0.1:1400/xml/device_description.xml" ZoneName="Kitchen"/>
    <ZoneGroupMember UUID="C" Location="http://10.0.0.3:1400/xml/device_description.xml" ZoneName="Den"/>
  </ZoneGroup>
  <ZoneGroup Coordinator="B" ID="B:1">
    <ZoneGroupMember UUID="B" Location="http://10.0.0.2:1400/xml/device_description.xml" ZoneName="Office"/>
  </ZoneGroup>
</ZoneGroups></ZoneGroupState>"#;

fn info(name: &str, uuid: &str, location: &str) -> SpeakerInfo {
    SpeakerInfo {
        name: name.to_string(),
        uuid: uuid.to_string(),
        location: location.to_string(),
    }
}

fn hash_of(s: &SpeakerInfo) -> u64 {
    let mut h = DefaultHasher::new();
    s.hash(&mut h);
    h.finish()
}

#[test]
fn two_groups_parse_in_document_order() {
    let groups = parse_zone_group_state(TWO_GROUPS).unwrap();
    assert_eq!(groups.len(), 2);
    assert_eq!(groups[0].0, "A");
    assert_eq!(groups[0].1.len(), 2);
    assert_eq!(groups[0].1[0].uuid(), "A");
    assert_eq!(groups[0].1[0].name(), "Kitchen");
    assert_eq!(groups[0].1[0].location(), "http://10.0.0.1:1400/xml/device_description.xml");
    assert_eq!(groups[0].1[1].uuid(), "C");
    assert_eq!(groups[0].1[1].name(), "Den");
    assert_eq!(groups[1].0, "B");
    assert_eq!(groups[1].1.len(), 1);
    assert_eq!(groups[1].1[0].uuid(), "B");
    assert_eq!(groups[1].1[0].name(), "Office");
}

#[test]
fn group_counts_and_coordinators_match_the_document() {
    let doc = r#"<ZoneGroups>
      <ZoneGroup Coordinator="X"><ZoneGroupMember UUID="Y" Location="l1" ZoneName="n1"/><ZoneGroupMember UUID="x" Location="l2" ZoneName="n2"/><ZoneGroupMember UUID="Z" Location="l3" ZoneName="n3"/></ZoneGroup>
      <ZoneGroup Coordinator="P"><ZoneGroupMember UUID="P" Location="l4" ZoneName="n4"/></ZoneGroup>
      <ZoneGroup Coordinator="Q"><ZoneGroupMember UUID="Q" Location="l5" ZoneName="n5"/><ZoneGroupMember UUID="R" Location="l6" ZoneName="n6"/></ZoneGroup>
    </ZoneGroups>"#;
    let groups = parse_zone_group_state(doc).unwrap();
    let counts: Vec<usize> = groups.iter().map(|g| g.1.len()).collect();
    assert_eq!(counts, vec![3, 1, 2]);
    for (coordinator, members) in &groups {
        assert!(members.iter().any(|m| m.uuid().eq_ignore_ascii_case(coordinator)));
    }
}

#[test]
fn attribute_and_tag_names_match_in_any_case() {
    let doc = r#"<zonegroups><ZONEGROUP coordinator="A"><zonegroupmember uuid="A" LOCATION="l" zonename="Room"/></ZONEGROUP></zonegroups>"#;
    let groups = parse_zone_group_state(doc).unwrap();
    assert_eq!(groups.len(), 1);
    assert_eq!(groups[0].1[0].name(), "Room");
}

#[test]
fn other_elements_are_ignored() {
    let doc = r#"<Root><VanishedDevices/><ZoneGroups><Other/><ZoneGroup Coordinator="A"><Satellite UUID="S" Location="s" ZoneName="s"/><ZoneGroupMember UUID="A" Location="l" ZoneName="Room"/></ZoneGroup></ZoneGroups></Root>"#;
    let groups = parse_zone_group_state(doc).unwrap();
    assert_eq!(groups.len(), 1);
    assert_eq!(groups[0].1.len(), 1);
}

#[test]
fn empty_container_has_no_groups() {
    assert!(parse_zone_group_state("<ZoneGroups/>").unwrap().is_empty());
}

#[test]
fn missing_container_is_an_error() {
    match parse_zone_group_state("<Nothing/>") {
        Err(DecodeError::MissingElement(context, element)) => {
            assert_eq!(context, "Zone Group Topology");
            assert_eq!(element, "ZoneGroups");
        }
        other => panic!("{:?}", other),
    }
}

#[test]
fn missing_coordinator_is_an_error() {
    let doc = r#"<ZoneGroups><ZoneGroup><ZoneGroupMember UUID="A" Location="l" ZoneName="n"/></ZoneGroup></ZoneGroups>"#;
    match parse_zone_group_state(doc) {
        Err(DecodeError::MissingElement(context, element)) => {
            assert_eq!(context, "ZoneGroup");
            assert_eq!(element, "Coordinator");
        }
        other => panic!("{:?}", other),
    }
}

#[test]
fn missing_member_attributes_are_errors() {
    let cases = [
        (r#"<ZoneGroupMember UUID="A" Location="l"/>"#, "ZoneName"),
        (r#"<ZoneGroupMember Location="l" ZoneName="n"/>"#, "UUID"),
        (r#"<ZoneGroupMember UUID="A" ZoneName="n"/>"#, "Location"),
    ];
    for (member, missing) in cases {
        let doc = format!(r#"<ZoneGroups><ZoneGroup Coordinator="A">{}</ZoneGroup></ZoneGroups>"#, member);
        match parse_zone_group_state(&doc) {
            Err(DecodeError::MissingElement(context, element)) => {
                assert_eq!(context, "ZoneGroupMember");
                assert_eq!(element, missing);
            }
            other => panic!("{:?}", other),
        }
    }
}

#[test]
fn coordinator_outside_its_group_is_malformed() {
    let doc = r#"<ZoneGroups><ZoneGroup Coordinator="B"><ZoneGroupMember UUID="A" Location="l" ZoneName="n"/></ZoneGroup></ZoneGroups>"#;
    match parse_zone_group_state(doc) {
        Err(DecodeError::MalformedTopology(uuid)) => assert_eq!(uuid, "B"),
        other => panic!("{:?}", other),
    }
}

#[test]
fn text_that_is_not_xml_is_an_error() {
    assert!(matches!(parse_zone_group_state("<ZoneGroups></ZoneGroup>"), Err(DecodeError::Xml(_))));
    assert!(matches!(parse_zone_group_state("not xml"), Err(DecodeError::Xml(_))));
}

#[test]
fn speaker_identity_is_the_uuid_in_any_case() {
    let a = info("Kitchen", "RINCON_000E58", "http://a");
    let b = info("Office", "rincon_000e58", "http://b");
    let c = info("Kitchen", "RINCON_000E59", "http://a");
    assert!(a == b);
    assert_eq!(hash_of(&a), hash_of(&b));
    assert!(a != c);
}
