use sonor::responses::{
    bass_from_response, crossfade_from_response, is_playing_from_response, mute_from_response,
    name_from_response, new_volume_from_response, play_mode_from_response, volume_from_response,
    zone_groups_from_response,
};
use sonor::{
    encode_args, is_zone_player, zone_player_urn, ActionRequest, ActionResponse, DecodeError,
    HashMapExt, RepeatMode, Service, Urn, ValueKind,
};

fn response(pairs: &[(&str, &str)]) -> ActionResponse {
    ActionResponse {
        entries: pairs.iter().map(|(k, v)| (k.to_string(), v.to_string())).collect(),
    }
}

fn pairs(args: &[(&str, &str)]) -> Vec<(String, String)> {
    args.iter().map(|(k, v)| (k.to_string(), v.to_string())).collect()
}

#[test]
fn arguments_are_flat_elements_in_order() {
    assert_eq!(encode_args(&Vec::new()), "");
    assert_eq!(
        encode_args(&pairs(&[("InstanceID", "0"), ("Speed", "1")])),
        "<InstanceID>0</InstanceID><Speed>1</Speed>"
    );
}

#[test]
fn argument_values_are_escaped() {
    assert_eq!(
        encode_args(&pairs(&[("CurrentURIMetaData", "<a>&b</a>")])),
        "<CurrentURIMetaData>&lt;a&gt;&amp;b&lt;/a&gt;</CurrentURIMetaData>"
    );
}

#[test]
fn requests_name_service_action_and_arguments() {
    let r = ActionRequest::play();
    assert_eq!(r.service, Service::AVTransport);
    assert_eq!(r.action, "Play");
    assert_eq!(r.payload, "<InstanceID>0</InstanceID><Speed>1</Speed>");

    let r = ActionRequest::set_volume(42);
    assert_eq!(r.service, Service::RenderingControl);
    assert_eq!(r.action, "SetVolume");
    assert_eq!(
        r.payload,
        "<InstanceID>0</InstanceID><Channel>Master</Channel><DesiredVolume>42</DesiredVolume>"
    );

    let r = ActionRequest::get_zone_group_state();
    assert_eq!(r.service, Service::ZoneGroupTopology);
    assert_eq!(r.payload, "");
}

#[test]
fn seek_requests_encode_their_targets() {
    assert_eq!(
        ActionRequest::skip_to(3725).payload,
        "<InstanceID>0</InstanceID><Unit>REL_TIME</Unit><Target>01:02:05</Target>"
    );
    assert_eq!(
        ActionRequest::skip_by(-30).payload,
        "<InstanceID>0</InstanceID><Unit>TIME_DELTA</Unit><Target>-00:00:30</Target>"
    );
    assert_eq!(
        ActionRequest::seek_track(12).payload,
        "<InstanceID>0</InstanceID><Unit>TRACK_NR</Unit><Target>12</Target>"
    );
}

#[test]
fn signed_flag_and_composite_values() {
    assert_eq!(
        ActionRequest::set_bass(-10).payload,
        "<InstanceID>0</InstanceID><DesiredBass>-10</DesiredBass>"
    );
    assert_eq!(
        ActionRequest::set_relative_volume(-32768).payload,
        "<InstanceID>0</InstanceID><Channel>Master</Channel><Adjustment>-32768</Adjustment>"
    );
    assert_eq!(
        ActionRequest::set_mute(true).payload,
        "<InstanceID>0</InstanceID><Channel>Master</Channel><DesiredMute>1</DesiredMute>"
    );
    assert_eq!(
        ActionRequest::remove_track(u32::MAX).payload,
        "<InstanceID>0</InstanceID><ObjectID>Q:0/4294967296</ObjectID>"
    );
    assert_eq!(
        ActionRequest::join_uuid("RINCON_1").payload,
        "<InstanceID>0</InstanceID><CurrentURI>x-rincon:RINCON_1</CurrentURI><CurrentURIMetaData></CurrentURIMetaData>"
    );
    assert_eq!(
        ActionRequest::set_play_mode(RepeatMode::One, true).payload,
        "<InstanceID>0</InstanceID><NewPlayMode>SHUFFLE_REPEAT_ONE</NewPlayMode>"
    );
    assert_eq!(
        ActionRequest::browse_queue().payload,
        "<QueueID>0</QueueID><StartingIndex>0</StartingIndex><RequestedCount>4294967295</RequestedCount>"
    );
}

#[test]
fn zone_player_type_is_recognised() {
    assert!(is_zone_player(&zone_player_urn()));
    let other = Urn {
        device: true,
        domain: "schemas-upnp-org".to_string(),
        typ: "MediaRenderer".to_string(),
        version: 1,
    };
    assert!(!is_zone_player(&other));
    let queue = Service::Queue.urn();
    assert_eq!(queue.domain, "schemas-sonos-com");
    assert!(!queue.device);
}

#[test]
fn extract_takes_a_field_out() {
    let mut r = response(&[("A", "1"), ("B", "2")]);
    assert_eq!(r.extract("B").unwrap(), "2");
    assert!(r.get("B").is_none());
    assert_eq!(r.get("A"), Some("1".to_string()));
    match r.extract("B") {
        Err(DecodeError::MissingElement(context, element)) => {
            assert_eq!(context, "UPnP Response");
            assert_eq!(element, "B");
        }
        other => panic!("{:?}", other),
    }
}

#[test]
fn numeric_fields_decode_within_their_range() {
    assert_eq!(volume_from_response(&response(&[("CurrentVolume", "35")])).unwrap(), 35);
    assert_eq!(volume_from_response(&response(&[("CurrentVolume", "65535")])).unwrap(), 65535);
    assert!(matches!(
        volume_from_response(&response(&[("CurrentVolume", "65536")])),
        Err(DecodeError::InvalidValue(ValueKind::Integer))
    ));
    assert!(matches!(
        volume_from_response(&response(&[("CurrentVolume", "-1")])),
        Err(DecodeError::InvalidValue(ValueKind::Integer))
    ));
    assert!(matches!(volume_from_response(&response(&[])), Err(DecodeError::MissingElement(_, _))));
    assert_eq!(new_volume_from_response(&response(&[("NewVolume", "12")])).unwrap(), 12);
    assert_eq!(bass_from_response(&response(&[("CurrentBass", "-10")])).unwrap(), -10);
    assert!(bass_from_response(&response(&[("CurrentBass", "128")])).is_err());
}

#[test]
fn flag_and_state_fields_decode() {
    assert!(mute_from_response(&response(&[("CurrentMute", "1")])).unwrap());
    assert!(!crossfade_from_response(&response(&[("CrossfadeMode", "0")])).unwrap());
    assert!(matches!(
        mute_from_response(&response(&[("CurrentMute", "true")])),
        Err(DecodeError::InvalidValue(ValueKind::Bool))
    ));
    assert!(is_playing_from_response(&response(&[("CurrentTransportState", "PLAYING")])).unwrap());
    assert!(!is_playing_from_response(&response(&[("CurrentTransportState", "STOPPED")])).unwrap());
    assert_eq!(name_from_response(&response(&[("CurrentZoneName", "Den")])).unwrap(), "Den");
}

#[test]
fn play_modes_decode_both_ways() {
    let modes = [
        (RepeatMode::Off, false, "NORMAL"),
        (RepeatMode::All, false, "REPEAT_ALL"),
        (RepeatMode::One, false, "REPEAT_ONE"),
        (RepeatMode::Off, true, "SHUFFLE_NOREPEAT"),
        (RepeatMode::All, true, "SHUFFLE"),
        (RepeatMode::One, true, "SHUFFLE_REPEAT_ONE"),
    ];
    for (repeat, shuffle, name) in modes {
        assert_eq!(sonor::play_mode_name_of(repeat, shuffle), name);
        let decoded = play_mode_from_response(&response(&[("PlayMode", &name.to_lowercase())])).unwrap();
        assert_eq!(decoded, (repeat, shuffle));
    }
    assert!(matches!(
        play_mode_from_response(&response(&[("PlayMode", "RANDOM")])),
        Err(DecodeError::InvalidValue(ValueKind::PlayMode))
    ));
}

#[test]
fn repeat_modes_read_from_names() {
    assert_eq!("none".parse::<RepeatMode>().unwrap(), RepeatMode::Off);
    assert_eq!("ONE".parse::<RepeatMode>().unwrap(), RepeatMode::One);
    assert_eq!(RepeatMode::parse("All").unwrap(), RepeatMode::All);
    assert!("some".parse::<RepeatMode>().is_err());
    assert_eq!(RepeatMode::default(), RepeatMode::Off);
    assert_eq!(RepeatMode::Off.name(), "None");
}

#[test]
fn zone_group_state_response_decodes() {
    let doc = r#"<ZoneGroups><ZoneGroup Coordinator="A"><ZoneGroupMember UUID="A" Location="l" ZoneName="n"/></ZoneGroup></ZoneGroups>"#;
    let groups = zone_groups_from_response(&response(&[("ZoneGroupState", doc)])).unwrap();
    assert_eq!(groups.len(), 1);
    assert!(matches!(zone_groups_from_response(&response(&[])), Err(DecodeError::MissingElement(_, e)) if e == "ZoneGroupState"));
}
