use sonor::responses::transport_uri_from_response;
use sonor::track::{queue_from_response, track_from_metadata_nodes};
use sonor::{parse_document, track_info_from_response, ActionResponse, DecodeError, ValueKind};

const METADATA: &str = r#"<DIDL-Lite xmlns:dc="http://purl.org/dc/elements/1.1/" xmlns:upnp="urn:schemas-upnp-org:metadata-1-0/upnp/" xmlns="urn:schemas-upnp-org:metadata-1-0/DIDL-Lite/"><item id="-1" parentID="-1"><res protocolInfo="sonos.com-http:*:audio/mpeg:*" duration="0:03:25">x-sonos-http:track.mp3</res><dc:title>Song</dc:title><dc:creator>Artist</dc:creator><upnp:album>Record</upnp:album></item></DIDL-Lite>"#;

fn response(pairs: &[(&str, &str)]) -> ActionResponse {
    ActionResponse {
        entries: pairs.iter().map(|(k, v)| (k.to_string(), v.to_string())).collect(),
    }
}

#[test]
fn metadata_gives_the_track() {
    let nodes = parse_document(METADATA).unwrap();
    let track = track_from_metadata_nodes(&nodes).unwrap();
    assert_eq!(track.title(), "Song");
    assert_eq!(track.creator(), Some("Artist"));
    assert_eq!(track.album(), Some("Record"));
    assert_eq!(track.duration(), Some(205));
    assert_eq!(track.uri(), "x-sonos-http:track.mp3");
}

#[test]
fn optional_metadata_may_be_absent() {
    let nodes = parse_document("<item><title>T</title><res>u</res></item>").unwrap();
    let track = track_from_metadata_nodes(&nodes).unwrap();
    assert_eq!(track.title(), "T");
    assert_eq!(track.creator(), None);
    assert_eq!(track.album(), None);
    assert_eq!(track.duration(), None);
    assert_eq!(track.uri(), "u");
}

#[test]
fn title_and_resource_are_required() {
    let nodes = parse_document("<item><res>u</res></item>").unwrap();
    match track_from_metadata_nodes(&nodes) {
        Err(DecodeError::MissingElement(context, element)) => {
            assert_eq!(context, "item");
            assert_eq!(element, "title");
        }
        other => panic!("{:?}", other),
    }
    let nodes = parse_document("<item><title>T</title></item>").unwrap();
    match track_from_metadata_nodes(&nodes) {
        Err(DecodeError::MissingElement(_, element)) => assert_eq!(element, "res"),
        other => panic!("{:?}", other),
    }
    let nodes = parse_document("<other/>").unwrap();
    match track_from_metadata_nodes(&nodes) {
        Err(DecodeError::MissingElement(context, element)) => {
            assert_eq!(context, "Track Metadata");
            assert_eq!(element, "item");
        }
        other => panic!("{:?}", other),
    }
}

#[test]
fn bad_resource_duration_is_an_error() {
    let nodes = parse_document(r#"<item><title>T</title><res duration="soon">u</res></item>"#).unwrap();
    assert!(matches!(
        track_from_metadata_nodes(&nodes),
        Err(DecodeError::InvalidValue(ValueKind::Duration))
    ));
}

#[test]
fn position_info_gives_the_current_track() {
    let r = response(&[
        ("Track", "3"),
        ("TrackDuration", "0:03:25"),
        ("RelTime", "0:01:10"),
        ("TrackMetaData", METADATA),
        ("TrackURI", "x-sonos-http:track.mp3"),
    ]);
    let info = track_info_from_response(&r).unwrap().unwrap();
    assert_eq!(info.track_no(), 3);
    assert_eq!(info.duration(), 205);
    assert_eq!(info.elapsed(), 70);
    assert_eq!(info.metadata(), METADATA);
    assert_eq!(info.track().title(), "Song");
}

#[test]
fn not_implemented_position_means_no_track() {
    let r = response(&[
        ("Track", "1"),
        ("TrackDuration", "NOT_IMPLEMENTED"),
        ("RelTime", "0:00:10"),
        ("TrackMetaData", "not even xml"),
    ]);
    assert!(track_info_from_response(&r).unwrap().is_none());
    let r = response(&[
        ("Track", "1"),
        ("TrackDuration", "0:03:00"),
        ("RelTime", "not_implemented"),
    ]);
    assert!(track_info_from_response(&r).unwrap().is_none());
}

#[test]
fn missing_metadata_means_no_track() {
    let r = response(&[("Track", "1"), ("TrackDuration", "0:03:00"), ("RelTime", "0:00:10")]);
    assert!(track_info_from_response(&r).unwrap().is_none());
}

#[test]
fn position_info_errors() {
    let r = response(&[("TrackDuration", "0:03:00"), ("RelTime", "0:00:10")]);
    match track_info_from_response(&r) {
        Err(DecodeError::MissingElement(context, element)) => {
            assert_eq!(context, "UPnP Response");
            assert_eq!(element, "Track");
        }
        other => panic!("{:?}", other),
    }
    let r = response(&[("Track", "x"), ("TrackDuration", "0:03:00"), ("RelTime", "0:00:10")]);
    assert!(matches!(track_info_from_response(&r), Err(DecodeError::InvalidValue(ValueKind::Integer))));
    let r = response(&[("Track", "1"), ("RelTime", "0:00:10")]);
    assert!(matches!(track_info_from_response(&r), Err(DecodeError::MissingElement(_, e)) if e == "TrackDuration"));
    let r = response(&[("Track", "1"), ("TrackDuration", "3 minutes"), ("RelTime", "0:00:10"), ("TrackMetaData", METADATA)]);
    assert!(matches!(track_info_from_response(&r), Err(DecodeError::InvalidValue(ValueKind::Duration))));
    let r = response(&[("Track", "1"), ("TrackDuration", "0:03:00"), ("RelTime", "0:00:10"), ("TrackMetaData", "<item></res>")]);
    assert!(matches!(track_info_from_response(&r), Err(DecodeError::Xml(_))));
}

#[test]
fn queue_lists_every_item() {
    let result = r#"<DIDL-Lite><item id="Q:0/1"><res>a</res><title>One</title></item><item id="Q:0/2"><res>b</res><title>Two</title></item></DIDL-Lite>"#;
    let tracks = queue_from_response(&response(&[("Result", result)])).unwrap();
    assert_eq!(tracks.len(), 2);
    assert_eq!(tracks[0].title(), "One");
    assert_eq!(tracks[1].uri(), "b");
    let empty = queue_from_response(&response(&[("Result", "<DIDL-Lite/>")])).unwrap();
    assert!(empty.is_empty());
}

#[test]
fn transport_uri_may_be_absent() {
    assert_eq!(transport_uri_from_response(&response(&[("CurrentURI", "x-rincon:A")])), Some("x-rincon:A".to_string()));
    assert_eq!(transport_uri_from_response(&response(&[])), None);
}

#[test]
fn tracks_read_as_title_creator_album() {
    let nodes = parse_document(METADATA).unwrap();
    let track = track_from_metadata_nodes(&nodes).unwrap();
    assert_eq!(track.describe(), "Song - Artist (Record)");
    let nodes = parse_document("<item><title>T</title><res>u</res></item>").unwrap();
    assert_eq!(track_from_metadata_nodes(&nodes).unwrap().describe(), "T");
}

#[test]
fn documents_parse_into_nodes_in_document_order() {
    let nodes = parse_document(r#"<a x="1"><b>text</b><c/></a>"#).unwrap();
    assert_eq!(nodes.len(), 5);
    assert!(!nodes[0].element);
    assert_eq!(nodes[0].parent, None);
    assert_eq!(nodes[1].name, "a");
    assert_eq!(nodes[1].attributes, vec![("x".to_string(), "1".to_string())]);
    assert_eq!(nodes[1].parent, Some(0));
    assert_eq!(nodes[2].name, "b");
    assert_eq!(nodes[2].text.as_deref(), Some("text"));
    assert_eq!(nodes[2].parent, Some(1));
    assert!(!nodes[3].element);
    assert_eq!(nodes[3].parent, Some(2));
    assert_eq!(nodes[4].name, "c");
    assert_eq!(nodes[4].parent, Some(1));
    assert!(matches!(parse_document("<a></b>"), Err(DecodeError::Xml(_))));
}
