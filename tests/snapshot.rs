use sonor::{pause_tolerates, ActionFault, ApplyStep, Snapshot, Track, TrackInfo};

fn track_info(track_no: u32, elapsed: u32) -> TrackInfo {
    let track = Track {
        title: "Song".to_string(),
        creator: None,
        album: None,
        duration: Some(200),
        uri: "x-file-cifs://song.mp3".to_string(),
    };
    TrackInfo::new(track, String::new(), track_no, 200, elapsed)
}

#[test]
fn full_snapshot_restores_in_order() {
    let snapshot = Snapshot::captured(
        25,
        Some(track_info(4, 93)),
        true,
        Some("x-rincon-queue:RINCON_1#0".to_string()),
    );
    assert_eq!(
        snapshot.plan(),
        vec![
            ApplyStep::SetVolume(25),
            ApplyStep::SetTransportUri("x-rincon-queue:RINCON_1#0".to_string()),
            ApplyStep::Seek { track_no: 4, elapsed: 93 },
            ApplyStep::Play,
        ]
    );
}

#[test]
fn paused_snapshot_pauses_last() {
    let snapshot = Snapshot::captured(10, None, false, None);
    assert_eq!(snapshot.plan(), vec![ApplyStep::SetVolume(10), ApplyStep::Pause]);
}

#[test]
fn vendor_internal_uri_is_skipped() {
    let mut snapshot = Snapshot::default();
    snapshot.transport_uri("x-sonos-vli:RINCON_1:2,spotify".to_string());
    assert_eq!(
        snapshot.plan(),
        vec![ApplyStep::SkipTransportUri("x-sonos-vli:RINCON_1:2,spotify".to_string())]
    );
}

#[test]
fn builder_sets_only_what_it_is_given() {
    let mut snapshot = Snapshot::default();
    assert!(snapshot.plan().is_empty());
    snapshot.is_playing(true).volume(7);
    assert_eq!(snapshot.plan(), vec![ApplyStep::SetVolume(7), ApplyStep::Play]);
    snapshot.track_info(track_info(1, 0));
    assert_eq!(
        snapshot.plan(),
        vec![ApplyStep::SetVolume(7), ApplyStep::Seek { track_no: 1, elapsed: 0 }, ApplyStep::Play]
    );
}

#[test]
fn pause_tolerates_only_the_stopped_answers() {
    assert!(pause_tolerates(ActionFault::HttpStatus(500)));
    assert!(pause_tolerates(ActionFault::DeviceFault(701)));
    assert!(!pause_tolerates(ActionFault::HttpStatus(404)));
    assert!(!pause_tolerates(ActionFault::DeviceFault(500)));
    assert!(!pause_tolerates(ActionFault::DeviceFault(702)));
    assert!(!pause_tolerates(ActionFault::Other));
}
