use crate::action::{args_text, encode_args};
use crate::codec::{duration_text, seconds_to_str};
use crate::text::{decimal, eq_ignore_case, push_char, push_decimal, same_ignoring_case};
use vstd::prelude::*;
use vstd::string::*;

verus! {

/// The services of a zone player that this library calls.
#[derive(Debug, Clone, Copy, PartialEq, Eq, Structural)]
pub enum Service {
    AVTransport,
    DeviceProperties,
    RenderingControl,
    ZoneGroupTopology,
    Queue,
    MusicServices,
}

/// A device or service type: `urn:<domain>:device:<typ>:<version>`, or
/// `...:service:...` where `device` is false.
#[derive(Debug)]
pub struct Urn {
    pub device: bool,
    pub domain: String,
    pub typ: String,
    pub version: u32,
}

/// A [`Urn`] as plain values.
pub struct UrnView {
    pub device: bool,
    pub domain: Seq<char>,
    pub typ: Seq<char>,
    pub version: u32,
}

impl View for Urn {
    type V = UrnView;

    open spec fn view(&self) -> UrnView {
        UrnView { device: self.device, domain: self.domain@, typ: self.typ@, version: self.version }
    }
}

/// The type of the players this library controls.
pub open spec fn zone_player_view() -> UrnView {
    UrnView { device: true, domain: "schemas-upnp-org"@, typ: "ZonePlayer"@, version: 1 }
}

/// The type of a service.
pub open spec fn service_urn(s: Service) -> UrnView {
    let (domain, typ) = match s {
        Service::AVTransport => ("schemas-upnp-org"@, "AVTransport"@),
        Service::DeviceProperties => ("schemas-upnp-org"@, "DeviceProperties"@),
        Service::RenderingControl => ("schemas-upnp-org"@, "RenderingControl"@),
        Service::ZoneGroupTopology => ("schemas-upnp-org"@, "ZoneGroupTopology"@),
        Service::Queue => ("schemas-sonos-com"@, "Queue"@),
        Service::MusicServices => ("schemas-upnp-org"@, "MusicServices"@),
    };
    UrnView { device: false, domain, typ, version: 1 }
}

/// A `String` holding `s`.
pub(crate) fn text(s: &str) -> (r: String)
    ensures
        r@ == s@,
{
    String::from_str(s)
}

/// The device type of zone players.
pub fn zone_player_urn() -> (r: Urn)
    ensures
        r@ == zone_player_view(),
{
    Urn { device: true, domain: text("schemas-upnp-org"), typ: text("ZonePlayer"), version: 1 }
}

/// Whether a device of type `urn` is a zone player.
pub fn is_zone_player(urn: &Urn) -> (r: bool)
    ensures
        r == (urn@ == zone_player_view()),
{
    let z = zone_player_urn();
    urn.device && urn.version == 1 && urn.domain == z.domain && urn.typ == z.typ
}

impl Service {
    /// The type of this service.
    pub fn urn(&self) -> (r: Urn)
        ensures
            r@ == service_urn(*self),
    {
        let (domain, typ) = match self {
            Service::AVTransport => ("schemas-upnp-org", "AVTransport"),
            Service::DeviceProperties => ("schemas-upnp-org", "DeviceProperties"),
            Service::RenderingControl => ("schemas-upnp-org", "RenderingControl"),
            Service::ZoneGroupTopology => ("schemas-upnp-org", "ZoneGroupTopology"),
            Service::Queue => ("schemas-sonos-com", "Queue"),
            Service::MusicServices => ("schemas-upnp-org", "MusicServices"),
        };
        Urn { device: false, domain: text(domain), typ: text(typ), version: 1 }
    }
}

/// An action to run on a player: the service that owns it, its name, and the
/// encoded arguments.
#[derive(Debug)]
pub struct ActionRequest {
    pub service: Service,
    pub action: String,
    pub payload: String,
}

/// An [`ActionRequest`] as plain values.
pub struct RequestView {
    pub service: Service,
    pub action: Seq<char>,
    pub payload: Seq<char>,
}

impl View for ActionRequest {
    type V = RequestView;

    open spec fn view(&self) -> RequestView {
        RequestView { service: self.service, action: self.action@, payload: self.payload@ }
    }
}

/// The request for `action` of `service` with the ordered arguments `args`.
pub open spec fn request_view(
    service: Service,
    action: Seq<char>,
    args: Seq<(Seq<char>, Seq<char>)>,
) -> RequestView {
    RequestView { service, action, payload: args_text(args) }
}

fn request(service: Service, action: &str, args: Vec<(String, String)>) -> (r: ActionRequest)
    ensures
        r@ == request_view(service, action@, args.deep_view()),
{
    ActionRequest { service, action: text(action), payload: encode_args(&args) }
}

/// An integer in decimal, with a leading `-` when negative.
pub open spec fn signed_decimal(n: int) -> Seq<char> {
    if n < 0 {
        seq!['-'] + decimal((-n) as nat)
    } else {
        decimal(n as nat)
    }
}

/// A flag on the wire: `1` or `0`.
pub open spec fn flag_text(b: bool) -> Seq<char> {
    if b {
        seq!['1']
    } else {
        seq!['0']
    }
}

fn decimal_string(n: u64) -> (r: String)
    ensures
        r@ == decimal(n as nat),
{
    let mut s = String::new();
    push_decimal(&mut s, n);
    s
}

fn signed_string(n: i64) -> (r: String)
    ensures
        r@ == signed_decimal(n as int),
{
    let mut s = String::new();
    if n < 0 {
        push_char(&mut s, '-');
        push_decimal(&mut s, ((-(n + 1)) as u64) + 1);
    } else {
        push_decimal(&mut s, n as u64);
    }
    s
}

fn flag_string(b: bool) -> (r: String)
    ensures
        r@ == flag_text(b),
{
    let mut s = String::new();
    push_char(&mut s, if b { '1' } else { '0' });
    s
}

/// The object id of a track of the queue, counted from 0.
fn queue_object_id(track_no: u32) -> (r: String)
    ensures
        r@ == "Q:0/"@ + decimal(track_no as nat + 1),
{
    let mut s = text("Q:0/");
    push_decimal(&mut s, track_no as u64 + 1);
    s
}

/// The transport URI that joins the group of the player with uuid `uuid`.
fn group_uri(uuid: &str) -> (r: String)
    ensures
        r@ == "x-rincon:"@ + uuid@,
{
    let mut s = text("x-rincon:");
    s.append(uuid);
    s
}

/// How the queue repeats.
#[derive(Debug, Clone, Copy, PartialEq, Eq, Structural)]
pub enum RepeatMode {
    /// The queue is not repeated.
    Off,
    /// The current track is repeated.
    One,
    /// The whole queue is repeated.
    All,
}

impl Default for RepeatMode {
    fn default() -> (r: RepeatMode)
        ensures
            r == RepeatMode::Off,
    {
        RepeatMode::Off
    }
}

/// The play mode that a repeat mode and shuffle make up.
pub open spec fn play_mode_name(repeat_mode: RepeatMode, shuffle: bool) -> Seq<char> {
    match (repeat_mode, shuffle) {
        (RepeatMode::Off, false) => "NORMAL"@,
        (RepeatMode::One, false) => "REPEAT_ONE"@,
        (RepeatMode::All, false) => "REPEAT_ALL"@,
        (RepeatMode::Off, true) => "SHUFFLE_NOREPEAT"@,
        (RepeatMode::One, true) => "SHUFFLE_REPEAT_ONE"@,
        (RepeatMode::All, true) => "SHUFFLE"@,
    }
}

/// The name of the play mode that a repeat mode and shuffle make up.
pub fn play_mode_name_of(repeat_mode: RepeatMode, shuffle: bool) -> (r: &'static str)
    ensures
        r@ == play_mode_name(repeat_mode, shuffle),
{
    match (repeat_mode, shuffle) {
        (RepeatMode::Off, false) => "NORMAL",
        (RepeatMode::One, false) => "REPEAT_ONE",
        (RepeatMode::All, false) => "REPEAT_ALL",
        (RepeatMode::Off, true) => "SHUFFLE_NOREPEAT",
        (RepeatMode::One, true) => "SHUFFLE_REPEAT_ONE",
        (RepeatMode::All, true) => "SHUFFLE",
    }
}


impl ActionRequest {
    /// Reads the zone's attributes, among them its room name.
    pub fn get_zone_attributes() -> (r: ActionRequest)
        ensures
            r@ == request_view(Service::DeviceProperties, "GetZoneAttributes"@, seq![]),
    {
        let args: Vec<(String, String)> = vec![];
        assert(args.deep_view() =~= seq![]);
        request(Service::DeviceProperties, "GetZoneAttributes", args)
    }

    /// Stops playback.
    pub fn stop() -> (r: ActionRequest)
        ensures
            r@ == request_view(Service::AVTransport, "Stop"@, seq![("InstanceID"@, "0"@)]),
    {
        let args: Vec<(String, String)> = vec![(text("InstanceID"), text("0"))];
        assert(args.deep_view() =~= seq![("InstanceID"@, "0"@)]);
        request(Service::AVTransport, "Stop", args)
    }

    /// Starts playback at normal speed.
    pub fn play() -> (r: ActionRequest)
        ensures
            r@ == request_view(
                Service::AVTransport,
                "Play"@,
                seq![("InstanceID"@, "0"@), ("Speed"@, "1"@)],
            ),
    {
        let args: Vec<(String, String)> = vec![
            (text("InstanceID"), text("0")),
            (text("Speed"), text("1")),
        ];
        assert(args.deep_view() =~= seq![("InstanceID"@, "0"@), ("Speed"@, "1"@)]);
        request(Service::AVTransport, "Play", args)
    }

    /// Pauses playback.
    pub fn pause() -> (r: ActionRequest)
        ensures
            r@ == request_view(Service::AVTransport, "Pause"@, seq![("InstanceID"@, "0"@)]),
    {
        let args: Vec<(String, String)> = vec![(text("InstanceID"), text("0"))];
        assert(args.deep_view() =~= seq![("InstanceID"@, "0"@)]);
        request(Service::AVTransport, "Pause", args)
    }

    /// Skips to the next track.
    pub fn next() -> (r: ActionRequest)
        ensures
            r@ == request_view(Service::AVTransport, "Next"@, seq![("InstanceID"@, "0"@)]),
    {
        let args: Vec<(String, String)> = vec![(text("InstanceID"), text("0"))];
        assert(args.deep_view() =~= seq![("InstanceID"@, "0"@)]);
        request(Service::AVTransport, "Next", args)
    }

    /// Goes back to the previous track.
    pub fn previous() -> (r: ActionRequest)
        ensures
            r@ == request_view(Service::AVTransport, "Previous"@, seq![("InstanceID"@, "0"@)]),
    {
        let args: Vec<(String, String)> = vec![(text("InstanceID"), text("0"))];
        assert(args.deep_view() =~= seq![("InstanceID"@, "0"@)]);
        request(Service::AVTransport, "Previous", args)
    }

    /// Seeks to a position in the current track, in seconds.
    pub fn skip_to(seconds: u32) -> (r: ActionRequest)
        ensures
            r@ == request_view(
                Service::AVTransport,
                "Seek"@,
                seq![
                    ("InstanceID"@, "0"@),
                    ("Unit"@, "REL_TIME"@),
                    ("Target"@, duration_text(seconds as int)),
                ],
            ),
    {
        let args: Vec<(String, String)> = vec![
            (text("InstanceID"), text("0")),
            (text("Unit"), text("REL_TIME")),
            (text("Target"), seconds_to_str(seconds as i64)),
        ];
        assert(args.deep_view() =~= seq![
            ("InstanceID"@, "0"@),
            ("Unit"@, "REL_TIME"@),
            ("Target"@, duration_text(seconds as int)),
        ]);
        request(Service::AVTransport, "Seek", args)
    }

    /// Seeks by a signed offset from the current position, in seconds.
    pub fn skip_by(seconds: i32) -> (r: ActionRequest)
        ensures
            r@ == request_view(
                Service::AVTransport,
                "Seek"@,
                seq![
                    ("InstanceID"@, "0"@),
                    ("Unit"@, "TIME_DELTA"@),
                    ("Target"@, duration_text(seconds as int)),
                ],
            ),
    {
        let args: Vec<(String, String)> = vec![
            (text("InstanceID"), text("0")),
            (text("Unit"), text("TIME_DELTA")),
            (text("Target"), seconds_to_str(seconds as i64)),
        ];
        assert(args.deep_view() =~= seq![
            ("InstanceID"@, "0"@),
            ("Unit"@, "TIME_DELTA"@),
            ("Target"@, duration_text(seconds as int)),
        ]);
        request(Service::AVTransport, "Seek", args)
    }

    /// Seeks to a track of the queue; the first is 1.
    pub fn seek_track(track_no: u32) -> (r: ActionRequest)
        ensures
            r@ == request_view(
                Service::AVTransport,
                "Seek"@,
                seq![
                    ("InstanceID"@, "0"@),
                    ("Unit"@, "TRACK_NR"@),
                    ("Target"@, decimal(track_no as nat)),
                ],
            ),
    {
        let args: Vec<(String, String)> = vec![
            (text("InstanceID"), text("0")),
            (text("Unit"), text("TRACK_NR")),
            (text("Target"), decimal_string(track_no as u64)),
        ];
        assert(args.deep_view() =~= seq![
            ("InstanceID"@, "0"@),
            ("Unit"@, "TRACK_NR"@),
            ("Target"@, decimal(track_no as nat)),
        ]);
        request(Service::AVTransport, "Seek", args)
    }

    /// Reads the play mode.
    pub fn get_transport_settings() -> (r: ActionRequest)
        ensures
            r@ == request_view(
                Service::AVTransport,
                "GetTransportSettings"@,
                seq![("InstanceID"@, "0"@)],
            ),
    {
        let args: Vec<(String, String)> = vec![(text("InstanceID"), text("0"))];
        assert(args.deep_view() =~= seq![("InstanceID"@, "0"@)]);
        request(Service::AVTransport, "GetTransportSettings", args)
    }

    /// Sets the play mode that a repeat mode and shuffle make up.
    pub fn set_play_mode(repeat_mode: RepeatMode, shuffle: bool) -> (r: ActionRequest)
        ensures
            r@ == request_view(
                Service::AVTransport,
                "SetPlayMode"@,
                seq![("InstanceID"@, "0"@), ("NewPlayMode"@, play_mode_name(repeat_mode, shuffle))],
            ),
    {
        let args: Vec<(String, String)> = vec![
            (text("InstanceID"), text("0")),
            (text("NewPlayMode"), text(play_mode_name_of(repeat_mode, shuffle))),
        ];
        assert(args.deep_view() =~= seq![
            ("InstanceID"@, "0"@),
            ("NewPlayMode"@, play_mode_name(repeat_mode, shuffle)),
        ]);
        request(Service::AVTransport, "SetPlayMode", args)
    }

    /// Reads whether crossfade is on.
    pub fn get_crossfade_mode() -> (r: ActionRequest)
        ensures
            r@ == request_view(
                Service::AVTransport,
                "GetCrossfadeMode"@,
                seq![("InstanceID"@, "0"@)],
            ),
    {
        let args: Vec<(String, String)> = vec![(text("InstanceID"), text("0"))];
        assert(args.deep_view() =~= seq![("InstanceID"@, "0"@)]);
        request(Service::AVTransport, "GetCrossfadeMode", args)
    }

    /// Turns crossfade on or off.
    pub fn set_crossfade_mode(crossfade: bool) -> (r: ActionRequest)
        ensures
            r@ == request_view(
                Service::AVTransport,
                "SetCrossfadeMode"@,
                seq![("InstanceID"@, "0"@), ("CrossfadeMode"@, flag_text(crossfade))],
            ),
    {
        let args: Vec<(String, String)> = vec![
            (text("InstanceID"), text("0")),
            (text("CrossfadeMode"), flag_string(crossfade)),
        ];
        assert(args.deep_view() =~= seq![
            ("InstanceID"@, "0"@),
            ("CrossfadeMode"@, flag_text(crossfade)),
        ]);
        request(Service::AVTransport, "SetCrossfadeMode", args)
    }

    /// Reads the transport state.
    pub fn get_transport_info() -> (r: ActionRequest)
        ensures
            r@ == request_view(
                Service::AVTransport,
                "GetTransportInfo"@,
                seq![("InstanceID"@, "0"@)],
            ),
    {
        let args: Vec<(String, String)> = vec![(text("InstanceID"), text("0"))];
        assert(args.deep_view() =~= seq![("InstanceID"@, "0"@)]);
        request(Service::AVTransport, "GetTransportInfo", args)
    }

    /// Reads the current track and position.
    pub fn get_position_info() -> (r: ActionRequest)
        ensures
            r@ == request_view(
                Service::AVTransport,
                "GetPositionInfo"@,
                seq![("InstanceID"@, "0"@)],
            ),
    {
        let args: Vec<(String, String)> = vec![(text("InstanceID"), text("0"))];
        assert(args.deep_view() =~= seq![("InstanceID"@, "0"@)]);
        request(Service::AVTransport, "GetPositionInfo", args)
    }

    /// Reads the master volume.
    pub fn get_volume() -> (r: ActionRequest)
        ensures
            r@ == request_view(
                Service::RenderingControl,
                "GetVolume"@,
                seq![("InstanceID"@, "0"@), ("Channel"@, "Master"@)],
            ),
    {
        let args: Vec<(String, String)> = vec![
            (text("InstanceID"), text("0")),
            (text("Channel"), text("Master")),
        ];
        assert(args.deep_view() =~= seq![("InstanceID"@, "0"@), ("Channel"@, "Master"@)]);
        request(Service::RenderingControl, "GetVolume", args)
    }

    /// Sets the master volume.
    pub fn set_volume(volume: u16) -> (r: ActionRequest)
        ensures
            r@ == request_view(
                Service::RenderingControl,
                "SetVolume"@,
                seq![
                    ("InstanceID"@, "0"@),
                    ("Channel"@, "Master"@),
                    ("DesiredVolume"@, decimal(volume as nat)),
                ],
            ),
    {
        let args: Vec<(String, String)> = vec![
            (text("InstanceID"), text("0")),
            (text("Channel"), text("Master")),
            (text("DesiredVolume"), decimal_string(volume as u64)),
        ];
        assert(args.deep_view() =~= seq![
            ("InstanceID"@, "0"@),
            ("Channel"@, "Master"@),
            ("DesiredVolume"@, decimal(volume as nat)),
        ]);
        request(Service::RenderingControl, "SetVolume", args)
    }

    /// Changes the master volume by a signed amount; the response holds the new volume.
    pub fn set_relative_volume(adjustment: i16) -> (r: ActionRequest)
        ensures
            r@ == request_view(
                Service::RenderingControl,
                "SetRelativeVolume"@,
                seq![
                    ("InstanceID"@, "0"@),
                    ("Channel"@, "Master"@),
                    ("Adjustment"@, signed_decimal(adjustment as int)),
                ],
            ),
    {
        let args: Vec<(String, String)> = vec![
            (text("InstanceID"), text("0")),
            (text("Channel"), text("Master")),
            (text("Adjustment"), signed_string(adjustment as i64)),
        ];
        assert(args.deep_view() =~= seq![
            ("InstanceID"@, "0"@),
            ("Channel"@, "Master"@),
            ("Adjustment"@, signed_decimal(adjustment as int)),
        ]);
        request(Service::RenderingControl, "SetRelativeVolume", args)
    }

    /// Reads whether the master channel is muted.
    pub fn get_mute() -> (r: ActionRequest)
        ensures
            r@ == request_view(
                Service::RenderingControl,
                "GetMute"@,
                seq![("InstanceID"@, "0"@), ("Channel"@, "Master"@)],
            ),
    {
        let args: Vec<(String, String)> = vec![
            (text("InstanceID"), text("0")),
            (text("Channel"), text("Master")),
        ];
        assert(args.deep_view() =~= seq![("InstanceID"@, "0"@), ("Channel"@, "Master"@)]);
        request(Service::RenderingControl, "GetMute", args)
    }

    /// Mutes or unmutes the master channel.
    pub fn set_mute(mute: bool) -> (r: ActionRequest)
        ensures
            r@ == request_view(
                Service::RenderingControl,
                "SetMute"@,
                seq![
                    ("InstanceID"@, "0"@),
                    ("Channel"@, "Master"@),
                    ("DesiredMute"@, flag_text(mute)),
                ],
            ),
    {
        let args: Vec<(String, String)> = vec![
            (text("InstanceID"), text("0")),
            (text("Channel"), text("Master")),
            (text("DesiredMute"), flag_string(mute)),
        ];
        assert(args.deep_view() =~= seq![
            ("InstanceID"@, "0"@),
            ("Channel"@, "Master"@),
            ("DesiredMute"@, flag_text(mute)),
        ]);
        request(Service::RenderingControl, "SetMute", args)
    }

    /// Reads the bass level.
    pub fn get_bass() -> (r: ActionRequest)
        ensures
            r@ == request_view(Service::RenderingControl, "GetBass"@, seq![("InstanceID"@, "0"@)]),
    {
        let args: Vec<(String, String)> = vec![(text("InstanceID"), text("0"))];
        assert(args.deep_view() =~= seq![("InstanceID"@, "0"@)]);
        request(Service::RenderingControl, "GetBass", args)
    }

    /// Sets the bass level.
    pub fn set_bass(bass: i8) -> (r: ActionRequest)
        ensures
            r@ == request_view(
                Service::RenderingControl,
                "SetBass"@,
                seq![("InstanceID"@, "0"@), ("DesiredBass"@, signed_decimal(bass as int))],
            ),
    {
        let args: Vec<(String, String)> = vec![
            (text("InstanceID"), text("0")),
            (text("DesiredBass"), signed_string(bass as i64)),
        ];
        assert(args.deep_view() =~= seq![
            ("InstanceID"@, "0"@),
            ("DesiredBass"@, signed_decimal(bass as int)),
        ]);
        request(Service::RenderingControl, "SetBass", args)
    }

    /// Reads the treble level.
    pub fn get_treble() -> (r: ActionRequest)
        ensures
            r@ == request_view(
                Service::RenderingControl,
                "GetTreble"@,
                seq![("InstanceID"@, "0"@)],
            ),
    {
        let args: Vec<(String, String)> = vec![(text("InstanceID"), text("0"))];
        assert(args.deep_view() =~= seq![("InstanceID"@, "0"@)]);
        request(Service::RenderingControl, "GetTreble", args)
    }

    /// Sets the treble level.
    pub fn set_treble(treble: i8) -> (r: ActionRequest)
        ensures
            r@ == request_view(
                Service::RenderingControl,
                "SetTreble"@,
                seq![("InstanceID"@, "0"@), ("DesiredTreble"@, signed_decimal(treble as int))],
            ),
    {
        let args: Vec<(String, String)> = vec![
            (text("InstanceID"), text("0")),
            (text("DesiredTreble"), signed_string(treble as i64)),
        ];
        assert(args.deep_view() =~= seq![
            ("InstanceID"@, "0"@),
            ("DesiredTreble"@, signed_decimal(treble as int)),
        ]);
        request(Service::RenderingControl, "SetTreble", args)
    }

    /// Reads whether loudness is on.
    pub fn get_loudness() -> (r: ActionRequest)
        ensures
            r@ == request_view(
                Service::RenderingControl,
                "GetLoudness"@,
                seq![("InstanceID"@, "0"@), ("Channel"@, "Master"@)],
            ),
    {
        let args: Vec<(String, String)> = vec![
            (text("InstanceID"), text("0")),
            (text("Channel"), text("Master")),
        ];
        assert(args.deep_view() =~= seq![("InstanceID"@, "0"@), ("Channel"@, "Master"@)]);
        request(Service::RenderingControl, "GetLoudness", args)
    }

    /// Turns loudness on or off.
    pub fn set_loudness(loudness: bool) -> (r: ActionRequest)
        ensures
            r@ == request_view(
                Service::RenderingControl,
                "SetLoudness"@,
                seq![
                    ("InstanceID"@, "0"@),
                    ("Channel"@, "Master"@),
                    ("DesiredLoudness"@, flag_text(loudness)),
                ],
            ),
    {
        let args: Vec<(String, String)> = vec![
            (text("InstanceID"), text("0")),
            (text("Channel"), text("Master")),
            (text("DesiredLoudness"), flag_string(loudness)),
        ];
        assert(args.deep_view() =~= seq![
            ("InstanceID"@, "0"@),
            ("Channel"@, "Master"@),
            ("DesiredLoudness"@, flag_text(loudness)),
        ]);
        request(Service::RenderingControl, "SetLoudness", args)
    }

    /// Lists the whole queue.
    pub fn browse_queue() -> (r: ActionRequest)
        ensures
            r@ == request_view(
                Service::Queue,
                "Browse"@,
                seq![
                    ("QueueID"@, "0"@),
                    ("StartingIndex"@, "0"@),
                    ("RequestedCount"@, "4294967295"@),
                ],
            ),
    {
        let args: Vec<(String, String)> = vec![
            (text("QueueID"), text("0")),
            (text("StartingIndex"), text("0")),
            (text("RequestedCount"), text("4294967295")),
        ];
        assert(args.deep_view() =~= seq![
            ("QueueID"@, "0"@),
            ("StartingIndex"@, "0"@),
            ("RequestedCount"@, "4294967295"@),
        ]);
        request(Service::Queue, "Browse", args)
    }

    /// Removes a track from the queue; the first is 0.
    pub fn remove_track(track_no: u32) -> (r: ActionRequest)
        ensures
            r@ == request_view(
                Service::AVTransport,
                "RemoveTrackFromQueue"@,
                seq![("InstanceID"@, "0"@), ("ObjectID"@, "Q:0/"@ + decimal(track_no as nat + 1))],
            ),
    {
        let args: Vec<(String, String)> = vec![
            (text("InstanceID"), text("0")),
            (text("ObjectID"), queue_object_id(track_no)),
        ];
        assert(args.deep_view() =~= seq![
            ("InstanceID"@, "0"@),
            ("ObjectID"@, "Q:0/"@ + decimal(track_no as nat + 1)),
        ]);
        request(Service::AVTransport, "RemoveTrackFromQueue", args)
    }

    /// Enqueues a URI at the end of the queue, or as the next track.
    pub fn add_uri_to_queue(uri: &str, metadata: &str, as_next: bool) -> (r: ActionRequest)
        ensures
            r@ == request_view(
                Service::AVTransport,
                "AddURIToQueue"@,
                seq![
                    ("InstanceID"@, "0"@),
                    ("EnqueuedURI"@, uri@),
                    ("EnqueuedURIMetaData"@, metadata@),
                    ("DesiredFirstTrackNumberEnqueued"@, "0"@),
                    ("EnqueueAsNext"@, flag_text(as_next)),
                ],
            ),
    {
        let args: Vec<(String, String)> = vec![
            (text("InstanceID"), text("0")),
            (text("EnqueuedURI"), text(uri)),
            (text("EnqueuedURIMetaData"), text(metadata)),
            (text("DesiredFirstTrackNumberEnqueued"), text("0")),
            (text("EnqueueAsNext"), flag_string(as_next)),
        ];
        assert(args.deep_view() =~= seq![
            ("InstanceID"@, "0"@),
            ("EnqueuedURI"@, uri@),
            ("EnqueuedURIMetaData"@, metadata@),
            ("DesiredFirstTrackNumberEnqueued"@, "0"@),
            ("EnqueueAsNext"@, flag_text(as_next)),
        ]);
        request(Service::AVTransport, "AddURIToQueue", args)
    }

    /// Empties the queue.
    pub fn clear_queue() -> (r: ActionRequest)
        ensures
            r@ == request_view(
                Service::AVTransport,
                "RemoveAllTracksFromQueue"@,
                seq![("InstanceID"@, "0"@)],
            ),
    {
        let args: Vec<(String, String)> = vec![(text("InstanceID"), text("0"))];
        assert(args.deep_view() =~= seq![("InstanceID"@, "0"@)]);
        request(Service::AVTransport, "RemoveAllTracksFromQueue", args)
    }

    /// Reads the topology document of all groups.
    pub fn get_zone_group_state() -> (r: ActionRequest)
        ensures
            r@ == request_view(Service::ZoneGroupTopology, "GetZoneGroupState"@, seq![]),
    {
        let args: Vec<(String, String)> = vec![];
        assert(args.deep_view() =~= seq![]);
        request(Service::ZoneGroupTopology, "GetZoneGroupState", args)
    }

    /// Joins the group of the player with the given uuid.
    pub fn join_uuid(uuid: &str) -> (r: ActionRequest)
        ensures
            r@ == request_view(
                Service::AVTransport,
                "SetAVTransportURI"@,
                seq![
                    ("InstanceID"@, "0"@),
                    ("CurrentURI"@, "x-rincon:"@ + uuid@),
                    ("CurrentURIMetaData"@, ""@),
                ],
            ),
    {
        let args: Vec<(String, String)> = vec![
            (text("InstanceID"), text("0")),
            (text("CurrentURI"), group_uri(uuid)),
            (text("CurrentURIMetaData"), text("")),
        ];
        assert(args.deep_view() =~= seq![
            ("InstanceID"@, "0"@),
            ("CurrentURI"@, "x-rincon:"@ + uuid@),
            ("CurrentURIMetaData"@, ""@),
        ]);
        request(Service::AVTransport, "SetAVTransportURI", args)
    }

    /// Leaves the current group; a player without a group stays as it is.
    pub fn leave() -> (r: ActionRequest)
        ensures
            r@ == request_view(
                Service::AVTransport,
                "BecomeCoordinatorOfStandaloneGroup"@,
                seq![("InstanceID"@, "0"@)],
            ),
    {
        let args: Vec<(String, String)> = vec![(text("InstanceID"), text("0"))];
        assert(args.deep_view() =~= seq![("InstanceID"@, "0"@)]);
        request(Service::AVTransport, "BecomeCoordinatorOfStandaloneGroup", args)
    }

    /// Selects a transport URI with its metadata.
    pub fn set_transport_uri(uri: &str, metadata: &str) -> (r: ActionRequest)
        ensures
            r@ == request_view(
                Service::AVTransport,
                "SetAVTransportURI"@,
                seq![
                    ("InstanceID"@, "0"@),
                    ("CurrentURI"@, uri@),
                    ("CurrentURIMetaData"@, metadata@),
                ],
            ),
    {
        let args: Vec<(String, String)> = vec![
            (text("InstanceID"), text("0")),
            (text("CurrentURI"), text(uri)),
            (text("CurrentURIMetaData"), text(metadata)),
        ];
        assert(args.deep_view() =~= seq![
            ("InstanceID"@, "0"@),
            ("CurrentURI"@, uri@),
            ("CurrentURIMetaData"@, metadata@),
        ]);
        request(Service::AVTransport, "SetAVTransportURI", args)
    }

    /// Reads the current transport URI.
    pub fn get_media_info() -> (r: ActionRequest)
        ensures
            r@ == request_view(Service::AVTransport, "GetMediaInfo"@, seq![("InstanceID"@, "0"@)]),
    {
        let args: Vec<(String, String)> = vec![(text("InstanceID"), text("0"))];
        assert(args.deep_view() =~= seq![("InstanceID"@, "0"@)]);
        request(Service::AVTransport, "GetMediaInfo", args)
    }

    /// Lists the music services that the system offers.
    pub fn list_available_services() -> (r: ActionRequest)
        ensures
            r@ == request_view(Service::MusicServices, "ListAvailableServices"@, seq![]),
    {
        let args: Vec<(String, String)> = vec![];
        assert(args.deep_view() =~= seq![]);
        request(Service::MusicServices, "ListAvailableServices", args)
    }
}


/// The error of reading a repeat mode from text other than `none`, `one` or `all`.
#[derive(Debug, Clone, Copy, PartialEq, Eq, Structural)]
pub struct ParseRepeatModeError;

impl ParseRepeatModeError {
    /// What went wrong, in words.
    pub fn message(&self) -> &'static str {
        "provided string was not `NONE` or `ONE` or `ALL`"
    }
}

/// The repeat mode that `s` names: `none`, `one` or `all`, in any case.
pub open spec fn repeat_mode_named(s: Seq<char>) -> Option<RepeatMode> {
    if same_ignoring_case(s, "none"@) {
        Some(RepeatMode::Off)
    } else if same_ignoring_case(s, "one"@) {
        Some(RepeatMode::One)
    } else if same_ignoring_case(s, "all"@) {
        Some(RepeatMode::All)
    } else {
        None
    }
}

impl RepeatMode {
    /// Reads a repeat mode from its name, in any case.
    pub fn parse(s: &str) -> (r: Result<RepeatMode, ParseRepeatModeError>)
        ensures
            match repeat_mode_named(s@) {
                Some(m) => r == Ok::<RepeatMode, ParseRepeatModeError>(m),
                None => r is Err,
            },
    {
        if eq_ignore_case(s, "none") {
            Ok(RepeatMode::Off)
        } else if eq_ignore_case(s, "one") {
            Ok(RepeatMode::One)
        } else if eq_ignore_case(s, "all") {
            Ok(RepeatMode::All)
        } else {
            Err(ParseRepeatModeError)
        }
    }

    /// The name of the mode: `None`, `One` or `All`.
    pub fn name(&self) -> (r: &'static str)
        ensures
            r@ == match self {
                RepeatMode::Off => "None"@,
                RepeatMode::One => "One"@,
                RepeatMode::All => "All"@,
            },
    {
        match self {
            RepeatMode::Off => "None",
            RepeatMode::One => "One",
            RepeatMode::All => "All",
        }
    }
}

impl core::str::FromStr for RepeatMode {
    type Err = ParseRepeatModeError;

    fn from_str(s: &str) -> Result<RepeatMode, ParseRepeatModeError> {
        RepeatMode::parse(s)
    }
}

} // verus!
