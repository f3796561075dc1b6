use crate::action::{ActionResponse, HashMapExt};
use crate::codec::{flag_value, integer_in, parse_bool, parse_integer};
use crate::error::{missing, plain_result, DecodeError, DecodeErrorView, ValueKind};
use crate::protocol::{text, RepeatMode};
use crate::text::{eq_ignore_case, same_ignoring_case};
use crate::topology::{groups_result, parse_zone_group_state, topology_of_text, ZoneGroups};
use vstd::prelude::*;

verus! {

/// The error for a response that lacks the field `key`.
pub open spec fn missing_field(key: Seq<char>) -> DecodeErrorView {
    DecodeErrorView::MissingElement("UPnP Response"@, key)
}

/// The text of the field `key`, which must be present.
pub fn required_field(response: &ActionResponse, key: &str) -> (r: Result<String, DecodeError>)
    ensures
        r matches Ok(v) ==> response.field(key@) == Some(v@),
        r matches Err(e) ==> response.field(key@) is None && e@ == missing_field(key@),
{
    match response.get(key) {
        Some(v) => Ok(v),
        None => Err(missing("UPnP Response", key)),
    }
}

/// The integer in `lo..=hi` that the field `key` holds.
pub open spec fn integer_field(
    response: ActionResponse,
    key: Seq<char>,
    signed: bool,
    lo: int,
    hi: int,
) -> Result<int, DecodeErrorView> {
    match response.field(key) {
        None => Err(missing_field(key)),
        Some(v) => match integer_in(v, signed, lo, hi) {
            Some(n) => Ok(n),
            None => Err(DecodeErrorView::InvalidValue(ValueKind::Integer)),
        },
    }
}

fn read_integer(response: &ActionResponse, key: &str, signed: bool, lo: i64, hi: i64) -> (r: Result<
    i64,
    DecodeError,
>)
    requires
        -0xffff_ffff <= lo <= hi <= 0xffff_ffff,
    ensures
        match r {
            Ok(n) => integer_field(*response, key@, signed, lo as int, hi as int) == Ok::<
                int,
                DecodeErrorView,
            >(n as int) && lo <= n <= hi,
            Err(e) => integer_field(*response, key@, signed, lo as int, hi as int) == Err::<
                int,
                DecodeErrorView,
            >(e@),
        },
{
    let v = required_field(response, key)?;
    match parse_integer(v.as_str(), signed, lo, hi) {
        Some(n) => Ok(n),
        None => Err(DecodeError::InvalidValue(ValueKind::Integer)),
    }
}

/// The flag that the field `key` holds.
pub open spec fn flag_field(response: ActionResponse, key: Seq<char>) -> Result<
    bool,
    DecodeErrorView,
> {
    match response.field(key) {
        None => Err(missing_field(key)),
        Some(v) => match flag_value(v) {
            Some(b) => Ok(b),
            None => Err(DecodeErrorView::InvalidValue(ValueKind::Bool)),
        },
    }
}

fn read_flag(response: &ActionResponse, key: &str) -> (r: Result<bool, DecodeError>)
    ensures
        plain_result(r) == flag_field(*response, key@),
{
    let v = required_field(response, key)?;
    parse_bool(v)
}

/// The volume in a get-volume response.
pub fn volume_from_response(response: &ActionResponse) -> (r: Result<u16, DecodeError>)
    ensures
        match r {
            Ok(v) => integer_field(*response, "CurrentVolume"@, false, 0, 0xffff) == Ok::<
                int,
                DecodeErrorView,
            >(v as int),
            Err(e) => integer_field(*response, "CurrentVolume"@, false, 0, 0xffff) == Err::<
                int,
                DecodeErrorView,
            >(e@),
        },
{
    let v = read_integer(response, "CurrentVolume", false, 0, 0xffff)?;
    Ok(v as u16)
}

/// The new volume in a relative-volume response.
pub fn new_volume_from_response(response: &ActionResponse) -> (r: Result<u16, DecodeError>)
    ensures
        match r {
            Ok(v) => integer_field(*response, "NewVolume"@, false, 0, 0xffff) == Ok::<
                int,
                DecodeErrorView,
            >(v as int),
            Err(e) => integer_field(*response, "NewVolume"@, false, 0, 0xffff) == Err::<
                int,
                DecodeErrorView,
            >(e@),
        },
{
    let v = read_integer(response, "NewVolume", false, 0, 0xffff)?;
    Ok(v as u16)
}

/// The bass level in a get-bass response.
pub fn bass_from_response(response: &ActionResponse) -> (r: Result<i8, DecodeError>)
    ensures
        match r {
            Ok(v) => integer_field(*response, "CurrentBass"@, true, -128, 127) == Ok::<
                int,
                DecodeErrorView,
            >(v as int),
            Err(e) => integer_field(*response, "CurrentBass"@, true, -128, 127) == Err::<
                int,
                DecodeErrorView,
            >(e@),
        },
{
    let v = read_integer(response, "CurrentBass", true, -128, 127)?;
    Ok(v as i8)
}

/// The treble level in a get-treble response.
pub fn treble_from_response(response: &ActionResponse) -> (r: Result<i8, DecodeError>)
    ensures
        match r {
            Ok(v) => integer_field(*response, "CurrentTreble"@, true, -128, 127) == Ok::<
                int,
                DecodeErrorView,
            >(v as int),
            Err(e) => integer_field(*response, "CurrentTreble"@, true, -128, 127) == Err::<
                int,
                DecodeErrorView,
            >(e@),
        },
{
    let v = read_integer(response, "CurrentTreble", true, -128, 127)?;
    Ok(v as i8)
}

/// Whether the master channel is muted, from a get-mute response.
pub fn mute_from_response(response: &ActionResponse) -> (r: Result<bool, DecodeError>)
    ensures
        plain_result(r) == flag_field(*response, "CurrentMute"@),
{
    read_flag(response, "CurrentMute")
}

/// Whether loudness is on, from a get-loudness response.
pub fn loudness_from_response(response: &ActionResponse) -> (r: Result<bool, DecodeError>)
    ensures
        plain_result(r) == flag_field(*response, "CurrentLoudness"@),
{
    read_flag(response, "CurrentLoudness")
}

/// Whether crossfade is on, from a get-crossfade response.
pub fn crossfade_from_response(response: &ActionResponse) -> (r: Result<bool, DecodeError>)
    ensures
        plain_result(r) == flag_field(*response, "CrossfadeMode"@),
{
    read_flag(response, "CrossfadeMode")
}

/// The room name in a zone-attributes response.
pub fn name_from_response(response: &ActionResponse) -> (r: Result<String, DecodeError>)
    ensures
        r matches Ok(v) ==> response.field("CurrentZoneName"@) == Some(v@),
        r matches Err(e) ==> response.field("CurrentZoneName"@) is None && e@ == missing_field(
            "CurrentZoneName"@,
        ),
{
    required_field(response, "CurrentZoneName")
}

/// Whether the player is playing, from a transport-info response.
pub fn is_playing_from_response(response: &ActionResponse) -> (r: Result<bool, DecodeError>)
    ensures
        plain_result(r) == match response.field("CurrentTransportState"@) {
            None => Err(missing_field("CurrentTransportState"@)),
            Some(state) => Ok(same_ignoring_case(state, "playing"@)),
        },
{
    let state = required_field(response, "CurrentTransportState")?;
    Ok(eq_ignore_case(state.as_str(), "playing"))
}

/// The current transport URI in a media-info response, if it has one.
pub fn transport_uri_from_response(response: &ActionResponse) -> (r: Option<String>)
    ensures
        r.deep_view() == response.field("CurrentURI"@),
{
    response.get("CurrentURI")
}

/// The repeat mode and shuffle that a play mode name stands for, compared
/// case-insensitively.
pub open spec fn play_mode_of(name: Seq<char>) -> Option<(RepeatMode, bool)> {
    if same_ignoring_case(name, "NORMAL"@) {
        Some((RepeatMode::Off, false))
    } else if same_ignoring_case(name, "REPEAT_ALL"@) {
        Some((RepeatMode::All, false))
    } else if same_ignoring_case(name, "REPEAT_ONE"@) {
        Some((RepeatMode::One, false))
    } else if same_ignoring_case(name, "SHUFFLE_NOREPEAT"@) {
        Some((RepeatMode::Off, true))
    } else if same_ignoring_case(name, "SHUFFLE"@) {
        Some((RepeatMode::All, true))
    } else if same_ignoring_case(name, "SHUFFLE_REPEAT_ONE"@) {
        Some((RepeatMode::One, true))
    } else {
        None
    }
}

/// Decodes a play mode name into its repeat mode and shuffle.
pub fn play_mode_from_name(name: &str) -> (r: Option<(RepeatMode, bool)>)
    ensures
        r == play_mode_of(name@),
{
    if eq_ignore_case(name, "NORMAL") {
        Some((RepeatMode::Off, false))
    } else if eq_ignore_case(name, "REPEAT_ALL") {
        Some((RepeatMode::All, false))
    } else if eq_ignore_case(name, "REPEAT_ONE") {
        Some((RepeatMode::One, false))
    } else if eq_ignore_case(name, "SHUFFLE_NOREPEAT") {
        Some((RepeatMode::Off, true))
    } else if eq_ignore_case(name, "SHUFFLE") {
        Some((RepeatMode::All, true))
    } else if eq_ignore_case(name, "SHUFFLE_REPEAT_ONE") {
        Some((RepeatMode::One, true))
    } else {
        None
    }
}

/// The repeat mode and shuffle in a transport-settings response.
pub fn play_mode_from_response(response: &ActionResponse) -> (r: Result<
    (RepeatMode, bool),
    DecodeError,
>)
    ensures
        plain_result(r) == match response.field("PlayMode"@) {
            None => Err(missing_field("PlayMode"@)),
            Some(name) => match play_mode_of(name) {
                Some(mode) => Ok(mode),
                None => Err(DecodeErrorView::InvalidValue(ValueKind::PlayMode)),
            },
        },
{
    let name = required_field(response, "PlayMode")?;
    match play_mode_from_name(name.as_str()) {
        Some(mode) => Ok(mode),
        None => Err(DecodeError::InvalidValue(ValueKind::PlayMode)),
    }
}

/// The groups in a zone-group-state response.
pub fn zone_groups_from_response(response: &ActionResponse) -> (r: Result<ZoneGroups, DecodeError>)
    ensures
        groups_result(r) == match response.field("ZoneGroupState"@) {
            None => Err(missing_field("ZoneGroupState"@)),
            Some(state) => topology_of_text(state),
        },
{
    let state = required_field(response, "ZoneGroupState")?;
    parse_zone_group_state(state.as_str())
}

/// How an action failed, as far as the decision to tolerate it needs.
#[derive(Debug, Clone, Copy, PartialEq, Eq, Structural)]
pub enum ActionFault {
    /// The device answered with this HTTP status.
    HttpStatus(u16),
    /// The device reported this protocol fault code.
    DeviceFault(u16),
    /// Any other failure.
    Other,
}

/// A failed pause that means the player already is in the state asked for: a
/// stopped player answers HTTP 500 or fault 701 to it.
pub open spec fn pause_already_done(fault: ActionFault) -> bool {
    fault == ActionFault::HttpStatus(500) || fault == ActionFault::DeviceFault(701)
}

/// Whether a failed pause counts as done.
pub fn pause_tolerates(fault: ActionFault) -> (r: bool)
    ensures
        r == pause_already_done(fault),
{
    match fault {
        ActionFault::HttpStatus(code) => code == 500,
        ActionFault::DeviceFault(code) => code == 701,
        ActionFault::Other => false,
    }
}

} // verus!
