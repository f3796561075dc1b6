//! A control-point client library for networked zone players: encoding of
//! actions, decoding of their responses, group topology and track metadata,
//! and the rules by which a playback snapshot is captured and restored.
//!
//! Network transport is not part of this crate: a caller runs each
//! [`ActionRequest`] against a device and hands the decoded response fields
//! back as an [`ActionResponse`].

pub mod action;
pub mod codec;
pub mod discovery;
pub mod error;
pub mod protocol;
pub mod responses;
pub mod services;
pub mod snapshot;
pub mod text;
pub mod topology;
pub mod track;
pub mod xml;

pub use action::{encode_args, ActionResponse, HashMapExt};
pub use codec::{parse_bool, seconds_from_str, seconds_to_str};
pub use discovery::{discovery_peers, find_room, peer_locations, room_uuid, uuid_at_location};
pub use error::{DecodeError, ValueKind};
pub use protocol::{
    is_zone_player, play_mode_name_of, zone_player_urn, ActionRequest, ParseRepeatModeError,
    RepeatMode, Service, Urn,
};
pub use responses::{pause_tolerates, ActionFault};
pub use snapshot::{ApplyStep, Snapshot};
pub use text::eq_ignore_case;
pub use topology::{parse_zone_group_state, SpeakerInfo, ZoneGroups};
pub use track::{track_info_from_response, Track, TrackInfo};
pub use xml::{find_node_attribute, find_root_node, parse_document, XmlNode};
