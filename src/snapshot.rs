use crate::text::{has_prefix, starts_with};
use crate::track::{TrackInfo, TrackInfoView};
use vstd::prelude::*;
use vstd::string::*;

verus! {

/// A record of a player's transient state: every part is optional, so that a
/// snapshot can hold all of a player's state or only what a caller chose.
#[derive(Debug)]
pub struct Snapshot {
    pub volume: Option<u16>,
    pub is_playing: Option<bool>,
    pub track_info: Option<TrackInfo>,
    pub transport_uri: Option<String>,
}

/// A [`Snapshot`] as plain values.
pub struct SnapshotView {
    pub volume: Option<u16>,
    pub is_playing: Option<bool>,
    pub track_info: Option<TrackInfoView>,
    pub transport_uri: Option<Seq<char>>,
}

impl View for Snapshot {
    type V = SnapshotView;

    open spec fn view(&self) -> SnapshotView {
        SnapshotView {
            volume: self.volume,
            is_playing: self.is_playing,
            track_info: self.track_info.deep_view(),
            transport_uri: self.transport_uri.deep_view(),
        }
    }
}

impl Default for Snapshot {
    fn default() -> (r: Snapshot)
        ensures
            r.volume is None,
            r.is_playing is None,
            r.track_info is None,
            r.transport_uri is None,
    {
        Snapshot { volume: None, is_playing: None, track_info: None, transport_uri: None }
    }
}

impl Snapshot {
    /// A snapshot of everything that was read from a player.
    pub fn captured(
        volume: u16,
        track_info: Option<TrackInfo>,
        is_playing: bool,
        transport_uri: Option<String>,
    ) -> (r: Snapshot)
        ensures
            r.volume == Some(volume),
            r.is_playing == Some(is_playing),
            r@.track_info == track_info.deep_view(),
            r@.transport_uri == transport_uri.deep_view(),
    {
        Snapshot { volume: Some(volume), is_playing: Some(is_playing), track_info, transport_uri }
    }

    /// Sets the volume of the snapshot.
    pub fn volume(&mut self, volume: u16) -> (r: &mut Snapshot)
        ensures
            r.volume == Some(volume),
            r.is_playing == old(self).is_playing,
            r@.track_info == old(self)@.track_info,
            r@.transport_uri == old(self)@.transport_uri,
            *final(r) == *final(self),
    {
        self.volume = Some(volume);
        self
    }

    /// Sets whether the player is playing.
    pub fn is_playing(&mut self, is_playing: bool) -> (r: &mut Snapshot)
        ensures
            r.volume == old(self).volume,
            r.is_playing == Some(is_playing),
            r@.track_info == old(self)@.track_info,
            r@.transport_uri == old(self)@.transport_uri,
            *final(r) == *final(self),
    {
        self.is_playing = Some(is_playing);
        self
    }

    /// Sets the current track and the position in it.
    pub fn track_info(&mut self, track_info: TrackInfo) -> (r: &mut Snapshot)
        ensures
            r.volume == old(self).volume,
            r.is_playing == old(self).is_playing,
            r@.track_info == Some(track_info@),
            r@.transport_uri == old(self)@.transport_uri,
            *final(r) == *final(self),
    {
        self.track_info = Some(track_info);
        self
    }

    /// Sets the transport URI.
    pub fn transport_uri(&mut self, transport_uri: String) -> (r: &mut Snapshot)
        ensures
            r.volume == old(self).volume,
            r.is_playing == old(self).is_playing,
            r@.track_info == old(self)@.track_info,
            r@.transport_uri == Some(transport_uri@),
            *final(r) == *final(self),
    {
        self.transport_uri = Some(transport_uri);
        self
    }
}

/// One step of restoring a snapshot on a player.
#[derive(Debug, PartialEq, Eq)]
pub enum ApplyStep {
    /// Set the volume.
    SetVolume(u16),
    /// Select a transport URI, with empty metadata.
    SetTransportUri(String),
    /// A transport URI that cannot be selected from outside the player: it is
    /// skipped, with a warning.
    SkipTransportUri(String),
    /// Seek to a track (from 1) and, at the same time, to a position in seconds.
    Seek { track_no: u32, elapsed: u32 },
    /// Start playing.
    Play,
    /// Pause.
    Pause,
}

/// An [`ApplyStep`] as plain values.
pub enum ApplyStepView {
    SetVolume(u16),
    SetTransportUri(Seq<char>),
    SkipTransportUri(Seq<char>),
    Seek { track_no: u32, elapsed: u32 },
    Play,
    Pause,
}

impl View for ApplyStep {
    type V = ApplyStepView;

    open spec fn view(&self) -> ApplyStepView {
        match self {
            ApplyStep::SetVolume(v) => ApplyStepView::SetVolume(*v),
            ApplyStep::SetTransportUri(u) => ApplyStepView::SetTransportUri(u@),
            ApplyStep::SkipTransportUri(u) => ApplyStepView::SkipTransportUri(u@),
            ApplyStep::Seek { track_no, elapsed } => ApplyStepView::Seek {
                track_no: *track_no,
                elapsed: *elapsed,
            },
            ApplyStep::Play => ApplyStepView::Play,
            ApplyStep::Pause => ApplyStepView::Pause,
        }
    }
}

impl DeepView for ApplyStep {
    type V = ApplyStepView;

    open spec fn deep_view(&self) -> ApplyStepView {
        self@
    }
}

/// The scheme of transport URIs that a player cannot be made to select from outside.
pub open spec fn is_vendor_internal(uri: Seq<char>) -> bool {
    has_prefix(uri, "x-sonos-vli"@)
}

/// The steps that restore `s`, in order: the volume, then the transport URI,
/// then the track and position, and last whether it plays. Absent parts are
/// left alone.
pub open spec fn apply_plan(s: SnapshotView) -> Seq<ApplyStepView> {
    let volume = match s.volume {
        Some(v) => seq![ApplyStepView::SetVolume(v)],
        None => seq![],
    };
    let uri = match s.transport_uri {
        Some(u) => if is_vendor_internal(u) {
            seq![ApplyStepView::SkipTransportUri(u)]
        } else {
            seq![ApplyStepView::SetTransportUri(u)]
        },
        None => seq![],
    };
    let seek = match s.track_info {
        Some(t) => seq![ApplyStepView::Seek { track_no: t.track_no, elapsed: t.elapsed }],
        None => seq![],
    };
    let play = match s.is_playing {
        Some(true) => seq![ApplyStepView::Play],
        Some(false) => seq![ApplyStepView::Pause],
        None => seq![],
    };
    volume + uri + seek + play
}

impl Snapshot {
    /// The steps that restore this snapshot on a player, in the order in which
    /// they must run; a failed step ends the run.
    pub fn plan(&self) -> (r: Vec<ApplyStep>)
        ensures
            r.deep_view() == apply_plan(self@),
    {
        let mut steps: Vec<ApplyStep> = Vec::new();
        if let Some(v) = self.volume {
            steps.push(ApplyStep::SetVolume(v));
        }
        if let Some(uri) = &self.transport_uri {
            if starts_with(uri.as_str(), "x-sonos-vli") {
                steps.push(ApplyStep::SkipTransportUri(uri.clone()));
            } else {
                steps.push(ApplyStep::SetTransportUri(uri.clone()));
            }
        }
        if let Some(t) = &self.track_info {
            steps.push(ApplyStep::Seek { track_no: t.track_no, elapsed: t.elapsed });
        }
        match self.is_playing {
            Some(true) => steps.push(ApplyStep::Play),
            Some(false) => steps.push(ApplyStep::Pause),
            None => {},
        }
        assert(steps.deep_view() =~= apply_plan(self@));
        steps
    }
}

/// Restoring a full snapshot (volume `V`, playing, track `T`, transport URI `U`
/// that the player can select) sets the volume, then the transport URI, then
/// seeks to `T`'s track and position, and plays last.
pub proof fn apply_order(s: SnapshotView)
    requires
        s.volume is Some,
        s.transport_uri is Some,
        !is_vendor_internal(s.transport_uri->0),
        s.track_info is Some,
        s.is_playing == Some(true),
    ensures
        apply_plan(s) == seq![
            ApplyStepView::SetVolume(s.volume->0),
            ApplyStepView::SetTransportUri(s.transport_uri->0),
            ApplyStepView::Seek {
                track_no: s.track_info->0.track_no,
                elapsed: s.track_info->0.elapsed,
            },
            ApplyStepView::Play,
        ],
{
    assert(apply_plan(s) =~= seq![
        ApplyStepView::SetVolume(s.volume->0),
        ApplyStepView::SetTransportUri(s.transport_uri->0),
        ApplyStepView::Seek {
            track_no: s.track_info->0.track_no,
            elapsed: s.track_info->0.elapsed,
        },
        ApplyStepView::Play,
    ]);
}

} // verus!
