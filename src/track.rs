use crate::action::{entry_in, ActionResponse};
use crate::responses::{missing_field, required_field};
use crate::codec::{clock_field, duration_value, parse_integer, seconds_from_str};
use crate::error::{missing, DecodeError, DecodeErrorView, ValueKind};
use crate::text::{eq_ignore_case, same_ignoring_case, same_text};
use crate::xml::{
    attribute_of, find_root_node, first_named, lemma_first_named_bound, node_attribute,
    parse_document, xml_nodes_of, XmlNode, XmlNodeView,
};
use vstd::string::*;
use vstd::prelude::*;

verus! {

/// A playable item: it always has a title and a URI; a creator, an album and a
/// duration in seconds are present when the item carries them.
#[derive(Debug)]
pub struct Track {
    pub title: String,
    pub creator: Option<String>,
    pub album: Option<String>,
    pub duration: Option<u32>,
    pub uri: String,
}

/// A [`Track`] as plain values.
pub struct TrackView {
    pub title: Seq<char>,
    pub creator: Option<Seq<char>>,
    pub album: Option<Seq<char>>,
    pub duration: Option<u32>,
    pub uri: Seq<char>,
}

impl View for Track {
    type V = TrackView;

    open spec fn view(&self) -> TrackView {
        TrackView {
            title: self.title@,
            creator: self.creator.deep_view(),
            album: self.album.deep_view(),
            duration: self.duration,
            uri: self.uri@,
        }
    }
}

impl DeepView for Track {
    type V = TrackView;

    open spec fn deep_view(&self) -> TrackView {
        self@
    }
}

impl Track {
    pub fn title(&self) -> (r: &str)
        ensures
            r@ == self.title@,
    {
        self.title.as_str()
    }

    pub fn creator(&self) -> (r: Option<&str>)
        ensures
            r.deep_view() == self.creator.deep_view(),
    {
        match &self.creator {
            Some(c) => Some(c.as_str()),
            None => None,
        }
    }

    pub fn album(&self) -> (r: Option<&str>)
        ensures
            r.deep_view() == self.album.deep_view(),
    {
        match &self.album {
            Some(a) => Some(a.as_str()),
            None => None,
        }
    }

    pub fn duration(&self) -> (r: Option<u32>)
        ensures
            r == self.duration,
    {
        self.duration
    }

    pub fn uri(&self) -> (r: &str)
        ensures
            r@ == self.uri@,
    {
        self.uri.as_str()
    }
}

/// How a track reads to a person: its title, then ` - ` and the creator, then
/// the album in parentheses, each where present.
pub open spec fn track_text(t: TrackView) -> Seq<char> {
    let by = match t.creator {
        Some(c) => " - "@ + c,
        None => seq![],
    };
    let on = match t.album {
        Some(a) => " ("@ + a + ")"@,
        None => seq![],
    };
    t.title + by + on
}

impl Track {
    /// The track as it reads to a person, e.g. `Title - Creator (Album)`.
    pub fn describe(&self) -> (r: String)
        ensures
            r@ == track_text(self@),
    {
        let mut s = self.title.clone();
        if let Some(c) = &self.creator {
            s.append(" - ");
            s.append(c.as_str());
        }
        let ghost by = s@;
        if let Some(a) = &self.album {
            s.append(" (");
            s.append(a.as_str());
            s.append(")");
        }
        proof {
            assert(by == self.title@ + match self@.creator {
                Some(c) => " - "@ + c,
                None => seq![],
            });
        }
        assert(s@ =~= track_text(self@));
        s
    }
}

/// The last child of `nodes[parent]` among `nodes[..end]` whose tag is exactly `name`.
pub open spec fn last_child(
    nodes: Seq<XmlNodeView>,
    parent: int,
    name: Seq<char>,
    end: int,
) -> Option<int>
    decreases end,
{
    if end <= 0 {
        None
    } else if nodes[end - 1].parent == Some(parent as usize) && nodes[end - 1].name == name {
        Some(end - 1)
    } else {
        last_child(nodes, parent, name, end - 1)
    }
}

proof fn lemma_last_child_bound(nodes: Seq<XmlNodeView>, parent: int, name: Seq<char>, end: int)
    ensures
        last_child(nodes, parent, name, end) matches Some(k) ==> 0 <= k < end,
    decreases end,
{
    if end > 0 {
        lemma_last_child_bound(nodes, parent, name, end - 1);
    }
}

/// The text of a node, empty where it has none.
pub open spec fn text_or_empty(n: XmlNodeView) -> Seq<char> {
    match n.text {
        Some(t) => t,
        None => seq![],
    }
}

/// The text of the child at `i`, if there is one.
pub open spec fn child_text(nodes: Seq<XmlNodeView>, i: Option<int>) -> Option<Seq<char>> {
    match i {
        Some(k) => Some(text_or_empty(nodes[k])),
        None => None,
    }
}

/// The duration that a resource element states, if it has the attribute.
pub open spec fn resource_duration(res: XmlNodeView) -> Result<Option<u32>, DecodeErrorView> {
    match attribute_of(res, "duration"@) {
        None => Ok(None),
        Some(d) => match duration_value(d) {
            Some(v) => Ok(Some(v)),
            None => Err(DecodeErrorView::InvalidValue(ValueKind::Duration)),
        },
    }
}

/// The track that the item element at `item` describes.
pub open spec fn track_of_node(nodes: Seq<XmlNodeView>, item: int) -> Result<
    TrackView,
    DecodeErrorView,
> {
    let end = nodes.len() as int;
    match (last_child(nodes, item, "title"@, end), last_child(nodes, item, "res"@, end)) {
        (None, _) => Err(DecodeErrorView::MissingElement(nodes[item].name, "title"@)),
        (_, None) => Err(DecodeErrorView::MissingElement(nodes[item].name, "res"@)),
        (Some(t), Some(r)) => match resource_duration(nodes[r]) {
            Err(e) => Err(e),
            Ok(duration) => Ok(
                TrackView {
                    title: text_or_empty(nodes[t]),
                    creator: child_text(nodes, last_child(nodes, item, "creator"@, end)),
                    album: child_text(nodes, last_child(nodes, item, "album"@, end)),
                    duration,
                    uri: text_or_empty(nodes[r]),
                },
            ),
        },
    }
}

/// A position as an integer.
pub open spec fn position(i: Option<usize>) -> Option<int> {
    match i {
        Some(k) => Some(k as int),
        None => None,
    }
}

fn text_of(node: &XmlNode) -> (r: String)
    ensures
        r@ == text_or_empty(node@),
{
    match &node.text {
        Some(t) => t.clone(),
        None => String::new(),
    }
}

impl Track {
    /// Reads a track from the item element at `item`.
    pub fn from_xml(nodes: &Vec<XmlNode>, item: usize) -> (r: Result<Track, DecodeError>)
        requires
            item < nodes@.len(),
        ensures
            match r {
                Ok(t) => track_of_node(nodes.deep_view(), item as int) == Ok::<
                    TrackView,
                    DecodeErrorView,
                >(t@),
                Err(e) => track_of_node(nodes.deep_view(), item as int) == Err::<
                    TrackView,
                    DecodeErrorView,
                >(e@),
            },
    {
        let ghost dv = nodes.deep_view();
        let n = nodes.len();
        let mut title: Option<usize> = None;
        let mut creator: Option<usize> = None;
        let mut album: Option<usize> = None;
        let mut res: Option<usize> = None;
        let mut j: usize = 0;
        while j < n
            invariant
                n == nodes@.len(),
                dv == nodes.deep_view(),
                j <= n,
                position(title) == last_child(dv, item as int, "title"@, j as int),
                position(creator) == last_child(dv, item as int, "creator"@, j as int),
                position(album) == last_child(dv, item as int, "album"@, j as int),
                position(res) == last_child(dv, item as int, "res"@, j as int),
            decreases n - j,
        {
            let node = &nodes[j];
            proof {
                assert(dv[j as int] == node@);
            }
            if node.parent == Some(item) {
                let name = node.name.as_str();
                if same_text(name, "title") {
                    title = Some(j);
                }
                if same_text(name, "creator") {
                    creator = Some(j);
                }
                if same_text(name, "album") {
                    album = Some(j);
                }
                if same_text(name, "res") {
                    res = Some(j);
                }
            }
            j = j + 1;
        }
        proof {
            assert(dv[item as int] == nodes@[item as int]@);
            lemma_last_child_bound(dv, item as int, "title"@, n as int);
            lemma_last_child_bound(dv, item as int, "creator"@, n as int);
            lemma_last_child_bound(dv, item as int, "album"@, n as int);
            lemma_last_child_bound(dv, item as int, "res"@, n as int);
        }
        let title = match title {
            Some(t) => t,
            None => {
                let context = nodes[item].name.as_str();
                return Err(missing(context, "title"));
            },
        };
        let res = match res {
            Some(r) => r,
            None => {
                let context = nodes[item].name.as_str();
                return Err(missing(context, "res"));
            },
        };
        proof {
            assert(dv[title as int] == nodes@[title as int]@);
            assert(dv[res as int] == nodes@[res as int]@);
        }
        let duration = match node_attribute(&nodes[res], "duration") {
            None => None,
            Some(d) => Some(seconds_from_str(d.as_str())?),
        };
        let creator = match creator {
            Some(c) => {
                proof {
                    assert(dv[c as int] == nodes@[c as int]@);
                }
                Some(text_of(&nodes[c]))
            },
            None => None,
        };
        let album = match album {
            Some(a) => {
                proof {
                    assert(dv[a as int] == nodes@[a as int]@);
                }
                Some(text_of(&nodes[a]))
            },
            None => None,
        };
        let title = text_of(&nodes[title]);
        let uri = text_of(&nodes[res]);
        Ok(Track { title, creator, album, duration, uri })
    }
}


/// A [`Track`] with its position in the queue (from 1), the raw metadata it was
/// read from, its duration and the elapsed time, in seconds.
#[derive(Debug)]
pub struct TrackInfo {
    pub track: Track,
    pub metadata: String,
    pub track_no: u32,
    pub duration: u32,
    pub elapsed: u32,
}

/// A [`TrackInfo`] as plain values.
pub struct TrackInfoView {
    pub track: TrackView,
    pub metadata: Seq<char>,
    pub track_no: u32,
    pub duration: u32,
    pub elapsed: u32,
}

impl View for TrackInfo {
    type V = TrackInfoView;

    open spec fn view(&self) -> TrackInfoView {
        TrackInfoView {
            track: self.track@,
            metadata: self.metadata@,
            track_no: self.track_no,
            duration: self.duration,
            elapsed: self.elapsed,
        }
    }
}

impl DeepView for TrackInfo {
    type V = TrackInfoView;

    open spec fn deep_view(&self) -> TrackInfoView {
        self@
    }
}

impl TrackInfo {
    pub fn new(track: Track, metadata: String, track_no: u32, duration: u32, elapsed: u32) -> (r:
        TrackInfo)
        ensures
            r@ == (TrackInfoView {
                track: track@,
                metadata: metadata@,
                track_no,
                duration,
                elapsed,
            }),
    {
        TrackInfo { track, metadata, track_no, duration, elapsed }
    }

    pub fn track(&self) -> (r: &Track)
        ensures
            r@ == self.track@,
    {
        &self.track
    }

    pub fn metadata(&self) -> (r: &str)
        ensures
            r@ == self.metadata@,
    {
        self.metadata.as_str()
    }

    pub fn track_no(&self) -> (r: u32)
        ensures
            r == self.track_no,
    {
        self.track_no
    }

    pub fn duration(&self) -> (r: u32)
        ensures
            r == self.duration,
    {
        self.duration
    }

    pub fn elapsed(&self) -> (r: u32)
        ensures
            r == self.elapsed,
    {
        self.elapsed
    }
}

/// The track that a parsed item-metadata document describes: its first `item` element.
pub open spec fn track_of_metadata(nodes: Seq<XmlNodeView>) -> Result<TrackView, DecodeErrorView> {
    match first_named(nodes, "item"@, nodes.len() as int) {
        None => Err(DecodeErrorView::MissingElement("Track Metadata"@, "item"@)),
        Some(item) => track_of_node(nodes, item as int),
    }
}

/// The text of the response field `key`.
pub open spec fn field_of(entries: Seq<(Seq<char>, Seq<char>)>, key: Seq<char>) -> Option<
    Seq<char>,
> {
    entry_in(entries, key, entries.len() as int)
}

/// The protocol's marker for a value that the device does not report.
pub open spec fn is_not_implemented(s: Seq<char>) -> bool {
    same_ignoring_case(s, "NOT_IMPLEMENTED"@)
}

/// The current track that a position-info response describes: none where the
/// device reports no duration or position, or sends no metadata.
pub open spec fn position_info_of(entries: Seq<(Seq<char>, Seq<char>)>) -> Result<
    Option<TrackInfoView>,
    DecodeErrorView,
> {
    match field_of(entries, "Track"@) {
        None => Err(missing_field("Track"@)),
        Some(number) => match clock_field(number) {
            None => Err(DecodeErrorView::InvalidValue(ValueKind::Integer)),
            Some(track_no) => match (
                field_of(entries, "TrackDuration"@),
                field_of(entries, "RelTime"@),
            ) {
                (None, _) => Err(missing_field("TrackDuration"@)),
                (_, None) => Err(missing_field("RelTime"@)),
                (Some(duration), Some(elapsed)) => if is_not_implemented(duration)
                    || is_not_implemented(elapsed) {
                    Ok(None)
                } else {
                    match field_of(entries, "TrackMetaData"@) {
                        None => Ok(None),
                        Some(metadata) => match (
                            duration_value(duration),
                            duration_value(elapsed),
                        ) {
                            (None, _) => Err(DecodeErrorView::InvalidValue(ValueKind::Duration)),
                            (_, None) => Err(DecodeErrorView::InvalidValue(ValueKind::Duration)),
                            (Some(d), Some(e)) => match xml_nodes_of(metadata) {
                                None => Err(DecodeErrorView::Xml),
                                Some(nodes) => match track_of_metadata(nodes) {
                                    Err(err) => Err(err),
                                    Ok(track) => Ok(
                                        Some(
                                            TrackInfoView {
                                                track,
                                                metadata,
                                                track_no: track_no as u32,
                                                duration: d,
                                                elapsed: e,
                                            },
                                        ),
                                    ),
                                },
                            },
                        },
                    }
                },
            },
        },
    }
}

/// The view of a decoded position info.
pub open spec fn track_info_result(r: Result<Option<TrackInfo>, DecodeError>) -> Result<
    Option<TrackInfoView>,
    DecodeErrorView,
> {
    match r {
        Ok(Some(info)) => Ok(Some(info@)),
        Ok(None) => Ok(None),
        Err(e) => Err(e@),
    }
}

/// Reads the track that a parsed item-metadata document describes.
pub fn track_from_metadata_nodes(nodes: &Vec<XmlNode>) -> (r: Result<Track, DecodeError>)
    ensures
        match r {
            Ok(t) => track_of_metadata(nodes.deep_view()) == Ok::<TrackView, DecodeErrorView>(t@),
            Err(e) => track_of_metadata(nodes.deep_view()) == Err::<TrackView, DecodeErrorView>(e@),
        },
{
    let item = find_root_node(nodes, "item", "Track Metadata")?;
    proof {
        lemma_first_named_bound(nodes.deep_view(), "item"@, nodes@.len() as int);
    }
    Track::from_xml(nodes, item)
}

/// Decodes the response of the position-info action into the current track.
pub fn track_info_from_response(response: &ActionResponse) -> (r: Result<
    Option<TrackInfo>,
    DecodeError,
>)
    ensures
        track_info_result(r) == position_info_of(response.entries.deep_view()),
{
    let number = required_field(response, "Track")?;
    let track_no = match parse_integer(number.as_str(), false, 0, 0xffff_ffff) {
        Some(v) => v as u32,
        None => {
            return Err(DecodeError::InvalidValue(ValueKind::Integer));
        },
    };
    let duration = required_field(response, "TrackDuration")?;
    let elapsed = required_field(response, "RelTime")?;
    if eq_ignore_case(duration.as_str(), "NOT_IMPLEMENTED") || eq_ignore_case(
        elapsed.as_str(),
        "NOT_IMPLEMENTED",
    ) {
        return Ok(None);
    }
    let metadata = match response.get("TrackMetaData") {
        Some(m) => m,
        None => {
            return Ok(None);
        },
    };
    let duration = seconds_from_str(duration.as_str())?;
    let elapsed = seconds_from_str(elapsed.as_str())?;
    let nodes = parse_document(metadata.as_str())?;
    let track = track_from_metadata_nodes(&nodes)?;
    Ok(Some(TrackInfo { track, metadata, track_no, duration, elapsed }))
}


/// A device that reports its track duration or its position as not implemented
/// has no current track: given a track number that decodes, the result is
/// "no track", not an error.
pub proof fn not_implemented_means_no_track(entries: Seq<(Seq<char>, Seq<char>)>)
    requires
        field_of(entries, "Track"@) matches Some(n) && clock_field(n) is Some,
        field_of(entries, "TrackDuration"@) is Some,
        field_of(entries, "RelTime"@) is Some,
        is_not_implemented(field_of(entries, "TrackDuration"@)->0) || is_not_implemented(
            field_of(entries, "RelTime"@)->0,
        ),
    ensures
        position_info_of(entries) == Ok::<Option<TrackInfoView>, DecodeErrorView>(None),
{
}


/// The first child of `nodes[parent]` among `nodes[..end]` that is an element.
pub open spec fn first_element_child(nodes: Seq<XmlNodeView>, parent: int, end: int) -> Option<int>
    decreases end,
{
    if end <= 0 {
        None
    } else {
        match first_element_child(nodes, parent, end - 1) {
            Some(i) => Some(i),
            None => if nodes[end - 1].parent == Some(parent as usize) && nodes[end - 1].element {
                Some(end - 1)
            } else {
                None
            },
        }
    }
}

/// The tracks that the element children of `nodes[list]` among `nodes[..end]`
/// describe; the first that does not decode decides the error.
pub open spec fn tracks_upto(nodes: Seq<XmlNodeView>, list: int, end: int) -> Result<
    Seq<TrackView>,
    DecodeErrorView,
>
    decreases end,
{
    if end <= 0 {
        Ok(seq![])
    } else {
        match tracks_upto(nodes, list, end - 1) {
            Err(e) => Err(e),
            Ok(before) => if nodes[end - 1].parent == Some(list as usize)
                && nodes[end - 1].element {
                match track_of_node(nodes, end - 1) {
                    Ok(t) => Ok(before.push(t)),
                    Err(e) => Err(e),
                }
            } else {
                Ok(before)
            },
        }
    }
}

/// The queue that a parsed browse result lists: one track per element child
/// of the document's top element.
pub open spec fn queue_of(nodes: Seq<XmlNodeView>) -> Result<Seq<TrackView>, DecodeErrorView> {
    match first_element_child(nodes, 0, nodes.len() as int) {
        None => Err(DecodeErrorView::MissingElement("Queue Response"@, "DIDL-Lite"@)),
        Some(list) => tracks_upto(nodes, list, nodes.len() as int),
    }
}

/// The view of a decoded list of tracks.
pub open spec fn tracks_result(r: Result<Vec<Track>, DecodeError>) -> Result<
    Seq<TrackView>,
    DecodeErrorView,
> {
    match r {
        Ok(tracks) => Ok(tracks.deep_view()),
        Err(e) => Err(e@),
    }
}

proof fn lemma_tracks_error_stays(nodes: Seq<XmlNodeView>, list: int, k: int, end: int)
    requires
        0 <= k <= end,
        tracks_upto(nodes, list, k) is Err,
    ensures
        tracks_upto(nodes, list, end) == tracks_upto(nodes, list, k),
    decreases end - k,
{
    if end > k {
        lemma_tracks_error_stays(nodes, list, k, end - 1);
    }
}

proof fn lemma_first_element_child_stays(nodes: Seq<XmlNodeView>, parent: int, k: int, end: int)
    requires
        k <= end,
        first_element_child(nodes, parent, k) is Some,
    ensures
        first_element_child(nodes, parent, end) == first_element_child(nodes, parent, k),
    decreases end - k,
{
    if end > k {
        lemma_first_element_child_stays(nodes, parent, k, end - 1);
    }
}

/// Reads the tracks of a parsed browse result of the queue.
pub fn queue_from_nodes(nodes: &Vec<XmlNode>) -> (r: Result<Vec<Track>, DecodeError>)
    ensures
        tracks_result(r) == queue_of(nodes.deep_view()),
{
    let ghost dv = nodes.deep_view();
    let n = nodes.len();
    let mut list: Option<usize> = None;
    let mut j: usize = 0;
    while j < n
        invariant_except_break
            list is None,
        invariant
            n == nodes@.len(),
            dv == nodes.deep_view(),
            j <= n,
            first_element_child(dv, 0, j as int) is None,
        ensures
            j <= n,
            match list {
                Some(l) => l < n && first_element_child(dv, 0, n as int) == Some(l as int),
                None => first_element_child(dv, 0, n as int) is None,
            },
        decreases n - j,
    {
        proof {
            assert(dv[j as int] == nodes@[j as int]@);
        }
        if nodes[j].parent == Some(0) && nodes[j].element {
            list = Some(j);
            proof {
                lemma_first_element_child_stays(dv, 0, j + 1, n as int);
            }
            break;
        }
        j = j + 1;
    }
    let list = match list {
        Some(l) => l,
        None => {
            return Err(missing("Queue Response", "DIDL-Lite"));
        },
    };
    let mut tracks: Vec<Track> = Vec::new();
    let mut k: usize = 0;
    assert(tracks.deep_view() =~= Seq::<TrackView>::empty());
    while k < n
        invariant
            n == nodes@.len(),
            dv == nodes.deep_view(),
            k <= n,
            first_element_child(dv, 0, n as int) == Some(list as int),
            tracks_upto(dv, list as int, k as int) == Ok::<Seq<TrackView>, DecodeErrorView>(
                tracks.deep_view(),
            ),
        decreases n - k,
    {
        proof {
            assert(dv[k as int] == nodes@[k as int]@);
        }
        if nodes[k].parent == Some(list) && nodes[k].element {
            match Track::from_xml(nodes, k) {
                Ok(t) => {
                    tracks.push(t);
                    proof {
                        let before = tracks_upto(dv, list as int, k as int)->Ok_0;
                        assert(tracks.deep_view() == before.push(t@));
                    }
                },
                Err(e) => {
                    proof {
                        lemma_tracks_error_stays(dv, list as int, k + 1, n as int);
                    }
                    return Err(e);
                },
            }
        }
        k = k + 1;
    }
    Ok(tracks)
}

/// The queue that a browse response lists.
pub open spec fn queue_of_response(entries: Seq<(Seq<char>, Seq<char>)>) -> Result<
    Seq<TrackView>,
    DecodeErrorView,
> {
    match field_of(entries, "Result"@) {
        None => Err(DecodeErrorView::MissingElement("UPnP Response"@, "Result"@)),
        Some(text) => match xml_nodes_of(text) {
            None => Err(DecodeErrorView::Xml),
            Some(nodes) => queue_of(nodes),
        },
    }
}

/// Decodes the response of browsing the queue into its tracks.
pub fn queue_from_response(response: &ActionResponse) -> (r: Result<Vec<Track>, DecodeError>)
    ensures
        tracks_result(r) == queue_of_response(response.entries.deep_view()),
{
    let result = required_field(response, "Result")?;
    let nodes = parse_document(result.as_str())?;
    queue_from_nodes(&nodes)
}

} // verus!
