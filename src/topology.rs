use crate::error::{missing, DecodeError, DecodeErrorView};
use crate::text::{eq_ignore_case, fold_ascii, same_ignoring_case};
use crate::xml::{
    attribute_of, find_node_attribute, find_root_node, first_named, is_named, named_children,
    node_attribute, parse_document, xml_nodes_of, XmlNode, XmlNodeView,
};
use vstd::prelude::*;
use vstd::string::*;

verus! {

/// A lightweight description of a zone player: its room name, uuid and the
/// location of its device description. Two descriptions are the same player
/// when their uuids match, compared case-insensitively.
#[derive(Debug)]
pub struct SpeakerInfo {
    pub name: String,
    pub uuid: String,
    pub location: String,
}

/// A [`SpeakerInfo`] as plain values.
pub struct SpeakerInfoView {
    pub name: Seq<char>,
    pub uuid: Seq<char>,
    pub location: Seq<char>,
}

impl View for SpeakerInfo {
    type V = SpeakerInfoView;

    open spec fn view(&self) -> SpeakerInfoView {
        SpeakerInfoView { name: self.name@, uuid: self.uuid@, location: self.location@ }
    }
}

impl DeepView for SpeakerInfo {
    type V = SpeakerInfoView;

    open spec fn deep_view(&self) -> SpeakerInfoView {
        self@
    }
}

impl SpeakerInfo {
    pub fn name(&self) -> (r: &str)
        ensures
            r@ == self.name@,
    {
        self.name.as_str()
    }

    pub fn uuid(&self) -> (r: &str)
        ensures
            r@ == self.uuid@,
    {
        self.uuid.as_str()
    }

    pub fn location(&self) -> (r: &str)
        ensures
            r@ == self.location@,
    {
        self.location.as_str()
    }
}

impl PartialEq for SpeakerInfo {
    fn eq(&self, other: &SpeakerInfo) -> (r: bool)
        ensures
            r == same_ignoring_case(self.uuid@, other.uuid@),
    {
        eq_ignore_case(self.uuid.as_str(), other.uuid.as_str())
    }
}

impl vstd::std_specs::cmp::PartialEqSpecImpl for SpeakerInfo {
    open spec fn obeys_eq_spec() -> bool {
        true
    }

    open spec fn eq_spec(&self, other: &SpeakerInfo) -> bool {
        same_ignoring_case(self.uuid@, other.uuid@)
    }
}

impl Eq for SpeakerInfo {}

/// The groups of a topology: each coordinator's uuid with the members of its group.
pub type ZoneGroups = Vec<(String, Vec<SpeakerInfo>)>;

/// [`ZoneGroups`] as plain values.
pub type ZoneGroupsView = Seq<(Seq<char>, Seq<SpeakerInfoView>)>;

/// The member that a `ZoneGroupMember` element describes.
pub open spec fn member_of_node(n: XmlNodeView) -> Result<SpeakerInfoView, DecodeErrorView> {
    match (attribute_of(n, "ZoneName"@), attribute_of(n, "UUID"@), attribute_of(n, "Location"@)) {
        (Some(name), Some(uuid), Some(location)) => Ok(
            SpeakerInfoView { name, uuid, location },
        ),
        (None, _, _) => Err(DecodeErrorView::MissingElement("ZoneGroupMember"@, "ZoneName"@)),
        (_, None, _) => Err(DecodeErrorView::MissingElement("ZoneGroupMember"@, "UUID"@)),
        (_, _, None) => Err(DecodeErrorView::MissingElement("ZoneGroupMember"@, "Location"@)),
    }
}

/// `n` is a member element of the group element at `group`.
pub open spec fn is_member_of(n: XmlNodeView, group: int) -> bool {
    n.parent == Some(group as usize) && is_named(n, "ZoneGroupMember"@)
}

/// The members of the group element at `group` found among `nodes[..end]`; the
/// first member that does not decode decides the error.
pub open spec fn members_upto(nodes: Seq<XmlNodeView>, group: int, end: int) -> Result<
    Seq<SpeakerInfoView>,
    DecodeErrorView,
>
    decreases end,
{
    if end <= 0 {
        Ok(seq![])
    } else {
        match members_upto(nodes, group, end - 1) {
            Err(e) => Err(e),
            Ok(before) => if is_member_of(nodes[end - 1], group) {
                match member_of_node(nodes[end - 1]) {
                    Ok(m) => Ok(before.push(m)),
                    Err(e) => Err(e),
                }
            } else {
                Ok(before)
            },
        }
    }
}

/// Some member of `members` has the uuid `uuid`, compared case-insensitively.
pub open spec fn has_member(members: Seq<SpeakerInfoView>, uuid: Seq<char>) -> bool {
    exists|k: int| 0 <= k < members.len() && same_ignoring_case(#[trigger] members[k].uuid, uuid)
}

/// The group that the `ZoneGroup` element at `group` describes: its coordinator
/// and its members, of which the coordinator must be one.
pub open spec fn group_of_node(nodes: Seq<XmlNodeView>, group: int) -> Result<
    (Seq<char>, Seq<SpeakerInfoView>),
    DecodeErrorView,
> {
    match attribute_of(nodes[group], "Coordinator"@) {
        None => Err(DecodeErrorView::MissingElement(nodes[group].name, "Coordinator"@)),
        Some(coordinator) => match members_upto(nodes, group, nodes.len() as int) {
            Err(e) => Err(e),
            Ok(members) => if has_member(members, coordinator) {
                Ok((coordinator, members))
            } else {
                Err(DecodeErrorView::MalformedTopology(coordinator))
            },
        },
    }
}

/// `n` is a group element under the groups container at `root`.
pub open spec fn is_group_of(n: XmlNodeView, root: int) -> bool {
    n.parent == Some(root as usize) && is_named(n, "ZoneGroup"@)
}

/// The groups under the container at `root` found among `nodes[..end]`.
pub open spec fn groups_upto(nodes: Seq<XmlNodeView>, root: int, end: int) -> Result<
    ZoneGroupsView,
    DecodeErrorView,
>
    decreases end,
{
    if end <= 0 {
        Ok(seq![])
    } else {
        match groups_upto(nodes, root, end - 1) {
            Err(e) => Err(e),
            Ok(before) => if is_group_of(nodes[end - 1], root) {
                match group_of_node(nodes, end - 1) {
                    Ok(g) => Ok(before.push(g)),
                    Err(e) => Err(e),
                }
            } else {
                Ok(before)
            },
        }
    }
}

/// The topology that a parsed topology document describes: the groups under
/// its first `ZoneGroups` element, in document order.
pub open spec fn topology_of(nodes: Seq<XmlNodeView>) -> Result<ZoneGroupsView, DecodeErrorView> {
    match first_named(nodes, "ZoneGroups"@, nodes.len() as int) {
        None => Err(DecodeErrorView::MissingElement("Zone Group Topology"@, "ZoneGroups"@)),
        Some(root) => groups_upto(nodes, root as int, nodes.len() as int),
    }
}

/// The topology that a topology document's text describes.
pub open spec fn topology_of_text(text: Seq<char>) -> Result<ZoneGroupsView, DecodeErrorView> {
    match xml_nodes_of(text) {
        None => Err(DecodeErrorView::Xml),
        Some(nodes) => topology_of(nodes),
    }
}

/// The view of a decoded topology.
pub open spec fn groups_result(r: Result<ZoneGroups, DecodeError>) -> Result<
    ZoneGroupsView,
    DecodeErrorView,
> {
    match r {
        Ok(groups) => Ok(groups.deep_view()),
        Err(e) => Err(e@),
    }
}


proof fn lemma_members_error_stays(nodes: Seq<XmlNodeView>, group: int, k: int, end: int)
    requires
        0 <= k <= end,
        members_upto(nodes, group, k) is Err,
    ensures
        members_upto(nodes, group, end) == members_upto(nodes, group, k),
    decreases end - k,
{
    if end > k {
        lemma_members_error_stays(nodes, group, k, end - 1);
    }
}

proof fn lemma_groups_error_stays(nodes: Seq<XmlNodeView>, root: int, k: int, end: int)
    requires
        0 <= k <= end,
        groups_upto(nodes, root, k) is Err,
    ensures
        groups_upto(nodes, root, end) == groups_upto(nodes, root, k),
    decreases end - k,
{
    if end > k {
        lemma_groups_error_stays(nodes, root, k, end - 1);
    }
}

impl SpeakerInfo {
    /// Reads a member description from a `ZoneGroupMember` element.
    pub fn from_xml(node: &XmlNode) -> (r: Result<SpeakerInfo, DecodeError>)
        ensures
            match r {
                Ok(info) => member_of_node(node@) == Ok::<SpeakerInfoView, DecodeErrorView>(info@),
                Err(e) => member_of_node(node@) == Err::<SpeakerInfoView, DecodeErrorView>(e@),
            },
    {
        let name = node_attribute(node, "ZoneName");
        let uuid = node_attribute(node, "UUID");
        let location = node_attribute(node, "Location");
        let context = "ZoneGroupMember";
        match (name, uuid, location) {
            (Some(name), Some(uuid), Some(location)) => Ok(SpeakerInfo { name, uuid, location }),
            (None, _, _) => Err(
                missing(context, "ZoneName"),
            ),
            (_, None, _) => Err(
                missing(context, "UUID"),
            ),
            (_, _, None) => Err(
                missing(context, "Location"),
            ),
        }
    }
}

fn group_members(nodes: &Vec<XmlNode>, group: usize) -> (r: Result<Vec<SpeakerInfo>, DecodeError>)
    ensures
        match r {
            Ok(ms) => members_upto(nodes.deep_view(), group as int, nodes@.len() as int) == Ok::<
                Seq<SpeakerInfoView>,
                DecodeErrorView,
            >(ms.deep_view()),
            Err(e) => members_upto(nodes.deep_view(), group as int, nodes@.len() as int) == Err::<
                Seq<SpeakerInfoView>,
                DecodeErrorView,
            >(e@),
        },
{
    let ghost dv = nodes.deep_view();
    let n = nodes.len();
    let mut members: Vec<SpeakerInfo> = Vec::new();
    let mut j: usize = 0;
    assert(members.deep_view() =~= Seq::<SpeakerInfoView>::empty());
    while j < n
        invariant
            n == nodes@.len(),
            dv == nodes.deep_view(),
            j <= n,
            members_upto(dv, group as int, j as int) == Ok::<Seq<SpeakerInfoView>, DecodeErrorView>(
                members.deep_view(),
            ),
        decreases n - j,
    {
        let node = &nodes[j];
        proof {
            assert(dv[j as int] == node@);
        }
        if node.parent == Some(group) && node.element && eq_ignore_case(
            node.name.as_str(),
            "ZoneGroupMember",
        ) {
            match SpeakerInfo::from_xml(node) {
                Ok(m) => {
                    members.push(m);
                    proof {
                        let before = members_upto(dv, group as int, j as int)->Ok_0;
                        assert(members.deep_view() == before.push(m@));
                    }
                },
                Err(e) => {
                    proof {
                        lemma_members_error_stays(dv, group as int, j + 1, n as int);
                    }
                    return Err(e);
                },
            }
        }
        j = j + 1;
    }
    Ok(members)
}

fn contains_uuid(members: &Vec<SpeakerInfo>, uuid: &str) -> (r: bool)
    ensures
        r == has_member(members.deep_view(), uuid@),
{
    let n = members.len();
    let mut k: usize = 0;
    while k < n
        invariant
            n == members@.len(),
            k <= n,
            forall|i: int| 0 <= i < k ==> !same_ignoring_case(members.deep_view()[i].uuid, uuid@),
        decreases n - k,
    {
        proof {
            assert(members.deep_view()[k as int] == members@[k as int]@);
        }
        if eq_ignore_case(members[k].uuid.as_str(), uuid) {
            assert(same_ignoring_case(members.deep_view()[k as int].uuid, uuid@));
            return true;
        }
        k = k + 1;
    }
    false
}

fn group_from_node(nodes: &Vec<XmlNode>, group: usize) -> (r: Result<
    (String, Vec<SpeakerInfo>),
    DecodeError,
>)
    requires
        group < nodes@.len(),
    ensures
        match r {
            Ok(g) => group_of_node(nodes.deep_view(), group as int) == Ok::<
                (Seq<char>, Seq<SpeakerInfoView>),
                DecodeErrorView,
            >(g.deep_view()),
            Err(e) => group_of_node(nodes.deep_view(), group as int) == Err::<
                (Seq<char>, Seq<SpeakerInfoView>),
                DecodeErrorView,
            >(e@),
        },
{
    proof {
        assert(nodes.deep_view()[group as int] == nodes@[group as int]@);
    }
    let coordinator = find_node_attribute(&nodes[group], "Coordinator")?;
    let members = group_members(nodes, group)?;
    if contains_uuid(&members, coordinator.as_str()) {
        Ok((coordinator, members))
    } else {
        Err(DecodeError::MalformedTopology(coordinator))
    }
}

/// Reads the groups of a parsed topology document.
pub fn zone_groups_from_nodes(nodes: &Vec<XmlNode>) -> (r: Result<ZoneGroups, DecodeError>)
    ensures
        groups_result(r) == topology_of(nodes.deep_view()),
{
    let ghost dv = nodes.deep_view();
    let root = find_root_node(nodes, "ZoneGroups", "Zone Group Topology")?;
    let n = nodes.len();
    let mut groups: ZoneGroups = Vec::new();
    let mut j: usize = 0;
    assert(groups.deep_view() =~= Seq::<(Seq<char>, Seq<SpeakerInfoView>)>::empty());
    while j < n
        invariant
            n == nodes@.len(),
            dv == nodes.deep_view(),
            j <= n,
            first_named(dv, "ZoneGroups"@, n as int) == Some(root),
            groups_upto(dv, root as int, j as int) == Ok::<ZoneGroupsView, DecodeErrorView>(
                groups.deep_view(),
            ),
        decreases n - j,
    {
        let node = &nodes[j];
        proof {
            assert(dv[j as int] == node@);
        }
        if node.parent == Some(root) && node.element && eq_ignore_case(
            node.name.as_str(),
            "ZoneGroup",
        ) {
            match group_from_node(nodes, j) {
                Ok(g) => {
                    groups.push(g);
                    proof {
                        let before = groups_upto(dv, root as int, j as int)->Ok_0;
                        assert(groups.deep_view() == before.push(g.deep_view()));
                    }
                },
                Err(e) => {
                    proof {
                        lemma_groups_error_stays(dv, root as int, j + 1, n as int);
                    }
                    return Err(e);
                },
            }
        }
        j = j + 1;
    }
    Ok(groups)
}

/// Parses a topology document into its groups, in document order.
pub fn parse_zone_group_state(text: &str) -> (r: Result<ZoneGroups, DecodeError>)
    ensures
        groups_result(r) == topology_of_text(text@),
{
    let nodes = parse_document(text)?;
    zone_groups_from_nodes(&nodes)
}


proof fn lemma_members_count(nodes: Seq<XmlNodeView>, group: int, end: int)
    requires
        members_upto(nodes, group, end) is Ok,
    ensures
        members_upto(nodes, group, end)->Ok_0.len() == named_children(
            nodes,
            group,
            "ZoneGroupMember"@,
            end,
        ).len(),
    decreases end,
{
    if end > 0 {
        lemma_members_count(nodes, group, end - 1);
    }
}

proof fn lemma_groups_match(nodes: Seq<XmlNodeView>, root: int, end: int)
    requires
        groups_upto(nodes, root, end) is Ok,
    ensures
        ({
            let groups = groups_upto(nodes, root, end)->Ok_0;
            let elements = named_children(nodes, root, "ZoneGroup"@, end);
            &&& groups.len() == elements.len()
            &&& forall|k: int|
                0 <= k < groups.len() ==> group_of_node(nodes, #[trigger] elements[k])
                    == Ok::<(Seq<char>, Seq<SpeakerInfoView>), DecodeErrorView>(groups[k])
        }),
    decreases end,
{
    if end > 0 {
        lemma_groups_match(nodes, root, end - 1);
        let before = groups_upto(nodes, root, end - 1)->Ok_0;
        let groups = groups_upto(nodes, root, end)->Ok_0;
        let prev = named_children(nodes, root, "ZoneGroup"@, end - 1);
        let elements = named_children(nodes, root, "ZoneGroup"@, end);
        if is_group_of(nodes[end - 1], root) {
            assert(elements == prev.push(end - 1));
            assert(groups == before.push(group_of_node(nodes, end - 1)->Ok_0));
            assert forall|k: int| 0 <= k < groups.len() implies group_of_node(
                nodes,
                #[trigger] elements[k],
            ) == Ok::<(Seq<char>, Seq<SpeakerInfoView>), DecodeErrorView>(groups[k]) by {
                if k < before.len() {
                    assert(elements[k] == prev[k]);
                    assert(groups[k] == before[k]);
                }
            }
        } else {
            assert(elements == prev);
            assert(groups == before);
        }
    }
}

/// A topology document that decodes yields one group per group element under
/// its groups container, in document order. Each group holds one member per
/// member element of that group element, its coordinator is the element's
/// `Coordinator` attribute, and the coordinator is among the members.
pub proof fn topology_shape(nodes: Seq<XmlNodeView>)
    requires
        topology_of(nodes) is Ok,
    ensures
        ({
            let root = first_named(nodes, "ZoneGroups"@, nodes.len() as int)->0 as int;
            let elements = named_children(nodes, root, "ZoneGroup"@, nodes.len() as int);
            let groups = topology_of(nodes)->Ok_0;
            &&& groups.len() == elements.len()
            &&& forall|k: int|
                0 <= k < groups.len() ==> {
                    &&& (#[trigger] groups[k]).1.len() == named_children(
                        nodes,
                        elements[k],
                        "ZoneGroupMember"@,
                        nodes.len() as int,
                    ).len()
                    &&& attribute_of(nodes[elements[k]], "Coordinator"@) == Some(groups[k].0)
                    &&& has_member(groups[k].1, groups[k].0)
                }
        }),
{
    let root = first_named(nodes, "ZoneGroups"@, nodes.len() as int)->0 as int;
    let elements = named_children(nodes, root, "ZoneGroup"@, nodes.len() as int);
    let groups = topology_of(nodes)->Ok_0;
    lemma_groups_match(nodes, root, nodes.len() as int);
    assert forall|k: int| 0 <= k < groups.len() implies {
        &&& (#[trigger] groups[k]).1.len() == named_children(
            nodes,
            elements[k],
            "ZoneGroupMember"@,
            nodes.len() as int,
        ).len()
        &&& attribute_of(nodes[elements[k]], "Coordinator"@) == Some(groups[k].0)
        &&& has_member(groups[k].1, groups[k].0)
    } by {
        assert(group_of_node(nodes, elements[k]) is Ok);
        lemma_members_count(nodes, elements[k], nodes.len() as int);
    }
}


/// The uuid as it is compared: each character with ASCII letters folded to lower case.
pub open spec fn uuid_key(uuid: Seq<char>) -> Seq<int> {
    uuid.map_values(|c: char| fold_ascii(c))
}

/// Relies on `Hasher::write_u32`: feeds one value to the hasher.
#[verifier::external_body]
fn feed<H: core::hash::Hasher>(state: &mut H, value: u32) {
    state.write_u32(value)
}

impl core::hash::Hash for SpeakerInfo {
    /// Feeds the length of the uuid, then each of its characters with ASCII
    /// letters folded to lower case: that is, `uuid_key` of the uuid.
    fn hash<H: core::hash::Hasher>(&self, state: &mut H) {
        let uuid = self.uuid.as_str();
        let n = uuid.unicode_len();
        if n > 0xffff_ffff {
            feed(state, 0xffff_ffff);
        } else {
            feed(state, n as u32);
        }
        let mut i: usize = 0;
        while i < n
            invariant
                n == uuid@.len(),
                i <= n,
            decreases n - i,
        {
            let c = uuid.get_char(i);
            let folded: u32 = if 'A' <= c && c <= 'Z' { c as u32 + 32 } else { c as u32 };
            feed(state, folded);
            i = i + 1;
        }
    }
}

/// Two member descriptions are equal exactly when the keys of their uuids are,
/// whatever their names and locations; the hash feeds the hasher nothing but
/// that key, so equal descriptions hash alike.
pub proof fn speaker_identity(a: SpeakerInfoView, b: SpeakerInfoView)
    ensures
        same_ignoring_case(a.uuid, b.uuid) <==> uuid_key(a.uuid) == uuid_key(b.uuid),
{
    if same_ignoring_case(a.uuid, b.uuid) {
        assert(uuid_key(a.uuid) =~= uuid_key(b.uuid));
    }
    if uuid_key(a.uuid) == uuid_key(b.uuid) {
        assert(uuid_key(a.uuid).len() == a.uuid.len());
        assert(uuid_key(b.uuid).len() == b.uuid.len());
        assert forall|i: int| 0 <= i < a.uuid.len() implies fold_ascii(#[trigger] a.uuid[i])
            == fold_ascii(b.uuid[i]) by {
            assert(uuid_key(a.uuid)[i] == uuid_key(b.uuid)[i]);
        }
    }
}

} // verus!
