use crate::text::{eq_ignore_case, same_ignoring_case, same_text};
use crate::topology::{SpeakerInfoView, ZoneGroups, ZoneGroupsView};
use vstd::prelude::*;

verus! {

/// The members of all groups, group after group, in the order of the topology.
pub open spec fn all_members(groups: ZoneGroupsView) -> Seq<SpeakerInfoView>
    decreases groups.len(),
{
    if groups.len() == 0 {
        seq![]
    } else {
        all_members(groups.drop_last()) + groups.last().1
    }
}

/// The description locations of `members`, in order.
pub open spec fn locations(members: Seq<SpeakerInfoView>) -> Seq<Seq<char>> {
    members.map_values(|m: SpeakerInfoView| m.location)
}

/// The locations of every member of every group, in the order of the topology.
pub fn peer_locations(groups: &ZoneGroups) -> (r: Vec<String>)
    ensures
        r.deep_view() == locations(all_members(groups.deep_view())),
{
    let ghost gv = groups.deep_view();
    let mut r: Vec<String> = Vec::new();
    let mut i: usize = 0;
    assert(r.deep_view() =~= locations(all_members(gv.take(0))));
    while i < groups.len()
        invariant
            gv == groups.deep_view(),
            i <= groups@.len(),
            r.deep_view() == locations(all_members(gv.take(i as int))),
        decreases groups@.len() - i,
    {
        let members = &groups[i].1;
        let ghost before = r.deep_view();
        proof {
            assert(gv[i as int].1 == members.deep_view());
        }
        let mut k: usize = 0;
        while k < members.len()
            invariant
                k <= members@.len(),
                r.deep_view() == before + locations(members.deep_view().take(k as int)),
            decreases members@.len() - k,
        {
            let ghost old_r = r.deep_view();
            r.push(members[k].location.clone());
            proof {
                assert(r.deep_view() =~= old_r.push(members@[k as int].location@));
                assert(members.deep_view()[k as int] == members@[k as int]@);
                assert(locations(members.deep_view().take(k + 1)) =~= locations(
                    members.deep_view().take(k as int),
                ).push(members.deep_view()[k as int].location));
                assert(r.deep_view() =~= before + locations(members.deep_view().take(k + 1)));
            }
            k = k + 1;
        }
        proof {
            assert(members.deep_view().take(k as int) == members.deep_view());
            assert(gv.take(i + 1).drop_last() == gv.take(i as int));
            assert(gv.take(i + 1).last() == gv[i as int]);
            assert(locations(all_members(gv.take(i + 1))) =~= before + locations(
                members.deep_view(),
            ));
        }
        i = i + 1;
    }
    assert(gv.take(groups@.len() as int) == gv);
    r
}

/// The locations that discovery goes on to resolve, given the topology that the
/// first zone player to answer reported (`None` where none answered).
pub open spec fn peers_of(seed_topology: Option<ZoneGroupsView>) -> Seq<Seq<char>> {
    match seed_topology {
        None => seq![],
        Some(groups) => locations(all_members(groups)),
    }
}

/// The players that discovery goes on to resolve, given the topology that the
/// first zone player found reported, or `None` where no player answered the
/// search: then there is nothing to resolve, and discovery yields nothing.
pub fn discovery_peers(seed_topology: Option<ZoneGroups>) -> (r: Vec<String>)
    ensures
        r.deep_view() == peers_of(seed_topology.deep_view()),
{
    match seed_topology {
        None => {
            let r: Vec<String> = Vec::new();
            assert(r.deep_view() =~= Seq::<Seq<char>>::empty());
            r
        },
        Some(groups) => peer_locations(&groups),
    }
}

/// Finds the first of `names` that matches `roomname`, case-insensitively.
pub fn find_room(names: &Vec<String>, roomname: &str) -> (r: Option<usize>)
    ensures
        match r {
            Some(i) => {
                &&& i < names@.len()
                &&& same_ignoring_case(names@[i as int]@, roomname@)
                &&& forall|j: int|
                    0 <= j < i ==> !same_ignoring_case(#[trigger] names@[j]@, roomname@)
            },
            None => forall|j: int|
                0 <= j < names@.len() ==> !same_ignoring_case(#[trigger] names@[j]@, roomname@),
        },
{
    let mut i: usize = 0;
    while i < names.len()
        invariant
            i <= names@.len(),
            forall|j: int| 0 <= j < i ==> !same_ignoring_case(#[trigger] names@[j]@, roomname@),
        decreases names@.len() - i,
    {
        if eq_ignore_case(names[i].as_str(), roomname) {
            return Some(i);
        }
        i = i + 1;
    }
    None
}

/// The uuid of the first member, over all groups in order, for which `pick` holds.
pub open spec fn first_member_uuid(
    members: Seq<SpeakerInfoView>,
    pick: spec_fn(SpeakerInfoView) -> bool,
) -> Option<Seq<char>>
    decreases members.len(),
{
    if members.len() == 0 {
        None
    } else {
        match first_member_uuid(members.drop_last(), pick) {
            Some(u) => Some(u),
            None => if pick(members.last()) {
                Some(members.last().uuid)
            } else {
                None
            },
        }
    }
}

proof fn lemma_all_members_concat(a: ZoneGroupsView, b: ZoneGroupsView)
    ensures
        all_members(a + b) == all_members(a) + all_members(b),
    decreases b.len(),
{
    if b.len() > 0 {
        lemma_all_members_concat(a, b.drop_last());
        assert((a + b).drop_last() == a + b.drop_last());
        assert((a + b).last() == b.last());
        assert(all_members(a + b) =~= all_members(a) + all_members(b));
    } else {
        assert(a + b == a);
        assert(all_members(a) + all_members(b) =~= all_members(a));
    }
}

proof fn lemma_first_member_stays(
    members: Seq<SpeakerInfoView>,
    extra: Seq<SpeakerInfoView>,
    pick: spec_fn(SpeakerInfoView) -> bool,
)
    requires
        first_member_uuid(members, pick) is Some,
    ensures
        first_member_uuid(members + extra, pick) == first_member_uuid(members, pick),
    decreases extra.len(),
{
    if extra.len() > 0 {
        lemma_first_member_stays(members, extra.drop_last(), pick);
        assert((members + extra).drop_last() == members + extra.drop_last());
    } else {
        assert(members + extra == members);
    }
}

/// The uuid of the first member whose room name matches `roomname`, case-insensitively.
pub open spec fn room_uuid_of(groups: ZoneGroupsView, roomname: Seq<char>) -> Option<Seq<char>> {
    first_member_uuid(
        all_members(groups),
        |m: SpeakerInfoView| same_ignoring_case(m.name, roomname),
    )
}

/// The uuid of the first member whose description is at `location`.
pub open spec fn location_uuid_of(groups: ZoneGroupsView, location: Seq<char>) -> Option<
    Seq<char>,
> {
    first_member_uuid(all_members(groups), |m: SpeakerInfoView| m.location == location)
}

fn first_uuid(groups: &ZoneGroups, key: &str, by_name: bool) -> (r: Option<String>)
    ensures
        r.deep_view() == (if by_name {
            room_uuid_of(groups.deep_view(), key@)
        } else {
            location_uuid_of(groups.deep_view(), key@)
        }),
{
    let ghost gv = groups.deep_view();
    let ghost pick = if by_name {
        |m: SpeakerInfoView| same_ignoring_case(m.name, key@)
    } else {
        |m: SpeakerInfoView| m.location == key@
    };
    let mut i: usize = 0;
    assert(all_members(gv.take(0)) =~= Seq::<SpeakerInfoView>::empty());
    while i < groups.len()
        invariant
            gv == groups.deep_view(),
            i <= groups@.len(),
            pick == (if by_name {
                |m: SpeakerInfoView| same_ignoring_case(m.name, key@)
            } else {
                |m: SpeakerInfoView| m.location == key@
            }),
            first_member_uuid(all_members(gv.take(i as int)), pick) is None,
        decreases groups@.len() - i,
    {
        let members = &groups[i].1;
        let ghost before = all_members(gv.take(i as int));
        proof {
            assert(gv[i as int].1 == members.deep_view());
            assert(gv.take(i + 1).drop_last() == gv.take(i as int));
            assert(gv.take(i + 1).last() == gv[i as int]);
        }
        let mut k: usize = 0;
        while k < members.len()
            invariant
                k <= members@.len(),
                gv == groups.deep_view(),
                i < groups@.len(),
                members == &groups@[i as int].1,
                before == all_members(gv.take(i as int)),
                gv[i as int].1 == members.deep_view(),
                pick == (if by_name {
                    |m: SpeakerInfoView| same_ignoring_case(m.name, key@)
                } else {
                    |m: SpeakerInfoView| m.location == key@
                }),
                first_member_uuid(before + members.deep_view().take(k as int), pick) is None,
            decreases members@.len() - k,
        {
            let m = &members[k];
            let hit = if by_name {
                eq_ignore_case(m.name.as_str(), key)
            } else {
                same_text(m.location.as_str(), key)
            };
            proof {
                assert(members.deep_view()[k as int] == m@);
                assert((before + members.deep_view().take(k + 1)).drop_last() == before
                    + members.deep_view().take(k as int));
                assert((before + members.deep_view().take(k + 1)).last() == m@);
            }
            if hit {
                proof {
                    let mv = members.deep_view();
                    lemma_all_members_concat(gv.take(i + 1), gv.skip(i + 1));
                    assert(gv.take(i + 1) + gv.skip(i + 1) =~= gv);
                    assert(gv.take(i + 1).drop_last() == gv.take(i as int));
                    assert(gv.take(i + 1).last() == gv[i as int]);
                    assert(all_members(gv.take(i + 1)) == before + mv);
                    assert(mv == mv.take(k + 1) + mv.skip(k + 1));
                    assert(all_members(gv) =~= (before + mv.take(k + 1)) + (mv.skip(k + 1)
                        + all_members(gv.skip(i + 1))));
                    lemma_first_member_stays(
                        before + members.deep_view().take(k + 1),
                        members.deep_view().skip(k + 1) + all_members(gv.skip(i + 1)),
                        pick,
                    );
                }
                return Some(m.uuid.clone());
            }
            k = k + 1;
        }
        proof {
            assert(members.deep_view().take(k as int) == members.deep_view());
        }
        i = i + 1;
    }
    assert(gv.take(groups@.len() as int) == gv);
    None
}


/// A search that no zone player answers leaves nothing to resolve: discovery
/// then yields an empty result, not an error.
pub proof fn silent_search_yields_nothing()
    ensures
        peers_of(None) == Seq::<Seq<char>>::empty(),
{
}

/// The uuid of the first member, over the groups in order, whose room name is
/// `roomname`, compared case-insensitively.
pub fn room_uuid(groups: &ZoneGroups, roomname: &str) -> (r: Option<String>)
    ensures
        r.deep_view() == room_uuid_of(groups.deep_view(), roomname@),
{
    first_uuid(groups, roomname, true)
}

/// The uuid of the first member, over the groups in order, whose description
/// is at `location`.
pub fn uuid_at_location(groups: &ZoneGroups, location: &str) -> (r: Option<String>)
    ensures
        r.deep_view() == location_uuid_of(groups.deep_view(), location@),
{
    first_uuid(groups, location, false)
}

} // verus!
