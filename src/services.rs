use crate::action::ActionResponse;
use crate::codec::{clock_field, parse_integer};
use crate::error::{DecodeError, DecodeErrorView, ValueKind};
use crate::responses::{missing_field, required_field};
use crate::text::push_char;
use crate::track::field_of;
use crate::xml::{
    attribute_of, find_node_attribute, find_root_node, first_named, parse_document, xml_nodes_of,
    XmlNode, XmlNodeView,
};
use vstd::prelude::*;

verus! {

/// `s` in lower case, as `str::to_lowercase` maps it.
pub uninterp spec fn lower_of(s: Seq<char>) -> Seq<char>;

/// Relies on `str::to_lowercase`: the lower-case form of each character, by
/// Unicode's rules; the result depends on the characters alone.
#[verifier::external_body]
fn lowercase(s: &str) -> (r: String)
    ensures
        r@ == lower_of(s@),
{
    s.to_lowercase()
}

/// A music service: its lower-case name, then its id, its capabilities and
/// its service type.
pub type MusicService = (String, (u32, u32, u32));

/// A [`MusicService`] as plain values.
pub type MusicServiceView = (Seq<char>, (u32, u32, u32));

/// The pieces of `s` between commas: one more than there are commas.
pub open spec fn comma_pieces(s: Seq<char>) -> Seq<Seq<char>>
    decreases s.len(),
{
    if s.len() == 0 {
        seq![seq![]]
    } else {
        let before = comma_pieces(s.drop_last());
        if s.last() == ',' {
            before.push(seq![])
        } else {
            before.update(before.len() - 1, before.last().push(s.last()))
        }
    }
}

/// The numbers that `pieces` write, if each is a decimal that fits in `u32`.
pub open spec fn numbers_of(pieces: Seq<Seq<char>>) -> Option<Seq<u32>>
    decreases pieces.len(),
{
    if pieces.len() == 0 {
        Some(seq![])
    } else {
        match (numbers_of(pieces.drop_last()), clock_field(pieces.last())) {
            (Some(before), Some(v)) => Some(before.push(v as u32)),
            _ => None,
        }
    }
}

/// The type of the service with id `id`: the id shifted left by 15 bits, in 32 bits.
pub open spec fn service_type_of(id: int) -> u32 {
    ((id * 32768) % 0x1_0000_0000) as u32
}

/// The music service that a descriptor node describes.
pub open spec fn descriptor_of(n: XmlNodeView) -> Result<MusicServiceView, DecodeErrorView> {
    match (attribute_of(n, "Id"@), attribute_of(n, "Name"@), attribute_of(n, "Capabilities"@)) {
        (None, _, _) => Err(DecodeErrorView::MissingElement(n.name, "Id"@)),
        (_, None, _) => Err(DecodeErrorView::MissingElement(n.name, "Name"@)),
        (_, _, None) => Err(DecodeErrorView::MissingElement(n.name, "Capabilities"@)),
        (Some(id), Some(name), Some(capabilities)) => match (
            clock_field(id),
            clock_field(capabilities),
        ) {
            (Some(i), Some(c)) => Ok((lower_of(name), (i as u32, c as u32, service_type_of(i)))),
            _ => Err(DecodeErrorView::InvalidValue(ValueKind::Integer)),
        },
    }
}

/// The services that the children of `nodes[list]` among `nodes[..end]`
/// describe; every child node counts, and the first that does not decode
/// decides the error.
pub open spec fn descriptors_upto(nodes: Seq<XmlNodeView>, list: int, end: int) -> Result<
    Seq<MusicServiceView>,
    DecodeErrorView,
>
    decreases end,
{
    if end <= 0 {
        Ok(seq![])
    } else {
        match descriptors_upto(nodes, list, end - 1) {
            Err(e) => Err(e),
            Ok(before) => if nodes[end - 1].parent == Some(list as usize) {
                match descriptor_of(nodes[end - 1]) {
                    Ok(d) => Ok(before.push(d)),
                    Err(e) => Err(e),
                }
            } else {
                Ok(before)
            },
        }
    }
}

/// The services that a parsed descriptor list describes: the children of its
/// first `Services` element.
pub open spec fn descriptors_of(nodes: Seq<XmlNodeView>) -> Result<
    Seq<MusicServiceView>,
    DecodeErrorView,
> {
    match first_named(nodes, "Services"@, nodes.len() as int) {
        None => Err(DecodeErrorView::MissingElement("DescriptorList"@, "Services"@)),
        Some(list) => descriptors_upto(nodes, list as int, nodes.len() as int),
    }
}

/// What a response listing the available music services says: the available
/// service types, and each described service.
pub open spec fn music_services_of(entries: Seq<(Seq<char>, Seq<char>)>) -> Result<
    (Seq<u32>, Seq<MusicServiceView>),
    DecodeErrorView,
> {
    match (
        field_of(entries, "AvailableServiceDescriptorList"@),
        field_of(entries, "AvailableServiceTypeList"@),
    ) {
        (None, _) => Err(missing_field("AvailableServiceDescriptorList"@)),
        (_, None) => Err(missing_field("AvailableServiceTypeList"@)),
        (Some(descriptors), Some(types)) => match numbers_of(comma_pieces(types)) {
            None => Err(DecodeErrorView::InvalidValue(ValueKind::Integer)),
            Some(available) => match xml_nodes_of(descriptors) {
                None => Err(DecodeErrorView::Xml),
                Some(nodes) => match descriptors_of(nodes) {
                    Err(e) => Err(e),
                    Ok(services) => Ok((available, services)),
                },
            },
        },
    }
}

/// The view of a decoded list of music services.
pub open spec fn music_services_result(
    r: Result<(Vec<u32>, Vec<MusicService>), DecodeError>,
) -> Result<(Seq<u32>, Seq<MusicServiceView>), DecodeErrorView> {
    match r {
        Ok((available, services)) => Ok((available@, services.deep_view())),
        Err(e) => Err(e@),
    }
}

/// Reads a comma-separated list of `u32` numbers.
pub fn parse_number_list(s: &str) -> (r: Option<Vec<u32>>)
    ensures
        match r {
            Some(v) => numbers_of(comma_pieces(s@)) == Some(v@),
            None => numbers_of(comma_pieces(s@)) is None,
        },
{
    let n = s.unicode_len();
    let mut numbers: Vec<u32> = Vec::new();
    let mut piece = String::new();
    let mut ok = true;
    let mut i: usize = 0;
    assert(s@.take(0) =~= Seq::<char>::empty());
    while i < n
        invariant
            n == s@.len(),
            i <= n,
            comma_pieces(s@.take(i as int)).len() > 0,
            comma_pieces(s@.take(i as int)).last() == piece@,
            ok ==> numbers_of(comma_pieces(s@.take(i as int)).drop_last()) == Some(numbers@),
            !ok ==> numbers_of(comma_pieces(s@.take(i as int)).drop_last()) is None,
        decreases n - i,
    {
        let c = s.get_char(i);
        let ghost t = s@.take(i as int);
        proof {
            assert(s@.take(i + 1).drop_last() == t);
            assert(s@.take(i + 1).last() == c);
            lemma_comma_pieces_nonempty(t);
        }
        if c == ',' {
            let ghost p = comma_pieces(t);
            proof {
                assert(comma_pieces(s@.take(i + 1)).drop_last() == p);
                assert(p.drop_last().push(p.last()) == p);
            }
            if ok {
                match parse_integer(piece.as_str(), false, 0, 0xffff_ffff) {
                    Some(v) => numbers.push(v as u32),
                    None => ok = false,
                }
            }
            piece = String::new();
        } else {
            push_char(&mut piece, c);
            proof {
                let p = comma_pieces(t);
                assert(comma_pieces(s@.take(i + 1)).drop_last() == p.drop_last());
            }
        }
        i = i + 1;
    }
    proof {
        assert(s@.take(n as int) == s@);
        lemma_comma_pieces_nonempty(s@);
        let p = comma_pieces(s@);
        assert(p.drop_last().push(p.last()) == p);
    }
    if !ok {
        return None;
    }
    match parse_integer(piece.as_str(), false, 0, 0xffff_ffff) {
        Some(v) => {
            numbers.push(v as u32);
            Some(numbers)
        },
        None => None,
    }
}

proof fn lemma_comma_pieces_nonempty(s: Seq<char>)
    ensures
        comma_pieces(s).len() > 0,
    decreases s.len(),
{
    if s.len() > 0 {
        lemma_comma_pieces_nonempty(s.drop_last());
    }
}

proof fn lemma_descriptors_error_stays(nodes: Seq<XmlNodeView>, list: int, k: int, end: int)
    requires
        0 <= k <= end,
        descriptors_upto(nodes, list, k) is Err,
    ensures
        descriptors_upto(nodes, list, end) == descriptors_upto(nodes, list, k),
    decreases end - k,
{
    if end > k {
        lemma_descriptors_error_stays(nodes, list, k, end - 1);
    }
}

fn descriptor_from_node(node: &XmlNode) -> (r: Result<MusicService, DecodeError>)
    ensures
        match r {
            Ok(d) => descriptor_of(node@) == Ok::<MusicServiceView, DecodeErrorView>(d.deep_view()),
            Err(e) => descriptor_of(node@) == Err::<MusicServiceView, DecodeErrorView>(e@),
        },
{
    let id = find_node_attribute(node, "Id")?;
    let name = find_node_attribute(node, "Name")?;
    let capabilities = find_node_attribute(node, "Capabilities")?;
    let id = match parse_integer(id.as_str(), false, 0, 0xffff_ffff) {
        Some(v) => v as u64,
        None => {
            return Err(DecodeError::InvalidValue(ValueKind::Integer));
        },
    };
    let capabilities = match parse_integer(capabilities.as_str(), false, 0, 0xffff_ffff) {
        Some(v) => v as u32,
        None => {
            return Err(DecodeError::InvalidValue(ValueKind::Integer));
        },
    };
    let service_type = ((id * 32768) % 0x1_0000_0000) as u32;
    Ok((lowercase(name.as_str()), (id as u32, capabilities, service_type)))
}

/// Reads the services of a parsed descriptor list.
pub fn descriptors_from_nodes(nodes: &Vec<XmlNode>) -> (r: Result<Vec<MusicService>, DecodeError>)
    ensures
        match r {
            Ok(services) => descriptors_of(nodes.deep_view()) == Ok::<
                Seq<MusicServiceView>,
                DecodeErrorView,
            >(services.deep_view()),
            Err(e) => descriptors_of(nodes.deep_view()) == Err::<
                Seq<MusicServiceView>,
                DecodeErrorView,
            >(e@),
        },
{
    let ghost dv = nodes.deep_view();
    let list = find_root_node(nodes, "Services", "DescriptorList")?;
    let n = nodes.len();
    let mut services: Vec<MusicService> = Vec::new();
    let mut j: usize = 0;
    assert(services.deep_view() =~= Seq::<MusicServiceView>::empty());
    while j < n
        invariant
            n == nodes@.len(),
            dv == nodes.deep_view(),
            j <= n,
            first_named(dv, "Services"@, n as int) == Some(list),
            descriptors_upto(dv, list as int, j as int) == Ok::<
                Seq<MusicServiceView>,
                DecodeErrorView,
            >(services.deep_view()),
        decreases n - j,
    {
        let node = &nodes[j];
        proof {
            assert(dv[j as int] == node@);
        }
        if node.parent == Some(list) {
            match descriptor_from_node(node) {
                Ok(d) => {
                    services.push(d);
                    proof {
                        let before = descriptors_upto(dv, list as int, j as int)->Ok_0;
                        assert(services.deep_view() == before.push(d.deep_view()));
                    }
                },
                Err(e) => {
                    proof {
                        lemma_descriptors_error_stays(dv, list as int, j + 1, n as int);
                    }
                    return Err(e);
                },
            }
        }
        j = j + 1;
    }
    Ok(services)
}

/// Decodes the response listing the available music services.
pub fn music_services_from_response(response: &ActionResponse) -> (r: Result<
    (Vec<u32>, Vec<MusicService>),
    DecodeError,
>)
    ensures
        music_services_result(r) == music_services_of(response.entries.deep_view()),
{
    let descriptors = required_field(response, "AvailableServiceDescriptorList")?;
    let types = required_field(response, "AvailableServiceTypeList")?;
    let available = match parse_number_list(types.as_str()) {
        Some(v) => v,
        None => {
            return Err(DecodeError::InvalidValue(ValueKind::Integer));
        },
    };
    let nodes = parse_document(descriptors.as_str())?;
    let services = descriptors_from_nodes(&nodes)?;
    Ok((available, services))
}

} // verus!
