//! FlatGeobuf files: the preamble, and what the header says of the features.
//!
//! A file starts with the magic bytes, one byte of padding and the size of the header (`u32`,
//! little-endian). Then comes the header, a FlatBuffers table. Its fields that are read here:
//!
//! * 0: the name, a string
//! * 1: the envelope, a vector of doubles (least x, least y, greatest x, greatest y)
//! * 2: the geometry type, a `u8`
//! * 8: the number of features, a `u64`
//! * 9: the node size of the index, a `u16`, 16 where it is absent
//! * 10: the reference system, a table of its organisation (0, a string), its code (1, an
//!   `i32`) and its name (2, a string)

use vstd::arithmetic::div_mod::*;
use vstd::prelude::*;
use vstd::string::*;

use crate::flatbuf;

verus! {

/// How many bytes stand in front of the header.
pub const PREAMBLE_LEN: usize = 12;

/// The bytes that every FlatGeobuf file of version 3 starts with.
pub open spec fn magic() -> Seq<u8> {
    seq![0x66, 0x67, 0x62, 0x03, 0x66, 0x67, 0x62]
}

/// What the first bytes of a file are.
#[derive(Clone, Copy, Debug, PartialEq, Eq, Structural)]
pub enum Preamble {
    /// Fewer bytes than a preamble has.
    Short,
    /// The bytes are not those of a FlatGeobuf file.
    BadMagic,
    /// The preamble of a FlatGeobuf file.
    Valid { padding: u8, header_size: u32 },
}

/// What the bytes at the start of a file say.
pub open spec fn preamble_of(bytes: Seq<u8>) -> Preamble {
    if bytes.len() < PREAMBLE_LEN {
        Preamble::Short
    } else if bytes.take(7) != magic() {
        Preamble::BadMagic
    } else {
        Preamble::Valid {
            padding: bytes[7],
            header_size: flatbuf::le_at(bytes, 8, 4) as u32,
        }
    }
}

/// Reads the first bytes of a file.
pub fn read_preamble(bytes: &[u8]) -> (r: Preamble)
    ensures
        r == preamble_of(bytes@),
{
    if bytes.len() < PREAMBLE_LEN {
        return Preamble::Short;
    }
    if bytes[0] != 0x66 || bytes[1] != 0x67 || bytes[2] != 0x62 || bytes[3] != 0x03 || bytes[4]
        != 0x66 || bytes[5] != 0x67 || bytes[6] != 0x62 {
        proof {
            if bytes@.take(7) == magic() {
                assert(forall|i: int| 0 <= i < 7 ==> bytes@[i] == bytes@.take(7)[i]);
            }
        }
        return Preamble::BadMagic;
    }
    assert(bytes@.take(7) =~= magic());
    Preamble::Valid { padding: bytes[7], header_size: flatbuf::fb_read_u32(bytes, 8) }
}

/// The name of a geometry type.
pub open spec fn geometry_name(geometry_type: u8) -> Seq<char> {
    match geometry_type {
        0 => "Unknown"@,
        1 => "Point"@,
        2 => "LineString"@,
        3 => "Polygon"@,
        4 => "MultiPoint"@,
        5 => "MultiLineString"@,
        6 => "MultiPolygon"@,
        7 => "GeometryCollection"@,
        _ => "Other"@,
    }
}

/// The name of a geometry type.
pub fn geometry_type_name(geometry_type: u8) -> (r: &'static str)
    ensures
        r@ == geometry_name(geometry_type),
{
    match geometry_type {
        0 => "Unknown",
        1 => "Point",
        2 => "LineString",
        3 => "Polygon",
        4 => "MultiPoint",
        5 => "MultiLineString",
        6 => "MultiPolygon",
        7 => "GeometryCollection",
        _ => "Other",
    }
}

/// How many nodes stand above `items` nodes: one for each group of `node_size` of them, then
/// one for each group of these, until one is left.
pub open spec fn nodes_above(items: nat, node_size: nat) -> nat
    decreases items,
{
    if items <= 1 || node_size <= 1 {
        0
    } else {
        let parents = ((items + node_size - 1) as nat) / node_size;
        proof {
            lemma_fewer_parents(items, node_size);
        }
        parents + nodes_above(parents, node_size)
    }
}

/// About how many bytes a packed index has: forty for each node of each level, and forty more,
/// which count the top node once more; none where there is no index.
pub open spec fn index_bytes(features: nat, node_size: nat) -> nat {
    if node_size == 0 {
        0
    } else {
        40 * (1 + nodes_above(features, node_size))
    }
}

/// The size of the index can be summed up in 64 bits. With nodes of one item each the levels
/// never shrink, so that the sum has no end.
pub open spec fn index_fits(features: nat, node_size: nat) -> bool {
    node_size == 0 || features <= 1 || {
        &&& node_size >= 2
        &&& features + node_size <= u64::MAX
        &&& index_bytes(features, node_size) <= u64::MAX
    }
}

/// Grouping two or more items by two or more leaves fewer groups than items.
pub proof fn lemma_fewer_parents(items: nat, node_size: nat)
    requires
        items >= 2,
        node_size >= 2,
    ensures
        1 <= ((items + node_size - 1) as nat) / node_size < items,
{
    let total = (items + node_size - 1) as nat;
    assert(total < items * node_size) by (nonlinear_arith)
        requires
            total == items + node_size - 1,
            items >= 2,
            node_size >= 2,
    ;
    let parents = total / node_size;
    lemma_fundamental_div_mod(total as int, node_size as int);
    assert(1 <= parents < items) by (nonlinear_arith)
        requires
            total == node_size * parents + total % node_size,
            total % node_size < node_size,
            node_size <= total < items * node_size,
            node_size >= 2,
    ;
}

/// The approximate size of the index in bytes, or `None` where it cannot be summed up.
pub fn index_bytes_approx(features: u64, node_size: u16) -> (r: Option<u64>)
    ensures
        r is Some <==> index_fits(features as nat, node_size as nat),
        r is Some ==> r->0 == index_bytes(features as nat, node_size as nat),
{
    if node_size == 0 {
        return Some(0);
    }
    let n = node_size as u64;
    let mut nodes: u64 = 1;
    let mut level_items: u64 = features;
    if features > 1 && (n == 1 || features > u64::MAX - n) {
        return None;
    }
    while level_items > 1
        invariant
            level_items <= features,
            level_items > 1 ==> n >= 2 && features + n <= u64::MAX,
            n == node_size,
            n > 0,
            features > 1 || level_items == features,
            nodes + nodes_above(level_items as nat, n as nat) == 1 + nodes_above(
                features as nat,
                n as nat,
            ),
        decreases level_items,
    {
        proof {
            lemma_fewer_parents(level_items as nat, n as nat);
        }
        level_items = (level_items + n - 1) / n;
        if level_items > u64::MAX - nodes {
            return None;
        }
        nodes = nodes + level_items;
    }
    if nodes > u64::MAX / 40 {
        return None;
    }
    Some(nodes * 40)
}

/// What a header says of its file.
pub struct HeaderSummary {
    pub name: String,
    /// The bit patterns of the doubles that make up the envelope.
    pub envelope: Vec<u64>,
    pub geometry_type: u8,
    pub features_count: u64,
    pub index_node_size: u16,
    pub index_bytes_approx: u64,
    pub crs_org: String,
    pub crs_code: i32,
    pub crs_name: String,
}

/// What a header says of its file.
#[verifier::ext_equal]
pub struct HeaderView {
    pub name: Seq<char>,
    pub envelope: Seq<u64>,
    pub geometry_type: u8,
    pub features_count: u64,
    pub index_node_size: u16,
    pub index_bytes_approx: u64,
    pub crs_org: Seq<char>,
    pub crs_code: i32,
    pub crs_name: Seq<char>,
}

impl View for HeaderSummary {
    type V = HeaderView;

    open spec fn view(&self) -> HeaderView {
        HeaderView {
            name: self.name@,
            envelope: self.envelope@,
            geometry_type: self.geometry_type,
            features_count: self.features_count,
            index_node_size: self.index_node_size,
            index_bytes_approx: self.index_bytes_approx,
            crs_org: self.crs_org@,
            crs_code: self.crs_code,
            crs_name: self.crs_name@,
        }
    }
}

/// Where the table of a header starts.
pub open spec fn root_pos(header: Seq<u8>) -> int {
    flatbuf::le_at(header, 0, 4) as int
}

/// How many features a header counts.
pub open spec fn features_count(header: Seq<u8>) -> nat {
    flatbuf::scalar_field(header, root_pos(header), 8, 8, 0)
}

/// The node size of the index, 16 where the header does not say.
pub open spec fn index_node_size(header: Seq<u8>) -> nat {
    flatbuf::scalar_field(header, root_pos(header), 9, 2, 16)
}

/// Where the table of the reference system starts.
pub open spec fn crs_pos(header: Seq<u8>) -> Option<int> {
    flatbuf::table_field_pos(header, root_pos(header), 10)
}

/// The positions on the way to the fields of a reference system fit into `usize`.
pub open spec fn crs_fits(header: Seq<u8>, pos: int) -> bool {
    &&& flatbuf::string_fits(header, pos, 0)
    &&& flatbuf::field_fits(header, pos, 1)
    &&& flatbuf::string_fits(header, pos, 2)
}

/// The positions on the way to the fields of a header fit into `usize`, and the size of the
/// index can be summed up.
pub open spec fn header_fits(header: Seq<u8>) -> bool {
    let root = root_pos(header);
    &&& flatbuf::string_fits(header, root, 0)
    &&& flatbuf::target_fits(header, root, 1, 4)
    &&& flatbuf::field_fits(header, root, 2)
    &&& flatbuf::field_fits(header, root, 8)
    &&& flatbuf::field_fits(header, root, 9)
    &&& flatbuf::target_fits(header, root, 10, 0)
    &&& crs_pos(header) is Some ==> crs_fits(header, crs_pos(header)->0)
    &&& index_fits(features_count(header), index_node_size(header))
}

/// What the bytes of a header say. Without a reference system its texts are empty and its code
/// is zero.
pub open spec fn header_of(header: Seq<u8>) -> HeaderView {
    let root = root_pos(header);
    HeaderView {
        name: flatbuf::string_field(header, root, 0),
        envelope: flatbuf::f64_vec_field(header, root, 1),
        geometry_type: flatbuf::scalar_field(header, root, 2, 1, 0) as u8,
        features_count: features_count(header) as u64,
        index_node_size: index_node_size(header) as u16,
        index_bytes_approx: index_bytes(
            features_count(header),
            index_node_size(header),
        ) as u64,
        crs_org: match crs_pos(header) {
            Some(pos) => flatbuf::string_field(header, pos, 0),
            None => seq![],
        },
        crs_code: match crs_pos(header) {
            Some(pos) => flatbuf::signed_32(flatbuf::scalar_field(header, pos, 1, 4, 0)) as i32,
            None => 0,
        },
        crs_name: match crs_pos(header) {
            Some(pos) => flatbuf::string_field(header, pos, 2),
            None => seq![],
        },
    }
}

/// A reference system.
struct Crs {
    org: String,
    code: i32,
    name: String,
}

/// Reads the reference system whose table is at `pos`. `None` where a position on the way to
/// its fields does not fit into `usize`.
fn read_crs(hbuf: &[u8], pos: Option<usize>) -> (r: Option<Crs>)
    ensures
        r is Some <==> (pos is Some ==> crs_fits(hbuf@, pos->0 as int)),
        r matches Some(crs) ==> match pos {
            Some(pos) => {
                &&& crs.org@ == flatbuf::string_field(hbuf@, pos as int, 0)
                &&& crs.code == flatbuf::signed_32(
                    flatbuf::scalar_field(hbuf@, pos as int, 1, 4, 0),
                )
                &&& crs.name@ == flatbuf::string_field(hbuf@, pos as int, 2)
            },
            None => {
                &&& crs.org@ == Seq::<char>::empty()
                &&& crs.code == 0
                &&& crs.name@ == Seq::<char>::empty()
            },
        },
{
    match pos {
        None => Some(Crs { org: String::new(), code: 0, name: String::new() }),
        Some(pos) => {
            if !flatbuf::fb_string_fits(hbuf, pos, 0) || !flatbuf::fb_field_fits(hbuf, pos, 1)
                || !flatbuf::fb_string_fits(hbuf, pos, 2) {
                return None;
            }
            Some(
                Crs {
                    org: flatbuf::fb_string_field(hbuf, pos, 0).to_owned(),
                    code: flatbuf::fb_i32_field(hbuf, pos, 1),
                    name: flatbuf::fb_string_field(hbuf, pos, 2).to_owned(),
                },
            )
        },
    }
}

/// Reads the bytes of a header. `None` where a position on the way to a field does not fit into
/// `usize`, or the size of the index cannot be summed up.
pub fn read_header(hbuf: &[u8]) -> (r: Option<HeaderSummary>)
    ensures
        r is Some <==> header_fits(hbuf@),
        r is Some ==> r->0@ == header_of(hbuf@),
{
    let root_pos = flatbuf::fb_read_u32(hbuf, 0) as usize;
    if !flatbuf::fb_string_fits(hbuf, root_pos, 0) || !flatbuf::fb_target_fits(hbuf, root_pos, 1, 4)
        || !flatbuf::fb_field_fits(hbuf, root_pos, 2) || !flatbuf::fb_field_fits(hbuf, root_pos, 8)
        || !flatbuf::fb_field_fits(hbuf, root_pos, 9) || !flatbuf::fb_target_fits(hbuf, root_pos, 10, 0) {
        return None;
    }
    let features_count = flatbuf::fb_u64_field(hbuf, root_pos, 8);
    let index_node_size = flatbuf::fb_u16_field(hbuf, root_pos, 9, 16);
    let crs_pos = flatbuf::fb_table_field_pos(hbuf, root_pos, 10);
    match (read_crs(hbuf, crs_pos), index_bytes_approx(features_count, index_node_size)) {
        (Some(crs), Some(index_bytes)) => Some(
            HeaderSummary {
                name: flatbuf::fb_string_field(hbuf, root_pos, 0).to_owned(),
                envelope: flatbuf::fb_f64_vec_field(hbuf, root_pos, 1),
                geometry_type: flatbuf::fb_u8_field(hbuf, root_pos, 2),
                features_count,
                index_node_size,
                index_bytes_approx: index_bytes,
                crs_org: crs.org,
                crs_code: crs.code,
                crs_name: crs.name,
            },
        ),
        _ => None,
    }
}

} // verus!
