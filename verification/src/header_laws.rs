//! What is read from the bytes of a header, whatever they are: well-formed, cut off or wrong.
//!
//! The bytes are described by what was written into them: numbers by their little-endian bytes,
//! texts by their UTF-8. A table is described by where it and its vtable stand.

use vstd::prelude::*;
use vstd::utf8::*;

use crate::fgb;
use crate::flatbuf;
use crate::laws;
use crate::laws::TableLayout;

verus! {

/// The number `n` stands at `pos` in `width` bytes. What runs past the end counts as zero.
pub open spec fn number_is(buf: Seq<u8>, pos: int, width: nat, n: nat) -> bool {
    if pos + width <= buf.len() {
        n < laws::values_of(width) && laws::holds(buf, pos, laws::le_bytes(n, width))
    } else {
        n == 0
    }
}

/// A number in a buffer is read, and what runs past the end is read as zero.
pub proof fn law_number_is_read(buf: Seq<u8>, pos: int, width: nat, n: nat)
    requires
        number_is(buf, pos, width, n),
    ensures
        flatbuf::le_at(buf, pos, width) == n,
{
    if pos + width <= buf.len() {
        laws::law_number_reads_back(buf, pos, n, width);
    }
}

/// A 32-bit number with a sign is read back.
pub proof fn law_signed_number_reads_back(d: int)
    requires
        -0x8000_0000 <= d < 0x8000_0000,
    ensures
        flatbuf::signed_32(laws::twos_complement_32(d)) == d,
{
}

/// The table stands as `t` says: it points to its vtable, and that starts with its own size.
pub open spec fn is_table(buf: Seq<u8>, t: TableLayout) -> bool {
    &&& 0 <= t.pos
    &&& t.pos + 4 <= buf.len() ==> {
        &&& -0x8000_0000 <= t.pos - t.vtable < 0x8000_0000
        &&& number_is(buf, t.pos, 4, laws::twos_complement_32(t.pos - t.vtable))
    }
    &&& has_vtable(buf, t) ==> number_is(buf, t.vtable, 2, t.vtable_size)
}

/// The table and its vtable start within the buffer.
pub open spec fn has_vtable(buf: Seq<u8>, t: TableLayout) -> bool {
    t.pos + 4 <= buf.len() && 0 <= t.vtable <= buf.len() - 4
}

/// The offset of `field` is what its slot in the vtable holds; zero where there is no such slot.
pub open spec fn slot_is(buf: Seq<u8>, t: TableLayout, field: nat) -> bool {
    if has_vtable(buf, t) && 4 + 2 * field + 2 <= t.vtable_size {
        number_is(buf, t.vtable + 4 + 2 * field, 2, (t.offsets)(field))
    } else {
        (t.offsets)(field) == 0
    }
}

/// The field `field`, where the table has it, holds the distance to its target.
pub open spec fn target_is(buf: Seq<u8>, t: TableLayout, field: nat) -> bool {
    let at = t.pos + (t.offsets)(field);
    &&& slot_is(buf, t, field)
    &&& (t.offsets)(field) != 0 ==> (t.targets)(field) >= at && number_is(
        buf,
        at,
        4,
        ((t.targets)(field) - at) as nat,
    )
}

/// The field `field` holds the number `n`, or the table lacks it and `n` is its default.
pub open spec fn scalar_is(
    buf: Seq<u8>,
    t: TableLayout,
    field: nat,
    width: nat,
    default: nat,
    n: nat,
) -> bool {
    &&& slot_is(buf, t, field)
    &&& if (t.offsets)(field) == 0 {
        n == default
    } else {
        number_is(buf, t.pos + (t.offsets)(field), width, n)
    }
}

/// The bytes encode `text`, or `text` is empty and they are not UTF-8.
pub open spec fn encodes(bytes: Seq<u8>, text: Seq<char>) -> bool {
    bytes == encode_utf8(text) || (!valid_utf8(bytes) && text.len() == 0)
}

/// The string of `len` bytes at `target` is `text`, which is empty where the string runs past the
/// end or is not UTF-8.
pub open spec fn string_at(buf: Seq<u8>, target: int, len: nat, text: Seq<char>) -> bool {
    &&& number_is(buf, target, 4, len)
    &&& if target + 4 + len <= buf.len() {
        encodes(buf.subrange(target + 4, target + 4 + len), text)
    } else {
        text.len() == 0
    }
}

/// The field `field` is the string `text`, which is empty where the table lacks the field or the
/// string is not there.
pub open spec fn string_is(buf: Seq<u8>, t: TableLayout, field: nat, text: Seq<char>) -> bool {
    let target = (t.targets)(field);
    &&& target_is(buf, t, field)
    &&& if (t.offsets)(field) == 0 || target + 4 > buf.len() {
        text.len() == 0
    } else {
        exists|len: nat| #[trigger] string_at(buf, target, len, text)
    }
}

/// The vector of `len` doubles at `target` starts with those that have the bit patterns `bits`,
/// of which there are eight at most. A double that runs past the end counts as zero.
pub open spec fn vector_at(buf: Seq<u8>, target: int, len: nat, bits: Seq<u64>) -> bool {
    &&& number_is(buf, target, 4, len)
    &&& bits.len() == if len <= 8 {
        len
    } else {
        8
    }
    &&& forall|i: int|
        0 <= i < bits.len() ==> number_is(
            buf,
            target + 4 + 8 * i,
            8,
            #[trigger] bits[i] as nat,
        )
}

/// The field `field` is the vector `bits`, which is empty where the table lacks the field or the
/// vector is not there.
pub open spec fn vector_is(buf: Seq<u8>, t: TableLayout, field: nat, bits: Seq<u64>) -> bool {
    let target = (t.targets)(field);
    &&& target_is(buf, t, field)
    &&& if (t.offsets)(field) == 0 || target + 4 > buf.len() {
        bits.len() == 0
    } else {
        exists|len: nat| #[trigger] vector_at(buf, target, len, bits)
    }
}

/// The offset of a field is found through the vtable.
pub proof fn law_slot_is_read(buf: Seq<u8>, t: TableLayout, field: nat)
    requires
        is_table(buf, t),
        slot_is(buf, t, field),
    ensures
        flatbuf::field_offset(buf, t.pos, field as int) == (t.offsets)(field),
        t.pos + 4 <= buf.len() ==> flatbuf::vtable_pos(buf, t.pos) == t.vtable,
{
    laws::lemma_values_of();
    if t.pos + 4 <= buf.len() {
        law_number_is_read(buf, t.pos, 4, laws::twos_complement_32(t.pos - t.vtable));
        law_signed_number_reads_back(t.pos - t.vtable);
    }
    if has_vtable(buf, t) {
        law_number_is_read(buf, t.vtable, 2, t.vtable_size);
        if 4 + 2 * field + 2 <= t.vtable_size {
            law_number_is_read(buf, t.vtable + 4 + 2 * field, 2, (t.offsets)(field));
        }
    }
}

/// A number in a field is read, or its default where the table lacks the field.
pub proof fn law_scalar_is_read(
    buf: Seq<u8>,
    t: TableLayout,
    field: nat,
    width: nat,
    default: nat,
    n: nat,
)
    requires
        is_table(buf, t),
        scalar_is(buf, t, field, width, default, n),
    ensures
        flatbuf::scalar_field(buf, t.pos, field as int, width, default) == n,
{
    law_slot_is_read(buf, t, field);
    if (t.offsets)(field) != 0 {
        law_number_is_read(buf, t.pos + (t.offsets)(field), width, n);
    }
}

/// What a field refers to is found.
pub proof fn law_target_is_found(buf: Seq<u8>, t: TableLayout, field: nat)
    requires
        is_table(buf, t),
        target_is(buf, t, field),
    ensures
        flatbuf::table_field_pos(buf, t.pos, field as int) == if (t.offsets)(field) == 0 {
            None
        } else {
            Some((t.targets)(field))
        },
{
    law_slot_is_read(buf, t, field);
    if (t.offsets)(field) != 0 {
        let at = t.pos + (t.offsets)(field);
        law_number_is_read(buf, at, 4, ((t.targets)(field) - at) as nat);
    }
}

/// The text of a string field is read.
pub proof fn law_string_is_read(buf: Seq<u8>, t: TableLayout, field: nat, text: Seq<char>)
    requires
        is_table(buf, t),
        string_is(buf, t, field, text),
    ensures
        flatbuf::string_field(buf, t.pos, field as int) == text,
{
    law_target_is_found(buf, t, field);
    let target = (t.targets)(field);
    if (t.offsets)(field) != 0 && target + 4 <= buf.len() {
        let len = choose|len: nat| #[trigger] string_at(buf, target, len, text);
        law_number_is_read(buf, target, 4, len);
        encode_utf8_valid_utf8(text);
        encode_utf8_decode_utf8(text);
    }
    assert(text.len() == 0 ==> text =~= seq![]);
}

/// The doubles of a vector field are read.
pub proof fn law_vector_is_read(buf: Seq<u8>, t: TableLayout, field: nat, bits: Seq<u64>)
    requires
        is_table(buf, t),
        vector_is(buf, t, field, bits),
    ensures
        flatbuf::f64_vec_field(buf, t.pos, field as int) == bits,
{
    law_target_is_found(buf, t, field);
    let target = (t.targets)(field);
    let read = flatbuf::f64_vec_field(buf, t.pos, field as int);
    if (t.offsets)(field) != 0 && target + 4 <= buf.len() {
        let len = choose|len: nat| #[trigger] vector_at(buf, target, len, bits);
        law_number_is_read(buf, target, 4, len);
        assert forall|i: int| 0 <= i < bits.len() implies read[i] == bits[i] by {
            law_number_is_read(buf, target + 4 + 8 * i, 8, bits[i] as nat);
        }
    }
    assert(read =~= bits);
}

/// The header `h` is what the bytes say, with the table of the header and that of its reference
/// system laid out as `root` and `crs` say.
pub open spec fn header_is(
    buf: Seq<u8>,
    root: TableLayout,
    crs: TableLayout,
    h: fgb::HeaderView,
) -> bool {
    &&& is_table(buf, root)
    &&& number_is(buf, 0, 4, root.pos as nat)
    &&& string_is(buf, root, 0, h.name)
    &&& vector_is(buf, root, 1, h.envelope)
    &&& scalar_is(buf, root, 2, 1, 0, h.geometry_type as nat)
    &&& scalar_is(buf, root, 8, 8, 0, h.features_count as nat)
    &&& scalar_is(buf, root, 9, 2, 16, h.index_node_size as nat)
    &&& target_is(buf, root, 10)
    &&& if (root.offsets)(10) == 0 {
        h.crs_org.len() == 0 && h.crs_code == 0 && h.crs_name.len() == 0
    } else {
        &&& crs.pos == (root.targets)(10)
        &&& is_table(buf, crs)
        &&& string_is(buf, crs, 0, h.crs_org)
        &&& scalar_is(buf, crs, 1, 4, 0, laws::twos_complement_32(h.crs_code as int))
        &&& string_is(buf, crs, 2, h.crs_name)
    }
}

/// What the bytes of a header say is read, each field for itself, whatever the others are.
pub proof fn law_header_is_read(
    buf: Seq<u8>,
    root: TableLayout,
    crs: TableLayout,
    h: fgb::HeaderView,
)
    requires
        header_is(buf, root, crs, h),
    ensures
        fgb::root_pos(buf) == root.pos,
        fgb::crs_pos(buf) == if (root.offsets)(10) == 0 {
            None
        } else {
            Some(crs.pos)
        },
        fgb::features_count(buf) == h.features_count,
        fgb::index_node_size(buf) == h.index_node_size,
        fgb::header_of(buf).name == h.name,
        fgb::header_of(buf).envelope == h.envelope,
        fgb::header_of(buf).geometry_type == h.geometry_type,
        fgb::header_of(buf).features_count == h.features_count,
        fgb::header_of(buf).index_node_size == h.index_node_size,
        fgb::header_of(buf).index_bytes_approx == fgb::index_bytes(
            h.features_count as nat,
            h.index_node_size as nat,
        ) as u64,
        fgb::header_of(buf).crs_org == h.crs_org,
        fgb::header_of(buf).crs_code == h.crs_code,
        fgb::header_of(buf).crs_name == h.crs_name,
{
    law_number_is_read(buf, 0, 4, root.pos as nat);
    law_string_is_read(buf, root, 0, h.name);
    law_vector_is_read(buf, root, 1, h.envelope);
    law_scalar_is_read(buf, root, 2, 1, 0, h.geometry_type as nat);
    law_scalar_is_read(buf, root, 8, 8, 0, h.features_count as nat);
    law_scalar_is_read(buf, root, 9, 2, 16, h.index_node_size as nat);
    law_target_is_found(buf, root, 10);
    if (root.offsets)(10) == 0 {
        assert(h.crs_org =~= seq![]);
        assert(h.crs_name =~= seq![]);
    } else {
        law_string_is_read(buf, crs, 0, h.crs_org);
        law_scalar_is_read(buf, crs, 1, 4, 0, laws::twos_complement_32(h.crs_code as int));
        law_string_is_read(buf, crs, 2, h.crs_name);
        law_signed_number_reads_back(h.crs_code as int);
    }
}

/// The vtable of the table starts one to four bytes in front of the buffer.
pub open spec fn wraps_around(buf: Seq<u8>, t: TableLayout) -> bool {
    t.pos + 4 <= buf.len() && -4 <= t.vtable < 0
}

/// The positions on the way to the slot of a field fit into `usize`.
pub open spec fn slot_can_be_read(buf: Seq<u8>, t: TableLayout, field: nat) -> bool {
    &&& t.pos + 4 <= usize::MAX
    &&& !wraps_around(buf, t)
    &&& has_vtable(buf, t) ==> t.vtable + 4 + 2 * field + 2 <= usize::MAX
}

/// So do those on the way to `prefix` bytes behind its target.
pub open spec fn target_can_be_read(
    buf: Seq<u8>,
    t: TableLayout,
    field: nat,
    prefix: int,
) -> bool {
    &&& slot_can_be_read(buf, t, field)
    &&& (t.offsets)(field) != 0 ==> (t.targets)(field) + prefix <= usize::MAX
}

/// So do those on the way to the end of its string.
pub open spec fn string_can_be_read(
    buf: Seq<u8>,
    t: TableLayout,
    field: nat,
    text: Seq<char>,
) -> bool {
    let target = (t.targets)(field);
    &&& target_can_be_read(buf, t, field, 4)
    &&& (t.offsets)(field) != 0 && target + 4 <= buf.len() ==> exists|len: nat| #[trigger]
        string_at(buf, target, len, text) && target + 4 + len <= usize::MAX
}

/// A header can be read if and only if the positions on the way to its fields fit into `usize`
/// and the size of its index can be summed up.
pub proof fn law_headers_can_be_read(
    buf: Seq<u8>,
    root: TableLayout,
    crs: TableLayout,
    h: fgb::HeaderView,
)
    requires
        header_is(buf, root, crs, h),
    ensures
        fgb::header_fits(buf) <==> {
            &&& string_can_be_read(buf, root, 0, h.name)
            &&& target_can_be_read(buf, root, 1, 4)
            &&& slot_can_be_read(buf, root, 2)
            &&& slot_can_be_read(buf, root, 8)
            &&& slot_can_be_read(buf, root, 9)
            &&& target_can_be_read(buf, root, 10, 0)
            &&& (root.offsets)(10) != 0 ==> {
                &&& string_can_be_read(buf, crs, 0, h.crs_org)
                &&& slot_can_be_read(buf, crs, 1)
                &&& string_can_be_read(buf, crs, 2, h.crs_name)
            }
            &&& fgb::index_fits(h.features_count as nat, h.index_node_size as nat)
        },
{
    law_header_is_read(buf, root, crs, h);
    law_strings_that_can_be_read(buf, root, 0, h.name);
    law_targets_that_can_be_read(buf, root, 1, 4);
    law_slots_that_can_be_read(buf, root, 2);
    law_slots_that_can_be_read(buf, root, 8);
    law_slots_that_can_be_read(buf, root, 9);
    law_targets_that_can_be_read(buf, root, 10, 0);
    if (root.offsets)(10) != 0 {
        law_strings_that_can_be_read(buf, crs, 0, h.crs_org);
        law_slots_that_can_be_read(buf, crs, 1);
        law_strings_that_can_be_read(buf, crs, 2, h.crs_name);
    }
}

/// Where positions have 64 bits a header can be read if and only if none of its vtables wraps
/// around the start of the buffer and the size of its index can be summed up.
pub proof fn law_wide_positions_suffice(
    buf: Seq<u8>,
    root: TableLayout,
    crs: TableLayout,
    h: fgb::HeaderView,
)
    requires
        header_is(buf, root, crs, h),
        usize::MAX == 0xffff_ffff_ffff_ffff,
        buf.len() <= isize::MAX,
    ensures
        fgb::header_fits(buf) <==> {
            &&& !wraps_around(buf, root)
            &&& (root.offsets)(10) != 0 ==> !wraps_around(buf, crs)
            &&& fgb::index_fits(h.features_count as nat, h.index_node_size as nat)
        },
{
    laws::lemma_values_of();
    law_headers_can_be_read(buf, root, crs, h);
    lemma_wide_string(buf, root, 0, h.name);
    if (root.offsets)(10) != 0 {
        lemma_wide_string(buf, crs, 0, h.crs_org);
        lemma_wide_string(buf, crs, 2, h.crs_name);
    }
}

/// The offset of a field can be read if and only if the positions on the way to it fit.
pub proof fn law_slots_that_can_be_read(buf: Seq<u8>, t: TableLayout, field: nat)
    requires
        is_table(buf, t),
        slot_is(buf, t, field),
    ensures
        flatbuf::field_fits(buf, t.pos, field as int) <==> slot_can_be_read(buf, t, field),
{
    law_slot_is_read(buf, t, field);
}

/// A reference can be followed if and only if the positions on the way to its target fit.
pub proof fn law_targets_that_can_be_read(buf: Seq<u8>, t: TableLayout, field: nat, prefix: int)
    requires
        is_table(buf, t),
        target_is(buf, t, field),
    ensures
        flatbuf::target_fits(buf, t.pos, field as int, prefix) <==> target_can_be_read(
            buf,
            t,
            field,
            prefix,
        ),
{
    law_slots_that_can_be_read(buf, t, field);
    law_target_is_found(buf, t, field);
}

/// A string can be read if and only if the positions on the way to its end fit.
pub proof fn law_strings_that_can_be_read(buf: Seq<u8>, t: TableLayout, field: nat, text: Seq<char>)
    requires
        is_table(buf, t),
        string_is(buf, t, field, text),
    ensures
        flatbuf::string_fits(buf, t.pos, field as int) <==> string_can_be_read(
            buf,
            t,
            field,
            text,
        ),
{
    law_targets_that_can_be_read(buf, t, field, 4);
    law_target_is_found(buf, t, field);
    let target = (t.targets)(field);
    if (t.offsets)(field) != 0 && target + 4 <= buf.len() {
        let len = choose|len: nat| #[trigger] string_at(buf, target, len, text);
        assert forall|other: nat| #[trigger] string_at(buf, target, other, text) implies other
            == flatbuf::le_at(buf, target, 4) by {
            law_number_is_read(buf, target, 4, other);
        }
        assert(string_at(buf, target, len, text));
    }
}

proof fn lemma_wide_string(buf: Seq<u8>, t: TableLayout, field: nat, text: Seq<char>)
    requires
        string_is(buf, t, field, text),
        field <= 10,
        t.pos <= buf.len() + 0x1_0000_0000,
        usize::MAX == 0xffff_ffff_ffff_ffff,
        buf.len() <= isize::MAX,
    ensures
        string_can_be_read(buf, t, field, text) <==> !wraps_around(buf, t),
{
    laws::lemma_values_of();
    let target = (t.targets)(field);
    if (t.offsets)(field) != 0 && target + 4 <= buf.len() {
        let len = choose|len: nat| #[trigger] string_at(buf, target, len, text);
        assert(string_at(buf, target, len, text));
    }
}

} // verus!
