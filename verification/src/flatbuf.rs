//! A minimal reader of FlatBuffers tables.
//!
//! Binary layout:
//!
//! * the first four bytes of a buffer hold the position of its root table (`u32`);
//! * a table starts with the distance back to its vtable (`i32`);
//! * a vtable starts with its own size and the size of the table's data (`u16` each), then
//!   holds for each field its offset from the start of the table (`u16`, zero where the field
//!   is absent);
//! * a field holds a scalar inline, or the distance forward to a string, a vector or a table
//!   (`u32`); strings and vectors start with their length (`u32`).
//!
//! All numbers are little-endian. Positions in the specifications are mathematical integers;
//! a reader asks, by a predicate whose name ends in `_fits`, that the positions it adds up
//! along its way fit into `usize`.

use vstd::prelude::*;
use vstd::utf8::*;

use crate::text::utf8_text;

verus! {

/// The number that `bytes` hold, least significant byte first.
pub open spec fn le_value(bytes: Seq<u8>) -> nat
    decreases bytes.len(),
{
    if bytes.len() == 0 {
        0
    } else {
        bytes[0] as nat + 256 * le_value(bytes.drop_first())
    }
}

/// The number held by the `width` bytes from `pos` on, or zero where they run past the end.
pub open spec fn le_at(buf: Seq<u8>, pos: int, width: nat) -> nat {
    if pos + width > buf.len() {
        0
    } else {
        le_value(buf.subrange(pos, pos + width))
    }
}

/// The two's complement reading of a 32-bit number.
pub open spec fn signed_32(n: nat) -> int {
    if n < 0x8000_0000 {
        n as int
    } else {
        n - 0x1_0000_0000
    }
}

proof fn lemma_le_value_2(s: Seq<u8>)
    requires
        s.len() == 2,
    ensures
        le_value(s) == s[0] + 256 * s[1],
{
    reveal_with_fuel(le_value, 3);
}

proof fn lemma_le_value_4(s: Seq<u8>)
    requires
        s.len() == 4,
    ensures
        le_value(s) == s[0] + 0x100 * s[1] + 0x1_0000 * s[2] + 0x100_0000 * s[3],
{
    reveal_with_fuel(le_value, 3);
    lemma_le_value_2(s.drop_first().drop_first());
}

proof fn lemma_le_value_8(s: Seq<u8>)
    requires
        s.len() == 8,
    ensures
        le_value(s) == s[0] + 0x100 * s[1] + 0x1_0000 * s[2] + 0x100_0000 * s[3]
            + 0x1_0000_0000 * s[4] + 0x100_0000_0000 * s[5] + 0x1_0000_0000_0000 * s[6]
            + 0x100_0000_0000_0000 * s[7],
{
    reveal_with_fuel(le_value, 5);
    lemma_le_value_4(s.drop_first().drop_first().drop_first().drop_first());
}

/// The `u16` at `pos`, or zero where it would run past the end.
pub fn fb_read_u16(buf: &[u8], pos: usize) -> (r: u16)
    requires
        pos + 2 <= usize::MAX,
    ensures
        r == le_at(buf@, pos as int, 2),
{
    if pos + 2 > buf.len() {
        return 0;
    }
    proof {
        lemma_le_value_2(buf@.subrange(pos as int, pos + 2));
    }
    buf[pos] as u16 + 0x100 * buf[pos + 1] as u16
}

/// The `u32` at `pos`, or zero where it would run past the end.
pub fn fb_read_u32(buf: &[u8], pos: usize) -> (r: u32)
    requires
        pos + 4 <= usize::MAX,
    ensures
        r == le_at(buf@, pos as int, 4),
{
    if pos + 4 > buf.len() {
        return 0;
    }
    proof {
        lemma_le_value_4(buf@.subrange(pos as int, pos + 4));
    }
    buf[pos] as u32 + 0x100 * buf[pos + 1] as u32 + 0x1_0000 * buf[pos + 2] as u32 + 0x100_0000
        * buf[pos + 3] as u32
}

/// The `i32` at `pos`, or zero where it would run past the end.
pub fn fb_read_i32(buf: &[u8], pos: usize) -> (r: i32)
    requires
        pos + 4 <= usize::MAX,
    ensures
        r == signed_32(le_at(buf@, pos as int, 4)),
{
    let n = fb_read_u32(buf, pos);
    if n < 0x8000_0000 {
        n as i32
    } else {
        (n as i64 - 0x1_0000_0000) as i32
    }
}

/// The `u64` at `pos`, or zero where it would run past the end.
pub fn fb_read_u64(buf: &[u8], pos: usize) -> (r: u64)
    requires
        pos + 8 <= usize::MAX,
    ensures
        r == le_at(buf@, pos as int, 8),
{
    if pos + 8 > buf.len() {
        return 0;
    }
    proof {
        lemma_le_value_8(buf@.subrange(pos as int, pos + 8));
    }
    buf[pos] as u64 + 0x100 * buf[pos + 1] as u64 + 0x1_0000 * buf[pos + 2] as u64 + 0x100_0000
        * buf[pos + 3] as u64 + 0x1_0000_0000 * buf[pos + 4] as u64 + 0x100_0000_0000 * buf[pos
        + 5] as u64 + 0x1_0000_0000_0000 * buf[pos + 6] as u64 + 0x100_0000_0000_0000 * buf[pos
        + 7] as u64
}

/// The bit pattern of the double at `pos`, or that of zero where it would run past the end.
pub fn fb_read_f64(buf: &[u8], pos: usize) -> (r: u64)
    requires
        pos + 8 <= usize::MAX,
    ensures
        r == le_at(buf@, pos as int, 8),
{
    fb_read_u64(buf, pos)
}

/// Where the vtable of the table at `table_pos` starts. It is negative where the table points
/// in front of the buffer.
pub open spec fn vtable_pos(buf: Seq<u8>, table_pos: int) -> int {
    table_pos - signed_32(le_at(buf, table_pos, 4))
}

/// The distance from the start of the table to a field, or zero where the field is absent: the
/// table or its vtable lies outside the buffer, the vtable has no slot for the field, or the
/// slot holds zero.
pub open spec fn field_offset(buf: Seq<u8>, table_pos: int, field: int) -> int {
    let vtable = vtable_pos(buf, table_pos);
    if table_pos + 4 > buf.len() || vtable < 0 || vtable + 4 > buf.len() {
        0
    } else if 4 + 2 * field + 2 > le_at(buf, vtable, 2) {
        0
    } else {
        le_at(buf, vtable + 4 + 2 * field, 2) as int
    }
}

/// The positions on the way to a field's slot fit into `usize`. A vtable that starts one to
/// four bytes in front of the buffer does not: its header would wrap around the address zero.
pub open spec fn field_fits(buf: Seq<u8>, table_pos: int, field: int) -> bool {
    let vtable = vtable_pos(buf, table_pos);
    &&& table_pos + 4 <= usize::MAX
    &&& table_pos + 4 <= buf.len() ==> !(-4 <= vtable < 0)
    &&& table_pos + 4 <= buf.len() && 0 <= vtable && vtable + 4 <= buf.len() ==> vtable + 4 + 2
        * field + 2 <= usize::MAX
}

/// The number of `width` bytes in a field; `default` where the field is absent, zero where it
/// runs past the end of the buffer.
pub open spec fn scalar_field(
    buf: Seq<u8>,
    table_pos: int,
    field: int,
    width: nat,
    default: nat,
) -> nat {
    let offset = field_offset(buf, table_pos, field);
    if offset == 0 {
        default
    } else {
        le_at(buf, table_pos + offset, width)
    }
}

/// The position that an indirect field refers to.
pub open spec fn target_pos(buf: Seq<u8>, table_pos: int, field: int) -> int {
    let ref_pos = table_pos + field_offset(buf, table_pos, field);
    ref_pos + le_at(buf, ref_pos, 4)
}

/// The positions on the way to what an indirect field refers to fit into `usize`, with
/// `prefix` bytes after it.
pub open spec fn target_fits(buf: Seq<u8>, table_pos: int, field: int, prefix: int) -> bool {
    &&& field_fits(buf, table_pos, field)
    &&& field_offset(buf, table_pos, field) != 0 ==> target_pos(buf, table_pos, field) + prefix
        <= usize::MAX
}

/// The positions on the way to the end of a string fit into `usize`.
pub open spec fn string_fits(buf: Seq<u8>, table_pos: int, field: int) -> bool {
    let start = target_pos(buf, table_pos, field) + 4;
    &&& target_fits(buf, table_pos, field, 4)
    &&& field_offset(buf, table_pos, field) != 0 && start <= buf.len() ==> start + le_at(
        buf,
        start - 4,
        4,
    ) <= usize::MAX
}

/// The text that `bytes` encode, or nothing where they are not UTF-8.
pub open spec fn text_or_empty(bytes: Seq<u8>) -> Seq<char> {
    if valid_utf8(bytes) {
        decode_utf8(bytes)
    } else {
        seq![]
    }
}

/// The text of a string field. It is empty where the field is absent, where the string runs
/// past the end of the buffer, and where it is not UTF-8.
pub open spec fn string_field(buf: Seq<u8>, table_pos: int, field: int) -> Seq<char> {
    let start = target_pos(buf, table_pos, field) + 4;
    let len = le_at(buf, start - 4, 4);
    if field_offset(buf, table_pos, field) == 0 || start > buf.len() || start + len > buf.len() {
        seq![]
    } else {
        text_or_empty(buf.subrange(start, start + len))
    }
}

/// How many elements of a vector of doubles are read at most.
pub const VECTOR_CAP: usize = 8;

/// The bit patterns of a vector of doubles, as far as the cap goes. An element that runs past
/// the end of the buffer is zero; the vector is empty where its length does.
pub open spec fn f64_vec_field(buf: Seq<u8>, table_pos: int, field: int) -> Seq<u64> {
    let start = target_pos(buf, table_pos, field) + 4;
    let count = le_at(buf, start - 4, 4);
    if field_offset(buf, table_pos, field) == 0 || start > buf.len() {
        seq![]
    } else {
        Seq::new(
            if count < VECTOR_CAP {
                count
            } else {
                VECTOR_CAP as nat
            },
            |i: int| le_at(buf, start + 8 * i, 8) as u64,
        )
    }
}

/// The position of a nested table, or `None` where its field is absent.
pub open spec fn table_field_pos(buf: Seq<u8>, table_pos: int, field: int) -> Option<int> {
    if field_offset(buf, table_pos, field) == 0 {
        None
    } else {
        Some(target_pos(buf, table_pos, field))
    }
}

/// The byte offset, relative to `table_pos`, of the field `field_index`; zero where the field
/// is absent or the vtable is too small.
pub fn fb_field_offset(buf: &[u8], table_pos: usize, field_index: usize) -> (r: usize)
    requires
        field_fits(buf@, table_pos as int, field_index as int),
    ensures
        r == field_offset(buf@, table_pos as int, field_index as int),
        r <= 0xffff,
        r != 0 ==> table_pos + 4 <= buf.len(),
{
    if table_pos + 4 > buf.len() {
        return 0;
    }
    let soffset = fb_read_i32(buf, table_pos);
    let vtable: i128 = table_pos as i128 - soffset as i128;
    if vtable < 0 || vtable + 4 > buf.len() as i128 {
        return 0;
    }
    let vtable_pos = vtable as usize;
    let vtable_size = fb_read_u16(buf, vtable_pos) as usize;
    let slot_pos = vtable_pos + 4 + field_index * 2;
    if slot_pos + 2 - vtable_pos > vtable_size {
        return 0;
    }
    fb_read_u16(buf, slot_pos) as usize
}

/// Whether `fb_field_offset` may be called.
pub fn fb_field_fits(buf: &[u8], table_pos: usize, field_index: usize) -> (r: bool)
    ensures
        r == field_fits(buf@, table_pos as int, field_index as int),
{
    if table_pos > usize::MAX - 4 {
        return false;
    }
    if table_pos + 4 > buf.len() {
        return true;
    }
    let soffset = fb_read_i32(buf, table_pos);
    let vtable: i128 = table_pos as i128 - soffset as i128;
    if vtable < 0 {
        return vtable < -4;
    }
    vtable + 4 > buf.len() as i128 || vtable + 4 + 2 * field_index as i128 + 2
        <= usize::MAX as i128
}

/// The `u8` in a field, such as the geometry type; zero where the field is absent.
pub fn fb_u8_field(buf: &[u8], table_pos: usize, field_index: usize) -> (r: u8)
    requires
        field_fits(buf@, table_pos as int, field_index as int),
    ensures
        r == scalar_field(buf@, table_pos as int, field_index as int, 1, 0),
{
    let off = fb_field_offset(buf, table_pos, field_index);
    if off == 0 {
        return 0;
    }
    if off >= buf.len() - table_pos {
        return 0;
    }
    proof {
        reveal_with_fuel(le_value, 2);
    }
    buf[table_pos + off]
}

/// The `u16` in a field, or `default` where the field is absent.
pub fn fb_u16_field(buf: &[u8], table_pos: usize, field_index: usize, default: u16) -> (r: u16)
    requires
        field_fits(buf@, table_pos as int, field_index as int),
    ensures
        r == scalar_field(buf@, table_pos as int, field_index as int, 2, default as nat),
{
    let off = fb_field_offset(buf, table_pos, field_index);
    if off == 0 {
        return default;
    }
    if off + 2 > buf.len() - table_pos {
        return 0;
    }
    fb_read_u16(buf, table_pos + off)
}

/// The `u64` in a field; zero where the field is absent.
pub fn fb_u64_field(buf: &[u8], table_pos: usize, field_index: usize) -> (r: u64)
    requires
        field_fits(buf@, table_pos as int, field_index as int),
    ensures
        r == scalar_field(buf@, table_pos as int, field_index as int, 8, 0),
{
    let off = fb_field_offset(buf, table_pos, field_index);
    if off == 0 {
        return 0;
    }
    if off + 8 > buf.len() - table_pos {
        return 0;
    }
    fb_read_u64(buf, table_pos + off)
}

/// The `i32` in a field, such as the code of a reference system; zero where the field is
/// absent.
pub fn fb_i32_field(buf: &[u8], table_pos: usize, field_index: usize) -> (r: i32)
    requires
        field_fits(buf@, table_pos as int, field_index as int),
    ensures
        r == signed_32(scalar_field(buf@, table_pos as int, field_index as int, 4, 0)),
{
    let off = fb_field_offset(buf, table_pos, field_index);
    if off == 0 {
        return 0;
    }
    if off + 4 > buf.len() - table_pos {
        return 0;
    }
    fb_read_i32(buf, table_pos + off)
}

/// The distance stored in an indirect field at the offset `off` of its table.
fn read_distance(buf: &[u8], table_pos: usize, off: usize) -> (r: u32)
    requires
        table_pos <= buf.len(),
        off <= 0xffff,
    ensures
        r == le_at(buf@, table_pos + off, 4),
{
    if off + 4 > buf.len() - table_pos {
        return 0;
    }
    fb_read_u32(buf, table_pos + off)
}

/// Whether the position that an indirect field refers to fits into `usize`, with `prefix`
/// bytes after it.
pub fn fb_target_fits(buf: &[u8], table_pos: usize, field_index: usize, prefix: u8) -> (r: bool)
    ensures
        r == target_fits(buf@, table_pos as int, field_index as int, prefix as int),
{
    if !fb_field_fits(buf, table_pos, field_index) {
        return false;
    }
    let off = fb_field_offset(buf, table_pos, field_index);
    if off == 0 {
        return true;
    }
    let distance = read_distance(buf, table_pos, off);
    table_pos as u128 + off as u128 + distance as u128 + prefix as u128 <= usize::MAX as u128
}

/// Whether `fb_string_field` may be called.
pub fn fb_string_fits(buf: &[u8], table_pos: usize, field_index: usize) -> (r: bool)
    ensures
        r == string_fits(buf@, table_pos as int, field_index as int),
{
    if !fb_target_fits(buf, table_pos, field_index, 4) {
        return false;
    }
    let off = fb_field_offset(buf, table_pos, field_index);
    if off == 0 {
        return true;
    }
    let start = table_pos + off + read_distance(buf, table_pos, off) as usize + 4;
    if start > buf.len() {
        return true;
    }
    start as u128 + fb_read_u32(buf, start - 4) as u128 <= usize::MAX as u128
}

/// The text of a string field; empty where it is absent or not valid.
pub fn fb_string_field<'a>(buf: &'a [u8], table_pos: usize, field_index: usize) -> (r: &'a str)
    requires
        string_fits(buf@, table_pos as int, field_index as int),
    ensures
        r@ == string_field(buf@, table_pos as int, field_index as int),
{
    proof {
        reveal_strlit("");
    }
    let off = fb_field_offset(buf, table_pos, field_index);
    if off == 0 {
        return "";
    }
    let str_pos = table_pos + off + read_distance(buf, table_pos, off) as usize;
    if str_pos + 4 > buf.len() {
        return "";
    }
    let str_len = fb_read_u32(buf, str_pos) as usize;
    let data_pos = str_pos + 4;
    if data_pos + str_len > buf.len() {
        return "";
    }
    match utf8_text(&buf[data_pos..data_pos + str_len]) {
        Some(text) => text,
        None => "",
    }
}

/// The bit patterns of a vector of doubles, such as an envelope; at most `VECTOR_CAP` of them.
pub fn fb_f64_vec_field(buf: &[u8], table_pos: usize, field_index: usize) -> (r: Vec<u64>)
    requires
        target_fits(buf@, table_pos as int, field_index as int, 4),
    ensures
        r@ == f64_vec_field(buf@, table_pos as int, field_index as int),
{
    let off = fb_field_offset(buf, table_pos, field_index);
    if off == 0 {
        return Vec::new();
    }
    let vec_pos = table_pos + off + read_distance(buf, table_pos, off) as usize;
    if vec_pos + 4 > buf.len() {
        return Vec::new();
    }
    let count = fb_read_u32(buf, vec_pos) as usize;
    let max = if count < VECTOR_CAP {
        count
    } else {
        VECTOR_CAP
    };
    let start = vec_pos + 4;
    let mut result: Vec<u64> = Vec::with_capacity(max);
    let mut i: usize = 0;
    while i < max
        invariant
            i <= max <= VECTOR_CAP,
            start <= buf.len(),
            result@ == Seq::new(i as nat, |j: int| le_at(buf@, start + 8 * j, 8) as u64),
        decreases max - i,
    {
        let bits = if 8 * i + 8 > buf.len() - start {
            0
        } else {
            fb_read_f64(buf, start + 8 * i)
        };
        result.push(bits);
        i = i + 1;
    }
    result
}

/// The absolute position of a nested table, or `None` where the field is absent.
pub fn fb_table_field_pos(buf: &[u8], table_pos: usize, field_index: usize) -> (r: Option<usize>)
    requires
        target_fits(buf@, table_pos as int, field_index as int, 0),
    ensures
        r is Some <==> table_field_pos(buf@, table_pos as int, field_index as int) is Some,
        r is Some ==> Some(r->0 as int) == table_field_pos(
            buf@,
            table_pos as int,
            field_index as int,
        ),
{
    let off = fb_field_offset(buf, table_pos, field_index);
    if off == 0 {
        return None;
    }
    Some(table_pos + off + read_distance(buf, table_pos, off) as usize)
}

} // verus!
