//! The class-file decoder: one forward pass from bytes to a `Class`.
use vstd::prelude::*;
use crate::class::{is_known_tag, AttributeInfo, Class, Constant, FieldInfo, MethodInfo, MAGIC};
use crate::error::RuntimeError;
use crate::utils::{be_u16, be_u32, slice_as_u16, slice_as_u32};

verus! {

/// Whether the payload length suits the tag.
pub open spec fn payload_fits_tag(c: Constant) -> bool {
    if c.tag == 3 || c.tag == 4 {
        c.bytes@.len() == 4
    } else if c.tag == 5 || c.tag == 6 {
        c.bytes@.len() == 8
    } else if c.tag == 7 || c.tag == 8 {
        c.bytes@.len() == 2
    } else if 9 <= c.tag <= 12 {
        c.bytes@.len() == 4
    } else {
        true
    }
}

/// Whether slot `i` is the reserved slot after a long or double.
pub open spec fn is_reserved_slot(pool: Seq<Constant>, i: int) -> bool {
    i >= 2 && (pool[i - 1].tag == 5 || pool[i - 1].tag == 6)
}

/// The shape of a decoded pool: slot 0 unused; every slot from 1 holds a known
/// constant with a payload of its size, except the slot after a long or double, which
/// is reserved.
pub open spec fn pool_wf(pool: Seq<Constant>, count: u16) -> bool {
    &&& pool.len() == if count == 0 { 1 } else { count as int }
    &&& pool[0].tag == 0
    &&& forall|i: int|
        1 <= i < count ==> if is_reserved_slot(pool, i) {
            (#[trigger] pool[i]).tag == 0
        } else {
            is_known_tag(pool[i].tag) && payload_fits_tag(pool[i])
        }
}

/// Whether `bytes` opens with the class-file magic number.
pub open spec fn has_magic(bytes: Seq<u8>) -> bool {
    bytes.len() >= 4 && be_u32(bytes, 0) == MAGIC
}

/// The size of the constant at `pos`, tag byte included, where its tag is known and its
/// length prefix is there.
pub open spec fn constant_size(b: Seq<u8>, pos: int) -> Option<int> {
    if !(0 <= pos < b.len()) {
        None
    } else if b[pos] == 1 {
        if pos + 3 <= b.len() {
            Some(3 + be_u16(b, pos + 1))
        } else {
            None
        }
    } else if b[pos] == 3 || b[pos] == 4 {
        Some(5)
    } else if b[pos] == 5 || b[pos] == 6 {
        Some(9)
    } else if b[pos] == 7 || b[pos] == 8 {
        Some(3)
    } else if 9 <= b[pos] <= 12 {
        Some(5)
    } else {
        None
    }
}

/// Where the constant pool ends, scanning from `pos` with slot `i` next and `count`
/// slots in all: a long or double takes two slots. `None` where a tag is unknown or
/// the input ends inside the pool.
pub open spec fn pool_end(b: Seq<u8>, pos: int, i: int, count: int) -> Option<int>
    decreases count - i,
{
    if i >= count {
        Some(pos)
    } else {
        match constant_size(b, pos) {
            None => None,
            Some(n) => if pos + n > b.len() {
                None
            } else {
                pool_end(
                    b,
                    pos + n,
                    if (b[pos] == 5 || b[pos] == 6) && i + 1 < count {
                        i + 2
                    } else {
                        i + 1
                    },
                    count,
                )
            },
        }
    }
}

/// Read a big-endian `u16` at `*idx` and move past it.
fn read_u16(bytes: &[u8], idx: &mut usize) -> (r: Result<u16, RuntimeError>)
    requires
        *old(idx) <= bytes@.len(),
    ensures
        *final(idx) <= bytes@.len(),
        match r {
            Ok(v) => *old(idx) + 2 <= bytes@.len() && v == be_u16(bytes@, *old(idx) as int)
                && *final(idx) == *old(idx) + 2,
            Err(e) => e == RuntimeError::MalformedClassFile && *old(idx) + 2 > bytes@.len(),
        },
{
    if bytes.len() - *idx < 2 {
        return Err(RuntimeError::MalformedClassFile);
    }
    let v = slice_as_u16(bytes, *idx);
    *idx = *idx + 2;
    Ok(v)
}

/// Read a big-endian `u32` at `*idx` and move past it.
fn read_u32(bytes: &[u8], idx: &mut usize) -> (r: Result<u32, RuntimeError>)
    requires
        *old(idx) <= bytes@.len(),
    ensures
        *final(idx) <= bytes@.len(),
        match r {
            Ok(v) => *old(idx) + 4 <= bytes@.len() && v == be_u32(bytes@, *old(idx) as int)
                && *final(idx) == *old(idx) + 4,
            Err(e) => e == RuntimeError::MalformedClassFile && *old(idx) + 4 > bytes@.len(),
        },
{
    if bytes.len() - *idx < 4 {
        return Err(RuntimeError::MalformedClassFile);
    }
    let v = slice_as_u32(bytes, *idx);
    *idx = *idx + 4;
    Ok(v)
}

/// Copy the `n` bytes at `*idx` and move past them.
fn take(bytes: &[u8], idx: &mut usize, n: usize) -> (r: Result<Vec<u8>, RuntimeError>)
    requires
        *old(idx) <= bytes@.len(),
    ensures
        *final(idx) <= bytes@.len(),
        match r {
            Ok(v) => *old(idx) + n <= bytes@.len() && v@ == bytes@.subrange(
                *old(idx) as int,
                *old(idx) + n,
            ) && *final(idx) == *old(idx) + n,
            Err(e) => e == RuntimeError::MalformedClassFile && *old(idx) + n > bytes@.len(),
        },
{
    if bytes.len() - *idx < n {
        return Err(RuntimeError::MalformedClassFile);
    }
    let start = *idx;
    let end = start + n;
    let mut v: Vec<u8> = Vec::new();
    let mut k = start;
    while k < end
        invariant
            end == start + n,
            end <= bytes@.len(),
            start <= k <= end,
            v@ == bytes@.subrange(start as int, k as int),
        decreases end - k,
    {
        v.push(bytes[k]);
        k += 1;
    }
    *idx = end;
    Ok(v)
}

/// Where the attribute at `pos` ends: `name_index(2), length(4), payload(length)`.
pub open spec fn attr_next(b: Seq<u8>, pos: int) -> Option<int> {
    if 0 <= pos && pos + 6 <= b.len() && pos + 6 + be_u32(b, pos + 2) <= b.len() {
        Some(pos + 6 + be_u32(b, pos + 2))
    } else {
        None
    }
}

/// Where `n` attributes starting at `pos` end.
pub open spec fn skip_attrs(b: Seq<u8>, pos: int, n: int) -> Option<int>
    decreases n,
{
    if n <= 0 {
        Some(pos)
    } else {
        match skip_attrs(b, pos, n - 1) {
            Some(q) => attr_next(b, q),
            None => None,
        }
    }
}

/// Where the field or method at `pos` ends: `access_flags(2), name_index(2),
/// descriptor_index(2), attributes_count(2), attributes`.
pub open spec fn member_next(b: Seq<u8>, pos: int) -> Option<int> {
    if 0 <= pos && pos + 8 <= b.len() {
        skip_attrs(b, pos + 8, be_u16(b, pos + 6) as int)
    } else {
        None
    }
}

/// Where `n` fields or methods starting at `pos` end.
pub open spec fn skip_members(b: Seq<u8>, pos: int, n: int) -> Option<int>
    decreases n,
{
    if n <= 0 {
        Some(pos)
    } else {
        match skip_members(b, pos, n - 1) {
            Some(q) => member_next(b, q),
            None => None,
        }
    }
}

proof fn lemma_skip_attrs_none(b: Seq<u8>, pos: int, i: int, n: int)
    requires
        0 <= i <= n,
        skip_attrs(b, pos, i) is None,
    ensures
        skip_attrs(b, pos, n) is None,
    decreases n - i,
{
    if i < n {
        lemma_skip_attrs_none(b, pos, i, n - 1);
    }
}

proof fn lemma_skip_members_none(b: Seq<u8>, pos: int, i: int, n: int)
    requires
        0 <= i <= n,
        skip_members(b, pos, i) is None,
    ensures
        skip_members(b, pos, n) is None,
    decreases n - i,
{
    if i < n {
        lemma_skip_members_none(b, pos, i, n - 1);
    }
}

/// The attribute at `ap` is `a`.
pub open spec fn attr_from(b: Seq<u8>, ap: int, a: AttributeInfo) -> bool {
    &&& a.attribute_name_index == be_u16(b, ap)
    &&& a.attribute_length == be_u32(b, ap + 2)
    &&& a.info@ == b.subrange(ap + 6, ap + 6 + be_u32(b, ap + 2))
}

/// The attributes starting at `start` are `v`, in order.
pub open spec fn attrs_from(b: Seq<u8>, start: int, v: Seq<AttributeInfo>) -> bool {
    forall|k: int| 0 <= k < v.len() ==> (#[trigger] skip_attrs(b, start, k) matches Some(ap) && attr_from(b, ap, v[k]))
}

/// The field or method at `mp` has these parts.
pub open spec fn member_from(
    b: Seq<u8>,
    mp: int,
    access_flags: u16,
    name_index: u16,
    descriptor_index: u16,
    attributes_count: u16,
    attrs: Seq<AttributeInfo>,
) -> bool {
    &&& access_flags == be_u16(b, mp)
    &&& name_index == be_u16(b, mp + 2)
    &&& descriptor_index == be_u16(b, mp + 4)
    &&& attributes_count == be_u16(b, mp + 6)
    &&& attrs.len() == attributes_count
    &&& attrs_from(b, mp + 8, attrs)
}

/// The methods starting at `start` are `v`, in order.
pub open spec fn methods_from(b: Seq<u8>, start: int, v: Seq<MethodInfo>) -> bool {
    forall|k: int|
        0 <= k < v.len() ==> (#[trigger] skip_members(b, start, k) matches Some(mp) && member_from(
            b,
            mp,
            v[k].access_flags,
            v[k].name_index,
            v[k].descriptor_index,
            v[k].attributes_count,
            v[k].attribute_info@,
        ))
}

/// The fields starting at `start` are `v`, in order, each with a zero cell.
pub open spec fn fields_from(b: Seq<u8>, start: int, v: Seq<FieldInfo>) -> bool {
    forall|k: int|
        0 <= k < v.len() ==> (#[trigger] skip_members(b, start, k) matches Some(mp) && member_from(
            b,
            mp,
            v[k].access_flags,
            v[k].name_index,
            v[k].descriptor_index,
            v[k].attributes_count,
            v[k].attribute_info@,
        ) && v[k].value == 0)
}

/// Read `count` attributes, each `name_index(2), length(4), payload(length)`.
fn parse_attributes(bytes: &[u8], idx: &mut usize, count: u16) -> (r: Result<Vec<AttributeInfo>, RuntimeError>)
    requires
        *old(idx) <= bytes@.len(),
    ensures
        *final(idx) <= bytes@.len(),
        match r {
            Ok(v) => {
                &&& v@.len() == count
                &&& attrs_from(bytes@, *old(idx) as int, v@)
                &&& skip_attrs(bytes@, *old(idx) as int, count as int) == Some(*final(idx) as int)
            },
            Err(e) => e == RuntimeError::MalformedClassFile && skip_attrs(bytes@, *old(idx) as int, count as int) is None,
        },
{
    let ghost start = *idx as int;
    let mut attrs: Vec<AttributeInfo> = Vec::new();
    let mut i: u16 = 0;
    while i < count
        invariant
            *idx <= bytes@.len(),
            i <= count,
            attrs@.len() == i,
            skip_attrs(bytes@, start, i as int) == Some(*idx as int),
            attrs_from(bytes@, start, attrs@),
            start == *old(idx) as int,
        decreases count - i,
    {
        let ghost here = *idx as int;
        let r1 = read_u16(bytes, idx);
        let r2 = if r1.is_ok() { read_u32(bytes, idx) } else { Err(RuntimeError::MalformedClassFile) };
        let r3 = match r2 {
            Ok(l) => take(bytes, idx, l as usize),
            Err(e) => Err(e),
        };
        match (r1, r2, r3) {
            (Ok(attribute_name_index), Ok(attribute_length), Ok(info)) => {
                let ghost prev = attrs@;
                attrs.push(AttributeInfo { attribute_name_index, attribute_length, info });
                i += 1;
                assert(attrs_from(bytes@, start, attrs@)) by {
                    assert forall|k: int| 0 <= k < attrs@.len() implies (#[trigger] skip_attrs(bytes@, start, k) matches Some(ap)
                        && attr_from(bytes@, ap, attrs@[k])) by {
                        if k < prev.len() {
                            assert(attrs@[k] == prev[k]);
                        }
                    }
                }
            },
            _ => {
                assert(attr_next(bytes@, here) is None);
                proof {
                    lemma_skip_attrs_none(bytes@, start, i + 1, count as int);
                }
                return Err(RuntimeError::MalformedClassFile);
            },
        }
    }
    Ok(attrs)
}

/// Read one field or method: its four header words and its attributes.
fn parse_member(bytes: &[u8], idx: &mut usize) -> (r: Result<(u16, u16, u16, u16, Vec<AttributeInfo>), RuntimeError>)
    requires
        *old(idx) <= bytes@.len(),
    ensures
        *final(idx) <= bytes@.len(),
        match r {
            Ok(m) => {
                &&& member_from(bytes@, *old(idx) as int, m.0, m.1, m.2, m.3, m.4@)
                &&& member_next(bytes@, *old(idx) as int) == Some(*final(idx) as int)
            },
            Err(e) => e == RuntimeError::MalformedClassFile && member_next(bytes@, *old(idx) as int) is None,
        },
{
    if bytes.len() - *idx < 8 {
        return Err(RuntimeError::MalformedClassFile);
    }
    let access_flags = read_u16(bytes, idx)?;
    let name_index = read_u16(bytes, idx)?;
    let descriptor_index = read_u16(bytes, idx)?;
    let attributes_count = read_u16(bytes, idx)?;
    let attribute_info = parse_attributes(bytes, idx, attributes_count)?;
    Ok((access_flags, name_index, descriptor_index, attributes_count, attribute_info))
}

/// Read `count` methods.
fn parse_methods(bytes: &[u8], idx: &mut usize, count: u16) -> (r: Result<Vec<MethodInfo>, RuntimeError>)
    requires
        *old(idx) <= bytes@.len(),
    ensures
        *final(idx) <= bytes@.len(),
        match r {
            Ok(v) => {
                &&& v@.len() == count
                &&& methods_from(bytes@, *old(idx) as int, v@)
                &&& skip_members(bytes@, *old(idx) as int, count as int) == Some(*final(idx) as int)
            },
            Err(e) => e == RuntimeError::MalformedClassFile && skip_members(bytes@, *old(idx) as int, count as int) is None,
        },
{
    let ghost start = *idx as int;
    let mut members: Vec<MethodInfo> = Vec::new();
    let mut i: u16 = 0;
    while i < count
        invariant
            *idx <= bytes@.len(),
            i <= count,
            members@.len() == i,
            skip_members(bytes@, start, i as int) == Some(*idx as int),
            methods_from(bytes@, start, members@),
            start == *old(idx) as int,
        decreases count - i,
    {
        let ghost here = *idx as int;
        match parse_member(bytes, idx) {
            Ok((access_flags, name_index, descriptor_index, attributes_count, attribute_info)) => {
                let ghost prev = members@;
                members.push(MethodInfo { access_flags, name_index, descriptor_index, attributes_count, attribute_info });
                i += 1;
                assert(methods_from(bytes@, start, members@)) by {
                    assert forall|k: int| 0 <= k < members@.len() implies (#[trigger] skip_members(bytes@, start, k) matches Some(mp)
                        && member_from(bytes@, mp, members@[k].access_flags, members@[k].name_index,
                            members@[k].descriptor_index, members@[k].attributes_count, members@[k].attribute_info@)) by {
                        if k < prev.len() {
                            assert(members@[k] == prev[k]);
                        }
                    }
                }
            },
            Err(e) => {
                proof {
                    lemma_skip_members_none(bytes@, start, i + 1, count as int);
                }
                return Err(e);
            },
        }
    }
    Ok(members)
}

/// Read `count` fields, each with a zero cell.
fn parse_fields(bytes: &[u8], idx: &mut usize, count: u16) -> (r: Result<Vec<FieldInfo>, RuntimeError>)
    requires
        *old(idx) <= bytes@.len(),
    ensures
        *final(idx) <= bytes@.len(),
        match r {
            Ok(v) => {
                &&& v@.len() == count
                &&& fields_from(bytes@, *old(idx) as int, v@)
                &&& skip_members(bytes@, *old(idx) as int, count as int) == Some(*final(idx) as int)
            },
            Err(e) => e == RuntimeError::MalformedClassFile && skip_members(bytes@, *old(idx) as int, count as int) is None,
        },
{
    let ghost start = *idx as int;
    let mut members: Vec<FieldInfo> = Vec::new();
    let mut i: u16 = 0;
    while i < count
        invariant
            *idx <= bytes@.len(),
            i <= count,
            members@.len() == i,
            skip_members(bytes@, start, i as int) == Some(*idx as int),
            fields_from(bytes@, start, members@),
            start == *old(idx) as int,
        decreases count - i,
    {
        match parse_member(bytes, idx) {
            Ok((access_flags, name_index, descriptor_index, attributes_count, attribute_info)) => {
                let ghost prev = members@;
                members.push(
                    FieldInfo { access_flags, name_index, descriptor_index, attributes_count, attribute_info, value: 0 },
                );
                i += 1;
                assert(fields_from(bytes@, start, members@)) by {
                    assert forall|k: int| 0 <= k < members@.len() implies (#[trigger] skip_members(bytes@, start, k) matches Some(mp)
                        && member_from(bytes@, mp, members@[k].access_flags, members@[k].name_index,
                            members@[k].descriptor_index, members@[k].attributes_count, members@[k].attribute_info@)
                        && members@[k].value == 0) by {
                        if k < prev.len() {
                            assert(members@[k] == prev[k]);
                        }
                    }
                }
            },
            Err(e) => {
                proof {
                    lemma_skip_members_none(bytes@, start, i + 1, count as int);
                }
                return Err(e);
            },
        }
    }
    Ok(members)
}

/// The header size of a constant: tag, plus a length for UTF-8.
pub open spec fn constant_header(tag: u8) -> int {
    if tag == 1 {
        3
    } else {
        1
    }
}

/// Read one constant, tag byte first, and move past it.
fn parse_constant(bytes: &[u8], idx: &mut usize) -> (r: Result<Constant, RuntimeError>)
    requires
        *old(idx) <= bytes@.len(),
    ensures
        *final(idx) <= bytes@.len(),
        match r {
            Ok(c) => {
                &&& constant_size(bytes@, *old(idx) as int) matches Some(n)
                &&& *old(idx) + n <= bytes@.len()
                &&& *final(idx) == *old(idx) + n
                &&& c.tag == bytes@[*old(idx) as int]
                &&& c.bytes@ == bytes@.subrange(*old(idx) + constant_header(c.tag), *old(idx) + n)
                &&& is_known_tag(c.tag)
                &&& payload_fits_tag(c)
            },
            Err(e) => e == RuntimeError::MalformedClassFile && (constant_size(bytes@, *old(idx) as int) is None
                || *old(idx) + constant_size(bytes@, *old(idx) as int)->0 > bytes@.len()),
        },
{
    if *idx >= bytes.len() {
        return Err(RuntimeError::MalformedClassFile);
    }
    let tag = bytes[*idx];
    *idx = *idx + 1;
    let n: usize = if tag == 1 {
        read_u16(bytes, idx)? as usize
    } else if tag == 3 || tag == 4 {
        4
    } else if tag == 5 || tag == 6 {
        8
    } else if tag == 7 || tag == 8 {
        2
    } else if 9 <= tag && tag <= 12 {
        4
    } else {
        return Err(RuntimeError::MalformedClassFile);
    };
    let data = take(bytes, idx, n)?;
    Ok(Constant { tag, bytes: data })
}

/// A constant that marks an unused pool slot.
fn unused_slot() -> (r: Constant)
    ensures
        r.tag == 0,
        r.bytes@.len() == 0,
{
    Constant { tag: 0, bytes: Vec::new() }
}

/// The position of slot `j`'s constant, scanning the pool from `pos` with slot `i` next.
pub open spec fn slot_pos(b: Seq<u8>, pos: int, i: int, count: int, j: int) -> Option<int>
    decreases count - i,
{
    if i >= count || i > j {
        None
    } else if i == j {
        Some(pos)
    } else {
        match constant_size(b, pos) {
            None => None,
            Some(n) => if pos + n > b.len() {
                None
            } else {
                slot_pos(
                    b,
                    pos + n,
                    if (b[pos] == 5 || b[pos] == 6) && i + 1 < count {
                        i + 2
                    } else {
                        i + 1
                    },
                    count,
                    j,
                )
            },
        }
    }
}

/// Slot `c` holds the constant the file gives at `pos`.
pub open spec fn constant_from(b: Seq<u8>, pos: Option<int>, c: Constant) -> bool {
    pos matches Some(p) && constant_size(b, p) matches Some(n) && c.tag == b[p] && c.bytes@ == b.subrange(
        p + constant_header(b[p]),
        p + n,
    )
}

/// One step of the pool scan moves to the next entry.
proof fn lemma_slot_step(b: Seq<u8>, pos: int, i: int, count: int, i2: int, j: int)
    requires
        i < count,
        i < j,
        constant_size(b, pos) matches Some(n) && pos + n <= b.len() && i2 == (if (b[pos] == 5 || b[pos]
            == 6) && i + 1 < count {
            i + 2
        } else {
            i + 1
        }),
    ensures
        slot_pos(b, pos, i, count, j) == slot_pos(b, pos + constant_size(b, pos)->0, i2, count, j),
{
}

/// Read the constant pool: slot 0 unused, then `count - 1` slots, a long or double
/// taking two.
#[verifier::rlimit(100)]
#[verifier::spinoff_prover]
fn parse_pool(bytes: &[u8], idx: &mut usize, count16: u16) -> (r: Result<Vec<Constant>, RuntimeError>)
    requires
        *old(idx) == 10,
        10 <= bytes@.len(),
    ensures
        *final(idx) <= bytes@.len(),
        match r {
            Ok(pool) => {
                &&& pool_wf(pool@, count16)
                &&& forall|j: int|
                    1 <= j < count16 && !is_reserved_slot(pool@, j) ==> constant_from(
                        bytes@,
                        #[trigger] slot_pos(bytes@, 10, 1, count16 as int, j),
                        pool@[j],
                    )
                &&& pool_end(bytes@, 10, 1, count16 as int) == Some(*final(idx) as int)
            },
            Err(e) => e == RuntimeError::MalformedClassFile && pool_end(bytes@, 10, 1, count16 as int) is None,
        },
{
    let ghost count = count16 as int;
    let mut constant_pool: Vec<Constant> = Vec::new();
    constant_pool.push(unused_slot());
    let mut i: u16 = 1;
    while i < count16
        invariant
            *idx <= bytes@.len(),
            count == count16,
            1 <= i,
            constant_pool@.len() == i,
            constant_pool@[0].tag == 0,
            i <= count16 || (count16 == 0 && i == 1),
            forall|j: int|
                1 <= j < i ==> if is_reserved_slot(constant_pool@, j) {
                    (#[trigger] constant_pool@[j]).tag == 0
                } else {
                    is_known_tag(constant_pool@[j].tag) && payload_fits_tag(constant_pool@[j])
                },
            forall|j: int|
                1 <= j < i && !is_reserved_slot(constant_pool@, j) ==> constant_from(
                    bytes@,
                    #[trigger] slot_pos(bytes@, 10, 1, count, j),
                    constant_pool@[j],
                ),
            forall|j: int|
                i <= j < count ==> #[trigger] slot_pos(bytes@, 10, 1, count, j) == slot_pos(
                    bytes@,
                    *idx as int,
                    i as int,
                    count,
                    j,
                ),
            !is_reserved_slot(constant_pool@, i as int) || i >= count16,
            pool_end(bytes@, *idx as int, i as int, count) == pool_end(bytes@, 10, 1, count),
        decreases count16 + 1 - i,
    {
        let ghost pos = *idx as int;
        let ghost i0 = i as int;
        let ghost prev = constant_pool@;
        let constant = match parse_constant(bytes, idx) {
            Ok(c) => c,
            Err(e) => {
                assert(pool_end(bytes@, pos, i0, count) is None);
                return Err(e);
            },
        };
        let tag = constant.tag;
        constant_pool.push(constant);
        i = i + 1;
        if (tag == 5 || tag == 6) && i < count16 {
            constant_pool.push(unused_slot());
            i = i + 1;
        }
        proof {
            assert(slot_pos(bytes@, pos, i0, count, i0) == Some(pos));
            assert forall|j: int| i <= j < count implies #[trigger] slot_pos(bytes@, 10, 1, count, j) == slot_pos(
                bytes@,
                *idx as int,
                i as int,
                count,
                j,
            ) by {
                lemma_slot_step(bytes@, pos, i0, count, (if (tag == 5 || tag == 6) && i0 + 1 < count { i0 + 2 } else { i0 + 1 }), j);
            }
            assert forall|j: int| 1 <= j < i && !is_reserved_slot(constant_pool@, j) implies constant_from(
                bytes@,
                #[trigger] slot_pos(bytes@, 10, 1, count, j),
                constant_pool@[j],
            ) by {
                if j < i0 {
                    assert(constant_pool@[j] == prev[j]);
                    assert(is_reserved_slot(constant_pool@, j) == is_reserved_slot(prev, j));
                } else if j == i0 {
                } else {
                    assert(is_reserved_slot(constant_pool@, j));
                }
            }
        }
    }
    assert(constant_pool@.len() == if count16 == 0 { 1 } else { count16 as int });
    Ok(constant_pool)
}

/// The positions of the parts after the pool: the pool's end, the fields count, the
/// methods count and the class attributes count.
pub open spec fn class_layout(b: Seq<u8>) -> Option<(int, int, int, int)> {
    if !(b.len() >= 10 && has_magic(b)) {
        None
    } else {
        match pool_end(b, 10, 1, be_u16(b, 8) as int) {
            None => None,
            Some(p) => if p + 8 > b.len() {
                None
            } else {
                let f = p + 8 + 2 * be_u16(b, p + 6);
                if f + 2 > b.len() {
                    None
                } else {
                    match skip_members(b, f + 2, be_u16(b, f) as int) {
                        None => None,
                        Some(m) => if m + 2 > b.len() {
                            None
                        } else {
                            match skip_members(b, m + 2, be_u16(b, m) as int) {
                                None => None,
                                Some(a) => if a + 2 > b.len() {
                                    None
                                } else {
                                    Some((p, f, m, a))
                                },
                            }
                        },
                    }
                }
            },
        }
    }
}

/// Whether `b` is a class file the decoder accepts: the magic number, known constant
/// tags, and every count, index, length and payload within the bytes.
#[verifier::opaque]
pub open spec fn well_formed(b: Seq<u8>) -> bool {
    class_layout(b) matches Some((p, f, m, a)) && skip_attrs(b, a + 2, be_u16(b, a) as int) is Some
}

/// `c` is what the decoder makes of the well-formed file `b`.
#[verifier::opaque]
pub open spec fn decoded_from(b: Seq<u8>, c: Class) -> bool {
    class_layout(b) matches Some((p, f, m, a)) && {
        let count = be_u16(b, 8);
        &&& c.constant_pool_count == count
        &&& pool_wf(c.constant_pool@, count)
        &&& forall|j: int|
            1 <= j < count && !is_reserved_slot(c.constant_pool@, j) ==> constant_from(
                b,
                #[trigger] slot_pos(b, 10, 1, count as int, j),
                c.constant_pool@[j],
            )
        &&& c.access_flags == be_u16(b, p)
        &&& c.this_class == be_u16(b, p + 2)
        &&& c.super_class == be_u16(b, p + 4)
        &&& c.interface_count == be_u16(b, p + 6)
        &&& c.interfaces@.len() == c.interface_count
        &&& forall|k: int| 0 <= k < c.interfaces@.len() ==> #[trigger] c.interfaces@[k] == be_u16(b, p + 8 + 2 * k)
        &&& c.fields@.len() == be_u16(b, f)
        &&& fields_from(b, f + 2, c.fields@)
        &&& c.methods@.len() == be_u16(b, m)
        &&& methods_from(b, m + 2, c.methods@)
    }
}

/// Decode a class file.
///
/// Fails with `MalformedClassFile` on a bad magic number, an unknown constant tag, an
/// attribute longer than what remains, or input that ends early.
#[verifier::rlimit(100)]
pub fn parse_class_file(bytes: &[u8]) -> (r: Result<Class, RuntimeError>)
    ensures
        r is Ok <==> well_formed(bytes@),
        match r {
            Ok(c) => decoded_from(bytes@, c),
            Err(e) => e == RuntimeError::MalformedClassFile,
        },
{
    proof {
        reveal(well_formed);
        reveal(decoded_from);
    }
    let mut idx: usize = 0;
    if bytes.len() < 10 {
        return Err(RuntimeError::MalformedClassFile);
    }
    let magic = read_u32(bytes, &mut idx)?;
    if magic != MAGIC {
        return Err(RuntimeError::MalformedClassFile);
    }
    let _minor = read_u16(bytes, &mut idx)?;
    let _major = read_u16(bytes, &mut idx)?;
    let constant_pool_count = read_u16(bytes, &mut idx)?;
    let ghost count = constant_pool_count as int;

    let constant_pool = parse_pool(bytes, &mut idx, constant_pool_count)?;
    let ghost p = idx as int;
    assert(pool_end(bytes@, 10, 1, count) == Some(p));
    assert(count == be_u16(bytes@, 8));
    let access_flags = read_u16(bytes, &mut idx)?;
    let this_class = read_u16(bytes, &mut idx)?;
    let super_class = read_u16(bytes, &mut idx)?;
    let interface_count = read_u16(bytes, &mut idx)?;
    let mut interfaces: Vec<u16> = Vec::new();
    let mut k: u16 = 0;
    while k < interface_count
        invariant
            idx <= bytes@.len(),
            k <= interface_count,
            interfaces@.len() == k,
            idx == p + 8 + 2 * k,
            forall|q: int| 0 <= q < k ==> #[trigger] interfaces@[q] == be_u16(bytes@, p + 8 + 2 * q),
            pool_end(bytes@, 10, 1, count) == Some(p),
            count == be_u16(bytes@, 8),
            bytes@.len() >= 10 && has_magic(bytes@),
            p + 8 <= bytes@.len(),
            interface_count == be_u16(bytes@, p + 6),
        decreases interface_count - k,
    {
        proof {
            reveal(well_formed);
        }
        let interface_idx = read_u16(bytes, &mut idx)?;
        interfaces.push(interface_idx);
        k += 1;
    }
    let fields_count = read_u16(bytes, &mut idx)?;
    let fields = parse_fields(bytes, &mut idx, fields_count)?;
    let ghost m = idx as int;
    let methods_count = read_u16(bytes, &mut idx)?;
    let methods = parse_methods(bytes, &mut idx, methods_count)?;
    let ghost a = idx as int;
    let attributes_count = read_u16(bytes, &mut idx)?;
    let _attributes = parse_attributes(bytes, &mut idx, attributes_count)?;
    let c = Class {
        constant_pool_count,
        constant_pool,
        access_flags,
        this_class,
        super_class,
        interface_count,
        interfaces,
        fields,
        methods,
    };
    assert(class_layout(bytes@) == Some((p, p + 8 + 2 * interface_count, m, a)));
    Ok(c)
}

} // verus!
