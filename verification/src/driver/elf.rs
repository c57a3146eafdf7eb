//! The name that a shared object gives itself.

use crate::common::text::{opt_chars, utf8_text};
use crate::driver::paths::{is_elf, starts_like_elf};
use vstd::prelude::*;
use vstd::string::*;
use vstd::utf8::*;

verus! {

/// The number in two bytes at `at`.
pub open spec fn half(data: Seq<u8>, at: int, little: bool) -> nat {
    if little {
        (data[at] + 256 * data[at + 1]) as nat
    } else {
        (256 * data[at] + data[at + 1]) as nat
    }
}

/// The number in four bytes at `at`.
pub open spec fn word(data: Seq<u8>, at: int, little: bool) -> nat {
    if little {
        half(data, at, little) + 65536 * half(data, at + 2, little)
    } else {
        65536 * half(data, at, little) + half(data, at + 2, little)
    }
}

/// The number in eight bytes at `at`.
pub open spec fn long(data: Seq<u8>, at: int, little: bool) -> nat {
    if little {
        word(data, at, little) + 0x1_0000_0000 * word(data, at + 4, little)
    } else {
        0x1_0000_0000 * word(data, at, little) + word(data, at + 4, little)
    }
}

/// How the fields of a file are laid out.
#[derive(Clone, Copy, Debug, PartialEq, Eq, Structural)]
pub struct Layout {
    /// Whether addresses take eight bytes and not four.
    pub wide: bool,
    /// Whether the least significant byte comes first.
    pub little: bool,
}

/// An address or offset field at `at`.
pub open spec fn address(data: Seq<u8>, at: int, l: Layout) -> nat {
    if l.wide {
        long(data, at, l.little)
    } else {
        word(data, at, l.little)
    }
}

/// The layout of a file.
pub open spec fn layout_of(data: Seq<u8>) -> Layout {
    Layout { wide: data[4] == 2, little: data[5] == 1 }
}

/// Where the segment headers begin, how long one is, and how many there are.
pub open spec fn segments_of(data: Seq<u8>, l: Layout) -> (nat, nat, nat) {
    if l.wide {
        (address(data, 32, l), half(data, 54, l.little), half(data, 56, l.little))
    } else {
        (address(data, 28, l), half(data, 42, l.little), half(data, 44, l.little))
    }
}

/// What a segment header says.
pub struct Segment {
    pub kind: nat,
    pub offset: nat,
    pub address: nat,
    pub size: nat,
}

/// How far the fields of a segment header reach that are read here.
pub open spec fn segment_reach(l: Layout) -> int {
    if l.wide {
        40
    } else {
        20
    }
}

/// The segment header at `base`.
pub open spec fn segment_at(data: Seq<u8>, base: int, l: Layout) -> Segment {
    if l.wide {
        Segment {
            kind: word(data, base, l.little),
            offset: address(data, base + 8, l),
            address: address(data, base + 16, l),
            size: address(data, base + 32, l),
        }
    } else {
        Segment {
            kind: word(data, base, l.little),
            offset: address(data, base + 4, l),
            address: address(data, base + 8, l),
            size: address(data, base + 16, l),
        }
    }
}

/// Where the dynamic section lies, by the first of `left` segment headers from
/// `base` on that says so. A header that is cut off ends the search, and so does
/// one whose fields the file does not hold.
pub open spec fn dynamic_from(data: Seq<u8>, l: Layout, base: int, step: nat, left: nat) -> Option<
    (nat, nat),
>
    decreases left,
{
    if left == 0 || base < 0 || base + step > data.len() || base + 4 > data.len() {
        None
    } else if word(data, base, l.little) == 2 {
        if base + segment_reach(l) > data.len() {
            None
        } else {
            let s = segment_at(data, base, l);
            Some((s.offset, s.size))
        }
    } else {
        dynamic_from(data, l, base + step, step, (left - 1) as nat)
    }
}

/// What the dynamic section says of the name and of the strings.
pub struct Entries {
    pub name: Option<nat>,
    pub strings: nat,
}

/// How long an entry of the dynamic section is.
pub open spec fn entry_size(l: Layout) -> int {
    if l.wide {
        16
    } else {
        8
    }
}

/// The entries of the dynamic section from `at` up to `end`, behind `e`. An entry
/// of kind zero ends them; of several of one kind the last counts.
pub open spec fn entries_from(data: Seq<u8>, l: Layout, at: int, end: int, e: Entries) -> Entries
    decreases data.len() - at,
{
    if at < 0 || at + entry_size(l) > data.len() || at >= end {
        e
    } else {
        let tag = address(data, at, l);
        let value = address(data, at + entry_size(l) / 2, l);
        if tag == 0 {
            e
        } else {
            let next = if tag == 14 {
                Entries { name: Some(value), ..e }
            } else if tag == 5 {
                Entries { strings: value, ..e }
            } else {
                e
            };
            entries_from(data, l, at + entry_size(l), end, next)
        }
    }
}

/// The place in the file of what is loaded at `wanted`, by the first of `left`
/// segment headers from `base` on whose segment holds it.
pub open spec fn file_offset_from(
    data: Seq<u8>,
    l: Layout,
    base: int,
    step: nat,
    left: nat,
    wanted: nat,
) -> Option<nat>
    decreases left,
{
    if left == 0 || base < 0 || base + step > data.len() || base + 4 > data.len() {
        None
    } else if word(data, base, l.little) == 1 {
        if base + segment_reach(l) > data.len() {
            None
        } else {
            let s = segment_at(data, base, l);
            if s.address <= wanted < s.address + s.size {
                Some((s.offset + (wanted - s.address)) as nat)
            } else {
                file_offset_from(data, l, base + step, step, (left - 1) as nat, wanted)
            }
        }
    } else {
        file_offset_from(data, l, base + step, step, (left - 1) as nat, wanted)
    }
}

/// Where the first zero byte from `i` on stands, or the end.
pub open spec fn zero_from(data: Seq<u8>, i: int) -> int
    decreases data.len() - i,
{
    if i < 0 || i >= data.len() {
        data.len() as int
    } else if data[i] == 0 {
        i
    } else {
        zero_from(data, i + 1)
    }
}

/// The text that begins at `start` and ends in front of a zero byte.
pub open spec fn text_at(data: Seq<u8>, start: nat) -> Option<Seq<char>> {
    if start >= data.len() {
        None
    } else {
        let bytes = data.subrange(start as int, zero_from(data, start as int));
        if valid_utf8(bytes) {
            Some(decode_utf8(bytes))
        } else {
            None
        }
    }
}

/// The name that a shared object gives itself, if it gives one.
pub open spec fn soname(data: Seq<u8>) -> Option<Seq<char>> {
    if data.len() < 64 || !is_elf(data) {
        None
    } else {
        let l = layout_of(data);
        let (first, step, count) = segments_of(data, l);
        match dynamic_from(data, l, first as int, step, count) {
            None => None,
            Some((offset, size)) => if offset == 0 || size == 0 {
                None
            } else {
                let e = entries_from(
                    data,
                    l,
                    offset as int,
                    (offset + size) as int,
                    Entries { name: None, strings: 0 },
                );
                if e.name is None || e.strings == 0 {
                    None
                } else {
                    match file_offset_from(data, l, first as int, step, count, e.strings) {
                        Some(base) => text_at(data, base + e.name->0),
                        None => None,
                    }
                }
            },
        }
    }
}

fn read_half(data: &Vec<u8>, at: usize, little: bool) -> (r: u16)
    requires
        at + 2 <= data@.len(),
    ensures
        r == half(data@, at as int, little),
{
    let len: usize = data.len();
    assert(at + 2 <= len);
    if little {
        data[at] as u16 + 256 * data[at + 1] as u16
    } else {
        256 * data[at] as u16 + data[at + 1] as u16
    }
}

fn read_word(data: &Vec<u8>, at: usize, little: bool) -> (r: u32)
    requires
        at + 4 <= data@.len(),
    ensures
        r == word(data@, at as int, little),
{
    let len: usize = data.len();
    assert(at + 4 <= len);
    let a: u32 = read_half(data, at, little) as u32;
    let b: u32 = read_half(data, at + 2, little) as u32;
    if little {
        a + 65536 * b
    } else {
        65536 * a + b
    }
}

fn read_address(data: &Vec<u8>, at: usize, l: Layout) -> (r: u64)
    requires
        at + (if l.wide {
            8int
        } else {
            4int
        }) <= data@.len(),
    ensures
        r == address(data@, at as int, l),
{
    let len: usize = data.len();
    assert(at + 4 <= len);
    if l.wide {
        let a: u64 = read_word(data, at, l.little) as u64;
        let b: u64 = read_word(data, at + 4, l.little) as u64;
        if l.little {
            a + 0x1_0000_0000 * b
        } else {
            0x1_0000_0000 * a + b
        }
    } else {
        read_word(data, at, l.little) as u64
    }
}

/// What a segment header says.
struct SegmentFields {
    offset: u64,
    address: u64,
    size: u64,
}

fn read_segment(data: &Vec<u8>, base: usize, l: Layout) -> (r: SegmentFields)
    requires
        base + segment_reach(l) <= data@.len(),
    ensures
        r.offset == segment_at(data@, base as int, l).offset,
        r.address == segment_at(data@, base as int, l).address,
        r.size == segment_at(data@, base as int, l).size,
{
    let len: usize = data.len();
    assert(base + segment_reach(l) <= len);
    if l.wide {
        SegmentFields {
            offset: read_address(data, base + 8, l),
            address: read_address(data, base + 16, l),
            size: read_address(data, base + 32, l),
        }
    } else {
        SegmentFields {
            offset: read_address(data, base + 4, l),
            address: read_address(data, base + 8, l),
            size: read_address(data, base + 16, l),
        }
    }
}

fn holds(len: usize, at: usize, n: usize) -> (r: bool)
    ensures
        r == (at + n <= len),
{
    at <= len && n <= len - at
}

fn find_dynamic(data: &Vec<u8>, l: Layout, first: u64, step: u16, count: u16) -> (r: Option<
    (u64, u64),
>)
    ensures
        match r {
            Some((offset, size)) => dynamic_from(
                data@,
                l,
                first as int,
                step as nat,
                count as nat,
            ) == Some((offset as nat, size as nat)),
            None => dynamic_from(data@, l, first as int, step as nat, count as nat) is None,
        },
{
    let len: usize = data.len();
    if first > len as u64 {
        return None;
    }
    let reach: usize = if l.wide {
        40
    } else {
        20
    };
    let mut base: usize = first as usize;
    let mut left: u16 = count;
    while left > 0
        invariant
            len == data@.len(),
            base <= len,
            reach == segment_reach(l),
            dynamic_from(data@, l, base as int, step as nat, left as nat) == dynamic_from(
                data@,
                l,
                first as int,
                step as nat,
                count as nat,
            ),
        decreases left,
    {
        if !holds(len, base, step as usize) || !holds(len, base, 4) {
            return None;
        }
        if read_word(data, base, l.little) == 2 {
            if !holds(len, base, reach) {
                return None;
            }
            let s: SegmentFields = read_segment(data, base, l);
            return Some((s.offset, s.size));
        }
        base = base + step as usize;
        left = left - 1;
    }
    None
}

fn find_file_offset(
    data: &Vec<u8>,
    l: Layout,
    first: u64,
    step: u16,
    count: u16,
    wanted: u64,
) -> (r: Option<u128>)
    ensures
        match r {
            Some(at) => file_offset_from(
                data@,
                l,
                first as int,
                step as nat,
                count as nat,
                wanted as nat,
            ) == Some(at as nat) && at <= 2 * u64::MAX,
            None => file_offset_from(
                data@,
                l,
                first as int,
                step as nat,
                count as nat,
                wanted as nat,
            ) is None,
        },
{
    let len: usize = data.len();
    if first > len as u64 {
        return None;
    }
    let reach: usize = if l.wide {
        40
    } else {
        20
    };
    let mut base: usize = first as usize;
    let mut left: u16 = count;
    while left > 0
        invariant
            len == data@.len(),
            base <= len,
            reach == segment_reach(l),
            file_offset_from(data@, l, base as int, step as nat, left as nat, wanted as nat)
                == file_offset_from(
                data@,
                l,
                first as int,
                step as nat,
                count as nat,
                wanted as nat,
            ),
        decreases left,
    {
        if !holds(len, base, step as usize) || !holds(len, base, 4) {
            return None;
        }
        if read_word(data, base, l.little) == 1 {
            if !holds(len, base, reach) {
                return None;
            }
            let s: SegmentFields = read_segment(data, base, l);
            if s.address <= wanted && wanted - s.address < s.size {
                return Some(s.offset as u128 + (wanted - s.address) as u128);
            }
        }
        base = base + step as usize;
        left = left - 1;
    }
    None
}

fn read_entries(data: &Vec<u8>, l: Layout, offset: u64, size: u64) -> (r: (Option<u64>, u64))
    ensures
        ({
            let e = entries_from(
                data@,
                l,
                offset as int,
                offset + size,
                Entries { name: None, strings: 0 },
            );
            &&& r.1 == e.strings
            &&& (match r.0 {
                Some(n) => e.name == Some(n as nat),
                None => e.name is None,
            })
        }),
{
    let len: usize = data.len();
    let mut name: Option<u64> = None;
    let mut strings: u64 = 0;
    if offset > len as u64 {
        return (name, strings);
    }
    let step: usize = if l.wide {
        16
    } else {
        8
    };
    let end: u128 = offset as u128 + size as u128;
    let mut at: usize = offset as usize;
    let ghost start = Entries { name: None, strings: 0 };
    let ghost mut e = start;
    while holds(len, at, step) && (at as u128) < end
        invariant
            len == data@.len(),
            at <= len,
            step == entry_size(l),
            end == offset + size,
            start == (Entries { name: None, strings: 0 }),
            e.strings == strings,
            match name {
                Some(n) => e.name == Some(n as nat),
                None => e.name is None,
            },
            entries_from(data@, l, at as int, end as int, e) == entries_from(
                data@,
                l,
                offset as int,
                offset + size,
                start,
            ),
        decreases len - at,
    {
        let tag: u64 = read_address(data, at, l);
        let value: u64 = read_address(data, at + step / 2, l);
        if tag == 0 {
            return (name, strings);
        }
        if tag == 14 {
            name = Some(value);
            proof {
                e = Entries { name: Some(value as nat), ..e };
            }
        } else if tag == 5 {
            strings = value;
            proof {
                e = Entries { strings: value as nat, ..e };
            }
        }
        at = at + step;
    }
    (name, strings)
}

fn read_text(data: &Vec<u8>, start: u128) -> (r: Option<String>)
    ensures
        opt_chars(r) == text_at(data@, start as nat),
{
    let len: usize = data.len();
    if start >= len as u128 {
        return None;
    }
    let from: usize = start as usize;
    let mut bytes: Vec<u8> = Vec::new();
    let mut i: usize = from;
    assert(bytes@ =~= data@.subrange(from as int, i as int));
    while i < len && data[i] != 0
        invariant
            len == data@.len(),
            from <= i <= len,
            bytes@ == data@.subrange(from as int, i as int),
            zero_from(data@, i as int) == zero_from(data@, from as int),
        decreases len - i,
    {
        bytes.push(data[i]);
        i += 1;
        assert(bytes@ =~= data@.subrange(from as int, i as int));
    }
    utf8_text(bytes.as_slice())
}

/// The name that a shared object gives itself, if it gives one.
pub fn extract_elf_soname(data: &Vec<u8>) -> (r: Option<String>)
    ensures
        opt_chars(r) == soname(data@),
{
    if data.len() < 64 || !starts_like_elf(data) {
        return None;
    }
    let l = Layout { wide: data[4] == 2, little: data[5] == 1 };
    let (first, step, count): (u64, u16, u16) = if l.wide {
        (read_address(data, 32, l), read_half(data, 54, l.little), read_half(data, 56, l.little))
    } else {
        (read_address(data, 28, l), read_half(data, 42, l.little), read_half(data, 44, l.little))
    };
    match find_dynamic(data, l, first, step, count) {
        None => None,
        Some((offset, size)) => {
            if offset == 0 || size == 0 {
                return None;
            }
            let (name, strings) = read_entries(data, l, offset, size);
            match name {
                None => None,
                Some(n) => {
                    if strings == 0 {
                        return None;
                    }
                    match find_file_offset(data, l, first, step, count, strings) {
                        Some(base) => read_text(data, base + n as u128),
                        None => None,
                    }
                },
            }
        },
    }
}

} // verus!
