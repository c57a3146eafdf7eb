//! Static archives in the format of `ar`.

use crate::common::text::{concat3, decimal, format_u64, own, str_eq, utf8_text};
use crate::driver::numbers::{number_or_zero, parse_or_zero, trim, trim_end, trimmed, trimmed_end};
use crate::driver::paths::{is_elf, starts_like_elf};
use vstd::prelude::*;
use vstd::string::*;
use vstd::utf8::*;

verus! {

/// A member of an archive.
#[derive(Debug)]
pub struct ArchiveMember {
    pub name: String,
    pub data: Vec<u8>,
}

/// The models of members.
pub open spec fn members_of(s: Seq<ArchiveMember>) -> Seq<(Seq<char>, Seq<u8>)> {
    s.map_values(|m: ArchiveMember| (m.name@, m.data@))
}

/// The text that bytes encode, or `otherwise`.
pub open spec fn text_or(bytes: Seq<u8>, otherwise: Seq<char>) -> Seq<char> {
    if valid_utf8(bytes) {
        decode_utf8(bytes)
    } else {
        otherwise
    }
}

/// How many bytes the header of a member takes.
pub const HEADER_SIZE: usize = 60;

/// Whether the header at `at` ends as a header must.
pub open spec fn is_header(data: Seq<u8>, at: int) -> bool {
    data[at + 58] == 0x60 && data[at + 59] == 0x0a
}

/// The size of the member whose header stands at `at`.
pub open spec fn member_size(data: Seq<u8>, at: int) -> nat {
    number_or_zero(trimmed(text_or(data.subrange(at + 48, at + 58), "0"@)))
}

/// The name in the header at `at`.
pub open spec fn header_name(data: Seq<u8>, at: int) -> Seq<char> {
    trimmed_end(text_or(data.subrange(at, at + 16), ""@))
}

/// Where a name in the table of long names ends.
pub open spec fn long_name_end(table: Seq<u8>, i: int) -> int
    decreases table.len() - i,
{
    if i < 0 || i >= table.len() {
        table.len() as int
    } else if table[i] == 0x2f || table[i] == 0x0a {
        i
    } else {
        long_name_end(table, i + 1)
    }
}

/// How many of the first `n` characters remain when slashes are taken off the
/// end.
pub open spec fn slash_end(s: Seq<char>, n: int) -> int
    decreases n,
{
    if n <= 0 || n > s.len() {
        0
    } else if s[n - 1] == '/' {
        slash_end(s, n - 1)
    } else {
        n
    }
}

/// The name of a member: what stands in its header without slashes at the end,
/// or, where the header refers to the table of long names, what stands there. A
/// reference outside the table gives a name by the count of members before.
pub open spec fn member_name(
    name: Seq<char>,
    table: Seq<u8>,
    archive: Seq<char>,
    count: nat,
) -> Seq<char> {
    if name.len() > 0 && name[0] == '/' {
        let at = number_or_zero(trimmed(name.skip(1))) as int;
        if at < table.len() {
            text_or(table.subrange(at, long_name_end(table, at)), "member.o"@)
        } else {
            archive + ":member_"@ + decimal(count)
        }
    } else {
        name.take(slash_end(name, name.len() as int))
    }
}

/// The smaller of two numbers.
pub open spec fn smaller(a: int, b: int) -> int {
    if a <= b {
        a
    } else {
        b
    }
}

/// An offset rounded up to an even one.
pub open spec fn even(n: int) -> int {
    if n % 2 == 0 {
        n
    } else {
        n + 1
    }
}

/// The object files of an archive from the header at `at` on, behind those that
/// were `found`. The symbol tables are passed over, the table of long names is
/// kept, and a header that does not end as one must ends the archive.
pub open spec fn members_from(
    data: Seq<u8>,
    at: int,
    table: Seq<u8>,
    found: Seq<(Seq<char>, Seq<u8>)>,
    archive: Seq<char>,
) -> Seq<(Seq<char>, Seq<u8>)>
    decreases data.len() - at,
{
    if at < 0 || at + 60 > data.len() || !is_header(data, at) {
        found
    } else {
        let size = member_size(data, at);
        let start = at + 60;
        let body = data.subrange(start, smaller(start + size, data.len() as int));
        let name = header_name(data, at);
        let is_table = name == "//"@;
        let is_member = !is_table && name != "/"@ && name != "/SYM64/"@ && is_elf(body);
        let table1 = if is_table {
            body
        } else {
            table
        };
        let found1 = if is_member {
            found.push((member_name(name, table, archive, found.len()), body))
        } else {
            found
        };
        let next = even(start + size);
        if next > data.len() {
            found1
        } else {
            members_from(data, next, table1, found1, archive)
        }
    }
}

fn copy_range(data: &Vec<u8>, from: usize, to: usize) -> (r: Vec<u8>)
    requires
        from <= to <= data@.len(),
    ensures
        r@ == data@.subrange(from as int, to as int),
{
    let mut out: Vec<u8> = Vec::new();
    let mut i: usize = from;
    while i < to
        invariant
            from <= i <= to <= data@.len(),
            out@ == data@.subrange(from as int, i as int),
        decreases to - i,
    {
        out.push(data[i]);
        i += 1;
        assert(out@ =~= data@.subrange(from as int, i as int));
    }
    out
}

fn text_or_else(bytes: &Vec<u8>, otherwise: &str) -> (r: String)
    ensures
        r@ == text_or(bytes@, otherwise@),
{
    match utf8_text(bytes.as_slice()) {
        Some(s) => s,
        None => own(otherwise),
    }
}

fn size_at(data: &Vec<u8>, at: usize) -> (r: usize)
    requires
        at + 60 <= data@.len(),
    ensures
        r == member_size(data@, at as int),
{
    let len: usize = data.len();
    assert(at + 60 <= len);
    let field: String = text_or_else(&copy_range(data, at + 48, at + 58), "0");
    parse_or_zero(trim(field.as_str()))
}

fn name_at(data: &Vec<u8>, at: usize) -> (r: String)
    requires
        at + 60 <= data@.len(),
    ensures
        r@ == header_name(data@, at as int),
{
    let len: usize = data.len();
    assert(at + 60 <= len);
    let field: String = text_or_else(&copy_range(data, at, at + 16), "");
    own(trim_end(field.as_str()))
}

fn find_long_name_end(table: &Vec<u8>, from: usize) -> (r: usize)
    requires
        from <= table@.len(),
    ensures
        r == long_name_end(table@, from as int),
        from <= r <= table@.len(),
{
    let mut i: usize = from;
    while i < table.len()
        invariant
            from <= i <= table@.len(),
            long_name_end(table@, i as int) == long_name_end(table@, from as int),
        decreases table@.len() - i,
    {
        if table[i] == 0x2f || table[i] == 0x0a {
            return i;
        }
        i += 1;
    }
    i
}

fn strip_slashes(s: &str) -> (r: &str)
    ensures
        r@ == s@.take(slash_end(s@, s@.len() as int)),
{
    let len: usize = s.unicode_len();
    let mut n: usize = len;
    while n > 0 && s.get_char(n - 1) == '/'
        invariant
            n <= len,
            len == s@.len(),
            slash_end(s@, n as int) == slash_end(s@, s@.len() as int),
        decreases n,
    {
        n = n - 1;
    }
    let t: &str = s.substring_char(0, n);
    assert(t@ =~= s@.take(n as int));
    t
}

fn name_member(name: &str, table: &Vec<u8>, archive: &str, count: usize) -> (r: String)
    ensures
        r@ == member_name(name@, table@, archive@, count as nat),
{
    let len: usize = name.unicode_len();
    if len > 0 && name.get_char(0) == '/' {
        let tail: &str = name.substring_char(1, len);
        assert(tail@ =~= name@.skip(1));
        let at: usize = parse_or_zero(trim(tail));
        if at < table.len() {
            let end: usize = find_long_name_end(table, at);
            text_or_else(&copy_range(table, at, end), "member.o")
        } else {
            let n: String = format_u64(count as u64);
            concat3(archive, ":member_", n.as_str())
        }
    } else {
        own(strip_slashes(name))
    }
}

/// The object files of an archive, which begins with an eight-byte mark.
pub fn parse_ar_archive(data: &Vec<u8>, archive: &str) -> (r: Vec<ArchiveMember>)
    ensures
        members_of(r@) == members_from(data@, 8, Seq::empty(), Seq::empty(), archive@),
{
    let mut found: Vec<ArchiveMember> = Vec::new();
    let mut table: Vec<u8> = Vec::new();
    let mut at: usize = 8;
    let len: usize = data.len();
    assert(members_of(found@) =~= Seq::empty());
    assert(table@ =~= Seq::empty());
    #[verifier::loop_isolation(false)]
    while at <= len && len - at >= HEADER_SIZE
        invariant
            len == data@.len(),
            members_from(data@, at as int, table@, members_of(found@), archive@) == members_from(
                data@,
                8,
                Seq::empty(),
                Seq::empty(),
                archive@,
            ),
        decreases len - at,
    {
        if data[at + 58] != 0x60 || data[at + 59] != 0x0a {
            return found;
        }
        let size: usize = size_at(data, at);
        let start: usize = at + HEADER_SIZE;
        let end: usize = if size < len - start {
            start + size
        } else {
            len
        };
        let name: String = name_at(data, at);
        let body: Vec<u8> = copy_range(data, start, end);
        let ghost before = members_of(found@);
        assert(members_of(found@).len() == found@.len());
        if str_eq(name.as_str(), "//") {
            table = body;
        } else if !str_eq(name.as_str(), "/") && !str_eq(name.as_str(), "/SYM64/")
            && starts_like_elf(&body) {
            let member: String = name_member(name.as_str(), &table, archive, found.len());
            let ghost entry = (member@, body@);
            found.push(ArchiveMember { name: member, data: body });
            assert(members_of(found@) =~= before.push(entry));
        }
        if size > len - start {
            return found;
        }
        at = start + size;
        if at % 2 != 0 {
            if at == len {
                return found;
            }
            at = at + 1;
        }
    }
    found
}

/// Every member that is found is an object file, and those found before stay.
pub proof fn lemma_members_are_objects(
    data: Seq<u8>,
    at: int,
    table: Seq<u8>,
    found: Seq<(Seq<char>, Seq<u8>)>,
    archive: Seq<char>,
)
    requires
        forall|i: int| 0 <= i < found.len() ==> is_elf((#[trigger] found[i]).1),
    ensures
        ({
            let all = members_from(data, at, table, found, archive);
            &&& forall|i: int| 0 <= i < all.len() ==> is_elf((#[trigger] all[i]).1)
            &&& found.is_prefix_of(all)
        }),
    decreases data.len() - at,
{
    if at < 0 || at + 60 > data.len() || !is_header(data, at) {
    } else {
        let size = member_size(data, at);
        let start = at + 60;
        let body = data.subrange(start, smaller(start + size, data.len() as int));
        let name = header_name(data, at);
        let is_table = name == "//"@;
        let is_member = !is_table && name != "/"@ && name != "/SYM64/"@ && is_elf(body);
        let table1 = if is_table {
            body
        } else {
            table
        };
        let found1 = if is_member {
            found.push((member_name(name, table, archive, found.len()), body))
        } else {
            found
        };
        let next = even(start + size);
        assert(found.is_prefix_of(found1));
        if next <= data.len() {
            lemma_members_are_objects(data, next, table1, found1, archive);
            let all = members_from(data, next, table1, found1, archive);
            assert(found.is_prefix_of(all)) by {
                assert(found1.is_prefix_of(all));
                assert(found =~= all.subrange(0, found.len() as int));
            }
        }
    }
}

} // verus!
