//! What the readers of numbers, names and files give back of what was written.

use crate::common::text::{decimal, digit_char};
use crate::driver::archive::{
    even, header_name, is_header, long_name_end, member_name, member_size, members_from, slash_end,
    text_or,
};
use crate::driver::elf::{half, long, text_at, word, zero_from};
use crate::driver::numbers::{
    blank_end, blank_start, digit_value, digits_value, is_blank, number, trimmed, trimmed_end,
};
use crate::driver::paths::{
    beside, component_start, extension_of, file_name, is_elf, last_dot, stem_of, trimmed_len,
};
use vstd::prelude::*;
use vstd::utf8::*;

verus! {

/// A number that was written in decimal reads back as itself.
pub proof fn lemma_decimal_reads_back(n: nat)
    requires
        n <= usize::MAX,
    ensures
        number(decimal(n)) == Some(n),
{
    lemma_decimal_digits(n);
    lemma_decimal_value(n);
    let s = decimal(n);
    assert(s.take(s.len() as int) =~= s);
    assert(digit_value(s[0]) is Some);
}

proof fn lemma_digit(d: nat)
    requires
        d < 10,
    ensures
        digit_value(digit_char(d)) == Some(d),
        !is_blank(digit_char(d)),
        digit_char(d) != '/',
        digit_char(d) != '+',
{
}

proof fn lemma_decimal_digits(n: nat)
    ensures
        decimal(n).len() > 0,
        forall|i: int|
            0 <= i < decimal(n).len() ==> digit_value(#[trigger] decimal(n)[i]) is Some
                && !is_blank(decimal(n)[i]) && decimal(n)[i] != '+',
    decreases n,
{
    if n < 10 {
        lemma_digit(n);
    } else {
        lemma_decimal_digits(n / 10);
        lemma_digit(n % 10);
        let before = decimal(n / 10);
        let s = decimal(n);
        assert forall|i: int| 0 <= i < s.len() implies digit_value(#[trigger] s[i]) is Some
            && !is_blank(s[i]) && s[i] != '+' by {
            if i < before.len() {
                assert(s[i] == before[i]);
            } else {
                assert(s[i] == digit_char(n % 10));
            }
        }
    }
}

/// The value of a text of digits, most significant first.
pub open spec fn value_of(s: Seq<char>) -> nat
    decreases s.len(),
{
    if s.len() == 0 {
        0
    } else {
        value_of(s.drop_last()) * 10 + match digit_value(s.last()) {
            Some(d) => d,
            None => 0,
        }
    }
}

proof fn lemma_value_of_decimal(n: nat)
    ensures
        value_of(decimal(n)) == n,
    decreases n,
{
    if n < 10 {
        lemma_digit(n);
        assert(decimal(n).drop_last() =~= Seq::<char>::empty());
        assert(value_of(decimal(n).drop_last()) == 0);
    } else {
        lemma_digit(n % 10);
        lemma_value_of_decimal(n / 10);
        assert(decimal(n).drop_last() =~= decimal(n / 10));
    }
}

proof fn lemma_digits_read(s: Seq<char>, i: int)
    requires
        0 <= i <= s.len(),
        value_of(s) <= usize::MAX,
        forall|k: int| 0 <= k < s.len() ==> digit_value(#[trigger] s[k]) is Some,
    ensures
        digits_value(s, i, value_of(s.take(i))) == Some(value_of(s)),
        value_of(s.take(i)) <= value_of(s),
    decreases s.len() - i,
{
    if i < s.len() {
        lemma_digits_read(s, i + 1);
        assert(s.take(i + 1).drop_last() =~= s.take(i));
        assert(s.take(i + 1).last() == s[i]);
        assert(digit_value(s[i]) is Some);
    } else {
        assert(s.take(i) =~= s);
    }
}

proof fn lemma_decimal_value(n: nat)
    requires
        n <= usize::MAX,
    ensures
        digits_value(decimal(n), 0, 0) == Some(n),
{
    let s = decimal(n);
    lemma_value_of_decimal(n);
    lemma_decimal_digits(n);
    lemma_digits_read(s, 0);
    assert(s.take(0) =~= Seq::<char>::empty());
}

/// A number that is larger by a digit is ten times the number and that digit.
pub proof fn lemma_number_grows_by_digits(s: Seq<char>, c: char, n: nat, d: nat)
    requires
        number(s) == Some(n),
        digit_value(c) == Some(d),
        n * 10 + d <= usize::MAX,
        s.len() > 0,
        s[0] != '+',
    ensures
        number(s.push(c)) == Some(n * 10 + d),
{
    lemma_digits_pushed(s, 0, 0, c, n, d);
    assert(s.push(c)[0] == s[0]);
}

proof fn lemma_digits_pushed(s: Seq<char>, i: int, so_far: nat, c: char, n: nat, d: nat)
    requires
        0 <= i <= s.len(),
        digits_value(s, i, so_far) == Some(n),
        digit_value(c) == Some(d),
        n * 10 + d <= usize::MAX,
    ensures
        digits_value(s.push(c), i, so_far) == Some(n * 10 + d),
    decreases s.len() - i,
{
    if i < s.len() {
        assert(s.push(c)[i] == s[i]);
        let e = digit_value(s[i])->0;
        lemma_digits_pushed(s, i + 1, so_far * 10 + e, c, n, d);
    } else {
        assert(s.push(c)[i] == c);
        assert(digits_value(s.push(c), i + 1, n * 10 + d) == Some(n * 10 + d));
    }
}

/// Whether a text consists of white space.
pub open spec fn all_blank(s: Seq<char>) -> bool {
    forall|i: int| 0 <= i < s.len() ==> is_blank(#[trigger] s[i])
}

/// Trimming takes off the white space around a text that neither begins nor ends
/// with some, and nothing else.
pub proof fn lemma_trimming_leaves_the_text(before: Seq<char>, s: Seq<char>, after: Seq<char>)
    requires
        all_blank(before),
        all_blank(after),
        s.len() > 0,
        !is_blank(s[0]),
        !is_blank(s.last()),
    ensures
        trimmed_end(before + s + after) == before + s,
        trimmed(before + s + after) == s,
{
    let all = before + s + after;
    let n = (before.len() + s.len()) as int;
    assert forall|i: int| n <= i < all.len() implies is_blank(#[trigger] all[i]) by {
        assert(all[i] == after[i - n]);
    }
    assert(all[n - 1] == s.last());
    lemma_blank_end(all, n, all.len() as int);
    let t = before + s;
    assert(all.take(n) =~= t);
    assert forall|i: int| 0 <= i < before.len() implies is_blank(#[trigger] t[i]) by {
        assert(t[i] == before[i]);
    }
    assert(t[before.len() as int] == s[0]);
    lemma_blank_start(t, 0, before.len() as int);
    assert(t.skip(before.len() as int) =~= s);
}

proof fn lemma_blank_end(s: Seq<char>, n: int, m: int)
    requires
        0 < n <= m <= s.len(),
        !is_blank(s[n - 1]),
        forall|i: int| n <= i < s.len() ==> is_blank(#[trigger] s[i]),
    ensures
        blank_end(s, m) == n,
    decreases m,
{
    if m > n {
        assert(is_blank(s[m - 1]));
        lemma_blank_end(s, n, m - 1);
    }
}

proof fn lemma_blank_start(s: Seq<char>, i: int, n: int)
    requires
        0 <= i <= n < s.len(),
        !is_blank(s[n]),
        forall|k: int| 0 <= k < n ==> is_blank(#[trigger] s[k]),
    ensures
        blank_start(s, i) == n,
    decreases n - i,
{
    if i < n {
        lemma_blank_start(s, i + 1, n);
    }
}

/// The number that bytes stand for, the least significant first.
pub open spec fn little_value(s: Seq<u8>) -> nat
    decreases s.len(),
{
    if s.len() == 0 {
        0
    } else {
        (s[0] + 256 * little_value(s.skip(1))) as nat
    }
}

/// A field of two, four or eight bytes stands for the number that its bytes give, in
/// one order or the other.
pub proof fn lemma_fields_are_numbers(data: Seq<u8>, at: int)
    requires
        0 <= at,
        at + 8 <= data.len(),
    ensures
        half(data, at, true) == little_value(data.subrange(at, at + 2)),
        half(data, at, false) == little_value(data.subrange(at, at + 2).reverse()),
        word(data, at, true) == little_value(data.subrange(at, at + 4)),
        word(data, at, false) == little_value(data.subrange(at, at + 4).reverse()),
        long(data, at, true) == little_value(data.subrange(at, at + 8)),
        long(data, at, false) == little_value(data.subrange(at, at + 8).reverse()),
{
    lemma_two(data.subrange(at, at + 2));
    lemma_two(data.subrange(at, at + 2).reverse());
    lemma_four(data.subrange(at, at + 4));
    lemma_four(data.subrange(at, at + 4).reverse());
    lemma_eight(data.subrange(at, at + 8));
    lemma_eight(data.subrange(at, at + 8).reverse());
}

proof fn lemma_two(s: Seq<u8>)
    requires
        s.len() == 2,
    ensures
        little_value(s) == s[0] + 256 * s[1],
{
    assert(s.skip(1)[0] == s[1]);
    assert(s.skip(1).skip(1).len() == 0);
    assert(little_value(s.skip(1).skip(1)) == 0);
    assert(little_value(s.skip(1)) == s[1]);
}

proof fn lemma_four(s: Seq<u8>)
    requires
        s.len() == 4,
    ensures
        little_value(s) == s[0] + 256 * s[1] + 0x1_0000 * s[2] + 0x100_0000 * s[3],
{
    let t = s.skip(1);
    let u = t.skip(1);
    lemma_two(u);
    assert(little_value(t) == t[0] + 256 * little_value(u));
}

proof fn lemma_eight(s: Seq<u8>)
    requires
        s.len() == 8,
    ensures
        little_value(s) == s[0] + 256 * s[1] + 0x1_0000 * s[2] + 0x100_0000 * s[3] + 0x1_0000_0000
            * s[4] + 0x100_0000_0000 * s[5] + 0x1_0000_0000_0000 * s[6] + 0x100_0000_0000_0000
            * s[7],
{
    let t = s.skip(1);
    let u = t.skip(1);
    let v = u.skip(1);
    let w = v.skip(1);
    lemma_four(w);
    assert(little_value(v) == v[0] + 256 * little_value(w));
    assert(little_value(u) == u[0] + 256 * little_value(v));
    assert(little_value(t) == t[0] + 256 * little_value(u));
}

/// A text that ends in front of the first zero byte reads back as the text that its
/// bytes encode.
pub proof fn lemma_text_ends_at_zero(before: Seq<u8>, text: Seq<u8>, after: Seq<u8>)
    requires
        forall|i: int| 0 <= i < text.len() ==> #[trigger] text[i] != 0,
        valid_utf8(text),
    ensures
        text_at(before + text + seq![0u8] + after, before.len()) == Some(decode_utf8(text)),
{
    let data = before + text + seq![0u8] + after;
    let end = (before.len() + text.len()) as int;
    assert(data[end] == 0);
    assert forall|i: int| before.len() <= i < end implies #[trigger] data[i] != 0 by {
        assert(data[i] == text[i - before.len()]);
    }
    lemma_zero_found(data, before.len() as int, end);
    assert(data.subrange(before.len() as int, end) =~= text);
}

proof fn lemma_zero_found(data: Seq<u8>, i: int, end: int)
    requires
        0 <= i <= end < data.len(),
        data[end] == 0,
        forall|k: int| i <= k < end ==> #[trigger] data[k] != 0,
    ensures
        zero_from(data, i) == end,
    decreases end - i,
{
    if i < end {
        assert(data[i] != 0);
        lemma_zero_found(data, i + 1, end);
    }
}

/// Whether a character does not occur in a text.
pub open spec fn lacks(s: Seq<char>, c: char) -> bool {
    forall|i: int| 0 <= i < s.len() ==> #[trigger] s[i] != c
}

/// A file name is its stem, a dot and its extension; one without a dot is all stem.
pub proof fn lemma_stem_and_extension(stem: Seq<char>, extension: Seq<char>)
    requires
        stem.len() > 0,
        lacks(extension, '.'),
    ensures
        stem_of(stem + seq!['.'] + extension) == stem,
        extension_of(stem + seq!['.'] + extension) == Some(extension),
        lacks(stem, '.') ==> stem_of(stem) == stem && extension_of(stem) is None,
{
    let name = stem + seq!['.'] + extension;
    let k = stem.len() as int;
    assert(name[k] == '.');
    assert forall|i: int| k < i < name.len() implies #[trigger] name[i] != '.' by {
        assert(name[i] == extension[i - k - 1]);
    }
    lemma_last_dot(name, k, name.len() as int);
    assert(name.take(k) =~= stem);
    assert(name.skip(k + 1) =~= extension);
    if lacks(stem, '.') {
        lemma_no_dot(stem, stem.len() as int);
    }
}

proof fn lemma_last_dot(s: Seq<char>, k: int, n: int)
    requires
        0 <= k < n <= s.len(),
        s[k] == '.',
        forall|i: int| k < i < s.len() ==> #[trigger] s[i] != '.',
    ensures
        last_dot(s, n) == Some(k),
    decreases n,
{
    if n - 1 > k {
        assert(s[n - 1] != '.');
        lemma_last_dot(s, k, n - 1);
    }
}

proof fn lemma_no_dot(s: Seq<char>, n: int)
    requires
        0 <= n <= s.len(),
        lacks(s, '.'),
    ensures
        last_dot(s, n) is None,
    decreases n,
{
    if n > 0 {
        assert(s[n - 1] != '.');
        lemma_no_dot(s, n - 1);
    }
}

/// The file that a path names is what stands behind its last slash, and a file beside
/// it has the same directory in front.
pub proof fn lemma_path_is_directory_and_name(dir: Seq<char>, name: Seq<char>, other: Seq<char>)
    requires
        dir.len() > 0,
        dir.last() != '/',
        dir.len() > 1 ==> dir.last() != '.' || dir[dir.len() - 2] != '/',
        name.len() > 0,
        lacks(name, '/'),
        name != "."@,
        name != ".."@,
    ensures
        file_name(dir + seq!['/'] + name) == Some(name),
        file_name(name) == Some(name),
        beside(dir + seq!['/'] + name, other) == dir + seq!['/'] + other,
        beside(name, other) == other,
{
    reveal_strlit("");
    reveal_strlit(".");
    reveal_strlit("/");
    assert("/"@ =~= seq!['/']);
    assert(name.len() == 1 && name[0] == '.' ==> name =~= "."@);
    let path = dir + seq!['/'] + name;
    let n = path.len() as int;
    let k = (dir.len() + 1) as int;
    assert forall|i: int| k <= i < n implies #[trigger] path[i] != '/' by {
        assert(path[i] == name[i - k]);
    }
    assert(path[k - 1] == '/');
    assert(path[n - 1] == name.last());
    if n - 2 >= k {
        assert(path[n - 2] == name[name.len() - 2]);
    }
    assert(trimmed_len(path, n) == n);
    lemma_component(path, k, n);
    assert(path.subrange(k, n) =~= name);
    assert(path[k - 2] == dir.last());
    if dir.len() > 1 {
        assert(path[k - 3] == dir[dir.len() - 2]);
    }
    assert(trimmed_len(path, k - 1) == k - 1);
    assert(trimmed_len(path, k) == k - 1);
    assert(path.take(k - 1) =~= dir);
    let m = name.len() as int;
    assert(name.last() != '/');
    if m >= 2 {
        assert(name[m - 2] != '/');
    }
    assert(trimmed_len(name, m) == m);
    lemma_whole_component(name, m);
    assert(name.subrange(0, m) =~= name);
}

proof fn lemma_component(s: Seq<char>, k: int, n: int)
    requires
        0 < k <= n <= s.len(),
        s[k - 1] == '/',
        forall|i: int| k <= i < s.len() ==> #[trigger] s[i] != '/',
    ensures
        component_start(s, n) == k,
    decreases n,
{
    if n > k {
        assert(s[n - 1] != '/');
        lemma_component(s, k, n - 1);
    }
}

proof fn lemma_whole_component(s: Seq<char>, n: int)
    requires
        0 <= n <= s.len(),
        lacks(s, '/'),
    ensures
        component_start(s, n) == 0,
    decreases n,
{
    if n > 0 {
        assert(s[n - 1] != '/');
        lemma_whole_component(s, n - 1);
    }
}

/// An object in an archive whose header gives its size in decimal and its name with a
/// slash behind it is read back with that name and that many bytes, and the next
/// header is looked for at the even place behind it.
pub proof fn lemma_archive_member_is_read(
    data: Seq<u8>,
    at: int,
    table: Seq<u8>,
    found: Seq<(Seq<char>, Seq<u8>)>,
    archive: Seq<char>,
    name: Seq<char>,
    size: nat,
    blanks: Seq<char>,
    more: Seq<char>,
)
    requires
        0 <= at,
        at + 60 + size <= data.len(),
        even(at + 60 + size) <= data.len(),
        size <= usize::MAX,
        is_header(data, at),
        all_blank(blanks),
        all_blank(more),
        text_or(data.subrange(at + 48, at + 58), "0"@) == decimal(size) + blanks,
        text_or(data.subrange(at, at + 16), ""@) == name + seq!['/'] + more,
        name.len() > 0,
        name[0] != '/',
        name.last() != '/',
        is_elf(data.subrange(at + 60, at + 60 + size)),
    ensures
        members_from(data, at, table, found, archive) == members_from(
            data,
            even(at + 60 + size),
            table,
            found.push((name, data.subrange(at + 60, at + 60 + size))),
            archive,
        ),
{
    reveal_strlit("//");
    reveal_strlit("/");
    reveal_strlit("/SYM64/");
    lemma_decimal_digits(size);
    let none = Seq::<char>::empty();
    let digits = decimal(size);
    assert(none + digits + blanks =~= digits + blanks);
    lemma_trimming_leaves_the_text(none, digits, blanks);
    lemma_decimal_reads_back(size);
    assert(member_size(data, at) == size);
    let full = name + seq!['/'];
    assert(full.last() == '/');
    let text = full + more;
    let n = full.len() as int;
    assert forall|i: int| n <= i < text.len() implies is_blank(#[trigger] text[i]) by {
        assert(text[i] == more[i - n]);
    }
    assert(text[n - 1] == '/');
    lemma_blank_end(text, n, text.len() as int);
    assert(text.take(n) =~= full);
    assert(header_name(data, at) == full);
    assert(full[0] == name[0]);
    assert("//"@[0] == '/' && "/"@[0] == '/' && "/SYM64/"@[0] == '/');
    assert(full[n - 2] == name.last());
    assert(slash_end(full, n) == n - 1) by {
        assert(slash_end(full, n - 1) == n - 1);
    }
    assert(full.take(n - 1) =~= name);
    assert(member_name(full, table, archive, found.len()) == name);
}

/// A name that refers to the table of long names is what stands there, up to a slash.
pub proof fn lemma_long_name_is_read(
    before: Seq<u8>,
    name: Seq<u8>,
    after: Seq<u8>,
    archive: Seq<char>,
    count: nat,
)
    requires
        forall|i: int| 0 <= i < name.len() ==> #[trigger] name[i] != 0x2f && name[i] != 0x0a,
        valid_utf8(name),
        before.len() <= usize::MAX,
    ensures
        member_name(
            seq!['/'] + decimal(before.len()),
            before + name + seq![0x2fu8] + after,
            archive,
            count,
        ) == decode_utf8(name),
{
    let table = before + name + seq![0x2fu8] + after;
    let text = seq!['/'] + decimal(before.len());
    let at = before.len() as int;
    let end = (before.len() + name.len()) as int;
    let none = Seq::<char>::empty();
    lemma_decimal_digits(before.len());
    lemma_decimal_reads_back(before.len());
    let digits = decimal(before.len());
    assert(text.skip(1) =~= digits);
    assert(none + digits + none =~= digits);
    lemma_trimming_leaves_the_text(none, digits, none);
    assert(table[end] == 0x2f);
    assert forall|i: int| at <= i < end implies #[trigger] table[i] != 0x2f && table[i] != 0x0a by {
        assert(table[i] == name[i - at]);
    }
    lemma_long_end(table, at, end);
    assert(table.subrange(at, end) =~= name);
}

proof fn lemma_long_end(table: Seq<u8>, i: int, end: int)
    requires
        0 <= i <= end < table.len(),
        table[end] == 0x2f,
        forall|k: int| i <= k < end ==> #[trigger] table[k] != 0x2f && table[k] != 0x0a,
    ensures
        long_name_end(table, i) == end,
    decreases end - i,
{
    if i < end {
        assert(table[i] != 0x2f);
        lemma_long_end(table, i + 1, end);
    }
}

} // verus!
