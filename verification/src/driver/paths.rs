//! File names, and what follows from them.

use crate::common::text::{concat3, ends_with, has_suffix, opt_chars, own, str_eq};
use crate::driver::args::{opt_view, CliArgs, CliModel};
use vstd::prelude::*;
use vstd::string::*;

verus! {

/// How many of the first `n` characters remain when slashes, and dots that
/// follow a slash and stand alone, are taken off the end.
pub open spec fn trimmed_len(s: Seq<char>, n: int) -> int
    decreases n,
{
    if n <= 0 || n > s.len() {
        0
    } else if s[n - 1] == '/' {
        trimmed_len(s, n - 1)
    } else if n >= 2 && s[n - 1] == '.' && s[n - 2] == '/' {
        trimmed_len(s, n - 1)
    } else {
        n
    }
}

/// Where the last component of the first `n` characters begins.
pub open spec fn component_start(s: Seq<char>, n: int) -> int
    decreases n,
{
    if n <= 0 || n > s.len() {
        0
    } else if s[n - 1] == '/' {
        n
    } else {
        component_start(s, n - 1)
    }
}

/// The last component of a path, if it names a file.
pub open spec fn file_name(path: Seq<char>) -> Option<Seq<char>> {
    let n = trimmed_len(path, path.len() as int);
    let name = path.subrange(component_start(path, n), n);
    if name == ""@ || name == "."@ || name == ".."@ {
        None
    } else {
        Some(name)
    }
}

/// Where the last dot of the first `n` characters stands.
pub open spec fn last_dot(s: Seq<char>, n: int) -> Option<int>
    decreases n,
{
    if n <= 0 || n > s.len() {
        None
    } else if s[n - 1] == '.' {
        Some(n - 1)
    } else {
        last_dot(s, n - 1)
    }
}

/// A file name without its extension. A dot in front begins no extension.
pub open spec fn stem_of(name: Seq<char>) -> Seq<char> {
    match last_dot(name, name.len() as int) {
        Some(k) => if k > 0 {
            name.take(k)
        } else {
            name
        },
        None => name,
    }
}

/// The extension of a file name.
pub open spec fn extension_of(name: Seq<char>) -> Option<Seq<char>> {
    match last_dot(name, name.len() as int) {
        Some(k) => if k > 0 {
            Some(name.skip(k + 1))
        } else {
            None
        },
        None => None,
    }
}

/// The stem of the file that a path names, or `output`.
pub open spec fn path_stem(path: Seq<char>) -> Seq<char> {
    match file_name(path) {
        Some(name) => stem_of(name),
        None => "output"@,
    }
}

/// The path of a file in the directory of another.
pub open spec fn beside(path: Seq<char>, name: Seq<char>) -> Seq<char> {
    let n = trimmed_len(path, path.len() as int);
    let start = component_start(path, n);
    let dir = trimmed_len(path, start);
    if n == 0 {
        "./"@ + name
    } else if dir > 0 {
        path.take(dir) + "/"@ + name
    } else if start > 0 {
        "/"@ + name
    } else {
        name
    }
}

/// Where the dependency file of an output goes if nothing else is said.
pub open spec fn default_depfile(path: Seq<char>) -> Seq<char> {
    beside(path, "."@ + path_stem(path) + ".o.d"@)
}

/// Whether a file is passed to the linker as it is: by its extension, or by its
/// first bytes where it has none of these.
pub open spec fn is_object(path: Seq<char>, start: Option<Seq<u8>>) -> bool {
    let ext = match file_name(path) {
        Some(name) => extension_of(name),
        None => None,
    };
    ||| ext == Some("o"@)
    ||| ext == Some("a"@)
    ||| ext == Some("so"@)
    ||| (start is Some && is_elf(start->0))
}

/// Whether bytes begin like an ELF file.
pub open spec fn is_elf(bytes: Seq<u8>) -> bool {
    bytes.len() >= 4 && bytes[0] == 0x7f && bytes[1] == 0x45 && bytes[2] == 0x4c && bytes[3] == 0x46
}

/// Whether a file holds assembly.
pub open spec fn is_assembly(path: Seq<char>) -> bool {
    has_suffix(path, ".s"@) || has_suffix(path, ".S"@)
}

/// The name of the output of one of several inputs.
pub open spec fn derived_output(cli: CliModel, input: Seq<char>) -> Seq<char> {
    if cli.switches.emit_assembly {
        path_stem(input) + ".s"@
    } else {
        path_stem(input) + ".o"@
    }
}

/// Where the output goes; `None` is the standard output.
pub open spec fn output_path(cli: CliModel) -> Option<Seq<char>> {
    if cli.slots.output_file is Some {
        cli.slots.output_file
    } else if cli.switches.preprocess_only {
        None
    } else if cli.lists.input_files.len() > 0 && (cli.switches.emit_assembly
        || cli.switches.compile_only) {
        Some(derived_output(cli, cli.lists.input_files[0]))
    } else {
        Some("a.out"@)
    }
}

fn trim_path(s: &str, end: usize) -> (r: usize)
    requires
        end <= s@.len(),
    ensures
        r == trimmed_len(s@, end as int),
        r <= end,
{
    let mut n: usize = end;
    while n > 0
        invariant
            n <= end <= s@.len(),
            trimmed_len(s@, n as int) == trimmed_len(s@, end as int),
        decreases n,
    {
        if s.get_char(n - 1) == '/' {
            n = n - 1;
        } else if n >= 2 && s.get_char(n - 1) == '.' && s.get_char(n - 2) == '/' {
            n = n - 1;
        } else {
            return n;
        }
    }
    n
}

fn start_of_component(s: &str, end: usize) -> (r: usize)
    requires
        end <= s@.len(),
    ensures
        r == component_start(s@, end as int),
        r <= end,
{
    let mut n: usize = end;
    while n > 0
        invariant
            n <= end <= s@.len(),
            component_start(s@, n as int) == component_start(s@, end as int),
        decreases n,
    {
        if s.get_char(n - 1) == '/' {
            return n;
        }
        n = n - 1;
    }
    n
}

/// The last component of a path, if it names a file.
pub fn name_of_file(path: &str) -> (r: Option<&str>)
    ensures
        opt_view(r) == file_name(path@),
{
    let n: usize = trim_path(path, path.unicode_len());
    let start: usize = start_of_component(path, n);
    let name: &str = path.substring_char(start, n);
    if str_eq(name, "") || str_eq(name, ".") || str_eq(name, "..") {
        None
    } else {
        Some(name)
    }
}

fn find_last_dot(s: &str) -> (r: Option<usize>)
    ensures
        match r {
            Some(k) => last_dot(s@, s@.len() as int) == Some(k as int) && k < s@.len(),
            None => last_dot(s@, s@.len() as int) is None,
        },
{
    let len: usize = s.unicode_len();
    let mut n: usize = len;
    while n > 0
        invariant
            n <= len,
            len == s@.len(),
            last_dot(s@, n as int) == last_dot(s@, s@.len() as int),
        decreases n,
    {
        if s.get_char(n - 1) == '.' {
            return Some(n - 1);
        }
        n = n - 1;
    }
    None
}

fn stem_of_name(name: &str) -> (r: &str)
    ensures
        r@ == stem_of(name@),
{
    match find_last_dot(name) {
        Some(k) => {
            if k > 0 {
                let stem: &str = name.substring_char(0, k);
                assert(stem@ =~= name@.take(k as int));
                stem
            } else {
                name
            }
        },
        None => name,
    }
}

fn extension_of_name(name: &str) -> (r: Option<&str>)
    ensures
        opt_view(r) == extension_of(name@),
{
    match find_last_dot(name) {
        Some(k) => {
            if k > 0 {
                let n: usize = name.unicode_len();
                let ext: &str = name.substring_char(k + 1, n);
                assert(ext@ =~= name@.skip(k + 1));
                Some(ext)
            } else {
                None
            }
        },
        None => None,
    }
}

/// The stem of the file that a path names, or `output`.
pub fn stem_of_path(path: &str) -> (r: String)
    ensures
        r@ == path_stem(path@),
{
    match name_of_file(path) {
        Some(name) => own(stem_of_name(name)),
        None => own("output"),
    }
}

fn put_beside(path: &str, name: &str) -> (r: String)
    ensures
        r@ == beside(path@, name@),
{
    let len: usize = path.unicode_len();
    let n: usize = trim_path(path, len);
    let start: usize = start_of_component(path, n);
    let dir: usize = trim_path(path, start);
    let mut s: String = String::new();
    if n == 0 {
        s.append("./");
    } else if dir > 0 {
        let parent: &str = path.substring_char(0, dir);
        assert(parent@ =~= path@.take(dir as int));
        s.append(parent);
        s.append("/");
    } else if start > 0 {
        s.append("/");
    }
    s.append(name);
    assert(s@ =~= beside(path@, name@));
    s
}

/// Where the dependency file of an output goes if nothing else is said.
pub fn default_depfile_path(path: &str) -> (r: String)
    ensures
        r@ == default_depfile(path@),
{
    let stem: String = stem_of_path(path);
    let name: String = concat3(".", stem.as_str(), ".o.d");
    put_beside(path, name.as_str())
}

/// Whether bytes begin like an ELF file.
pub fn starts_like_elf(bytes: &Vec<u8>) -> (r: bool)
    ensures
        r == is_elf(bytes@),
{
    bytes.len() >= 4 && bytes[0] == 0x7f && bytes[1] == 0x45 && bytes[2] == 0x4c && bytes[3]
        == 0x46
}

/// The bytes behind an option.
pub open spec fn opt_bytes(b: Option<Vec<u8>>) -> Option<Seq<u8>> {
    match b {
        Some(v) => Some(v@),
        None => None,
    }
}

/// Whether a file is passed to the linker as it is, where `start` holds its first
/// four bytes if it could be read that far.
pub fn is_object_or_archive(path: &str, start: &Option<Vec<u8>>) -> (r: bool)
    ensures
        r == is_object(path@, opt_bytes(*start)),
{
    match name_of_file(path) {
        Some(name) => match extension_of_name(name) {
            Some(ext) => {
                if str_eq(ext, "o") || str_eq(ext, "a") || str_eq(ext, "so") {
                    return true;
                }
            },
            None => {},
        },
        None => {},
    }
    match start {
        Some(bytes) => starts_like_elf(bytes),
        None => false,
    }
}

/// Whether a file holds assembly.
pub fn is_assembly_file(path: &str) -> (r: bool)
    ensures
        r == is_assembly(path@),
{
    ends_with(path, ".s") || ends_with(path, ".S")
}

/// The name of the output of one of several inputs.
pub fn derive_output(cli: &CliArgs, input: &str) -> (r: String)
    ensures
        r@ == derived_output(cli@, input@),
{
    let mut s: String = stem_of_path(input);
    if cli.switches.emit_assembly {
        s.append(".s");
    } else {
        s.append(".o");
    }
    s
}

/// Where the output goes; `None` is the standard output.
pub fn resolve_output_path(cli: &CliArgs) -> (r: Option<String>)
    ensures
        opt_chars(r) == output_path(cli@),
{
    broadcast use crate::common::text::group_texts;

    match &cli.slots.output_file {
        Some(out) => {
            return Some(own(out.as_str()));
        },
        None => {},
    }
    if cli.switches.preprocess_only {
        return None;
    }
    if cli.lists.input_files.len() > 0 && (cli.switches.emit_assembly
        || cli.switches.compile_only) {
        return Some(derive_output(cli, cli.lists.input_files[0].as_str()));
    }
    Some(own("a.out"))
}

} // verus!
