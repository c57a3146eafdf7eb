//! What is linked: objects, members of archives, and shared libraries by name.

use crate::common::lists::{contains_text, copy_texts, push_text};
use crate::common::text::{concat3, has_prefix, opt_chars, own, starts_with, texts_of};
use crate::driver::archive::{members_from, members_of, parse_ar_archive, ArchiveMember};
use crate::driver::elf::{extract_elf_soname, soname};
use crate::driver::paths::{is_elf, starts_like_elf};
use vstd::prelude::*;
use vstd::string::*;

verus! {

broadcast use crate::common::text::group_texts;

/// What was found where a library could be.
#[derive(Debug)]
pub enum PlainFile {
    Missing,
    Unreadable,
    Contents(Vec<u8>),
}

/// What was found where a library could be, as contracts see it.
pub enum PlainModel {
    Missing,
    Unreadable,
    Contents(Seq<u8>),
}

impl View for PlainFile {
    type V = PlainModel;

    open spec fn view(&self) -> PlainModel {
        match self {
            PlainFile::Missing => PlainModel::Missing,
            PlainFile::Unreadable => PlainModel::Unreadable,
            PlainFile::Contents(b) => PlainModel::Contents(b@),
        }
    }
}

/// What a directory holds of a library: the file without a version, and which of
/// the files with a version exist.
#[derive(Debug)]
pub struct DirProbe {
    pub plain: PlainFile,
    pub six: bool,
    pub two: bool,
    pub one: bool,
    pub zero: bool,
}

/// What a directory holds of a library, as contracts see it.
pub struct DirModel {
    pub plain: PlainModel,
    pub six: bool,
    pub two: bool,
    pub one: bool,
    pub zero: bool,
}

impl View for DirProbe {
    type V = DirModel;

    open spec fn view(&self) -> DirModel {
        DirModel {
            plain: self.plain@,
            six: self.six,
            two: self.two,
            one: self.one,
            zero: self.zero,
        }
    }
}

/// The models of directories.
pub open spec fn dirs_of(s: Seq<DirProbe>) -> Seq<DirModel> {
    s.map_values(|d: DirProbe| d@)
}

/// The models of files.
pub open spec fn files_of(s: Seq<PlainFile>) -> Seq<PlainModel> {
    s.map_values(|f: PlainFile| f@)
}

/// The file of a library.
pub open spec fn library_file(lib: Seq<char>) -> Seq<char> {
    "lib"@ + lib + ".so"@
}

/// The file of a version of a library.
pub open spec fn versioned_file(lib: Seq<char>, version: Seq<char>) -> Seq<char> {
    library_file(lib) + "."@ + version
}

/// The version of a library that a directory holds; newer ones come first.
pub open spec fn version_in(d: DirModel) -> Option<Seq<char>> {
    if d.six {
        Some("6"@)
    } else if d.two {
        Some("2"@)
    } else if d.one {
        Some("1"@)
    } else if d.zero {
        Some("0"@)
    } else {
        None
    }
}

/// The name of a library by its file in one of the directories from the `i`-th
/// on. A shared object names itself, or has the name of its file; a file that is
/// none stands for a version of the library in the same directory.
pub open spec fn by_file(lib: Seq<char>, ds: Seq<DirModel>, i: int) -> Option<Seq<char>>
    decreases ds.len() - i,
{
    if i < 0 || i >= ds.len() {
        None
    } else {
        match ds[i].plain {
            PlainModel::Contents(b) => if is_elf(b) {
                match soname(b) {
                    Some(n) => Some(n),
                    None => Some(library_file(lib)),
                }
            } else {
                match version_in(ds[i]) {
                    Some(v) => Some(versioned_file(lib, v)),
                    None => by_file(lib, ds, i + 1),
                }
            },
            _ => by_file(lib, ds, i + 1),
        }
    }
}

/// The name of a library by a version in one of the directories from the `i`-th
/// on.
pub open spec fn by_version(lib: Seq<char>, ds: Seq<DirModel>, i: int) -> Option<Seq<char>>
    decreases ds.len() - i,
{
    if i < 0 || i >= ds.len() {
        None
    } else {
        match version_in(ds[i]) {
            Some(v) => Some(versioned_file(lib, v)),
            None => by_version(lib, ds, i + 1),
        }
    }
}

/// The name that the first file from the `i`-th on gives itself.
pub open spec fn by_first_file(fs: Seq<PlainModel>, i: int) -> Option<Seq<char>>
    decreases fs.len() - i,
{
    if i < 0 || i >= fs.len() {
        None
    } else {
        match fs[i] {
            PlainModel::Missing => by_first_file(fs, i + 1),
            PlainModel::Unreadable => None,
            PlainModel::Contents(b) => if is_elf(b) {
                soname(b)
            } else {
                None
            },
        }
    }
}

/// The name under which a library is needed at run time, where `ds` are the
/// directories that are searched and `fs` the files of the compiler's own.
pub open spec fn library_name(lib: Seq<char>, ds: Seq<DirModel>, fs: Seq<PlainModel>) -> Seq<char> {
    match by_file(lib, ds, 0) {
        Some(n) => n,
        None => match by_version(lib, ds, 0) {
            Some(n) => n,
            None => match by_first_file(fs, 0) {
                Some(n) => n,
                None => library_file(lib),
            },
        },
    }
}

/// A library and what was found of it.
#[derive(Debug)]
pub struct LibraryProbe {
    pub name: String,
    pub dirs: Vec<DirProbe>,
    pub own_files: Vec<PlainFile>,
}

/// The name under which a library is needed.
pub open spec fn needed_name(p: LibraryProbe) -> Seq<char> {
    library_name(p.name@, dirs_of(p.dirs@), files_of(p.own_files@))
}

/// A list with a text behind it, unless it is there.
pub open spec fn with_text(s: Seq<Seq<char>>, t: Seq<char>) -> Seq<Seq<char>> {
    if s.contains(t) {
        s
    } else {
        s.push(t)
    }
}

/// The names of the first `n` libraries, each once.
pub open spec fn needed_names(ps: Seq<LibraryProbe>, n: int) -> Seq<Seq<char>>
    decreases n,
{
    if n <= 0 || n > ps.len() {
        Seq::empty()
    } else {
        with_text(needed_names(ps, n - 1), needed_name(ps[n - 1]))
    }
}

/// Whether one of the names is that of the C library.
pub open spec fn names_libc(s: Seq<Seq<char>>) -> bool {
    exists|i: int| 0 <= i < s.len() && has_prefix(#[trigger] s[i], "libc.so"@)
}

/// What an output needs at run time. An executable needs the C library.
pub open spec fn needed(ps: Seq<LibraryProbe>, shared: bool) -> Seq<Seq<char>> {
    let names = needed_names(ps, ps.len() as int);
    if !shared && !names_libc(names) {
        names.push("libc.so.6"@)
    } else {
        names
    }
}

/// The directories in which every library is looked for.
pub open spec fn standard_dirs() -> Seq<Seq<char>> {
    seq![
        "/lib/x86_64-linux-gnu"@,
        "/usr/lib/x86_64-linux-gnu"@,
        "/lib64"@,
        "/usr/lib64"@,
        "/lib"@,
        "/usr/lib"@,
    ]
}

/// The directories in which libraries are looked for, those of the user first.
pub fn search_dirs(library_paths: &Vec<String>) -> (r: Vec<String>)
    ensures
        texts_of(r@) == texts_of(library_paths@) + standard_dirs(),
{
    let mut out: Vec<String> = copy_texts(library_paths);
    push_text(&mut out, "/lib/x86_64-linux-gnu");
    push_text(&mut out, "/usr/lib/x86_64-linux-gnu");
    push_text(&mut out, "/lib64");
    push_text(&mut out, "/usr/lib64");
    push_text(&mut out, "/lib");
    push_text(&mut out, "/usr/lib");
    assert(texts_of(out@) =~= texts_of(library_paths@) + standard_dirs());
    out
}

/// The file of a library.
pub fn file_of_library(lib: &str) -> (r: String)
    ensures
        r@ == library_file(lib@),
{
    concat3("lib", lib, ".so")
}

/// The file of a version of a library.
pub fn file_of_version(lib: &str, version: &str) -> (r: String)
    ensures
        r@ == versioned_file(lib@, version@),
{
    let base: String = file_of_library(lib);
    concat3(base.as_str(), ".", version)
}

fn version_in_dir(d: &DirProbe) -> (r: Option<&'static str>)
    ensures
        match r {
            Some(v) => version_in(d@) == Some(v@),
            None => version_in(d@) is None,
        },
{
    if d.six {
        Some("6")
    } else if d.two {
        Some("2")
    } else if d.one {
        Some("1")
    } else if d.zero {
        Some("0")
    } else {
        None
    }
}

fn resolve_by_file(lib: &str, ds: &Vec<DirProbe>) -> (r: Option<String>)
    ensures
        opt_chars(r) == by_file(lib@, dirs_of(ds@), 0),
{
    let mut i: usize = 0;
    while i < ds.len()
        invariant
            i <= ds@.len(),
            by_file(lib@, dirs_of(ds@), i as int) == by_file(lib@, dirs_of(ds@), 0),
        decreases ds@.len() - i,
    {
        assert(dirs_of(ds@)[i as int] == ds@[i as int]@);
        match &ds[i].plain {
            PlainFile::Contents(b) => {
                if starts_like_elf(b) {
                    return match extract_elf_soname(b) {
                        Some(n) => Some(n),
                        None => Some(file_of_library(lib)),
                    };
                }
                match version_in_dir(&ds[i]) {
                    Some(v) => {
                        return Some(file_of_version(lib, v));
                    },
                    None => {},
                }
            },
            _ => {},
        }
        i += 1;
    }
    None
}

fn resolve_by_version(lib: &str, ds: &Vec<DirProbe>) -> (r: Option<String>)
    ensures
        opt_chars(r) == by_version(lib@, dirs_of(ds@), 0),
{
    let mut i: usize = 0;
    while i < ds.len()
        invariant
            i <= ds@.len(),
            by_version(lib@, dirs_of(ds@), i as int) == by_version(lib@, dirs_of(ds@), 0),
        decreases ds@.len() - i,
    {
        assert(dirs_of(ds@)[i as int] == ds@[i as int]@);
        match version_in_dir(&ds[i]) {
            Some(v) => {
                return Some(file_of_version(lib, v));
            },
            None => {},
        }
        i += 1;
    }
    None
}

fn resolve_by_first_file(fs: &Vec<PlainFile>) -> (r: Option<String>)
    ensures
        opt_chars(r) == by_first_file(files_of(fs@), 0),
{
    let mut i: usize = 0;
    while i < fs.len()
        invariant
            i <= fs@.len(),
            by_first_file(files_of(fs@), i as int) == by_first_file(files_of(fs@), 0),
        decreases fs@.len() - i,
    {
        assert(files_of(fs@)[i as int] == fs@[i as int]@);
        match &fs[i] {
            PlainFile::Missing => {},
            PlainFile::Unreadable => {
                return None;
            },
            PlainFile::Contents(b) => {
                if starts_like_elf(b) {
                    return extract_elf_soname(b);
                }
                return None;
            },
        }
        i += 1;
    }
    None
}

/// The name under which a library is needed at run time.
pub fn resolve_library(p: &LibraryProbe) -> (r: String)
    ensures
        r@ == needed_name(*p),
{
    let lib: &str = p.name.as_str();
    match resolve_by_file(lib, &p.dirs) {
        Some(n) => n,
        None => match resolve_by_version(lib, &p.dirs) {
            Some(n) => n,
            None => match resolve_by_first_file(&p.own_files) {
                Some(n) => n,
                None => file_of_library(lib),
            },
        },
    }
}

fn has_libc(v: &Vec<String>) -> (r: bool)
    ensures
        r == names_libc(texts_of(v@)),
{
    let mut i: usize = 0;
    while i < v.len()
        invariant
            i <= v@.len(),
            forall|j: int|
                0 <= j < i ==> !has_prefix(#[trigger] texts_of(v@)[j], "libc.so"@),
        decreases v@.len() - i,
    {
        assert(texts_of(v@)[i as int] == v@[i as int]@);
        if starts_with(v[i].as_str(), "libc.so") {
            return true;
        }
        i += 1;
    }
    false
}

/// What an output needs at run time.
pub fn needed_libraries(ps: &Vec<LibraryProbe>, shared: bool) -> (r: Vec<String>)
    ensures
        texts_of(r@) == needed(ps@, shared),
{
    let mut out: Vec<String> = Vec::new();
    let mut i: usize = 0;
    assert(texts_of(out@) =~= Seq::empty());
    while i < ps.len()
        invariant
            i <= ps@.len(),
            texts_of(out@) == needed_names(ps@, i as int),
        decreases ps@.len() - i,
    {
        let name: String = resolve_library(&ps[i]);
        if !contains_text(&out, name.as_str()) {
            push_text(&mut out, name.as_str());
        }
        i += 1;
    }
    if !shared && !has_libc(&out) {
        push_text(&mut out, "libc.so.6");
    }
    out
}

/// No library is needed twice.
pub proof fn lemma_each_library_once(ps: Seq<LibraryProbe>, n: int)
    requires
        0 <= n <= ps.len(),
    ensures
        needed_names(ps, n).no_duplicates(),
    decreases n,
{
    if n > 0 {
        lemma_each_library_once(ps, n - 1);
    }
}

/// Every library that was asked for is among those that are needed.
pub proof fn lemma_no_library_lost(ps: Seq<LibraryProbe>, shared: bool, i: int)
    requires
        0 <= i < ps.len(),
    ensures
        needed(ps, shared).contains(needed_name(ps[i])),
{
    lemma_library_stays(ps, ps.len() as int, i);
    let names = needed_names(ps, ps.len() as int);
    let k = choose|k: int| 0 <= k < names.len() && names[k] == needed_name(ps[i]);
    assert(needed(ps, shared)[k] == names[k]);
}

proof fn lemma_library_stays(ps: Seq<LibraryProbe>, n: int, i: int)
    requires
        0 <= i < n <= ps.len(),
    ensures
        needed_names(ps, n).contains(needed_name(ps[i])),
    decreases n,
{
    let before = needed_names(ps, n - 1);
    let now = needed_names(ps, n);
    if i < n - 1 {
        lemma_library_stays(ps, n - 1, i);
        let k = choose|k: int| 0 <= k < before.len() && before[k] == needed_name(ps[i]);
        assert(now[k] == before[k]);
    } else if !before.contains(needed_name(ps[i])) {
        assert(now[before.len() as int] == needed_name(ps[i]));
    }
}

/// The mark at the beginning of an archive.
pub open spec fn is_archive(data: Seq<u8>) -> bool {
    data.len() >= 8 && data.take(8) == seq![
        0x21u8,
        0x3cu8,
        0x61u8,
        0x72u8,
        0x63u8,
        0x68u8,
        0x3eu8,
        0x0au8,
    ]
}

/// The objects that a file stands for: the members of an archive, or the file
/// itself.
pub open spec fn objects_in(data: Seq<u8>, name: Seq<char>) -> Seq<(Seq<char>, Seq<u8>)> {
    if is_archive(data) {
        members_from(data, 8, Seq::empty(), Seq::empty(), name)
    } else {
        seq![(name, data)]
    }
}

fn starts_like_archive(data: &Vec<u8>) -> (r: bool)
    ensures
        r == is_archive(data@),
{
    if data.len() < 8 {
        return false;
    }
    let r: bool = data[0] == 0x21 && data[1] == 0x3c && data[2] == 0x61 && data[3] == 0x72
        && data[4] == 0x63 && data[5] == 0x68 && data[6] == 0x3e && data[7] == 0x0a;
    proof {
        let mark = seq![0x21u8, 0x3cu8, 0x61u8, 0x72u8, 0x63u8, 0x68u8, 0x3eu8, 0x0au8];
        let head = data@.take(8);
        if r {
            assert(head =~= mark);
        } else if head == mark {
            assert(head[0] == data@[0] && head[1] == data@[1] && head[2] == data@[2]);
            assert(head[3] == data@[3] && head[4] == data@[4] && head[5] == data@[5]);
            assert(head[6] == data@[6] && head[7] == data@[7]);
        }
    }
    r
}

/// The objects that a file stands for.
pub fn objects_of_file(data: Vec<u8>, name: &str) -> (r: Vec<ArchiveMember>)
    ensures
        members_of(r@) == objects_in(data@, name@),
{
    if starts_like_archive(&data) {
        parse_ar_archive(&data, name)
    } else {
        let mut out: Vec<ArchiveMember> = Vec::new();
        let ghost bytes = data@;
        out.push(ArchiveMember { name: own(name), data });
        assert(members_of(out@) =~= seq![(name@, bytes)]);
        out
    }
}

// ---------------------------------------------------------------------------
// Several inputs
// ---------------------------------------------------------------------------

/// What is done with an input before all are linked.
#[derive(Debug)]
pub enum LinkAction {
    /// The input is an object or an archive: it is linked as it is, and stays.
    Use(String),
    /// The input is compiled to a temporary object, which is removed after linking.
    CompileToTemporary(String),
}

/// What is done with an input, as contracts see it.
pub enum ActionModel {
    Use(Seq<char>),
    CompileToTemporary(Seq<char>),
}

impl View for LinkAction {
    type V = ActionModel;

    open spec fn view(&self) -> ActionModel {
        match self {
            LinkAction::Use(f) => ActionModel::Use(f@),
            LinkAction::CompileToTemporary(f) => ActionModel::CompileToTemporary(f@),
        }
    }
}

/// The models of actions.
pub open spec fn actions_of(s: Seq<LinkAction>) -> Seq<ActionModel> {
    s.map_values(|a: LinkAction| a@)
}

/// What is done with an input.
pub open spec fn action_for(input: Seq<char>, is_object: bool) -> ActionModel {
    if is_object {
        ActionModel::Use(input)
    } else {
        ActionModel::CompileToTemporary(input)
    }
}

/// What is done with each of the inputs, in their order.
pub fn link_actions(inputs: &Vec<String>, is_object: &Vec<bool>) -> (r: Vec<LinkAction>)
    requires
        inputs@.len() == is_object@.len(),
    ensures
        actions_of(r@) == Seq::new(
            inputs@.len(),
            |i: int| action_for(inputs@[i]@, is_object@[i]),
        ),
{
    let mut out: Vec<LinkAction> = Vec::new();
    let mut i: usize = 0;
    while i < inputs.len()
        invariant
            i <= inputs@.len(),
            inputs@.len() == is_object@.len(),
            out@.len() == i,
            forall|j: int|
                0 <= j < i ==> (#[trigger] out@[j])@ == action_for(inputs@[j]@, is_object@[j]),
        decreases inputs@.len() - i,
    {
        if is_object[i] {
            out.push(LinkAction::Use(own(inputs[i].as_str())));
        } else {
            out.push(LinkAction::CompileToTemporary(own(inputs[i].as_str())));
        }
        i += 1;
    }
    assert(actions_of(out@) =~= Seq::new(
        inputs@.len(),
        |i: int| action_for(inputs@[i]@, is_object@[i]),
    ));
    out
}

/// Of the objects that the first `n` actions came to, those that are removed after
/// linking.
pub open spec fn temporaries(
    actions: Seq<ActionModel>,
    objects: Seq<Seq<char>>,
    n: int,
) -> Seq<Seq<char>>
    decreases n,
{
    if n <= 0 || n > actions.len() || n > objects.len() {
        Seq::empty()
    } else {
        let before = temporaries(actions, objects, n - 1);
        match actions[n - 1] {
            ActionModel::Use(_) => before,
            ActionModel::CompileToTemporary(_) => before.push(objects[n - 1]),
        }
    }
}

/// Only what was compiled is removed: if no temporary object is one of the files
/// that were given, every one of these stays.
pub proof fn lemma_given_files_stay(
    actions: Seq<ActionModel>,
    objects: Seq<Seq<char>>,
    n: int,
    file: Seq<char>,
)
    requires
        forall|i: int|
            #![trigger actions[i]]
            0 <= i < actions.len() && i < objects.len() && actions[i] is CompileToTemporary
                ==> objects[i] != file,
    ensures
        !temporaries(actions, objects, n).contains(file),
    decreases n,
{
    if 0 < n <= actions.len() && n <= objects.len() {
        lemma_given_files_stay(actions, objects, n - 1, file);
        assert(actions[n - 1] is CompileToTemporary ==> objects[n - 1] != file);
    }
}

/// The objects that are removed after linking, where `objects` holds what each
/// action came to.
pub fn objects_to_remove(actions: &Vec<LinkAction>, objects: &Vec<String>) -> (r: Vec<String>)
    requires
        actions@.len() == objects@.len(),
    ensures
        texts_of(r@) == temporaries(
            actions_of(actions@),
            texts_of(objects@),
            actions@.len() as int,
        ),
{
    let mut out: Vec<String> = Vec::new();
    assert(texts_of(out@) =~= Seq::<Seq<char>>::empty());
    let mut i: usize = 0;
    while i < actions.len()
        invariant
            i <= actions@.len(),
            actions@.len() == objects@.len(),
            texts_of(out@) == temporaries(actions_of(actions@), texts_of(objects@), i as int),
        decreases actions@.len() - i,
    {
        assert(actions_of(actions@)[i as int] == actions@[i as int]@);
        assert(texts_of(objects@)[i as int] == objects@[i as int]@);
        assert(actions_of(actions@).len() == actions@.len());
        assert(texts_of(objects@).len() == objects@.len());
        match &actions[i] {
            LinkAction::Use(_) => {},
            LinkAction::CompileToTemporary(_) => {
                push_text(&mut out, objects[i].as_str());
            },
        }
        i += 1;
    }
    out
}

} // verus!
