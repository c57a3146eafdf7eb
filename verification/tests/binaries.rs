use bcc::driver::archive::parse_ar_archive;
use bcc::driver::elf::extract_elf_soname;
use bcc::driver::link::{
    file_of_version, needed_libraries, objects_of_file, resolve_library, search_dirs, DirProbe,
    LibraryProbe, PlainFile,
};
use bcc::driver::numbers::{parse_or_zero, trim, trim_end};

fn header(name: &str, size: &str) -> Vec<u8> {
    let mut h = format!("{:<16}{:<12}{:<6}{:<6}{:<8}{:<10}", name, "0", "0", "0", "644", size)
        .into_bytes();
    h.extend(b"`\n");
    h
}

fn elf_bytes(tail: &[u8]) -> Vec<u8> {
    let mut b = vec![0x7f, b'E', b'L', b'F'];
    b.extend(tail);
    b
}

fn with_member(archive: &mut Vec<u8>, name: &str, data: &[u8]) {
    archive.extend(header(name, &data.len().to_string()));
    archive.extend(data);
    if archive.len() % 2 != 0 {
        archive.push(b'\n');
    }
}

fn names(archive: &Vec<u8>) -> Vec<String> {
    parse_ar_archive(archive, "lib.a")
        .into_iter()
        .map(|m| m.name)
        .collect()
}

#[test]
fn members_of_an_archive_are_found() {
    let mut a = b"!<arch>\n".to_vec();
    with_member(&mut a, "/", b"symbols");
    with_member(&mut a, "//", b"a_very_long_name.o/\nnext.o/\n");
    with_member(&mut a, "one.o/", &elf_bytes(b"1"));
    with_member(&mut a, "/0", &elf_bytes(b"22"));
    with_member(&mut a, "/20", &elf_bytes(b"333"));
    with_member(&mut a, "/999", &elf_bytes(b"4"));
    with_member(&mut a, "readme.txt/", b"no object");
    assert_eq!(
        names(&a),
        vec!["one.o", "a_very_long_name.o", "next.o", "lib.a:member_3"]
    );
    let members = parse_ar_archive(&a, "lib.a");
    assert_eq!(members[2].data, elf_bytes(b"333"));
}

#[test]
fn corrupt_header_ends_an_archive() {
    let mut a = b"!<arch>\n".to_vec();
    with_member(&mut a, "one.o/", &elf_bytes(b"1"));
    let end = a.len();
    with_member(&mut a, "two.o/", &elf_bytes(b"2"));
    a[end + 58] = b'?';
    assert_eq!(names(&a), vec!["one.o"]);
}

#[test]
fn names_that_are_no_text_are_replaced() {
    let mut a = b"!<arch>\n".to_vec();
    with_member(&mut a, "//", &[0xff, 0xfe, b'/', b'\n']);
    with_member(&mut a, "/0", &elf_bytes(b""));
    assert_eq!(names(&a), vec!["member.o"]);
}

#[test]
fn archive_stands_for_its_members() {
    let mut a = b"!<arch>\n".to_vec();
    with_member(&mut a, "one.o/", &elf_bytes(b"1"));
    with_member(&mut a, "two.o/", &elf_bytes(b"2"));
    assert_eq!(objects_of_file(a, "lib.a").len(), 2);
    let single = objects_of_file(elf_bytes(b"x"), "x.o");
    assert_eq!(single.len(), 1);
    assert_eq!(single[0].name, "x.o");
    assert_eq!(single[0].data, elf_bytes(b"x"));
}

/// A shared object with one loaded segment, which begins at address 0x1000 and
/// holds the dynamic section and its strings.
fn shared_object(soname: Option<&[u8]>) -> Vec<u8> {
    let mut b = vec![0u8; 0x200];
    b[..4].copy_from_slice(&[0x7f, b'E', b'L', b'F']);
    b[4] = 2;
    b[5] = 1;
    let put = |b: &mut Vec<u8>, at: usize, v: u64| {
        b[at..at + 8].copy_from_slice(&v.to_le_bytes());
    };
    put(&mut b, 32, 64);
    b[54] = 56;
    b[56] = 2;
    let load = 64;
    b[load] = 1;
    put(&mut b, load + 8, 0);
    put(&mut b, load + 16, 0x1000);
    put(&mut b, load + 32, 0x200);
    let dynamic = 64 + 56;
    b[dynamic] = 2;
    put(&mut b, dynamic + 8, 0x100);
    put(&mut b, dynamic + 32, 48);
    put(&mut b, 0x100, 5);
    put(&mut b, 0x108, 0x1180);
    if let Some(name) = soname {
        put(&mut b, 0x110, 14);
        put(&mut b, 0x118, 1);
        b[0x181..0x181 + name.len()].copy_from_slice(name);
    }
    b
}

#[test]
fn shared_object_names_itself() {
    assert_eq!(
        extract_elf_soname(&shared_object(Some(b"libx.so.3"))),
        Some("libx.so.3".to_string())
    );
    assert_eq!(extract_elf_soname(&shared_object(None)), None);
    assert_eq!(extract_elf_soname(&b"not an object".to_vec()), None);
    assert_eq!(extract_elf_soname(&shared_object(Some(&[0xff]))), None);
}

fn nothing() -> DirProbe {
    DirProbe {
        plain: PlainFile::Missing,
        six: false,
        two: false,
        one: false,
        zero: false,
    }
}

fn library(name: &str, dirs: Vec<DirProbe>) -> LibraryProbe {
    LibraryProbe {
        name: name.to_string(),
        dirs,
        own_files: Vec::new(),
    }
}

#[test]
fn library_is_named_by_what_is_found() {
    let real = DirProbe {
        plain: PlainFile::Contents(shared_object(Some(b"libx.so.3"))),
        ..nothing()
    };
    assert_eq!(resolve_library(&library("x", vec![nothing(), real])), "libx.so.3");
    let nameless = DirProbe {
        plain: PlainFile::Contents(shared_object(None)),
        ..nothing()
    };
    assert_eq!(resolve_library(&library("x", vec![nameless])), "libx.so");
    let script = DirProbe {
        plain: PlainFile::Contents(b"GROUP ( libc.so.6 )".to_vec()),
        six: true,
        one: true,
        ..nothing()
    };
    assert_eq!(resolve_library(&library("c", vec![script])), "libc.so.6");
    let versioned = DirProbe {
        one: true,
        ..nothing()
    };
    assert_eq!(
        resolve_library(&library("atomic", vec![nothing(), versioned])),
        "libatomic.so.1"
    );
    let own = LibraryProbe {
        own_files: vec![
            PlainFile::Missing,
            PlainFile::Contents(shared_object(Some(b"libown.so.1"))),
        ],
        ..library("own", vec![nothing()])
    };
    assert_eq!(resolve_library(&own), "libown.so.1");
    assert_eq!(resolve_library(&library("gone", vec![nothing()])), "libgone.so");
    assert_eq!(file_of_version("m", "6"), "libm.so.6");
}

#[test]
fn needed_libraries_come_once() {
    let probes = vec![
        library("m", Vec::new()),
        library("m", Vec::new()),
        library("z", Vec::new()),
    ];
    assert_eq!(
        needed_libraries(&probes, false),
        vec!["libm.so", "libz.so", "libc.so.6"]
    );
    assert_eq!(needed_libraries(&probes, true), vec!["libm.so", "libz.so"]);
    assert_eq!(
        needed_libraries(&vec![library("c", Vec::new())], false),
        vec!["libc.so"]
    );
}

#[test]
fn own_directories_are_searched_first() {
    let dirs = search_dirs(&vec!["mine".to_string()]);
    assert_eq!(dirs[0], "mine");
    assert_eq!(dirs[1], "/lib/x86_64-linux-gnu");
    assert_eq!(dirs.len(), 7);
}

#[test]
fn numbers_are_read_or_zero() {
    assert_eq!(parse_or_zero("42"), 42);
    assert_eq!(parse_or_zero("+42"), 42);
    assert_eq!(parse_or_zero(""), 0);
    assert_eq!(parse_or_zero("4x"), 0);
    assert_eq!(parse_or_zero("99999999999999999999999999"), 0);
    assert_eq!(trim("  a b\t"), "a b");
    assert_eq!(trim_end("  a \n"), "  a");
}
