use bcc::common::source_map::SourceMap;
use bcc::common::target::Target;
use bcc::driver::args::{parse_args, parse_define, CliArgs, Command};
use bcc::driver::assembler::{assembler_args, assembler_name};
use bcc::driver::depfile::{depfile_path, depfile_subject, depfile_text, list_dependencies};
use bcc::driver::link::{link_actions, objects_to_remove, LinkAction};
use bcc::driver::paths::{
    default_depfile_path, is_assembly_file, is_object_or_archive, name_of_file,
    resolve_output_path, stem_of_path,
};
use bcc::driver::pipeline::{
    advance, begin, early_answer, failure_message, plan_compilation, preprocessor_setup,
    shared_warning, validate_input_files, CompilationContext, InputProbe, Plan, SetupKind, Step,
};
use bcc::driver::preprocessed::{lexer_text, write_preprocessed, PPToken, PPTokenKind};

fn strings(list: &[&str]) -> Vec<String> {
    list.iter().map(|s| s.to_string()).collect()
}

fn run(list: &[&str]) -> CliArgs {
    match parse_args(&strings(list)) {
        Command::Run(cli) => cli,
        other => panic!("not a command to run: {:?}", other),
    }
}

fn refusal(list: &[&str]) -> String {
    match parse_args(&strings(list)) {
        Command::Refused(message, _) => message,
        other => panic!("not refused: {:?}", other),
    }
}

#[test]
fn defaults_are_modest() {
    let cli = run(&["a.c"]);
    assert_eq!(cli.target, Target::X86_64);
    assert_eq!(cli.optimization_level, 0);
    assert_eq!(cli.lists.input_files, strings(&["a.c"]));
    assert!(!cli.switches.compile_only && !cli.switches.pic && !cli.switches.verbose);
    assert!(cli.slots.output_file.is_none());
    assert!(cli.lists.warnings.is_empty());
}

#[test]
fn flags_take_their_values_attached_or_apart() {
    let cli = run(&[
        "-Iinc", "-I", "more", "-DA", "-D", "B=1=2", "-UC", "-U", "D", "-Llib", "-L", "lib2", "-lm",
        "-l", "c", "a.c", "-o", "out", "-include", "first.h", "-isystem", "sys",
    ]);
    assert_eq!(cli.lists.include_paths, strings(&["inc", "more", "sys"]));
    assert_eq!(
        cli.defines,
        vec![
            ("A".to_string(), None),
            ("B".to_string(), Some("1=2".to_string())),
        ]
    );
    assert_eq!(cli.lists.undefs, strings(&["C", "D"]));
    assert_eq!(cli.lists.library_paths, strings(&["lib", "lib2"]));
    assert_eq!(cli.lists.libraries, strings(&["m", "c"]));
    assert_eq!(cli.lists.forced_includes, strings(&["first.h"]));
    assert_eq!(cli.slots.output_file, Some("out".to_string()));
}

#[test]
fn attached_value_means_the_same() {
    for flag in ["-I", "-D", "-U", "-L", "-l"] {
        for value in ["x", "x=y", "-c"] {
            let joined = format!("{}{}", flag, value);
            let attached = run(&["-g", &joined, "a.c"]);
            let apart = run(&["-g", flag, value, "a.c"]);
            assert_eq!(format!("{:?}", attached), format!("{:?}", apart));
        }
    }
    let cli = run(&["-o", "-I", "x", "a.c"]);
    assert_eq!(cli.lists.input_files, strings(&["x", "a.c"]));
}

#[test]
fn last_output_counts() {
    let cli = run(&["-o", "a", "-o", "b", "x.c"]);
    assert_eq!(cli.slots.output_file, Some("b".to_string()));
}

#[test]
fn switches_are_turned() {
    let cli = run(&[
        "-g",
        "-fPIC",
        "-shared",
        "-mretpoline",
        "-fcf-protection",
        "--verbose",
        "-time",
        "-nostdinc",
        "-S",
        "a.c",
    ]);
    assert!(cli.switches.debug_info);
    assert!(cli.switches.pic);
    assert!(cli.switches.shared);
    assert!(cli.switches.retpoline);
    assert!(cli.switches.cf_protection);
    assert!(cli.switches.verbose);
    assert!(cli.switches.time);
    assert!(cli.switches.nostdinc);
    assert!(cli.switches.emit_assembly);
    assert!(!run(&["-fcf-protection", "-fcf-protection=none", "a.c"])
        .switches
        .cf_protection);
}

#[test]
fn optimization_levels_are_known_or_zero() {
    for (flag, level) in [("-O", 0u8), ("-O0", 0), ("-O1", 1), ("-O2", 2), ("-O3", 3), ("-Os", 2)] {
        let cli = run(&[flag, "a.c"]);
        assert_eq!(cli.optimization_level, level);
        assert!(cli.lists.warnings.is_empty());
    }
    let cli = run(&["-O2", "-Ofast", "a.c"]);
    assert_eq!(cli.optimization_level, 0);
    assert_eq!(
        cli.lists.warnings,
        strings(&["warning: unknown optimization level 'fast', using -O0"])
    );
}

#[test]
fn target_is_given_or_concluded() {
    assert_eq!(run(&["--target=i686", "a.c"]).target, Target::I686);
    assert_eq!(run(&["-march=rv64gc", "a.c"]).target, Target::RiscV64);
    assert_eq!(run(&["-march=armv8-a", "a.c"]).target, Target::AArch64);
    assert_eq!(run(&["-mabi=ilp32", "a.c"]).target, Target::I686);
    let cli = run(&["--target=aarch64", "-march=rv64gc", "a.c"]);
    assert_eq!(cli.target, Target::AArch64);
    assert_eq!(cli.slots.march, Some("rv64gc".to_string()));
    let cli = run(&["--target=x86-64", "-march=rv64gc", "a.c"]);
    assert_eq!(cli.target, Target::X86_64);
    assert_eq!(cli.slots.march, Some("rv64gc".to_string()));
    let cli = run(&["--target=x86-64", "-mabi=lp64", "a.c"]);
    assert_eq!(cli.target, Target::X86_64);
    assert_eq!(cli.slots.mabi, Some("lp64".to_string()));
    assert_eq!(
        run(&["-march=rv64gc", "--target=x86-64", "a.c"]).target,
        Target::X86_64
    );
    assert_eq!(
        run(&["-march=rv64gc", "-mabi=ilp32", "a.c"]).target,
        Target::RiscV64
    );
    assert_eq!(
        refusal(&["--target=vax", "a.c"]),
        "unknown target 'vax'. Supported targets: x86-64, i686, aarch64, riscv64"
    );
}

#[test]
fn wrong_command_lines_are_refused() {
    assert_eq!(refusal(&["-g"]), "no input files");
    assert_eq!(
        refusal(&["-c", "-S", "a.c"]),
        "only one of '-c', '-S', '-E' may be specified"
    );
    for flag in ["-o", "-I", "-D", "-U", "-L", "-l"] {
        assert_eq!(
            refusal(&["a.c", flag]),
            format!("missing argument to '{}'", flag)
        );
    }
}

#[test]
fn warnings_come_with_a_refusal() {
    match parse_args(&strings(&["-quux"])) {
        Command::Refused(message, warnings) => {
            assert_eq!(message, "no input files");
            assert_eq!(warnings, strings(&["warning: unrecognized flag '-quux'"]));
        }
        other => panic!("not refused: {:?}", other),
    }
    assert!(matches!(
        parse_args(&strings(&["--help"])),
        Command::Help(_)
    ));
    assert!(matches!(
        parse_args(&strings(&["--version"])),
        Command::Version(_)
    ));
}

#[test]
fn preprocessor_flags_set_up_the_dependency_file() {
    let cli = run(&["-Wp,-MMD,out.d,-MT,goal,-MP", "a.c"]);
    assert!(cli.switches.gen_depfile);
    assert!(cli.switches.depfile_phony);
    assert_eq!(cli.slots.depfile_path, Some("out.d".to_string()));
    assert_eq!(cli.slots.depfile_target, Some("goal".to_string()));
    let cli = run(&["-MF", "x.d", "-MQ", "y", "a.c"]);
    assert!(cli.switches.gen_depfile);
    assert_eq!(cli.slots.depfile_path, Some("x.d".to_string()));
    assert_eq!(cli.slots.depfile_target, Some("y".to_string()));
    assert!(!run(&["a.c", "-MF"]).switches.gen_depfile);
}

#[test]
fn accepted_flags_do_nothing() {
    let cli = run(&[
        "-w", "-Wall", "-Wl,x", "-Wa,y", "-std=c11", "-m64", "-fno-common", "-pipe", "-static",
        "-pthread", "-x", "c", "-xc", "-P", "-C", "--param", "a=1", "--param=b=2", "-nostdlib", "-",
    ]);
    assert_eq!(cli.lists.input_files, strings(&["-"]));
    assert!(cli.lists.warnings.is_empty());
}

#[test]
fn definitions_split_at_the_first_sign() {
    assert_eq!(parse_define("X"), ("X".to_string(), None));
    assert_eq!(
        parse_define("X="),
        ("X".to_string(), Some(String::new()))
    );
    assert_eq!(
        parse_define("X=a=b"),
        ("X".to_string(), Some("a=b".to_string()))
    );
}

#[test]
fn file_names_are_taken_apart() {
    assert_eq!(name_of_file("dir/x.c"), Some("x.c"));
    assert_eq!(name_of_file("dir/x.c/"), Some("x.c"));
    assert_eq!(name_of_file("dir/.."), None);
    assert_eq!(name_of_file("/"), None);
    assert_eq!(stem_of_path("a/b.tar.gz"), "b.tar");
    assert_eq!(stem_of_path(".hidden"), ".hidden");
    assert_eq!(stem_of_path(".."), "output");
    assert_eq!(default_depfile_path("out/x.o"), "out/.x.o.d");
    assert_eq!(default_depfile_path("x.o"), ".x.o.d");
    assert_eq!(default_depfile_path("/x.o"), "/.x.o.d");
    assert!(is_assembly_file("boot.S"));
    assert!(is_assembly_file("boot.s"));
    assert!(!is_assembly_file("boot.c"));
}

#[test]
fn objects_are_known_by_name_or_content() {
    let elf = Some(vec![0x7f, b'E', b'L', b'F']);
    let text = Some(b"int ".to_vec());
    assert!(is_object_or_archive("x.o", &None));
    assert!(is_object_or_archive("libx.a", &None));
    assert!(is_object_or_archive("libx.so", &None));
    assert!(is_object_or_archive("libx.so.6", &elf));
    assert!(!is_object_or_archive("x.c", &text));
    assert!(!is_object_or_archive("x.c", &None));
}

#[test]
fn output_is_named_after_the_input() {
    assert_eq!(
        resolve_output_path(&run(&["-c", "dir/x.c"])),
        Some("x.o".to_string())
    );
    assert_eq!(
        resolve_output_path(&run(&["-S", "x.c"])),
        Some("x.s".to_string())
    );
    assert_eq!(
        resolve_output_path(&run(&["x.c"])),
        Some("a.out".to_string())
    );
    assert_eq!(resolve_output_path(&run(&["-E", "x.c"])), None);
    assert_eq!(
        resolve_output_path(&run(&["-E", "x.c", "-o", "y"])),
        Some("y".to_string())
    );
}

#[test]
fn plan_follows_from_the_mode_and_the_inputs() {
    assert!(matches!(
        plan_compilation(&run(&["-E", "a.c", "b.c"]), false),
        Plan::Preprocess
    ));
    match plan_compilation(&run(&["x.o"]), true) {
        Plan::LinkOne(out) => assert_eq!(out, "a.out"),
        other => panic!("{:?}", other),
    }
    match plan_compilation(&run(&["-c", "x.o"]), true) {
        Plan::CompileOne(out) => assert_eq!(out, "x.o"),
        other => panic!("{:?}", other),
    }
    match plan_compilation(&run(&["-c", "a.c", "b.c", "-o", "z"]), false) {
        Plan::CompileEach(outs) => assert_eq!(outs, strings(&["a.o", "b.o"])),
        other => panic!("{:?}", other),
    }
    match plan_compilation(&run(&["a.c", "b.c", "-o", "z"]), false) {
        Plan::CompileAndLink(out) => assert_eq!(out, "z"),
        other => panic!("{:?}", other),
    }
}

#[test]
fn shared_object_is_position_independent() {
    let cli = run(&["-shared", "a.c"]);
    assert!(CompilationContext::from_cli_args(&cli).pic);
    assert_eq!(CompilationContext::from_cli_args(&cli).max_recursion_depth, 512);
    assert_eq!(
        shared_warning(&cli),
        Some(
            "warning: creating shared library without -fPIC; \
             PIC will be enabled implicitly, but explicit -fPIC is recommended"
        )
    );
    assert_eq!(shared_warning(&run(&["-shared", "-fpic", "a.c"])), None);
}

#[test]
fn first_bad_input_is_reported() {
    let inputs = strings(&["-", "a.c", "b.c"]);
    let probes = vec![
        InputProbe::Missing,
        InputProbe::Opened,
        InputProbe::Refused("Permission denied".to_string()),
    ];
    assert_eq!(
        validate_input_files(&inputs, &probes),
        Err("'b.c': Permission denied".to_string())
    );
    assert_eq!(
        validate_input_files(&strings(&["x"]), &vec![InputProbe::Missing]),
        Err("'x': No such file or directory".to_string())
    );
    assert_eq!(
        validate_input_files(&strings(&["/dev/null"]), &vec![InputProbe::Missing]),
        Ok(())
    );
}

#[test]
fn preprocessor_is_set_up_in_order() {
    let cli = run(&["-Iinc", "-DA", "-DB=2", "-UC", "-include", "h.h", "a.S"]);
    let steps: Vec<(SetupKind, String, String)> =
        preprocessor_setup(&cli, &strings(&["/usr/include"]), true)
            .into_iter()
            .map(|s| (s.kind, s.name, s.value))
            .collect();
    let step = |k: SetupKind, n: &str, v: &str| (k, n.to_string(), v.to_string());
    assert_eq!(
        steps,
        vec![
            step(SetupKind::IncludePath, "inc", ""),
            step(SetupKind::SystemPath, "/usr/include", ""),
            step(SetupKind::Define, "__ASSEMBLER__", "1"),
            step(SetupKind::Define, "A", "1"),
            step(SetupKind::Define, "B", "2"),
            step(SetupKind::Undef, "C", ""),
            step(SetupKind::ForceInclude, "h.h", ""),
        ]
    );
    let bare = run(&["-nostdinc", "a.c"]);
    assert!(preprocessor_setup(&bare, &strings(&["/usr/include"]), false).is_empty());
}

#[test]
fn steps_lead_to_the_end() {
    assert_eq!(begin("x.S"), Step::Assemble);
    let mut step = begin("x.c");
    let mut taken = 1;
    while let Ok(Some(next)) = advance(step, true, false) {
        step = next;
        taken += 1;
    }
    assert_eq!(step, Step::Write);
    assert_eq!(taken, 7);
    assert_eq!(advance(Step::Parse, true, true), Err(()));
    assert_eq!(advance(Step::Generate, false, false), Err(()));
    assert_eq!(
        failure_message(Step::Parse, "x.c", None),
        "parsing failed for 'x.c'"
    );
    assert_eq!(
        failure_message(Step::Lower, "x.c", Some("why")),
        "IR lowering failed for 'x.c': why"
    );
    assert_eq!(
        failure_message(Step::ForceInclude, "h.h", None),
        "forced include 'h.h' failed"
    );
}

#[test]
fn questions_are_answered_at_once() {
    assert_eq!(
        early_answer(&strings(&["-Wa,--version"])),
        Some(strings(&["GNU assembler (BCC built-in) 2.42"]))
    );
    assert_eq!(
        early_answer(&strings(&["-print-file-name=plugin"])),
        Some(strings(&["plugin"]))
    );
    assert_eq!(
        early_answer(&strings(&["-dumpversion"])),
        Some(strings(&["12.2.0"]))
    );
    assert_eq!(
        early_answer(&strings(&["-dumpmachine", "--target=riscv64"])),
        Some(strings(&["riscv64-linux-gnu"]))
    );
    assert_eq!(
        early_answer(&strings(&["-dumpmachine"])),
        Some(strings(&["x86_64-linux-gnu"]))
    );
    assert_eq!(
        early_answer(&strings(&["-v"])).unwrap()[0],
        "bcc (BCC) 0.1.0"
    );
    assert_eq!(early_answer(&strings(&["a.c"])), None);
}

#[test]
fn assembler_is_called_for_the_target() {
    assert_eq!(assembler_name(Target::X86_64), "as");
    assert_eq!(assembler_name(Target::RiscV64), "riscv64-linux-gnu-as");
    assert_eq!(
        assembler_args(&run(&["--target=riscv64", "a.S"]), "o", "i"),
        strings(&["-o", "o", "-march=rv64imafdc", "-mabi=lp64d", "i"])
    );
    assert_eq!(
        assembler_args(&run(&["-march=rv64g", "-mabi=lp64", "a.S"]), "o", "i"),
        strings(&["-o", "o", "-march=rv64g", "-mabi=lp64", "i"])
    );
    assert_eq!(
        assembler_args(&run(&["a.S"]), "o", "i"),
        strings(&["-o", "o", "i"])
    );
}

#[test]
fn dependencies_begin_with_the_input() {
    let mut map = SourceMap::new();
    for file in ["a.h", "a.c", "b.h"] {
        map.add_file(file.to_string());
    }
    let deps = list_dependencies(&map, "a.c");
    assert_eq!(deps, strings(&["a.c", "a.h", "b.h"]));
    assert_eq!(
        depfile_text("a.o", &deps, true),
        "a.o: a.c \\\n  a.h \\\n  b.h\n\na.h:\n\nb.h:\n"
    );
    assert_eq!(depfile_text("a.o", &strings(&["a.c"]), false), "a.o: a.c\n");
}

#[test]
fn dependency_file_has_its_place_and_subject() {
    let cli = run(&["a.c"]);
    assert_eq!(depfile_path(&cli, "d/x.o"), "d/.x.o.d");
    assert_eq!(depfile_subject(&cli, Some("x.o"), "a.c"), "x.o");
    assert_eq!(depfile_subject(&cli, None, "a.c"), "a.c");
    let cli = run(&["-MF", "f.d", "-MT", "t", "a.c"]);
    assert_eq!(depfile_path(&cli, "d/x.o"), "f.d");
    assert_eq!(depfile_subject(&cli, Some("x.o"), "a.c"), "t");
}

fn token(kind: PPTokenKind, text: &str) -> PPToken {
    PPToken {
        kind,
        text: text.to_string(),
    }
}

#[test]
fn preprocessed_text_keeps_its_lines() {
    let tokens = vec![
        token(PPTokenKind::Whitespace, "  "),
        token(PPTokenKind::Other, "int"),
        token(PPTokenKind::Whitespace, "   "),
        token(PPTokenKind::Other, "x"),
        token(PPTokenKind::Punctuator, ";"),
        token(PPTokenKind::Whitespace, " "),
        token(PPTokenKind::Newline, "\n"),
        token(PPTokenKind::Punctuator, "."),
        token(PPTokenKind::Whitespace, " "),
        token(PPTokenKind::Other, "text"),
    ];
    assert_eq!(write_preprocessed(&tokens, false), "int x;\n. text");
    assert_eq!(write_preprocessed(&tokens, true), "int x;\n.text");
    assert_eq!(
        lexer_text(&vec![
            token(PPTokenKind::Other, "a"),
            token(PPTokenKind::Punctuator, "+"),
            token(PPTokenKind::Other, "b"),
        ]),
        "a + b"
    );
}

#[test]
fn only_temporary_objects_are_removed() {
    let inputs = strings(&["a.c", "b.o", "c.c"]);
    let actions = link_actions(&inputs, &vec![false, true, false]);
    let shown: Vec<(bool, &str)> = actions
        .iter()
        .map(|a| match a {
            LinkAction::Use(f) => (false, f.as_str()),
            LinkAction::CompileToTemporary(f) => (true, f.as_str()),
        })
        .collect();
    assert_eq!(shown, vec![(true, "a.c"), (false, "b.o"), (true, "c.c")]);
    assert_eq!(
        objects_to_remove(&actions, &strings(&["/tmp/1.o", "b.o", "/tmp/2.o"])),
        strings(&["/tmp/1.o", "/tmp/2.o"])
    );
}
