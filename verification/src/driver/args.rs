//! The command line.

use crate::common::lists::{push_text, split, split_from};
use crate::common::target::Target;
use crate::common::text::{
    char_at, concat3, find_char, has_prefix, opt_chars, own, own_opt, starts_with, str_eq,
    strip_prefix, texts_of,
};
use vstd::prelude::*;
use vstd::string::*;

verus! {

broadcast use crate::common::text::group_texts;

/// What is on or off.
#[derive(Clone, Copy, Debug, PartialEq, Eq, Structural)]
pub struct Switches {
    /// `-c`: stop at an object file.
    pub compile_only: bool,
    /// `-S`: stop at assembly.
    pub emit_assembly: bool,
    /// `-E`: stop at preprocessed text.
    pub preprocess_only: bool,
    /// `-g`.
    pub debug_info: bool,
    /// `-fPIC`.
    pub pic: bool,
    /// `-shared`.
    pub shared: bool,
    /// `-mretpoline`.
    pub retpoline: bool,
    /// `-fcf-protection`.
    pub cf_protection: bool,
    /// `--verbose`.
    pub verbose: bool,
    /// `-time`.
    pub time: bool,
    /// `-nostdinc`.
    pub nostdinc: bool,
    /// Whether a dependency file is to be written.
    pub gen_depfile: bool,
    /// `-MP`.
    pub depfile_phony: bool,
}

/// What is given once at most; the last one counts.
#[derive(Debug)]
pub struct Slots {
    /// `-o`.
    pub output_file: Option<String>,
    /// `-MF`.
    pub depfile_path: Option<String>,
    /// `-MT`.
    pub depfile_target: Option<String>,
    /// `-march=`, for the assembler.
    pub march: Option<String>,
    /// `-mabi=`, for the assembler.
    pub mabi: Option<String>,
}

/// What is given as often as wanted.
#[derive(Debug)]
pub struct Lists {
    /// The files to compile or link.
    pub input_files: Vec<String>,
    /// `-I`.
    pub include_paths: Vec<String>,
    /// `-U`.
    pub undefs: Vec<String>,
    /// `-L`.
    pub library_paths: Vec<String>,
    /// `-l`.
    pub libraries: Vec<String>,
    /// `-include`.
    pub forced_includes: Vec<String>,
    /// What is to be said of the command line.
    pub warnings: Vec<String>,
}

/// What the command line asks for.
#[derive(Debug)]
pub struct CliArgs {
    /// `--target=`, or what `-march=` or `-mabi=` let conclude.
    pub target: Target,
    /// Whether `--target=` was given.
    pub target_given: bool,
    /// `-O`.
    pub optimization_level: u8,
    /// `-D`: a name, and a value if one is given.
    pub defines: Vec<(String, Option<String>)>,
    pub switches: Switches,
    pub slots: Slots,
    pub lists: Lists,
}

/// What is given once at most, as contracts see it.
pub struct SlotsModel {
    pub output_file: Option<Seq<char>>,
    pub depfile_path: Option<Seq<char>>,
    pub depfile_target: Option<Seq<char>>,
    pub march: Option<Seq<char>>,
    pub mabi: Option<Seq<char>>,
}

/// What is given as often as wanted, as contracts see it.
pub struct ListsModel {
    pub input_files: Seq<Seq<char>>,
    pub include_paths: Seq<Seq<char>>,
    pub undefs: Seq<Seq<char>>,
    pub library_paths: Seq<Seq<char>>,
    pub libraries: Seq<Seq<char>>,
    pub forced_includes: Seq<Seq<char>>,
    pub warnings: Seq<Seq<char>>,
}

/// What the command line asks for, as contracts see it.
pub struct CliModel {
    pub target: Target,
    pub target_given: bool,
    pub optimization_level: u8,
    pub defines: Seq<(Seq<char>, Option<Seq<char>>)>,
    pub switches: Switches,
    pub slots: SlotsModel,
    pub lists: ListsModel,
}

/// The models of macro definitions.
#[verifier::opaque]
pub open spec fn defines_of(s: Seq<(String, Option<String>)>) -> Seq<
    (Seq<char>, Option<Seq<char>>),
> {
    s.map_values(|d: (String, Option<String>)| (d.0@, opt_chars(d.1)))
}

impl View for Slots {
    type V = SlotsModel;

    open spec fn view(&self) -> SlotsModel {
        SlotsModel {
            output_file: opt_chars(self.output_file),
            depfile_path: opt_chars(self.depfile_path),
            depfile_target: opt_chars(self.depfile_target),
            march: opt_chars(self.march),
            mabi: opt_chars(self.mabi),
        }
    }
}

impl View for Lists {
    type V = ListsModel;

    open spec fn view(&self) -> ListsModel {
        ListsModel {
            input_files: texts_of(self.input_files@),
            include_paths: texts_of(self.include_paths@),
            undefs: texts_of(self.undefs@),
            library_paths: texts_of(self.library_paths@),
            libraries: texts_of(self.libraries@),
            forced_includes: texts_of(self.forced_includes@),
            warnings: texts_of(self.warnings@),
        }
    }
}

impl View for CliArgs {
    type V = CliModel;

    open spec fn view(&self) -> CliModel {
        CliModel {
            target: self.target,
            target_given: self.target_given,
            optimization_level: self.optimization_level,
            defines: defines_of(self.defines@),
            switches: self.switches,
            slots: self.slots@,
            lists: self.lists@,
        }
    }
}

/// Everything is off.
pub open spec fn all_off() -> Switches {
    Switches {
        compile_only: false,
        emit_assembly: false,
        preprocess_only: false,
        debug_info: false,
        pic: false,
        shared: false,
        retpoline: false,
        cf_protection: false,
        verbose: false,
        time: false,
        nostdinc: false,
        gen_depfile: false,
        depfile_phony: false,
    }
}

/// What an empty command line asks for.
pub open spec fn no_arguments() -> CliModel {
    CliModel {
        target: Target::X86_64,
        target_given: false,
        optimization_level: 0,
        defines: Seq::empty(),
        switches: all_off(),
        slots: SlotsModel {
            output_file: None,
            depfile_path: None,
            depfile_target: None,
            march: None,
            mabi: None,
        },
        lists: ListsModel {
            input_files: Seq::empty(),
            include_paths: Seq::empty(),
            undefs: Seq::empty(),
            library_paths: Seq::empty(),
            libraries: Seq::empty(),
            forced_includes: Seq::empty(),
            warnings: Seq::empty(),
        },
    }
}

impl Default for CliArgs {
    fn default() -> (r: CliArgs)
        ensures
            r@ == no_arguments(),
    {
        let r = CliArgs {
            target: Target::X86_64,
            target_given: false,
            optimization_level: 0,
            defines: Vec::new(),
            switches: Switches {
                compile_only: false,
                emit_assembly: false,
                preprocess_only: false,
                debug_info: false,
                pic: false,
                shared: false,
                retpoline: false,
                cf_protection: false,
                verbose: false,
                time: false,
                nostdinc: false,
                gen_depfile: false,
                depfile_phony: false,
            },
            slots: Slots {
                output_file: None,
                depfile_path: None,
                depfile_target: None,
                march: None,
                mabi: None,
            },
            lists: Lists {
                input_files: Vec::new(),
                include_paths: Vec::new(),
                undefs: Vec::new(),
                library_paths: Vec::new(),
                libraries: Vec::new(),
                forced_includes: Vec::new(),
                warnings: Vec::new(),
            },
        };
        proof {
            reveal(defines_of);
        }
        assert(r@.defines =~= Seq::empty());
        assert(r@.lists.input_files =~= Seq::empty());
        assert(r@.lists.include_paths =~= Seq::empty());
        assert(r@.lists.undefs =~= Seq::empty());
        assert(r@.lists.library_paths =~= Seq::empty());
        assert(r@.lists.libraries =~= Seq::empty());
        assert(r@.lists.forced_includes =~= Seq::empty());
        assert(r@.lists.warnings =~= Seq::empty());
        r
    }
}

// ---------------------------------------------------------------------------
// What a flag changes
// ---------------------------------------------------------------------------

/// A switch to be turned.
#[derive(Clone, Copy, Debug, PartialEq, Eq, Structural)]
pub enum Switch {
    CompileOnly,
    EmitAssembly,
    PreprocessOnly,
    DebugInfo,
    Pic,
    Shared,
    Retpoline,
    CfProtection,
    Verbose,
    Time,
    Nostdinc,
    GenDepfile,
    DepfilePhony,
    NoCfProtection,
}

/// A slot to be filled.
#[derive(Clone, Copy, Debug, PartialEq, Eq, Structural)]
pub enum Slot {
    OutputFile,
    DepfileTarget,
}

/// A list to be added to.
#[derive(Clone, Copy, Debug, PartialEq, Eq, Structural)]
pub enum List {
    InputFiles,
    IncludePaths,
    Undefs,
    LibraryPaths,
    Libraries,
    ForcedIncludes,
    Warnings,
}

/// What a flag does with its value.
#[derive(Clone, Copy, Debug, PartialEq, Eq, Structural)]
pub enum Change {
    Nothing,
    Switch(Switch),
    Keep(Slot),
    Append(List),
    Define,
    Level,
    Target,
    March,
    Mabi,
    Preprocessor,
    /// The value is where the dependency file goes, which is wanted then.
    DepfileAt,
}

/// After a switch was turned.
pub open spec fn turned(s: Switches, which: Switch) -> Switches {
    match which {
        Switch::CompileOnly => Switches { compile_only: true, ..s },
        Switch::EmitAssembly => Switches { emit_assembly: true, ..s },
        Switch::PreprocessOnly => Switches { preprocess_only: true, ..s },
        Switch::DebugInfo => Switches { debug_info: true, ..s },
        Switch::Pic => Switches { pic: true, ..s },
        Switch::Shared => Switches { shared: true, ..s },
        Switch::Retpoline => Switches { retpoline: true, ..s },
        Switch::CfProtection => Switches { cf_protection: true, ..s },
        Switch::Verbose => Switches { verbose: true, ..s },
        Switch::Time => Switches { time: true, ..s },
        Switch::Nostdinc => Switches { nostdinc: true, ..s },
        Switch::GenDepfile => Switches { gen_depfile: true, ..s },
        Switch::DepfilePhony => Switches { depfile_phony: true, ..s },
        Switch::NoCfProtection => Switches { cf_protection: false, ..s },
    }
}

/// After a slot was filled.
pub open spec fn filled(s: SlotsModel, which: Slot, v: Seq<char>) -> SlotsModel {
    match which {
        Slot::OutputFile => SlotsModel { output_file: Some(v), ..s },
        Slot::DepfileTarget => SlotsModel { depfile_target: Some(v), ..s },
    }
}

/// After a text was added to a list.
pub open spec fn appended(l: ListsModel, which: List, v: Seq<char>) -> ListsModel {
    match which {
        List::InputFiles => ListsModel { input_files: l.input_files.push(v), ..l },
        List::IncludePaths => ListsModel { include_paths: l.include_paths.push(v), ..l },
        List::Undefs => ListsModel { undefs: l.undefs.push(v), ..l },
        List::LibraryPaths => ListsModel { library_paths: l.library_paths.push(v), ..l },
        List::Libraries => ListsModel { libraries: l.libraries.push(v), ..l },
        List::ForcedIncludes => ListsModel { forced_includes: l.forced_includes.push(v), ..l },
        List::Warnings => ListsModel { warnings: l.warnings.push(v), ..l },
    }
}

/// A macro definition: a name, and behind the first `=` a value.
pub open spec fn split_define(s: Seq<char>) -> (Seq<char>, Option<Seq<char>>) {
    match char_at(s, '=', 0) {
        Some(k) => (s.take(k), Some(s.skip(k + 1))),
        None => (s, None),
    }
}

/// The level that `-O` asks for with what follows it, if it is known. Code size
/// counts as the second level.
pub open spec fn level_of(level: Seq<char>) -> Option<u8> {
    if level == "0"@ || level == ""@ {
        Some(0)
    } else if level == "1"@ {
        Some(1)
    } else if level == "2"@ || level == "s"@ {
        Some(2)
    } else if level == "3"@ {
        Some(3)
    } else {
        None
    }
}

/// What is said of an optimization level that is not known.
pub open spec fn level_warning(level: Seq<char>) -> Seq<char> {
    "warning: unknown optimization level '"@ + level + "', using -O0"@
}

/// The target that another flag than `--target=` lets conclude. What was given
/// stays, and so does what was concluded before.
pub open spec fn concluded(given: bool, current: Target, found: Target) -> Target {
    if !given && current == Target::X86_64 {
        found
    } else {
        current
    }
}

/// The target that an architecture name lets conclude.
pub open spec fn target_of_march(given: bool, current: Target, march: Seq<char>) -> Target {
    if has_prefix(march, "rv64"@) || has_prefix(march, "rv32"@) {
        concluded(given, current, Target::RiscV64)
    } else if has_prefix(march, "armv8"@) || has_prefix(march, "aarch64"@) {
        concluded(given, current, Target::AArch64)
    } else {
        current
    }
}

/// The target that an ABI name lets conclude.
pub open spec fn target_of_mabi(given: bool, current: Target, mabi: Seq<char>) -> Target {
    if has_prefix(mabi, "lp64"@) {
        concluded(given, current, Target::RiscV64)
    } else if has_prefix(mabi, "ilp32"@) {
        concluded(given, current, Target::I686)
    } else {
        current
    }
}

/// Where the dependency file goes, after the flags for the preprocessor from the
/// `j`-th on.
pub struct DependencyModel {
    pub wanted: bool,
    pub phony: bool,
    pub path: Option<Seq<char>>,
    pub target: Option<Seq<char>>,
}

/// The dependency file after the flags for the preprocessor from the `j`-th on.
pub open spec fn preprocessor_flags(
    d: DependencyModel,
    parts: Seq<Seq<char>>,
    j: int,
) -> DependencyModel
    decreases parts.len() - j,
{
    if j < 0 || j >= parts.len() {
        d
    } else if parts[j] == "-MMD"@ || parts[j] == "-MD"@ {
        if j + 1 < parts.len() {
            preprocessor_flags(
                DependencyModel { wanted: true, path: Some(parts[j + 1]), ..d },
                parts,
                j + 2,
            )
        } else {
            DependencyModel { wanted: true, ..d }
        }
    } else if parts[j] == "-MP"@ {
        preprocessor_flags(DependencyModel { phony: true, ..d }, parts, j + 1)
    } else if parts[j] == "-MT"@ && j + 1 < parts.len() {
        preprocessor_flags(
            DependencyModel { target: Some(parts[j + 1]), ..d },
            parts,
            j + 2,
        )
    } else {
        preprocessor_flags(d, parts, j + 1)
    }
}

/// After the flags of `-Wp,`.
pub open spec fn preprocessor_set(cli: CliModel, v: Seq<char>) -> CliModel {
    let d = preprocessor_flags(
        DependencyModel {
            wanted: cli.switches.gen_depfile,
            phony: cli.switches.depfile_phony,
            path: cli.slots.depfile_path,
            target: cli.slots.depfile_target,
        },
        split_from(v, ',', 0),
        0,
    );
    CliModel {
        switches: Switches {
            gen_depfile: d.wanted,
            depfile_phony: d.phony,
            ..cli.switches
        },
        slots: SlotsModel { depfile_path: d.path, depfile_target: d.target, ..cli.slots },
        ..cli
    }
}

/// After `-O` with what follows it.
pub open spec fn level_set(cli: CliModel, v: Seq<char>) -> CliModel {
    match level_of(v) {
        Some(n) => CliModel { optimization_level: n, ..cli },
        None => CliModel {
            optimization_level: 0,
            lists: appended(cli.lists, List::Warnings, level_warning(v)),
            ..cli
        },
    }
}

/// After a flag.
pub open spec fn applied(cli: CliModel, c: Change, v: Seq<char>) -> CliModel {
    match c {
        Change::Nothing => cli,
        Change::Switch(s) => CliModel { switches: turned(cli.switches, s), ..cli },
        Change::Keep(s) => CliModel { slots: filled(cli.slots, s, v), ..cli },
        Change::Append(l) => CliModel { lists: appended(cli.lists, l, v), ..cli },
        Change::Define => CliModel { defines: cli.defines.push(split_define(v)), ..cli },
        Change::Level => level_set(cli, v),
        Change::Target => CliModel {
            target: match Target::named(v) {
                Some(t) => t,
                None => cli.target,
            },
            target_given: true,
            ..cli
        },
        Change::March => CliModel {
            target: target_of_march(cli.target_given, cli.target, v),
            slots: SlotsModel { march: Some(v), ..cli.slots },
            ..cli
        },
        Change::Mabi => CliModel {
            target: target_of_mabi(cli.target_given, cli.target, v),
            slots: SlotsModel { mabi: Some(v), ..cli.slots },
            ..cli
        },
        Change::Preprocessor => preprocessor_set(cli, v),
        Change::DepfileAt => CliModel {
            switches: Switches { gen_depfile: true, ..cli.switches },
            slots: SlotsModel { depfile_path: Some(v), ..cli.slots },
            ..cli
        },
    }
}

// ---------------------------------------------------------------------------
// Flags
// ---------------------------------------------------------------------------

/// What one argument comes to.
pub enum Parsed {
    /// The argument belongs to another group.
    NotMine,
    /// A change with its value; so many arguments were used up.
    Took(Change, Seq<char>, nat),
    /// The version is asked for, and nothing else is to be done.
    Version,
    /// The usage is asked for, and nothing else is to be done.
    Help,
    /// The command line is refused.
    Fail(Seq<char>),
}

/// What one argument comes to.
#[derive(Debug)]
pub enum Outcome {
    NotMine,
    Took(Change, String, usize),
    Version,
    Help,
    Fail(String),
}

/// Whether an outcome is what an argument comes to.
pub open spec fn agrees(p: Parsed, r: Outcome) -> bool {
    match p {
        Parsed::NotMine => r is NotMine,
        Parsed::Took(c, v, n) => r matches Outcome::Took(d, w, k) && d == c && w@ == v && k == n,
        Parsed::Version => r is Version,
        Parsed::Help => r is Help,
        Parsed::Fail(m) => r matches Outcome::Fail(s) && s@ == m,
    }
}

/// What follows a prefix of `s`.
pub open spec fn rest(s: Seq<char>, prefix: Seq<char>) -> Seq<char> {
    s.skip(prefix.len() as int)
}

/// `--target=` with what follows it.
pub open spec fn target_flag(name: Seq<char>) -> Parsed {
    match Target::named(name) {
        Some(_) => Parsed::Took(Change::Target, name, 1),
        None => Parsed::Fail(
            "unknown target '"@ + name
                + "'. Supported targets: x86-64, i686, aarch64, riscv64"@,
        ),
    }
}

/// The target, what is asked for, and how far to go.
#[verifier::opaque]
pub open spec fn mode_flag(a: Seq<char>, next: Option<Seq<char>>) -> Parsed {
    if has_prefix(a, "--target="@) {
        target_flag(rest(a, "--target="@))
    } else if a == "--version"@ {
        Parsed::Version
    } else if a == "--help"@ || a == "-h"@ {
        Parsed::Help
    } else if a == "-o"@ {
        match next {
            Some(v) => Parsed::Took(Change::Keep(Slot::OutputFile), v, 2),
            None => Parsed::Fail("missing argument to '-o'"@),
        }
    } else if a == "-c"@ {
        Parsed::Took(Change::Switch(Switch::CompileOnly), Seq::empty(), 1)
    } else if a == "-S"@ {
        Parsed::Took(Change::Switch(Switch::EmitAssembly), Seq::empty(), 1)
    } else if a == "-E"@ {
        Parsed::Took(Change::Switch(Switch::PreprocessOnly), Seq::empty(), 1)
    } else if a == "-g"@ {
        Parsed::Took(Change::Switch(Switch::DebugInfo), Seq::empty(), 1)
    } else if has_prefix(a, "-O"@) {
        Parsed::Took(Change::Level, rest(a, "-O"@), 1)
    } else {
        Parsed::NotMine
    }
}

/// What the generated code is to be like.
#[verifier::opaque]
pub open spec fn codegen_flag(a: Seq<char>) -> Parsed {
    if a == "-fPIC"@ || a == "-fpic"@ {
        Parsed::Took(Change::Switch(Switch::Pic), Seq::empty(), 1)
    } else if a == "-shared"@ {
        Parsed::Took(Change::Switch(Switch::Shared), Seq::empty(), 1)
    } else if a == "-mretpoline"@ {
        Parsed::Took(Change::Switch(Switch::Retpoline), Seq::empty(), 1)
    } else if a == "-fcf-protection"@ || a == "-fcf-protection=full"@ {
        Parsed::Took(Change::Switch(Switch::CfProtection), Seq::empty(), 1)
    } else if a == "-fcf-protection=none"@ {
        Parsed::Took(Change::Switch(Switch::NoCfProtection), Seq::empty(), 1)
    } else {
        Parsed::NotMine
    }
}

/// Search paths, macros and libraries.
#[verifier::opaque]
pub open spec fn path_flag(a: Seq<char>, next: Option<Seq<char>>) -> Parsed {
    if a == "-I"@ {
        match next {
            Some(v) => Parsed::Took(Change::Append(List::IncludePaths), v, 2),
            None => Parsed::Fail("missing argument to '-I'"@),
        }
    } else if has_prefix(a, "-I"@) {
        Parsed::Took(Change::Append(List::IncludePaths), rest(a, "-I"@), 1)
    } else if a == "-D"@ {
        match next {
            Some(v) => Parsed::Took(Change::Define, v, 2),
            None => Parsed::Fail("missing argument to '-D'"@),
        }
    } else if has_prefix(a, "-D"@) {
        Parsed::Took(Change::Define, rest(a, "-D"@), 1)
    } else if a == "-U"@ {
        match next {
            Some(v) => Parsed::Took(Change::Append(List::Undefs), v, 2),
            None => Parsed::Fail("missing argument to '-U'"@),
        }
    } else if has_prefix(a, "-U"@) {
        Parsed::Took(Change::Append(List::Undefs), rest(a, "-U"@), 1)
    } else if a == "-L"@ {
        match next {
            Some(v) => Parsed::Took(Change::Append(List::LibraryPaths), v, 2),
            None => Parsed::Fail("missing argument to '-L'"@),
        }
    } else if has_prefix(a, "-L"@) {
        Parsed::Took(Change::Append(List::LibraryPaths), rest(a, "-L"@), 1)
    } else if a == "-l"@ {
        match next {
            Some(v) => Parsed::Took(Change::Append(List::Libraries), v, 2),
            None => Parsed::Fail("missing argument to '-l'"@),
        }
    } else if has_prefix(a, "-l"@) {
        Parsed::Took(Change::Append(List::Libraries), rest(a, "-l"@), 1)
    } else {
        Parsed::NotMine
    }
}

/// Warnings, and what is meant for other tools.
#[verifier::opaque]
pub open spec fn warning_flag(a: Seq<char>) -> Parsed {
    if a == "-w"@ {
        Parsed::Took(Change::Nothing, Seq::empty(), 1)
    } else if has_prefix(a, "-Wp,"@) {
        Parsed::Took(Change::Preprocessor, rest(a, "-Wp,"@), 1)
    } else if has_prefix(a, "-W"@) || has_prefix(a, "-std="@) {
        Parsed::Took(Change::Nothing, Seq::empty(), 1)
    } else {
        Parsed::NotMine
    }
}

/// The machine, and other code generation flags.
#[verifier::opaque]
pub open spec fn machine_flag(a: Seq<char>) -> Parsed {
    if has_prefix(a, "-march="@) {
        Parsed::Took(Change::March, rest(a, "-march="@), 1)
    } else if has_prefix(a, "-mabi="@) {
        Parsed::Took(Change::Mabi, rest(a, "-mabi="@), 1)
    } else if has_prefix(a, "-m"@) || has_prefix(a, "-f"@) {
        Parsed::Took(Change::Nothing, Seq::empty(), 1)
    } else {
        Parsed::NotMine
    }
}

/// Flags that stand for themselves.
#[verifier::opaque]
pub open spec fn plain_flag(a: Seq<char>) -> Parsed {
    if a == "-pipe"@ {
        Parsed::Took(Change::Nothing, Seq::empty(), 1)
    } else if a == "--verbose"@ {
        Parsed::Took(Change::Switch(Switch::Verbose), Seq::empty(), 1)
    } else if a == "-time"@ {
        Parsed::Took(Change::Switch(Switch::Time), Seq::empty(), 1)
    } else if a == "-nostdinc"@ {
        Parsed::Took(Change::Switch(Switch::Nostdinc), Seq::empty(), 1)
    } else if a == "-nostdlib"@ || a == "-nodefaultlibs"@ || a == "-nostartfiles"@ {
        Parsed::Took(Change::Nothing, Seq::empty(), 1)
    } else if a == "-static"@ || a == "-pthread"@ {
        Parsed::Took(Change::Nothing, Seq::empty(), 1)
    } else {
        Parsed::NotMine
    }
}

/// Dependency files.
#[verifier::opaque]
pub open spec fn dependency_flag(a: Seq<char>, next: Option<Seq<char>>) -> Parsed {
    if a == "-MD"@ || a == "-MMD"@ {
        Parsed::Took(Change::Switch(Switch::GenDepfile), Seq::empty(), 1)
    } else if a == "-MF"@ {
        match next {
            Some(v) => Parsed::Took(Change::DepfileAt, v, 2),
            None => Parsed::Took(Change::Nothing, Seq::empty(), 1),
        }
    } else if a == "-MT"@ || a == "-MQ"@ {
        match next {
            Some(v) => Parsed::Took(Change::Keep(Slot::DepfileTarget), v, 2),
            None => Parsed::Took(Change::Nothing, Seq::empty(), 1),
        }
    } else if a == "-MP"@ {
        Parsed::Took(Change::Switch(Switch::DepfilePhony), Seq::empty(), 1)
    } else if a == "-M"@ || a == "-MM"@ {
        Parsed::Took(Change::Switch(Switch::GenDepfile), Seq::empty(), 1)
    } else {
        Parsed::NotMine
    }
}

/// Languages, parameters and headers that are read first.
#[verifier::opaque]
pub open spec fn input_flag(a: Seq<char>, next: Option<Seq<char>>) -> Parsed {
    if a == "-x"@ {
        match next {
            Some(v) => Parsed::Took(Change::Nothing, v, 2),
            None => Parsed::Took(Change::Nothing, Seq::empty(), 1),
        }
    } else if has_prefix(a, "-x"@) {
        Parsed::Took(Change::Nothing, Seq::empty(), 1)
    } else if a == "-P"@ {
        Parsed::Took(Change::Nothing, Seq::empty(), 1)
    } else if a == "-C"@ || a == "-CC"@ {
        Parsed::Took(Change::Nothing, Seq::empty(), 1)
    } else if a == "--param"@ {
        match next {
            Some(v) => Parsed::Took(Change::Nothing, v, 2),
            None => Parsed::Took(Change::Nothing, Seq::empty(), 1),
        }
    } else if has_prefix(a, "--param="@) {
        Parsed::Took(Change::Nothing, Seq::empty(), 1)
    } else if a == "-include"@ {
        match next {
            Some(v) => Parsed::Took(Change::Append(List::ForcedIncludes), v, 2),
            None => Parsed::Took(Change::Nothing, Seq::empty(), 1),
        }
    } else if a == "-isystem"@ || a == "-idirafter"@ {
        match next {
            Some(v) => Parsed::Took(Change::Append(List::IncludePaths), v, 2),
            None => Parsed::Took(Change::Nothing, Seq::empty(), 1),
        }
    } else {
        Parsed::NotMine
    }
}

/// What is said of a flag that is not known.
pub open spec fn flag_warning(a: Seq<char>) -> Seq<char> {
    "warning: unrecognized flag '"@ + a + "'"@
}

/// What is none of the flags above: a flag that is not known, or an input file.
pub open spec fn other_argument(a: Seq<char>) -> Parsed {
    if has_prefix(a, "-"@) && a != "-"@ {
        Parsed::Took(Change::Append(List::Warnings), flag_warning(a), 1)
    } else {
        Parsed::Took(Change::Append(List::InputFiles), a, 1)
    }
}

/// What an argument comes to, where `next` stands behind it. The first group
/// that knows it decides.
pub open spec fn argument(a: Seq<char>, next: Option<Seq<char>>) -> Parsed {
    if !(mode_flag(a, next) is NotMine) {
        mode_flag(a, next)
    } else if !(codegen_flag(a) is NotMine) {
        codegen_flag(a)
    } else if !(path_flag(a, next) is NotMine) {
        path_flag(a, next)
    } else if !(warning_flag(a) is NotMine) {
        warning_flag(a)
    } else if !(machine_flag(a) is NotMine) {
        machine_flag(a)
    } else if !(plain_flag(a) is NotMine) {
        plain_flag(a)
    } else if !(dependency_flag(a, next) is NotMine) {
        dependency_flag(a, next)
    } else if !(input_flag(a, next) is NotMine) {
        input_flag(a, next)
    } else {
        other_argument(a)
    }
}

/// What a command line comes to. Where nothing is to be run, the warnings so far
/// come with it.
pub enum CommandLine {
    Run(CliModel),
    Version(Seq<Seq<char>>),
    Help(Seq<Seq<char>>),
    Refused(Seq<char>, Seq<Seq<char>>),
}

/// What stands behind the argument at `i`.
pub open spec fn following(args: Seq<Seq<char>>, i: int) -> Option<Seq<char>> {
    if i + 1 < args.len() {
        Some(args[i + 1])
    } else {
        None
    }
}

/// What the arguments from the `i`-th on come to.
pub open spec fn arguments(cli: CliModel, args: Seq<Seq<char>>, i: int) -> CommandLine
    decreases args.len() - i,
{
    if i < 0 || i >= args.len() {
        checked(cli)
    } else {
        match argument(args[i], following(args, i)) {
            Parsed::Took(c, v, n) => if n == 2 && i + 1 < args.len() {
                arguments(applied(cli, c, v), args, i + 2)
            } else {
                arguments(applied(cli, c, v), args, i + 1)
            },
            Parsed::Version => CommandLine::Version(cli.lists.warnings),
            Parsed::Help => CommandLine::Help(cli.lists.warnings),
            Parsed::Fail(m) => CommandLine::Refused(m, cli.lists.warnings),
            Parsed::NotMine => CommandLine::Run(cli),
        }
    }
}

proof fn lemma_only_one_flag_gives_a_target(a: Seq<char>, next: Option<Seq<char>>)
    ensures
        argument(a, next) matches Parsed::Took(c, v, n) ==> c == Change::Target ==> has_prefix(
            a,
            "--target="@,
        ),
{
    reveal(mode_flag);
    reveal(codegen_flag);
    reveal(path_flag);
    reveal(warning_flag);
    reveal(machine_flag);
    reveal(plain_flag);
    reveal(dependency_flag);
    reveal(input_flag);
}

/// A target that was given with `--target=` stays, whatever `-march=` and `-mabi=`
/// ask for, unless another is given so.
pub proof fn lemma_given_target_stays(cli: CliModel, args: Seq<Seq<char>>, i: int)
    requires
        cli.target_given,
        forall|j: int| i <= j < args.len() ==> !has_prefix(#[trigger] args[j], "--target="@),
    ensures
        arguments(cli, args, i) matches CommandLine::Run(m) ==> m.target == cli.target,
    decreases args.len() - i,
{
    if 0 <= i < args.len() {
        lemma_only_one_flag_gives_a_target(args[i], following(args, i));
        match argument(args[i], following(args, i)) {
            Parsed::Took(c, v, n) => {
                let next = applied(cli, c, v);
                assert(next.target_given && next.target == cli.target);
                if n == 2 && i + 1 < args.len() {
                    lemma_given_target_stays(next, args, i + 2);
                } else {
                    lemma_given_target_stays(next, args, i + 1);
                }
            },
            _ => {},
        }
    }
}

/// Whether a flag takes a value that can stand behind it or be attached to it.
pub open spec fn takes_value(flag: Seq<char>) -> bool {
    flag == "-I"@ || flag == "-D"@ || flag == "-U"@ || flag == "-L"@ || flag == "-l"@
}

/// Whether the argument at `j` is the value of another one when the arguments
/// are read from the `i`-th on.
pub open spec fn is_value(args: Seq<Seq<char>>, i: int, j: int) -> bool
    decreases args.len() - i,
{
    if i < 0 || i >= args.len() || i >= j {
        false
    } else {
        match argument(args[i], following(args, i)) {
            Parsed::Took(_, _, n) => if n == 2 && i + 1 < args.len() {
                i + 1 == j || is_value(args, i + 2, j)
            } else {
                is_value(args, i + 1, j)
            },
            _ => false,
        }
    }
}

/// The arguments with the one behind `j` attached to the one at `j`.
pub open spec fn attached(args: Seq<Seq<char>>, j: int) -> Seq<Seq<char>> {
    args.take(j).push(args[j] + args[j + 1]) + args.skip(j + 2)
}

/// `-I`, `-D`, `-U`, `-L` and `-l` mean the same with their value attached as with
/// their value behind them, wherever they stand.
pub proof fn lemma_attached_value_means_the_same(
    cli: CliModel,
    args: Seq<Seq<char>>,
    i: int,
    j: int,
)
    requires
        0 <= i <= j,
        j + 1 < args.len(),
        takes_value(args[j]),
        args[j + 1].len() > 0,
        !is_value(args, i, j),
    ensures
        arguments(cli, attached(args, j), i) == arguments(cli, args, i),
    decreases j - i,
{
    let joined = attached(args, j);
    if i == j {
        let v = args[j + 1];
        lemma_value_is_taken(args[j], v, following(joined, j));
        match argument(args[j], Some(v)) {
            Parsed::Took(c, _, _) => {
                assert(joined[j] == args[j] + v);
                assert(joined.skip(j + 1) =~= args.skip(j + 2));
                lemma_only_what_is_left_counts(applied(cli, c, v), joined, j + 1, args, j + 2);
            },
            _ => {},
        }
    } else {
        assert(joined[i] == args[i]);
        if i + 1 < j {
            assert(joined[i + 1] == args[i + 1]);
        } else {
            assert(joined[j] == args[j] + args[j + 1]);
            lemma_only_a_value_counts(args[i], args[j], joined[j]);
        }
        assert(joined.len() == args.len() - 1);
        match argument(args[i], following(args, i)) {
            Parsed::Took(c, v, n) => {
                if n == 2 {
                    lemma_attached_value_means_the_same(applied(cli, c, v), args, i + 2, j);
                } else {
                    lemma_attached_value_means_the_same(applied(cli, c, v), args, i + 1, j);
                }
            },
            _ => {},
        }
    }
}

proof fn lemma_only_what_is_left_counts(
    cli: CliModel,
    a: Seq<Seq<char>>,
    i: int,
    b: Seq<Seq<char>>,
    j: int,
)
    requires
        0 <= i <= a.len(),
        0 <= j <= b.len(),
        a.skip(i) == b.skip(j),
    ensures
        arguments(cli, a, i) == arguments(cli, b, j),
    decreases a.len() - i,
{
    assert(a.skip(i).len() == a.len() - i);
    assert(b.skip(j).len() == b.len() - j);
    if i < a.len() {
        assert(a.skip(i)[0] == b.skip(j)[0]);
        assert(a.skip(i + 1) =~= a.skip(i).skip(1));
        assert(b.skip(j + 1) =~= b.skip(j).skip(1));
        if i + 1 < a.len() {
            assert(a.skip(i)[1] == b.skip(j)[1]);
            assert(a.skip(i + 2) =~= a.skip(i).skip(2));
            assert(b.skip(j + 2) =~= b.skip(j).skip(2));
        }
        assert(a[i] == b[j]);
        assert(following(a, i) == following(b, j));
        match argument(a[i], following(a, i)) {
            Parsed::Took(c, v, n) => if n == 2 && i + 1 < a.len() {
                lemma_only_what_is_left_counts(applied(cli, c, v), a, i + 2, b, j + 2);
            } else {
                lemma_only_what_is_left_counts(applied(cli, c, v), a, i + 1, b, j + 1);
            },
            _ => {},
        }
    }
}

proof fn lemma_only_a_value_counts(a: Seq<char>, x: Seq<char>, y: Seq<char>)
    ensures
        argument(a, Some(x)) == argument(a, Some(y)) || (argument(a, Some(x)) matches Parsed::Took(
            _,
            _,
            n,
        ) && n == 2),
{
    reveal(mode_flag);
    reveal(path_flag);
    reveal(dependency_flag);
    reveal(input_flag);
}

proof fn lemma_letter_of_flag(flag: Seq<char>)
    requires
        takes_value(flag),
    ensures
        flag.len() == 2,
        flag[0] == '-',
        flag[1] == 'I' || flag[1] == 'D' || flag[1] == 'U' || flag[1] == 'L' || flag[1] == 'l',
{
    reveal_strlit("-I");
    reveal_strlit("-D");
    reveal_strlit("-U");
    reveal_strlit("-L");
    reveal_strlit("-l");
}

proof fn lemma_second_letter(a: Seq<char>, prefix: Seq<char>)
    requires
        has_prefix(a, prefix),
        prefix.len() >= 2,
    ensures
        a[1] == prefix[1],
{
    assert(a.take(prefix.len() as int)[1] == a[1]);
}

proof fn lemma_no_mode_flag(a: Seq<char>, next: Option<Seq<char>>)
    requires
        a.len() >= 2,
        a[1] == 'I' || a[1] == 'D' || a[1] == 'U' || a[1] == 'L' || a[1] == 'l',
    ensures
        mode_flag(a, next) is NotMine,
{
    reveal(mode_flag);
    reveal_strlit("--target=");
    reveal_strlit("--version");
    reveal_strlit("--help");
    reveal_strlit("-h");
    reveal_strlit("-o");
    reveal_strlit("-c");
    reveal_strlit("-S");
    reveal_strlit("-E");
    reveal_strlit("-g");
    reveal_strlit("-O");
    if has_prefix(a, "--target="@) {
        lemma_second_letter(a, "--target="@);
    }
    if has_prefix(a, "-O"@) {
        lemma_second_letter(a, "-O"@);
    }
}

proof fn lemma_no_codegen_flag(a: Seq<char>)
    requires
        a.len() >= 2,
        a[1] == 'I' || a[1] == 'D' || a[1] == 'U' || a[1] == 'L' || a[1] == 'l',
    ensures
        codegen_flag(a) is NotMine,
{
    reveal(codegen_flag);
    reveal_strlit("-fPIC");
    reveal_strlit("-fpic");
    reveal_strlit("-shared");
    reveal_strlit("-mretpoline");
    reveal_strlit("-fcf-protection");
    reveal_strlit("-fcf-protection=full");
    reveal_strlit("-fcf-protection=none");
}

proof fn lemma_value_is_taken(flag: Seq<char>, v: Seq<char>, next: Option<Seq<char>>)
    requires
        takes_value(flag),
        v.len() > 0,
    ensures
        argument(flag, Some(v)) matches Parsed::Took(c, w, n) && w == v && n == 2 && argument(
            flag + v,
            next,
        ) == Parsed::Took(c, v, 1),
{
    let a = flag + v;
    lemma_letter_of_flag(flag);
    lemma_letter_of_flag("-I"@);
    lemma_letter_of_flag("-D"@);
    lemma_letter_of_flag("-U"@);
    lemma_letter_of_flag("-L"@);
    lemma_letter_of_flag("-l"@);
    assert(a.take(2) =~= flag);
    assert(rest(a, flag) =~= v);
    lemma_no_mode_flag(flag, Some(v));
    lemma_no_mode_flag(a, next);
    lemma_no_codegen_flag(flag);
    lemma_no_codegen_flag(a);
    lemma_flags_differ();
    assert(flag.take(2) =~= flag);
    reveal(path_flag);
}

proof fn lemma_flags_differ()
    ensures
        "-I"@ != "-D"@ && "-I"@ != "-U"@ && "-I"@ != "-L"@ && "-I"@ != "-l"@,
        "-D"@ != "-U"@ && "-D"@ != "-L"@ && "-D"@ != "-l"@,
        "-U"@ != "-L"@ && "-U"@ != "-l"@,
        "-L"@ != "-l"@,
{
    reveal_strlit("-I");
    reveal_strlit("-D");
    reveal_strlit("-U");
    reveal_strlit("-L");
    reveal_strlit("-l");
    assert("-I"@[1] == 'I' && "-D"@[1] == 'D' && "-U"@[1] == 'U');
    assert("-L"@[1] == 'L' && "-l"@[1] == 'l');
}

/// Whether more than one of `-c`, `-S` and `-E` was given.
pub open spec fn modes_conflict(s: Switches) -> bool {
    (s.compile_only && s.emit_assembly) || (s.compile_only && s.preprocess_only) || (
    s.emit_assembly && s.preprocess_only)
}

/// At the end of the command line: there must be an input file, and one way to
/// go at most.
pub open spec fn checked(cli: CliModel) -> CommandLine {
    if cli.lists.input_files.len() == 0 {
        CommandLine::Refused("no input files"@, cli.lists.warnings)
    } else if modes_conflict(cli.switches) {
        CommandLine::Refused(
            "only one of '-c', '-S', '-E' may be specified"@,
            cli.lists.warnings,
        )
    } else {
        CommandLine::Run(cli)
    }
}

/// What a command line comes to. Where nothing is to be run, the warnings so far
/// come with it.
#[derive(Debug)]
pub enum Command {
    Run(CliArgs),
    /// The version is asked for.
    Version(Vec<String>),
    /// The usage is asked for.
    Help(Vec<String>),
    /// The command line is wrong, for the reason given.
    Refused(String, Vec<String>),
}

/// Whether a command is what a command line comes to.
pub open spec fn is_command(c: CommandLine, r: Command) -> bool {
    match c {
        CommandLine::Run(m) => r matches Command::Run(cli) && cli@ == m,
        CommandLine::Version(w) => r matches Command::Version(v) && texts_of(v@) == w,
        CommandLine::Help(w) => r matches Command::Help(v) && texts_of(v@) == w,
        CommandLine::Refused(m, w) => r matches Command::Refused(s, v) && s@ == m && texts_of(v@)
            == w,
    }
}

/// The text behind a reference, where there is one.
pub open spec fn opt_view(s: Option<&str>) -> Option<Seq<char>> {
    match s {
        Some(x) => Some(x@),
        None => None,
    }
}

// ---------------------------------------------------------------------------
// Parsing
// ---------------------------------------------------------------------------

/// Splits a macro definition at its first `=`.
pub fn parse_define(s: &str) -> (r: (String, Option<String>))
    ensures
        r.0@ == split_define(s@).0,
        opt_chars(r.1) == split_define(s@).1,
{
    match find_char(s, '=', 0) {
        Some(k) => {
            let n: usize = s.unicode_len();
            let name: &str = s.substring_char(0, k);
            let value: &str = s.substring_char(k + 1, n);
            assert(name@ =~= s@.take(k as int));
            assert(value@ =~= s@.skip(k + 1));
            (own(name), Some(own(value)))
        },
        None => (own(s), None),
    }
}

fn push_define(v: &mut Vec<(String, Option<String>)>, s: &str)
    ensures
        defines_of(final(v)@) == defines_of(old(v)@).push(split_define(s@)),
{
    proof {
        reveal(defines_of);
    }
    let d: (String, Option<String>) = parse_define(s);
    let ghost model = (d.0@, opt_chars(d.1));
    v.push(d);
    assert(defines_of(v@) =~= defines_of(old(v)@).push(model));
}

fn turn(s: Switches, which: Switch) -> (r: Switches)
    ensures
        r == turned(s, which),
{
    match which {
        Switch::CompileOnly => Switches { compile_only: true, ..s },
        Switch::EmitAssembly => Switches { emit_assembly: true, ..s },
        Switch::PreprocessOnly => Switches { preprocess_only: true, ..s },
        Switch::DebugInfo => Switches { debug_info: true, ..s },
        Switch::Pic => Switches { pic: true, ..s },
        Switch::Shared => Switches { shared: true, ..s },
        Switch::Retpoline => Switches { retpoline: true, ..s },
        Switch::CfProtection => Switches { cf_protection: true, ..s },
        Switch::Verbose => Switches { verbose: true, ..s },
        Switch::Time => Switches { time: true, ..s },
        Switch::Nostdinc => Switches { nostdinc: true, ..s },
        Switch::GenDepfile => Switches { gen_depfile: true, ..s },
        Switch::DepfilePhony => Switches { depfile_phony: true, ..s },
        Switch::NoCfProtection => Switches { cf_protection: false, ..s },
    }
}

fn append(l: &mut Lists, which: List, v: &str)
    ensures
        final(l)@ == appended(old(l)@, which, v@),
{
    match which {
        List::InputFiles => push_text(&mut l.input_files, v),
        List::IncludePaths => push_text(&mut l.include_paths, v),
        List::Undefs => push_text(&mut l.undefs, v),
        List::LibraryPaths => push_text(&mut l.library_paths, v),
        List::Libraries => push_text(&mut l.libraries, v),
        List::ForcedIncludes => push_text(&mut l.forced_includes, v),
        List::Warnings => push_text(&mut l.warnings, v),
    }
}

fn parse_level(level: &str) -> (r: Option<u8>)
    ensures
        r == level_of(level@),
{
    if str_eq(level, "0") || str_eq(level, "") {
        Some(0)
    } else if str_eq(level, "1") {
        Some(1)
    } else if str_eq(level, "2") || str_eq(level, "s") {
        Some(2)
    } else if str_eq(level, "3") {
        Some(3)
    } else {
        None
    }
}

fn set_level(cli: &mut CliArgs, level: &str)
    ensures
        final(cli)@ == level_set(old(cli)@, level@),
{
    match parse_level(level) {
        Some(n) => {
            cli.optimization_level = n;
        },
        None => {
            cli.optimization_level = 0;
            let message: String = concat3(
                "warning: unknown optimization level '",
                level,
                "', using -O0",
            );
            append(&mut cli.lists, List::Warnings, message.as_str());
        },
    }
}

fn conclude(given: bool, current: Target, found: Target) -> (r: Target)
    ensures
        r == concluded(given, current, found),
{
    if !given && current == Target::X86_64 {
        found
    } else {
        current
    }
}

fn target_for_march(given: bool, current: Target, march: &str) -> (r: Target)
    ensures
        r == target_of_march(given, current, march@),
{
    if starts_with(march, "rv64") || starts_with(march, "rv32") {
        conclude(given, current, Target::RiscV64)
    } else if starts_with(march, "armv8") || starts_with(march, "aarch64") {
        conclude(given, current, Target::AArch64)
    } else {
        current
    }
}

fn target_for_mabi(given: bool, current: Target, mabi: &str) -> (r: Target)
    ensures
        r == target_of_mabi(given, current, mabi@),
{
    if starts_with(mabi, "lp64") {
        conclude(given, current, Target::RiscV64)
    } else if starts_with(mabi, "ilp32") {
        conclude(given, current, Target::I686)
    } else {
        current
    }
}

/// Where the dependency file goes.
struct Dependency {
    wanted: bool,
    phony: bool,
    path: Option<String>,
    target: Option<String>,
}

impl View for Dependency {
    type V = DependencyModel;

    closed spec fn view(&self) -> DependencyModel {
        DependencyModel {
            wanted: self.wanted,
            phony: self.phony,
            path: opt_chars(self.path),
            target: opt_chars(self.target),
        }
    }
}

fn take_preprocessor_flags(d: &mut Dependency, parts: &Vec<String>)
    ensures
        final(d)@ == preprocessor_flags(old(d)@, texts_of(parts@), 0),
{
    let ghost start = d@;
    let n: usize = parts.len();
    let mut j: usize = 0;
    while j < n
        invariant
            n == parts@.len(),
            j <= n,
            preprocessor_flags(d@, texts_of(parts@), j as int) == preprocessor_flags(
                start,
                texts_of(parts@),
                0,
            ),
        decreases n - j,
    {
        let part: &str = parts[j].as_str();
        assert(texts_of(parts@)[j as int] == part@);
        assert(j + 1 < n ==> texts_of(parts@)[j + 1] == parts@[j + 1]@);
        if str_eq(part, "-MMD") || str_eq(part, "-MD") {
            d.wanted = true;
            if j + 1 < n {
                d.path = Some(own(parts[j + 1].as_str()));
                j += 1;
            }
        } else if str_eq(part, "-MP") {
            d.phony = true;
        } else if str_eq(part, "-MT") && j + 1 < n {
            d.target = Some(own(parts[j + 1].as_str()));
            j += 1;
        }
        j += 1;
    }
}

fn set_preprocessor_flags(cli: &mut CliArgs, v: &str)
    ensures
        final(cli)@ == preprocessor_set(old(cli)@, v@),
{
    let mut d = Dependency {
        wanted: cli.switches.gen_depfile,
        phony: cli.switches.depfile_phony,
        path: own_opt(&cli.slots.depfile_path),
        target: own_opt(&cli.slots.depfile_target),
    };
    take_preprocessor_flags(&mut d, &split(v, ','));
    cli.switches = Switches {
        gen_depfile: d.wanted,
        depfile_phony: d.phony,
        ..cli.switches
    };
    cli.slots.depfile_path = d.path;
    cli.slots.depfile_target = d.target;
}

fn set_machine(cli: &mut CliArgs, c: Change, v: String)
    requires
        c == Change::March || c == Change::Mabi || c == Change::Target,
    ensures
        final(cli)@ == applied(old(cli)@, c, v@),
{
    match c {
        Change::March => {
            cli.target = target_for_march(cli.target_given, cli.target, v.as_str());
            cli.slots.march = Some(v);
        },
        Change::Mabi => {
            cli.target = target_for_mabi(cli.target_given, cli.target, v.as_str());
            cli.slots.mabi = Some(v);
        },
        _ => {
            cli.target_given = true;
            match Target::from_str(v.as_str()) {
                Some(t) => {
                    cli.target = t;
                },
                None => {},
            }
        },
    }
}

fn fill(s: &mut Slots, which: Slot, v: String)
    ensures
        final(s)@ == filled(old(s)@, which, v@),
{
    match which {
        Slot::OutputFile => {
            s.output_file = Some(v);
        },
        Slot::DepfileTarget => {
            s.depfile_target = Some(v);
        },
    }
}

fn set_depfile(cli: &mut CliArgs, v: String)
    ensures
        final(cli)@ == applied(old(cli)@, Change::DepfileAt, v@),
{
    cli.switches = Switches { gen_depfile: true, ..cli.switches };
    cli.slots.depfile_path = Some(v);
}

fn apply_plain(cli: &mut CliArgs, c: Change, v: String)
    requires
        c is Switch || c is Keep || c is Append || c is Define,
    ensures
        final(cli)@ == applied(old(cli)@, c, v@),
{
    match c {
        Change::Switch(s) => {
            cli.switches = turn(cli.switches, s);
        },
        Change::Keep(s) => fill(&mut cli.slots, s, v),
        Change::Append(l) => append(&mut cli.lists, l, v.as_str()),
        _ => push_define(&mut cli.defines, v.as_str()),
    }
}

fn apply(cli: &mut CliArgs, c: Change, v: String)
    ensures
        final(cli)@ == applied(old(cli)@, c, v@),
{
    match c {
        Change::Nothing => {},
        Change::Switch(_) => apply_plain(cli, c, v),
        Change::Keep(_) => apply_plain(cli, c, v),
        Change::Append(_) => apply_plain(cli, c, v),
        Change::Define => apply_plain(cli, c, v),
        Change::Level => set_level(cli, v.as_str()),
        Change::Target => set_machine(cli, c, v),
        Change::March => set_machine(cli, c, v),
        Change::Mabi => set_machine(cli, c, v),
        Change::Preprocessor => set_preprocessor_flags(cli, v.as_str()),
        Change::DepfileAt => set_depfile(cli, v),
    }
}

fn took(c: Change) -> (r: Outcome)
    ensures
        agrees(Parsed::Took(c, Seq::empty(), 1), r),
{
    let empty: String = String::new();
    assert(empty@ =~= Seq::empty());
    Outcome::Took(c, empty, 1)
}

fn parse_target_flag(name: String) -> (r: Outcome)
    ensures
        agrees(target_flag(name@), r),
{
    match Target::from_str(name.as_str()) {
        Some(_) => Outcome::Took(Change::Target, name, 1),
        None => Outcome::Fail(
            concat3(
                "unknown target '",
                name.as_str(),
                "'. Supported targets: x86-64, i686, aarch64, riscv64",
            ),
        ),
    }
}

fn parse_mode_flag(a: &str, next: Option<&str>) -> (r: Outcome)
    ensures
        agrees(mode_flag(a@, opt_view(next)), r),
{
    proof {
        reveal(mode_flag);
    }
    match strip_prefix(a, "--target=") {
        Some(v) => {
            return parse_target_flag(v);
        },
        None => {},
    }
    if str_eq(a, "--version") {
        return Outcome::Version;
    }
    if str_eq(a, "--help") || str_eq(a, "-h") {
        return Outcome::Help;
    }
    if str_eq(a, "-o") {
        return match next {
            Some(v) => Outcome::Took(Change::Keep(Slot::OutputFile), own(v), 2),
            None => Outcome::Fail(own("missing argument to '-o'")),
        };
    }
    if str_eq(a, "-c") {
        return took(Change::Switch(Switch::CompileOnly));
    }
    if str_eq(a, "-S") {
        return took(Change::Switch(Switch::EmitAssembly));
    }
    if str_eq(a, "-E") {
        return took(Change::Switch(Switch::PreprocessOnly));
    }
    if str_eq(a, "-g") {
        return took(Change::Switch(Switch::DebugInfo));
    }
    match strip_prefix(a, "-O") {
        Some(v) => {
            return Outcome::Took(Change::Level, v, 1);
        },
        None => {},
    }
    Outcome::NotMine
}

fn parse_codegen_flag(a: &str) -> (r: Outcome)
    ensures
        agrees(codegen_flag(a@), r),
{
    proof {
        reveal(codegen_flag);
    }
    if str_eq(a, "-fPIC") || str_eq(a, "-fpic") {
        return took(Change::Switch(Switch::Pic));
    }
    if str_eq(a, "-shared") {
        return took(Change::Switch(Switch::Shared));
    }
    if str_eq(a, "-mretpoline") {
        return took(Change::Switch(Switch::Retpoline));
    }
    if str_eq(a, "-fcf-protection") || str_eq(a, "-fcf-protection=full") {
        return took(Change::Switch(Switch::CfProtection));
    }
    if str_eq(a, "-fcf-protection=none") {
        return took(Change::Switch(Switch::NoCfProtection));
    }
    Outcome::NotMine
}

fn parse_path_flag(a: &str, next: Option<&str>) -> (r: Outcome)
    ensures
        agrees(path_flag(a@, opt_view(next)), r),
{
    proof {
        reveal(path_flag);
    }
    if str_eq(a, "-I") {
        return match next {
            Some(v) => Outcome::Took(Change::Append(List::IncludePaths), own(v), 2),
            None => Outcome::Fail(own("missing argument to '-I'")),
        };
    }
    match strip_prefix(a, "-I") {
        Some(v) => {
            return Outcome::Took(Change::Append(List::IncludePaths), v, 1);
        },
        None => {},
    }
    if str_eq(a, "-D") {
        return match next {
            Some(v) => Outcome::Took(Change::Define, own(v), 2),
            None => Outcome::Fail(own("missing argument to '-D'")),
        };
    }
    match strip_prefix(a, "-D") {
        Some(v) => {
            return Outcome::Took(Change::Define, v, 1);
        },
        None => {},
    }
    if str_eq(a, "-U") {
        return match next {
            Some(v) => Outcome::Took(Change::Append(List::Undefs), own(v), 2),
            None => Outcome::Fail(own("missing argument to '-U'")),
        };
    }
    match strip_prefix(a, "-U") {
        Some(v) => {
            return Outcome::Took(Change::Append(List::Undefs), v, 1);
        },
        None => {},
    }
    if str_eq(a, "-L") {
        return match next {
            Some(v) => Outcome::Took(Change::Append(List::LibraryPaths), own(v), 2),
            None => Outcome::Fail(own("missing argument to '-L'")),
        };
    }
    match strip_prefix(a, "-L") {
        Some(v) => {
            return Outcome::Took(Change::Append(List::LibraryPaths), v, 1);
        },
        None => {},
    }
    if str_eq(a, "-l") {
        return match next {
            Some(v) => Outcome::Took(Change::Append(List::Libraries), own(v), 2),
            None => Outcome::Fail(own("missing argument to '-l'")),
        };
    }
    match strip_prefix(a, "-l") {
        Some(v) => {
            return Outcome::Took(Change::Append(List::Libraries), v, 1);
        },
        None => {},
    }
    Outcome::NotMine
}

fn parse_warning_flag(a: &str) -> (r: Outcome)
    ensures
        agrees(warning_flag(a@), r),
{
    proof {
        reveal(warning_flag);
    }
    if str_eq(a, "-w") {
        return took(Change::Nothing);
    }
    match strip_prefix(a, "-Wp,") {
        Some(v) => {
            return Outcome::Took(Change::Preprocessor, v, 1);
        },
        None => {},
    }
    if starts_with(a, "-W") || starts_with(a, "-std=") {
        return took(Change::Nothing);
    }
    Outcome::NotMine
}

fn parse_machine_flag(a: &str) -> (r: Outcome)
    ensures
        agrees(machine_flag(a@), r),
{
    proof {
        reveal(machine_flag);
    }
    match strip_prefix(a, "-march=") {
        Some(v) => {
            return Outcome::Took(Change::March, v, 1);
        },
        None => {},
    }
    match strip_prefix(a, "-mabi=") {
        Some(v) => {
            return Outcome::Took(Change::Mabi, v, 1);
        },
        None => {},
    }
    if starts_with(a, "-m") || starts_with(a, "-f") {
        return took(Change::Nothing);
    }
    Outcome::NotMine
}

fn parse_plain_flag(a: &str) -> (r: Outcome)
    ensures
        agrees(plain_flag(a@), r),
{
    proof {
        reveal(plain_flag);
    }
    if str_eq(a, "-pipe") {
        return took(Change::Nothing);
    }
    if str_eq(a, "--verbose") {
        return took(Change::Switch(Switch::Verbose));
    }
    if str_eq(a, "-time") {
        return took(Change::Switch(Switch::Time));
    }
    if str_eq(a, "-nostdinc") {
        return took(Change::Switch(Switch::Nostdinc));
    }
    if str_eq(a, "-nostdlib") || str_eq(a, "-nodefaultlibs") || str_eq(a, "-nostartfiles") {
        return took(Change::Nothing);
    }
    if str_eq(a, "-static") || str_eq(a, "-pthread") {
        return took(Change::Nothing);
    }
    Outcome::NotMine
}

fn parse_dependency_flag(a: &str, next: Option<&str>) -> (r: Outcome)
    ensures
        agrees(dependency_flag(a@, opt_view(next)), r),
{
    proof {
        reveal(dependency_flag);
    }
    if str_eq(a, "-MD") || str_eq(a, "-MMD") {
        return took(Change::Switch(Switch::GenDepfile));
    }
    if str_eq(a, "-MF") {
        return match next {
            Some(v) => Outcome::Took(Change::DepfileAt, own(v), 2),
            None => took(Change::Nothing),
        };
    }
    if str_eq(a, "-MT") || str_eq(a, "-MQ") {
        return match next {
            Some(v) => Outcome::Took(Change::Keep(Slot::DepfileTarget), own(v), 2),
            None => took(Change::Nothing),
        };
    }
    if str_eq(a, "-MP") {
        return took(Change::Switch(Switch::DepfilePhony));
    }
    if str_eq(a, "-M") || str_eq(a, "-MM") {
        return took(Change::Switch(Switch::GenDepfile));
    }
    Outcome::NotMine
}

fn parse_input_flag(a: &str, next: Option<&str>) -> (r: Outcome)
    ensures
        agrees(input_flag(a@, opt_view(next)), r),
{
    proof {
        reveal(input_flag);
    }
    if str_eq(a, "-x") {
        return match next {
            Some(v) => Outcome::Took(Change::Nothing, own(v), 2),
            None => took(Change::Nothing),
        };
    }
    if starts_with(a, "-x") {
        return took(Change::Nothing);
    }
    if str_eq(a, "-P") {
        return took(Change::Nothing);
    }
    if str_eq(a, "-C") || str_eq(a, "-CC") {
        return took(Change::Nothing);
    }
    if str_eq(a, "--param") {
        return match next {
            Some(v) => Outcome::Took(Change::Nothing, own(v), 2),
            None => took(Change::Nothing),
        };
    }
    if starts_with(a, "--param=") {
        return took(Change::Nothing);
    }
    if str_eq(a, "-include") {
        return match next {
            Some(v) => Outcome::Took(Change::Append(List::ForcedIncludes), own(v), 2),
            None => took(Change::Nothing),
        };
    }
    if str_eq(a, "-isystem") || str_eq(a, "-idirafter") {
        return match next {
            Some(v) => Outcome::Took(Change::Append(List::IncludePaths), own(v), 2),
            None => took(Change::Nothing),
        };
    }
    Outcome::NotMine
}

fn parse_other_argument(a: &str) -> (r: Outcome)
    ensures
        agrees(other_argument(a@), r),
{
    if starts_with(a, "-") && !str_eq(a, "-") {
        Outcome::Took(
            Change::Append(List::Warnings),
            concat3("warning: unrecognized flag '", a, "'"),
            1,
        )
    } else {
        Outcome::Took(Change::Append(List::InputFiles), own(a), 1)
    }
}

/// Whether a group knew the argument.
fn is_mine(o: &Outcome) -> (r: bool)
    ensures
        r == !(o is NotMine),
{
    match o {
        Outcome::NotMine => false,
        _ => true,
    }
}

fn parse_argument(a: &str, next: Option<&str>) -> (r: Outcome)
    ensures
        agrees(argument(a@, opt_view(next)), r),
{
    let mode: Outcome = parse_mode_flag(a, next);
    if is_mine(&mode) {
        return mode;
    }
    let codegen: Outcome = parse_codegen_flag(a);
    if is_mine(&codegen) {
        return codegen;
    }
    let path: Outcome = parse_path_flag(a, next);
    if is_mine(&path) {
        return path;
    }
    let warning: Outcome = parse_warning_flag(a);
    if is_mine(&warning) {
        return warning;
    }
    let machine: Outcome = parse_machine_flag(a);
    if is_mine(&machine) {
        return machine;
    }
    let plain: Outcome = parse_plain_flag(a);
    if is_mine(&plain) {
        return plain;
    }
    let dependency: Outcome = parse_dependency_flag(a, next);
    if is_mine(&dependency) {
        return dependency;
    }
    let input: Outcome = parse_input_flag(a, next);
    if is_mine(&input) {
        return input;
    }
    parse_other_argument(a)
}

/// Parses the arguments of a command line, without the name of the program.
pub fn parse_args(args: &Vec<String>) -> (r: Command)
    ensures
        is_command(arguments(no_arguments(), texts_of(args@), 0), r),
{
    let n: usize = args.len();
    let mut cli: CliArgs = CliArgs::default();
    let mut i: usize = 0;
    #[verifier::loop_isolation(false)]
    while i < n
        invariant
            i <= n,
            arguments(cli@, texts_of(args@), i as int) == arguments(
                no_arguments(),
                texts_of(args@),
                0,
            ),
        decreases n - i,
    {
        let next: Option<&str> = if i + 1 < n {
            Some(args[i + 1].as_str())
        } else {
            None
        };
        assert(opt_view(next) == following(texts_of(args@), i as int));
        match parse_argument(args[i].as_str(), next) {
            Outcome::NotMine => {
                return Command::Run(cli);
            },
            Outcome::Took(c, v, used) => {
                apply(&mut cli, c, v);
                if used == 2 && i + 1 < n {
                    i += 2;
                } else {
                    i += 1;
                }
            },
            Outcome::Version => {
                return Command::Version(cli.lists.warnings);
            },
            Outcome::Help => {
                return Command::Help(cli.lists.warnings);
            },
            Outcome::Fail(m) => {
                return Command::Refused(m, cli.lists.warnings);
            },
        }
    }
    finish(cli)
}

fn finish(cli: CliArgs) -> (r: Command)
    ensures
        is_command(checked(cli@), r),
{
    if cli.lists.input_files.len() == 0 {
        return Command::Refused(own("no input files"), cli.lists.warnings);
    }
    let s: Switches = cli.switches;
    if (s.compile_only && s.emit_assembly) || (s.compile_only && s.preprocess_only) || (
    s.emit_assembly && s.preprocess_only) {
        return Command::Refused(
            own("only one of '-c', '-S', '-E' may be specified"),
            cli.lists.warnings,
        );
    }
    Command::Run(cli)
}

} // verus!
