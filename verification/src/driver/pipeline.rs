//! What is done with the inputs, and in which order.

use crate::common::diagnostics::{any_error, DiagnosticEngine, DiagnosticModel};
use crate::common::lists::{contains_text, copy_texts, push_text};
use crate::common::source_map::SourceMap;
use crate::common::string_interner::Interner;
use crate::common::target::Target;
use crate::common::text::{
    concat3, has_prefix, opt_chars, own, own_opt, str_eq, strip_prefix, texts_of,
};
use crate::common::type_builder::TypeBuilder;
use crate::common::types::void_ptr_ty;
use crate::driver::args::{defines_of, CliArgs, CliModel};
use crate::driver::paths::{
    derive_output, derived_output, is_assembly, is_assembly_file, output_path, resolve_output_path,
};
use crate::frontend::parser::ast::TranslationUnit;
use crate::frontend::sema::analyzer::{blank_state, builtin_registered, SemanticAnalyzer};
use crate::frontend::sema::functions::{external_declarations, finalized};
use crate::frontend::sema::state::State;
use crate::ir::lowering::unit::{lower_translation_unit, lowered, Lowering};
use vstd::prelude::*;
use vstd::string::*;

verus! {

broadcast use crate::common::text::group_texts;

/// How deeply the parser and the macro expander may nest.
pub const MAX_RECURSION_DEPTH: usize = 512;

// ---------------------------------------------------------------------------
// Settings
// ---------------------------------------------------------------------------

/// What every phase of a compilation is told.
#[derive(Debug)]
pub struct CompilationContext {
    pub target: Target,
    pub debug_info: bool,
    pub optimization_level: u8,
    pub pic: bool,
    pub shared: bool,
    pub retpoline: bool,
    pub cf_protection: bool,
    pub include_paths: Vec<String>,
    pub defines: Vec<(String, Option<String>)>,
    pub undefs: Vec<String>,
    pub library_paths: Vec<String>,
    pub libraries: Vec<String>,
    pub forced_includes: Vec<String>,
    pub max_recursion_depth: usize,
    pub nostdinc: bool,
    pub verbose: bool,
}

fn copy_defines(v: &Vec<(String, Option<String>)>) -> (r: Vec<(String, Option<String>)>)
    ensures
        defines_of(r@) == defines_of(v@),
{
    proof {
        reveal(defines_of);
    }
    let mut out: Vec<(String, Option<String>)> = Vec::new();
    let mut i: usize = 0;
    while i < v.len()
        invariant
            i <= v@.len(),
            out@.len() == i,
            forall|j: int|
                0 <= j < i ==> (#[trigger] out@[j]).0@ == v@[j].0@ && opt_chars(out@[j].1)
                    == opt_chars(v@[j].1),
        decreases v@.len() - i,
    {
        out.push((own(v[i].0.as_str()), own_opt(&v[i].1)));
        i += 1;
    }
    assert(defines_of(out@) =~= defines_of(v@));
    out
}

impl CompilationContext {
    /// The settings that a command line asks for. A shared object is always
    /// position-independent.
    pub fn from_cli_args(cli: &CliArgs) -> (r: CompilationContext)
        ensures
            r.target == cli.target,
            r.debug_info == cli.switches.debug_info,
            r.optimization_level == cli.optimization_level,
            r.pic == (cli.switches.pic || cli.switches.shared),
            r.shared == cli.switches.shared,
            r.retpoline == cli.switches.retpoline,
            r.cf_protection == cli.switches.cf_protection,
            texts_of(r.include_paths@) == cli@.lists.include_paths,
            defines_of(r.defines@) == cli@.defines,
            texts_of(r.undefs@) == cli@.lists.undefs,
            texts_of(r.library_paths@) == cli@.lists.library_paths,
            texts_of(r.libraries@) == cli@.lists.libraries,
            texts_of(r.forced_includes@) == cli@.lists.forced_includes,
            r.max_recursion_depth == MAX_RECURSION_DEPTH,
            r.nostdinc == cli.switches.nostdinc,
            r.verbose == cli.switches.verbose,
    {
        CompilationContext {
            target: cli.target,
            debug_info: cli.switches.debug_info,
            optimization_level: cli.optimization_level,
            pic: cli.switches.pic || cli.switches.shared,
            shared: cli.switches.shared,
            retpoline: cli.switches.retpoline,
            cf_protection: cli.switches.cf_protection,
            include_paths: copy_texts(&cli.lists.include_paths),
            defines: copy_defines(&cli.defines),
            undefs: copy_texts(&cli.lists.undefs),
            library_paths: copy_texts(&cli.lists.library_paths),
            libraries: copy_texts(&cli.lists.libraries),
            forced_includes: copy_texts(&cli.lists.forced_includes),
            max_recursion_depth: MAX_RECURSION_DEPTH,
            nostdinc: cli.switches.nostdinc,
            verbose: cli.switches.verbose,
        }
    }
}

/// What is to be said of a shared object that was not asked to be
/// position-independent.
pub fn shared_warning(cli: &CliArgs) -> (r: Option<&'static str>)
    ensures
        match r {
            Some(m) => cli.switches.shared && !cli.switches.pic && m@
                == "warning: creating shared library without -fPIC; PIC will be enabled implicitly, but explicit -fPIC is recommended"@,
            None => !cli.switches.shared || cli.switches.pic,
        },
{
    if cli.switches.shared && !cli.switches.pic {
        Some(
            "warning: creating shared library without -fPIC; PIC will be enabled implicitly, but explicit -fPIC is recommended",
        )
    } else {
        None
    }
}

// ---------------------------------------------------------------------------
// Inputs
// ---------------------------------------------------------------------------

/// What became of an attempt to open an input.
#[derive(Debug)]
pub enum InputProbe {
    Missing,
    /// The input exists and cannot be opened, for the reason given.
    Refused(String),
    Opened,
}

/// Whether an input is a file that must be there.
pub open spec fn must_exist(input: Seq<char>) -> bool {
    input != "-"@ && input != "/dev/null"@
}

/// What is wrong with an input.
pub open spec fn input_error(input: Seq<char>, p: InputProbe) -> Option<Seq<char>> {
    if !must_exist(input) {
        None
    } else {
        match p {
            InputProbe::Missing => Some("'"@ + input + "': No such file or directory"@),
            InputProbe::Refused(why) => Some("'"@ + input + "': "@ + why@),
            InputProbe::Opened => None,
        }
    }
}

/// What is wrong with the first bad input from the `i`-th on.
pub open spec fn first_error(
    inputs: Seq<Seq<char>>,
    probes: Seq<InputProbe>,
    i: int,
) -> Option<Seq<char>>
    decreases inputs.len() - i,
{
    if i < 0 || i >= inputs.len() || i >= probes.len() {
        None
    } else {
        match input_error(inputs[i], probes[i]) {
            Some(m) => Some(m),
            None => first_error(inputs, probes, i + 1),
        }
    }
}

fn check_input(input: &str, p: &InputProbe) -> (r: Option<String>)
    ensures
        opt_chars(r) == input_error(input@, *p),
{
    if str_eq(input, "-") || str_eq(input, "/dev/null") {
        return None;
    }
    match p {
        InputProbe::Missing => Some(concat3("'", input, "': No such file or directory")),
        InputProbe::Refused(why) => {
            let mut s: String = concat3("'", input, "': ");
            s.append(why.as_str());
            Some(s)
        },
        InputProbe::Opened => None,
    }
}

/// Whether all inputs can be read, where `probes` holds what became of an attempt
/// to open each.
pub fn validate_input_files(inputs: &Vec<String>, probes: &Vec<InputProbe>) -> (r: Result<
    (),
    String,
>)
    requires
        probes@.len() == inputs@.len(),
    ensures
        match r {
            Ok(_) => first_error(texts_of(inputs@), probes@, 0) is None,
            Err(m) => first_error(texts_of(inputs@), probes@, 0) == Some(m@),
        },
{
    let mut i: usize = 0;
    while i < inputs.len()
        invariant
            i <= inputs@.len(),
            probes@.len() == inputs@.len(),
            first_error(texts_of(inputs@), probes@, i as int) == first_error(
                texts_of(inputs@),
                probes@,
                0,
            ),
        decreases inputs@.len() - i,
    {
        assert(texts_of(inputs@)[i as int] == inputs@[i as int]@);
        match check_input(inputs[i].as_str(), &probes[i]) {
            Some(m) => {
                return Err(m);
            },
            None => {},
        }
        i += 1;
    }
    Ok(())
}

// ---------------------------------------------------------------------------
// The plan
// ---------------------------------------------------------------------------

/// What is done with the inputs.
#[derive(Debug)]
pub enum Plan {
    /// Preprocess each input.
    Preprocess,
    /// Link the only input as it is.
    LinkOne(String),
    /// Compile the only input.
    CompileOne(String),
    /// Compile each input to an output of its own.
    CompileEach(Vec<String>),
    /// Compile each input that is no object to a temporary object, and link all.
    CompileAndLink(String),
}

/// What is done with the inputs, as contracts see it.
pub enum PlanModel {
    Preprocess,
    LinkOne(Seq<char>),
    CompileOne(Seq<char>),
    CompileEach(Seq<Seq<char>>),
    CompileAndLink(Seq<char>),
}

impl View for Plan {
    type V = PlanModel;

    open spec fn view(&self) -> PlanModel {
        match self {
            Plan::Preprocess => PlanModel::Preprocess,
            Plan::LinkOne(o) => PlanModel::LinkOne(o@),
            Plan::CompileOne(o) => PlanModel::CompileOne(o@),
            Plan::CompileEach(os) => PlanModel::CompileEach(texts_of(os@)),
            Plan::CompileAndLink(o) => PlanModel::CompileAndLink(o@),
        }
    }
}

/// The output, where one is named.
pub open spec fn final_output(cli: CliModel) -> Seq<char> {
    match output_path(cli) {
        Some(o) => o,
        None => "a.out"@,
    }
}

/// What is done with the inputs, where `first_is_object` says whether the first of
/// them goes to the linker as it is. An output that is named counts for a single
/// input only.
pub open spec fn plan_of(cli: CliModel, first_is_object: bool) -> PlanModel {
    let stops = cli.switches.compile_only || cli.switches.emit_assembly;
    let inputs = cli.lists.input_files;
    if cli.switches.preprocess_only {
        PlanModel::Preprocess
    } else if inputs.len() == 1 {
        if first_is_object && !stops {
            PlanModel::LinkOne(final_output(cli))
        } else {
            PlanModel::CompileOne(final_output(cli))
        }
    } else if stops {
        PlanModel::CompileEach(
            Seq::new(inputs.len(), |i: int| derived_output(cli, inputs[i])),
        )
    } else {
        PlanModel::CompileAndLink(final_output(cli))
    }
}

fn output_name(cli: &CliArgs) -> (r: String)
    ensures
        r@ == final_output(cli@),
{
    match resolve_output_path(cli) {
        Some(o) => o,
        None => own("a.out"),
    }
}

fn derive_outputs(cli: &CliArgs) -> (r: Vec<String>)
    ensures
        texts_of(r@) == Seq::new(
            cli@.lists.input_files.len(),
            |i: int| derived_output(cli@, cli@.lists.input_files[i]),
        ),
{
    let inputs: &Vec<String> = &cli.lists.input_files;
    let mut out: Vec<String> = Vec::new();
    let mut i: usize = 0;
    while i < inputs.len()
        invariant
            i <= inputs@.len(),
            texts_of(inputs@) == cli@.lists.input_files,
            out@.len() == i,
            forall|j: int|
                0 <= j < i ==> (#[trigger] out@[j])@ == derived_output(
                    cli@,
                    cli@.lists.input_files[j],
                ),
        decreases inputs@.len() - i,
    {
        assert(texts_of(inputs@)[i as int] == inputs@[i as int]@);
        out.push(derive_output(cli, inputs[i].as_str()));
        i += 1;
    }
    assert(texts_of(out@) =~= Seq::new(
        cli@.lists.input_files.len(),
        |i: int| derived_output(cli@, cli@.lists.input_files[i]),
    ));
    out
}

/// What is done with the inputs, where `first_is_object` says whether the first of
/// them goes to the linker as it is.
pub fn plan_compilation(cli: &CliArgs, first_is_object: bool) -> (r: Plan)
    ensures
        r@ == plan_of(cli@, first_is_object),
{
    let stops: bool = cli.switches.compile_only || cli.switches.emit_assembly;
    if cli.switches.preprocess_only {
        return Plan::Preprocess;
    }
    if cli.lists.input_files.len() == 1 {
        if first_is_object && !stops {
            return Plan::LinkOne(output_name(cli));
        }
        return Plan::CompileOne(output_name(cli));
    }
    if stops {
        return Plan::CompileEach(derive_outputs(cli));
    }
    Plan::CompileAndLink(output_name(cli))
}

// ---------------------------------------------------------------------------
// The preprocessor
// ---------------------------------------------------------------------------

/// What a step of setting up the preprocessor does.
#[derive(Clone, Copy, Debug, PartialEq, Eq, Structural)]
pub enum SetupKind {
    IncludePath,
    SystemPath,
    Define,
    Undef,
    /// Read a file in front of the input.
    ForceInclude,
}

/// A step of setting up the preprocessor.
#[derive(Debug)]
pub struct Setup {
    pub kind: SetupKind,
    pub name: String,
    pub value: String,
}

/// A step of setting up the preprocessor, as contracts see it.
pub struct SetupModel {
    pub kind: SetupKind,
    pub name: Seq<char>,
    pub value: Seq<char>,
}

/// The models of steps.
pub open spec fn steps_of(s: Seq<Setup>) -> Seq<SetupModel> {
    s.map_values(|x: Setup| SetupModel { kind: x.kind, name: x.name@, value: x.value@ })
}

/// One step for each text.
pub open spec fn each(kind: SetupKind, s: Seq<Seq<char>>) -> Seq<SetupModel> {
    s.map_values(|t: Seq<char>| SetupModel { kind, name: t, value: Seq::empty() })
}

/// One step for each macro; one without a value stands for one.
pub open spec fn each_define(s: Seq<(Seq<char>, Option<Seq<char>>)>) -> Seq<SetupModel> {
    s.map_values(
        |d: (Seq<char>, Option<Seq<char>>)|
            SetupModel {
                kind: SetupKind::Define,
                name: d.0,
                value: match d.1 {
                    Some(v) => v,
                    None => "1"@,
                },
            },
    )
}

/// The macro that tells assembly from C.
pub open spec fn assembly_define(assembly: bool) -> Seq<SetupModel> {
    if assembly {
        seq![SetupModel { kind: SetupKind::Define, name: "__ASSEMBLER__"@, value: "1"@ }]
    } else {
        Seq::empty()
    }
}

/// How the preprocessor is set up: where it looks, the user's directories first;
/// then what is defined, what is not any more, and what is read first.
pub open spec fn setup_of(cli: CliModel, system: Seq<Seq<char>>, assembly: bool) -> Seq<
    SetupModel,
> {
    each(SetupKind::IncludePath, cli.lists.include_paths) + (if cli.switches.nostdinc {
        Seq::empty()
    } else {
        each(SetupKind::SystemPath, system)
    }) + assembly_define(assembly) + each_define(cli.defines) + each(
        SetupKind::Undef,
        cli.lists.undefs,
    ) + each(SetupKind::ForceInclude, cli.lists.forced_includes)
}

fn add_each(out: &mut Vec<Setup>, kind: SetupKind, v: &Vec<String>)
    ensures
        steps_of(final(out)@) == steps_of(old(out)@) + each(kind, texts_of(v@)),
{
    let ghost before = steps_of(out@);
    let mut i: usize = 0;
    assert(steps_of(out@) =~= before + each(kind, texts_of(v@)).take(0));
    while i < v.len()
        invariant
            i <= v@.len(),
            steps_of(out@) == before + each(kind, texts_of(v@)).take(i as int),
        decreases v@.len() - i,
    {
        let ghost so_far = steps_of(out@);
        let empty: String = String::new();
        assert(empty@ =~= Seq::empty());
        let step = Setup { kind, name: own(v[i].as_str()), value: empty };
        let ghost model = SetupModel { kind, name: step.name@, value: step.value@ };
        out.push(step);
        assert(steps_of(out@) =~= so_far.push(model));
        assert(texts_of(v@)[i as int] == v@[i as int]@);
        i += 1;
        assert(steps_of(out@) =~= before + each(kind, texts_of(v@)).take(i as int));
    }
    assert(each(kind, texts_of(v@)).take(i as int) =~= each(kind, texts_of(v@)));
}

fn add_define(out: &mut Vec<Setup>, name: &str, value: &str)
    ensures
        steps_of(final(out)@) == steps_of(old(out)@).push(
            SetupModel { kind: SetupKind::Define, name: name@, value: value@ },
        ),
{
    let ghost before = steps_of(out@);
    out.push(Setup { kind: SetupKind::Define, name: own(name), value: own(value) });
    assert(steps_of(out@) =~= before.push(
        SetupModel { kind: SetupKind::Define, name: name@, value: value@ },
    ));
}

fn add_each_define(out: &mut Vec<Setup>, v: &Vec<(String, Option<String>)>)
    ensures
        steps_of(final(out)@) == steps_of(old(out)@) + each_define(defines_of(v@)),
{
    proof {
        reveal(defines_of);
    }
    let ghost before = steps_of(out@);
    let ghost all = each_define(defines_of(v@));
    let mut i: usize = 0;
    assert(steps_of(out@) =~= before + all.take(0));
    #[verifier::loop_isolation(false)]
    while i < v.len()
        invariant
            i <= v@.len(),
            steps_of(out@) == before + all.take(i as int),
        decreases v@.len() - i,
    {
        let ghost so_far = steps_of(out@);
        match &v[i].1 {
            Some(value) => add_define(out, v[i].0.as_str(), value.as_str()),
            None => add_define(out, v[i].0.as_str(), "1"),
        }
        assert(defines_of(v@)[i as int] == (v@[i as int].0@, opt_chars(v@[i as int].1)));
        assert(steps_of(out@) =~= so_far.push(all[i as int]));
        i += 1;
        assert(steps_of(out@) =~= before + all.take(i as int));
    }
    assert(all.take(i as int) =~= all);
}

/// How the preprocessor is set up, where `system` are the system directories that
/// exist.
pub fn preprocessor_setup(cli: &CliArgs, system: &Vec<String>, assembly: bool) -> (r: Vec<Setup>)
    ensures
        steps_of(r@) == setup_of(cli@, texts_of(system@), assembly),
{
    let mut out: Vec<Setup> = Vec::new();
    assert(steps_of(out@) =~= Seq::empty());
    add_each(&mut out, SetupKind::IncludePath, &cli.lists.include_paths);
    if !cli.switches.nostdinc {
        add_each(&mut out, SetupKind::SystemPath, system);
    }
    if assembly {
        add_define(&mut out, "__ASSEMBLER__", "1");
    }
    add_each_define(&mut out, &cli.defines);
    add_each(&mut out, SetupKind::Undef, &cli.lists.undefs);
    add_each(&mut out, SetupKind::ForceInclude, &cli.lists.forced_includes);
    assert(steps_of(out@) =~= setup_of(cli@, texts_of(system@), assembly));
    out
}

// ---------------------------------------------------------------------------
// One file
// ---------------------------------------------------------------------------

/// What is done with one source file, step by step.
#[derive(Clone, Copy, Debug, PartialEq, Eq, Structural)]
pub enum Step {
    /// Preprocess, and hand over to the system assembler.
    Assemble,
    ForceInclude,
    Preprocess,
    Parse,
    Analyze,
    Lower,
    /// Promote, optimize and leave the static single assignment form.
    Transform,
    Generate,
    /// Write the output, and a dependency file if one is wanted.
    Write,
}

/// The first step for a source file.
pub open spec fn first_step(input: Seq<char>) -> Step {
    if is_assembly(input) {
        Step::Assemble
    } else {
        Step::Preprocess
    }
}

/// What follows a step that succeeded; `None` when all is done.
pub open spec fn step_after(s: Step) -> Option<Step> {
    match s {
        Step::Assemble => None,
        Step::ForceInclude => Some(Step::Preprocess),
        Step::Preprocess => Some(Step::Parse),
        Step::Parse => Some(Step::Analyze),
        Step::Analyze => Some(Step::Lower),
        Step::Lower => Some(Step::Transform),
        Step::Transform => Some(Step::Generate),
        Step::Generate => Some(Step::Write),
        Step::Write => None,
    }
}

/// What comes of a step: whether it succeeded, and whether errors were reported
/// by then. Both must be well for the next step; what cannot report errors is not
/// asked.
pub open spec fn advanced(s: Step, succeeded: bool, errors: bool) -> Result<Option<Step>, ()> {
    if succeeded && !(errors && s != Step::Assemble && s != Step::Transform && s != Step::Write) {
        Ok(step_after(s))
    } else {
        Err(())
    }
}

/// The message when a step fails on a file, with the reason if there is one.
pub open spec fn failure(s: Step, file: Seq<char>, reason: Option<Seq<char>>) -> Seq<char> {
    let what = match s {
        Step::Assemble => "preprocessing failed for '"@ + file + "'"@,
        Step::ForceInclude => "forced include '"@ + file + "' failed"@,
        Step::Preprocess => "preprocessing failed for '"@ + file + "'"@,
        Step::Parse => "parsing failed for '"@ + file + "'"@,
        Step::Analyze => "semantic analysis failed for '"@ + file + "'"@,
        Step::Lower => "IR lowering failed for '"@ + file + "'"@,
        Step::Transform => "IR lowering failed for '"@ + file + "'"@,
        Step::Generate => "code generation failed for '"@ + file + "'"@,
        Step::Write => "failed to write output to '"@ + file + "'"@,
    };
    match reason {
        Some(r) => what + ": "@ + r,
        None => what,
    }
}

/// The first step for a source file.
pub fn begin(input: &str) -> (r: Step)
    ensures
        r == first_step(input@),
{
    if is_assembly_file(input) {
        Step::Assemble
    } else {
        Step::Preprocess
    }
}

/// What comes of a step.
pub fn advance(s: Step, succeeded: bool, errors: bool) -> (r: Result<Option<Step>, ()>)
    ensures
        r == advanced(s, succeeded, errors),
{
    if !succeeded || (errors && s != Step::Assemble && s != Step::Transform && s != Step::Write) {
        return Err(());
    }
    match s {
        Step::Assemble => Ok(None),
        Step::ForceInclude => Ok(Some(Step::Preprocess)),
        Step::Preprocess => Ok(Some(Step::Parse)),
        Step::Parse => Ok(Some(Step::Analyze)),
        Step::Analyze => Ok(Some(Step::Lower)),
        Step::Lower => Ok(Some(Step::Transform)),
        Step::Transform => Ok(Some(Step::Generate)),
        Step::Generate => Ok(Some(Step::Write)),
        Step::Write => Ok(None),
    }
}

/// The message when a step fails on a file.
pub fn failure_message(s: Step, file: &str, reason: Option<&str>) -> (r: String)
    ensures
        r@ == failure(
            s,
            file@,
            match reason {
                Some(x) => Some(x@),
                None => None,
            },
        ),
{
    let mut m: String = match s {
        Step::Assemble => concat3("preprocessing failed for '", file, "'"),
        Step::ForceInclude => concat3("forced include '", file, "' failed"),
        Step::Preprocess => concat3("preprocessing failed for '", file, "'"),
        Step::Parse => concat3("parsing failed for '", file, "'"),
        Step::Analyze => concat3("semantic analysis failed for '", file, "'"),
        Step::Lower => concat3("IR lowering failed for '", file, "'"),
        Step::Transform => concat3("IR lowering failed for '", file, "'"),
        Step::Generate => concat3("code generation failed for '", file, "'"),
        Step::Write => concat3("failed to write output to '", file, "'"),
    };
    match reason {
        Some(x) => {
            m.append(": ");
            m.append(x);
        },
        None => {},
    }
    m
}

/// Steps come in order: each leads nearer to the end.
pub open spec fn steps_left(s: Step) -> nat {
    match s {
        Step::ForceInclude => 8,
        Step::Preprocess => 7,
        Step::Parse => 6,
        Step::Analyze => 5,
        Step::Lower => 4,
        Step::Transform => 3,
        Step::Generate => 2,
        Step::Write => 1,
        Step::Assemble => 1,
    }
}

/// Whatever the steps come to, a file is done with after eight of them at most.
pub proof fn lemma_steps_end(s: Step, succeeded: bool, errors: bool)
    ensures
        steps_left(s) <= 8,
        match advanced(s, succeeded, errors) {
            Ok(Some(t)) => steps_left(t) < steps_left(s),
            Ok(None) => steps_left(s) == 1,
            Err(_) => !succeeded || errors,
        },
{
}

// ---------------------------------------------------------------------------
// From the syntax tree to the work of lowering
// ---------------------------------------------------------------------------

/// What the analyzer knows in front of a translation unit.
pub open spec fn fresh(
    log: Seq<DiagnosticModel>,
    builder_target: Target,
    target: Target,
    names: Seq<Seq<char>>,
) -> State {
    builtin_registered(
        blank_state(log, builder_target, target, names),
        "__builtin_va_list"@,
        void_ptr_ty(),
    )
}

/// What the analyzer knows behind a translation unit.
pub open spec fn analyzed(st: State, unit: TranslationUnit) -> State {
    finalized(external_declarations(st, unit.declarations@, 0))
}

/// Analyzes a translation unit and, if no error was reported, prepares its
/// lowering.
pub fn analyze_and_lower(
    unit: &TranslationUnit,
    diagnostics: &mut DiagnosticEngine,
    type_builder: &TypeBuilder,
    target: Target,
    interner: &Interner,
    source_map: &SourceMap,
) -> (r: Option<Lowering>)
    ensures
        ({
            let st = fresh(old(diagnostics)@, type_builder@, target, interner@);
            let between = external_declarations(st, unit.declarations@, 0);
            &&& final(diagnostics)@ == analyzed(st, *unit).log
            &&& (r is Some) == (!any_error(between.log) && !any_error(final(diagnostics)@))
            &&& r matches Some(l) ==> l@ == lowered(
                analyzed(st, *unit),
                unit.declarations@,
                source_map@,
            )
        }),
{
    let mut sema: SemanticAnalyzer<'_> = SemanticAnalyzer::new(
        diagnostics,
        type_builder,
        target,
        interner,
    );
    let analysis: Result<(), ()> = sema.analyze(unit);
    let end: Result<(), ()> = sema.finalize();
    if analysis.is_ok() && end.is_ok() {
        Some(lower_translation_unit(unit, &mut sema, source_map))
    } else {
        None
    }
}

// ---------------------------------------------------------------------------
// Questions that are answered at once
// ---------------------------------------------------------------------------

/// What follows a prefix in the first argument from the `i`-th on that has it.
pub open spec fn first_after(args: Seq<Seq<char>>, prefix: Seq<char>, i: int) -> Option<Seq<char>>
    decreases args.len() - i,
{
    if i < 0 || i >= args.len() {
        None
    } else if has_prefix(args[i], prefix) {
        Some(args[i].skip(prefix.len() as int))
    } else {
        first_after(args, prefix, i + 1)
    }
}

/// The triple of a target by its name.
pub open spec fn triple(name: Option<Seq<char>>) -> Seq<char> {
    if name == Some("riscv64"@) {
        "riscv64-linux-gnu"@
    } else if name == Some("aarch64"@) {
        "aarch64-linux-gnu"@
    } else if name == Some("i686"@) {
        "i686-linux-gnu"@
    } else {
        "x86_64-linux-gnu"@
    }
}

/// The answer to a question about the compiler itself: the lines that are printed
/// in place of compiling anything.
pub open spec fn answer(args: Seq<Seq<char>>) -> Option<Seq<Seq<char>>> {
    if args.contains("-Wa,--version"@) {
        Some(seq!["GNU assembler (BCC built-in) 2.42"@])
    } else if first_after(args, "-print-file-name="@, 0) is Some {
        Some(seq![first_after(args, "-print-file-name="@, 0)->0])
    } else if args.contains("-dumpversion"@) {
        Some(seq!["12.2.0"@])
    } else if args.contains("-dumpmachine"@) {
        Some(seq![triple(first_after(args, "--target="@, 0))])
    } else if args.contains("--version"@) || args.contains("-v"@) {
        Some(
            seq![
                "bcc (BCC) 0.1.0"@,
                "Copyright (C) 2024 BCC Project"@,
                "This is free software; see the source for copying conditions."@,
            ],
        )
    } else {
        None
    }
}

fn find_after(args: &Vec<String>, prefix: &str) -> (r: Option<String>)
    ensures
        opt_chars(r) == first_after(texts_of(args@), prefix@, 0),
{
    let mut i: usize = 0;
    while i < args.len()
        invariant
            i <= args@.len(),
            first_after(texts_of(args@), prefix@, i as int) == first_after(
                texts_of(args@),
                prefix@,
                0,
            ),
        decreases args@.len() - i,
    {
        assert(texts_of(args@)[i as int] == args@[i as int]@);
        match strip_prefix(args[i].as_str(), prefix) {
            Some(s) => {
                return Some(s);
            },
            None => {},
        }
        i += 1;
    }
    None
}

fn target_triple(name: &Option<String>) -> (r: &'static str)
    ensures
        r@ == triple(opt_chars(*name)),
{
    match name {
        Some(n) => {
            if str_eq(n.as_str(), "riscv64") {
                "riscv64-linux-gnu"
            } else if str_eq(n.as_str(), "aarch64") {
                "aarch64-linux-gnu"
            } else if str_eq(n.as_str(), "i686") {
                "i686-linux-gnu"
            } else {
                "x86_64-linux-gnu"
            }
        },
        None => "x86_64-linux-gnu",
    }
}

fn one_line(s: &str) -> (r: Vec<String>)
    ensures
        texts_of(r@) == seq![s@],
{
    let mut out: Vec<String> = Vec::new();
    assert(texts_of(out@) =~= Seq::empty());
    push_text(&mut out, s);
    assert(texts_of(out@) =~= seq![s@]);
    out
}

/// The lines that answer a question about the compiler itself.
pub fn early_answer(args: &Vec<String>) -> (r: Option<Vec<String>>)
    ensures
        match r {
            Some(lines) => answer(texts_of(args@)) == Some(texts_of(lines@)),
            None => answer(texts_of(args@)) is None,
        },
{
    if contains_text(args, "-Wa,--version") {
        return Some(one_line("GNU assembler (BCC built-in) 2.42"));
    }
    match find_after(args, "-print-file-name=") {
        Some(name) => {
            return Some(one_line(name.as_str()));
        },
        None => {},
    }
    if contains_text(args, "-dumpversion") {
        return Some(one_line("12.2.0"));
    }
    if contains_text(args, "-dumpmachine") {
        return Some(one_line(target_triple(&find_after(args, "--target="))));
    }
    if contains_text(args, "--version") || contains_text(args, "-v") {
        let mut lines: Vec<String> = one_line("bcc (BCC) 0.1.0");
        push_text(&mut lines, "Copyright (C) 2024 BCC Project");
        push_text(&mut lines, "This is free software; see the source for copying conditions.");
        assert(texts_of(lines@) =~= answer(texts_of(args@))->0);
        return Some(lines);
    }
    None
}

} // verus!
