//! What the decisions of the driver promise of its outputs.

use crate::common::text::char_at;
use crate::driver::args::{checked, split_define, CliModel, CommandLine};
use crate::driver::depfile::{dependencies, other_files};
use crate::driver::paths::{derived_output, is_assembly};
use crate::driver::pipeline::{
    advanced, each_define, first_step, plan_of, setup_of, step_after, PlanModel, SetupKind,
    SetupModel, Step,
};
use crate::driver::preprocessed::{
    preprocessed, token_written, tokens_written, PPTokenKind, TokenModel,
};
use crate::driver::readings::{lacks, lemma_path_is_directory_and_name, lemma_stem_and_extension};
use vstd::prelude::*;

verus! {

/// Whether a plan ends with the linker.
pub open spec fn links(p: PlanModel) -> bool {
    p is LinkOne || p is CompileAndLink
}

/// With `-E` the inputs are preprocessed and nothing else; with `-c` or `-S` nothing is
/// linked, and several inputs have an output each; without any of these several inputs are
/// linked together. An object alone is linked, and a source alone compiled.
pub proof fn lemma_plan_follows_the_mode(cli: CliModel, first_is_object: bool)
    requires
        cli.lists.input_files.len() > 0,
    ensures
        ({
            let p = plan_of(cli, first_is_object);
            let stops = cli.switches.compile_only || cli.switches.emit_assembly;
            let n = cli.lists.input_files.len();
            &&& p is Preprocess <==> cli.switches.preprocess_only
            &&& !(p is Preprocess) && stops ==> !links(p)
            &&& !(p is Preprocess) && stops && n > 1 ==> (p matches PlanModel::CompileEach(outs)
                && outs.len() == n)
            &&& !(p is Preprocess) && !stops && n > 1 ==> p is CompileAndLink
            &&& !(p is Preprocess) && !stops && n == 1 ==> (p is LinkOne <==> first_is_object)
            &&& cli.slots.output_file matches Some(o) ==> {
                &&& p matches PlanModel::LinkOne(x) ==> x == o
                &&& p matches PlanModel::CompileOne(x) ==> x == o
                &&& p matches PlanModel::CompileAndLink(x) ==> x == o
            }
        }),
{
}

/// A source file in a directory gives an output of the same stem: an object, or assembly
/// where that is asked for.
pub proof fn lemma_output_keeps_the_stem(
    cli: CliModel,
    dir: Seq<char>,
    stem: Seq<char>,
    extension: Seq<char>,
)
    requires
        dir.len() > 0,
        dir.last() != '/',
        dir.len() > 1 ==> dir.last() != '.' || dir[dir.len() - 2] != '/',
        stem.len() > 0,
        stem[0] != '.',
        lacks(stem, '/'),
        lacks(extension, '.'),
        lacks(extension, '/'),
    ensures
        ({
            let path = dir + seq!['/'] + (stem + seq!['.'] + extension);
            &&& cli.switches.emit_assembly ==> derived_output(cli, path) == stem + ".s"@
            &&& !cli.switches.emit_assembly ==> derived_output(cli, path) == stem + ".o"@
        }),
{
    reveal_strlit(".");
    reveal_strlit("..");
    let name = stem + seq!['.'] + extension;
    assert(name[0] == stem[0]);
    assert("."@[0] == '.' && ".."@[0] == '.');
    assert forall|i: int| 0 <= i < name.len() implies #[trigger] name[i] != '/' by {
        if i < stem.len() {
            assert(name[i] == stem[i]);
        } else if i > stem.len() {
            assert(name[i] == extension[i - stem.len() - 1]);
        }
    }
    lemma_path_is_directory_and_name(dir, name, name);
    lemma_stem_and_extension(stem, extension);
}

/// After a step that failed nothing follows, and after one that reported errors none of the
/// phases that could trip over them; after any other the next one follows.
pub proof fn lemma_errors_stop_the_steps(s: Step, succeeded: bool, errors: bool)
    ensures
        !succeeded ==> advanced(s, succeeded, errors) is Err,
        succeeded && !errors ==> advanced(s, succeeded, errors) == Ok::<Option<Step>, ()>(
            step_after(s),
        ),
        errors && (s == Step::Preprocess || s == Step::Parse || s == Step::Analyze || s
            == Step::Lower || s == Step::Generate) ==> advanced(s, succeeded, errors) is Err,
{
}

/// A source that is no assembly is preprocessed, parsed, analyzed, lowered, transformed,
/// turned into code and written, in this order.
pub proof fn lemma_steps_of_a_source(input: Seq<char>)
    requires
        !is_assembly(input),
    ensures
        first_step(input) == Step::Preprocess,
        step_after(Step::Preprocess) == Some(Step::Parse),
        step_after(Step::Parse) == Some(Step::Analyze),
        step_after(Step::Analyze) == Some(Step::Lower),
        step_after(Step::Lower) == Some(Step::Transform),
        step_after(Step::Transform) == Some(Step::Generate),
        step_after(Step::Generate) == Some(Step::Write),
        step_after(Step::Write) is None,
{
}

/// The preprocessor is given every include path, definition and removal of the command line,
/// and the system's directories exactly where `-nostdinc` is not given. A macro without a
/// value is defined as one.
pub proof fn lemma_preprocessor_is_told_all(
    cli: CliModel,
    system: Seq<Seq<char>>,
    assembly: bool,
    i: int,
)
    ensures
        ({
            let all = setup_of(cli, system, assembly);
            &&& 0 <= i < cli.lists.include_paths.len() ==> all[i] == (SetupModel {
                kind: SetupKind::IncludePath,
                name: cli.lists.include_paths[i],
                value: Seq::empty(),
            })
            &&& 0 <= i < system.len() && !cli.switches.nostdinc
                ==> all[cli.lists.include_paths.len() + i] == (SetupModel {
                kind: SetupKind::SystemPath,
                name: system[i],
                value: Seq::empty(),
            })
            &&& 0 <= i < cli.defines.len() ==> all.contains(
                SetupModel {
                    kind: SetupKind::Define,
                    name: cli.defines[i].0,
                    value: match cli.defines[i].1 {
                        Some(v) => v,
                        None => "1"@,
                    },
                },
            )
            &&& all.len() == cli.lists.include_paths.len() + (if cli.switches.nostdinc {
                0
            } else {
                system.len()
            }) + (if assembly {
                1nat
            } else {
                0
            }) + cli.defines.len() + cli.lists.undefs.len() + cli.lists.forced_includes.len()
        }),
{
    let all = setup_of(cli, system, assembly);
    if 0 <= i < cli.defines.len() {
        let at = cli.lists.include_paths.len() + (if cli.switches.nostdinc {
            0
        } else {
            system.len()
        }) + (if assembly {
            1nat
        } else {
            0
        }) + i;
        assert(all[at] == each_define(cli.defines)[i]);
    }
}

/// An output depends on its input and on every file that was read for it, and on nothing
/// else.
pub proof fn lemma_dependencies_are_complete(
    files: Seq<Seq<char>>,
    input: Seq<char>,
    f: Seq<char>,
)
    ensures
        dependencies(files, input).contains(f) <==> f == input || files.contains(f),
{
    let others = other_files(files, files.len() as int, input);
    let all = dependencies(files, input);
    lemma_others_hold(files, files.len() as int, input, f);
    assert(files.take(files.len() as int) =~= files);
    assert(all[0] == input);
    if others.contains(f) {
        let i = choose|i: int| 0 <= i < others.len() && others[i] == f;
        assert(all[i + 1] == f);
    }
    if all.contains(f) {
        let i = choose|i: int| 0 <= i < all.len() && all[i] == f;
        if i > 0 {
            assert(others[i - 1] == f);
        }
    }
}

proof fn lemma_others_hold(files: Seq<Seq<char>>, n: int, input: Seq<char>, f: Seq<char>)
    requires
        0 <= n <= files.len(),
    ensures
        other_files(files, n, input).contains(f) <==> f != input && files.take(n).contains(f),
    decreases n,
{
    if n > 0 {
        lemma_others_hold(files, n - 1, input, f);
        let before = other_files(files, n - 1, input);
        let last = files[n - 1];
        let a = files.take(n - 1);
        let b = files.take(n);
        assert(b =~= a.push(last));
        lemma_pushed(a, last, f);
        if last != input {
            lemma_pushed(before, last, f);
        }
    }
}

proof fn lemma_pushed(a: Seq<Seq<char>>, x: Seq<char>, f: Seq<char>)
    ensures
        a.push(x).contains(f) <==> a.contains(f) || x == f,
{
    if a.contains(f) {
        let i = choose|i: int| 0 <= i < a.len() && a[i] == f;
        assert(a.push(x)[i] == f);
    }
    assert(a.push(x)[a.len() as int] == x);
    if a.push(x).contains(f) {
        let i = choose|i: int| 0 <= i < a.push(x).len() && a.push(x)[i] == f;
        if i < a.len() {
            assert(a[i] == f);
        }
    }
}

/// The texts of tokens one behind the other.
pub open spec fn run_together(ts: Seq<TokenModel>) -> Seq<char>
    decreases ts.len(),
{
    if ts.len() == 0 {
        Seq::empty()
    } else {
        run_together(ts.drop_last()) + (if ts.last().kind == PPTokenKind::Newline {
            seq!['\n']
        } else {
            ts.last().text
        })
    }
}

/// Tokens with no white space between them are written as they stand.
pub proof fn lemma_tokens_are_written_as_they_stand(ts: Seq<TokenModel>, assembly: bool)
    requires
        forall|i: int| 0 <= i < ts.len() ==> (#[trigger] ts[i]).kind != PPTokenKind::Whitespace,
    ensures
        preprocessed(ts, assembly) == run_together(ts),
{
    lemma_written_so_far(ts, ts.len() as int, assembly);
    assert(ts.take(ts.len() as int) =~= ts);
}

proof fn lemma_written_so_far(ts: Seq<TokenModel>, n: int, assembly: bool)
    requires
        0 <= n <= ts.len(),
        forall|i: int| 0 <= i < ts.len() ==> (#[trigger] ts[i]).kind != PPTokenKind::Whitespace,
    ensures
        tokens_written(ts, n, assembly).text == run_together(ts.take(n)),
        !tokens_written(ts, n, assembly).space,
    decreases n,
{
    if n > 0 {
        lemma_written_so_far(ts, n - 1, assembly);
        assert(ts.take(n).drop_last() =~= ts.take(n - 1));
        assert(ts[n - 1].kind != PPTokenKind::Whitespace);
        let w = tokens_written(ts, n - 1, assembly);
        let t = ts[n - 1];
        if t.kind == PPTokenKind::Newline {
            assert(w.text.push('\n') =~= w.text + seq!['\n']);
        } else if t.text.len() == 0 {
            assert(w.text + t.text =~= w.text);
        }
        assert(tokens_written(ts, n, assembly) == token_written(w, t, assembly));
    } else {
        assert(ts.take(0) =~= Seq::<TokenModel>::empty());
    }
}

/// White space between two tokens of one line is written as one blank, however much there is.
pub proof fn lemma_white_space_becomes_a_blank(
    a: TokenModel,
    s: TokenModel,
    t: TokenModel,
    b: TokenModel,
)
    requires
        a.kind == PPTokenKind::Other,
        b.kind == PPTokenKind::Other,
        s.kind == PPTokenKind::Whitespace,
        t.kind == PPTokenKind::Whitespace,
        a.text.len() > 0,
        b.text.len() > 0,
        a.text.last() != '\n',
    ensures
        preprocessed(seq![a, s, b], false) == a.text + seq![' '] + b.text,
        preprocessed(seq![a, s, t, b], false) == a.text + seq![' '] + b.text,
{
    let one = seq![a, s, b];
    let two = seq![a, s, t, b];
    reveal_with_fuel(tokens_written, 5);
    let none = Seq::<char>::empty();
    assert(none + a.text =~= a.text);
    assert(a.text.push(' ') =~= a.text + seq![' ']);
    assert(one[0] == a && one[1] == s && one[2] == b);
    assert(two[0] == a && two[1] == s && two[2] == t && two[3] == b);
}

/// A macro definition is split at its first `=`; one without is a name alone.
pub proof fn lemma_definition_is_split(name: Seq<char>, value: Seq<char>)
    requires
        lacks(name, '='),
    ensures
        split_define(name + seq!['='] + value) == (name, Some(value)),
        split_define(name) == (name, None::<Seq<char>>),
{
    let s = name + seq!['='] + value;
    let k = name.len() as int;
    assert(s[k] == '=');
    assert forall|i: int| 0 <= i < k implies #[trigger] s[i] != '=' by {
        assert(s[i] == name[i]);
    }
    lemma_char_found(s, '=', 0, k);
    lemma_char_absent(name, '=', 0);
    assert(s.take(k) =~= name);
    assert(s.skip(k + 1) =~= value);
}

proof fn lemma_char_found(s: Seq<char>, c: char, i: int, k: int)
    requires
        0 <= i <= k < s.len(),
        s[k] == c,
        forall|j: int| 0 <= j < k ==> #[trigger] s[j] != c,
    ensures
        char_at(s, c, i) == Some(k),
    decreases k - i,
{
    if i < k {
        assert(s[i] != c);
        lemma_char_found(s, c, i + 1, k);
    }
}

proof fn lemma_char_absent(s: Seq<char>, c: char, i: int)
    requires
        0 <= i <= s.len(),
        lacks(s, c),
    ensures
        char_at(s, c, i) is None,
    decreases s.len() - i,
{
    if i < s.len() {
        assert(s[i] != c);
        lemma_char_absent(s, c, i + 1);
    }
}

/// A command line is run exactly where it names an input and asks for one way to go at
/// most.
pub proof fn lemma_command_line_is_checked(cli: CliModel)
    ensures
        ({
            let s = cli.switches;
            let ways = (if s.compile_only {
                1int
            } else {
                0
            }) + (if s.emit_assembly {
                1int
            } else {
                0
            }) + (if s.preprocess_only {
                1int
            } else {
                0
            });
            &&& checked(cli) is Run <==> cli.lists.input_files.len() > 0 && ways <= 1
            &&& checked(cli) matches CommandLine::Run(m) ==> m == cli
            &&& checked(cli) matches CommandLine::Refused(_, ws) ==> ws == cli.lists.warnings
        }),
{
}

} // verus!
