//! Dependency files for `make`.

use crate::common::lists::{join, joined, push_text};
use crate::common::source_map::SourceMap;
use crate::common::text::{own, str_eq, texts_of};
use crate::driver::args::{opt_view, CliArgs, CliModel};
use crate::driver::paths::{default_depfile, default_depfile_path};
use vstd::prelude::*;
use vstd::string::*;

verus! {

broadcast use crate::common::text::group_texts;

/// Among the first `n` files, those that are not the input.
pub open spec fn other_files(files: Seq<Seq<char>>, n: int, input: Seq<char>) -> Seq<Seq<char>>
    decreases n,
{
    if n <= 0 || n > files.len() {
        Seq::empty()
    } else if files[n - 1] != input {
        other_files(files, n - 1, input).push(files[n - 1])
    } else {
        other_files(files, n - 1, input)
    }
}

/// What an output depends on: the input, and the files that were read for it.
pub open spec fn dependencies(files: Seq<Seq<char>>, input: Seq<char>) -> Seq<Seq<char>> {
    seq![input] + other_files(files, files.len() as int, input)
}

/// A rule without prerequisites for each dependency from the `i`-th on.
pub open spec fn phony_rules(deps: Seq<Seq<char>>, i: int) -> Seq<char>
    decreases deps.len() - i,
{
    if i < 0 || i >= deps.len() {
        Seq::empty()
    } else {
        "\n"@ + deps[i] + ":\n"@ + phony_rules(deps, i + 1)
    }
}

/// The rule that names the dependencies of a target, and where they are wanted
/// the rules that keep `make` from failing on a header that is gone.
pub open spec fn rules(target: Seq<char>, deps: Seq<Seq<char>>, phony: bool) -> Seq<char> {
    target + ": "@ + joined(deps, " \\\n  "@) + "\n"@ + if phony {
        phony_rules(deps, 1)
    } else {
        Seq::empty()
    }
}

/// Where a dependency file goes.
pub open spec fn depfile_at(cli: CliModel, path: Seq<char>) -> Seq<char> {
    match cli.slots.depfile_path {
        Some(p) => p,
        None => default_depfile(path),
    }
}

/// What a dependency file is about: what was asked for, or else the output, or
/// else the input.
pub open spec fn depfile_target(
    cli: CliModel,
    output: Option<Seq<char>>,
    input: Seq<char>,
) -> Seq<char> {
    match cli.slots.depfile_target {
        Some(t) => t,
        None => match output {
            Some(o) => o,
            None => input,
        },
    }
}

/// What an output depends on.
pub fn list_dependencies(source_map: &SourceMap, input: &str) -> (r: Vec<String>)
    requires
        source_map@.len() <= u32::MAX,
    ensures
        texts_of(r@) == dependencies(source_map@, input@),
{
    let mut deps: Vec<String> = Vec::new();
    assert(texts_of(deps@) =~= Seq::empty());
    push_text(&mut deps, input);
    let mut id: u32 = 0;
    assert(texts_of(deps@) =~= seq![input@] + other_files(source_map@, 0, input@));
    loop
        invariant
            id <= source_map@.len() <= u32::MAX,
            texts_of(deps@) == seq![input@] + other_files(source_map@, id as int, input@),
        decreases u32::MAX - id,
    {
        let ghost before = texts_of(deps@);
        match source_map.get_filename(id) {
            Some(name) => {
                if !str_eq(name, input) {
                    push_text(&mut deps, name);
                }
                assert(texts_of(deps@) =~= seq![input@] + other_files(
                    source_map@,
                    id + 1,
                    input@,
                ));
            },
            None => {
                return deps;
            },
        }
        id = id + 1;
    }
}

/// The text of a dependency file.
pub fn depfile_text(target: &str, deps: &Vec<String>, phony: bool) -> (r: String)
    ensures
        r@ == rules(target@, texts_of(deps@), phony),
{
    let mut s: String = own(target);
    s.append(": ");
    let list: String = join(deps, " \\\n  ");
    s.append(list.as_str());
    s.append("\n");
    if phony {
        let ghost head = s@;
        let ghost all = texts_of(deps@);
        let mut i: usize = 1;
        assert(s@ + phony_rules(all, 1) =~= head + phony_rules(all, 1));
        while i < deps.len()
            invariant
                1 <= i,
                all == texts_of(deps@),
                s@ + phony_rules(all, i as int) == head + phony_rules(all, 1),
            decreases deps@.len() - i,
        {
            let ghost before = s@;
            s.append("\n");
            s.append(deps[i].as_str());
            s.append(":\n");
            assert(all[i as int] == deps@[i as int]@);
            assert(s@ + phony_rules(all, i + 1) =~= before + phony_rules(all, i as int));
            i += 1;
        }
        assert(s@ =~= head + phony_rules(all, 1));
    }
    assert(s@ =~= rules(target@, texts_of(deps@), phony));
    s
}

/// Where a dependency file goes, where `path` is the output, or the input that
/// is preprocessed.
pub fn depfile_path(cli: &CliArgs, path: &str) -> (r: String)
    ensures
        r@ == depfile_at(cli@, path@),
{
    match &cli.slots.depfile_path {
        Some(p) => own(p.as_str()),
        None => default_depfile_path(path),
    }
}

/// What a dependency file is about.
pub fn depfile_subject(cli: &CliArgs, output: Option<&str>, input: &str) -> (r: String)
    ensures
        r@ == depfile_target(cli@, opt_view(output), input@),
{
    match &cli.slots.depfile_target {
        Some(t) => own(t.as_str()),
        None => match output {
            Some(o) => own(o),
            None => own(input),
        },
    }
}

/// The first dependency is always the input.
pub proof fn lemma_input_comes_first(files: Seq<Seq<char>>, input: Seq<char>)
    ensures
        dependencies(files, input).len() >= 1,
        dependencies(files, input)[0] == input,
        forall|i: int|
            1 <= i < dependencies(files, input).len() ==> #[trigger] dependencies(files, input)[i]
                != input,
{
    lemma_others_differ(files, files.len() as int, input);
    let others = other_files(files, files.len() as int, input);
    assert forall|i: int| 1 <= i < dependencies(files, input).len() implies #[trigger] dependencies(
        files,
        input,
    )[i] != input by {
        assert(dependencies(files, input)[i] == others[i - 1]);
    }
}

proof fn lemma_others_differ(files: Seq<Seq<char>>, n: int, input: Seq<char>)
    requires
        0 <= n <= files.len(),
    ensures
        forall|i: int|
            0 <= i < other_files(files, n, input).len() ==> #[trigger] other_files(
                files,
                n,
                input,
            )[i] != input,
    decreases n,
{
    if n > 0 {
        lemma_others_differ(files, n - 1, input);
        let before = other_files(files, n - 1, input);
        let now = other_files(files, n, input);
        assert forall|i: int| 0 <= i < now.len() implies #[trigger] now[i] != input by {
            if i < before.len() {
                assert(now[i] == before[i]);
            }
        }
    }
}

} // verus!
