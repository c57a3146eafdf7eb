//! How the system assembler is called.

use crate::common::lists::push_text;
use crate::common::target::Target;
use crate::common::text::{own, texts_of};
use crate::driver::args::{CliArgs, CliModel};
use vstd::prelude::*;
use vstd::string::*;

verus! {

broadcast use crate::common::text::group_texts;

/// The assembler for a target.
pub open spec fn assembler_of(target: Target) -> Seq<char> {
    match target {
        Target::X86_64 => "as"@,
        Target::I686 => "i686-linux-gnu-as"@,
        Target::AArch64 => "aarch64-linux-gnu-as"@,
        Target::RiscV64 => "riscv64-linux-gnu-as"@,
    }
}

/// The flag for the architecture: what was asked for, or what the target needs.
pub open spec fn march_flag(cli: CliModel) -> Seq<Seq<char>> {
    match cli.slots.march {
        Some(m) => seq!["-march="@ + m],
        None => match cli.target {
            Target::RiscV64 => seq!["-march=rv64imafdc"@],
            Target::AArch64 => seq!["-march=armv8-a"@],
            _ => Seq::empty(),
        },
    }
}

/// The flag for the ABI: what was asked for, or what the target needs.
pub open spec fn mabi_flag(cli: CliModel) -> Seq<Seq<char>> {
    match cli.slots.mabi {
        Some(m) => seq!["-mabi="@ + m],
        None => if cli.target == Target::RiscV64 {
            seq!["-mabi=lp64d"@]
        } else {
            Seq::empty()
        },
    }
}

/// The arguments of the assembler.
pub open spec fn assembler_arguments(
    cli: CliModel,
    output: Seq<char>,
    input: Seq<char>,
) -> Seq<Seq<char>> {
    seq!["-o"@, output] + march_flag(cli) + mabi_flag(cli) + seq![input]
}

/// The assembler for a target.
pub fn assembler_name(target: Target) -> (r: &'static str)
    ensures
        r@ == assembler_of(target),
{
    match target {
        Target::X86_64 => "as",
        Target::I686 => "i686-linux-gnu-as",
        Target::AArch64 => "aarch64-linux-gnu-as",
        Target::RiscV64 => "riscv64-linux-gnu-as",
    }
}

fn add_march(cli: &CliArgs, out: &mut Vec<String>)
    ensures
        texts_of(final(out)@) == texts_of(old(out)@) + march_flag(cli@),
{
    match &cli.slots.march {
        Some(m) => {
            let mut s: String = own("-march=");
            s.append(m.as_str());
            push_text(out, s.as_str());
        },
        None => match cli.target {
            Target::RiscV64 => push_text(out, "-march=rv64imafdc"),
            Target::AArch64 => push_text(out, "-march=armv8-a"),
            _ => {},
        },
    }
    assert(texts_of(out@) =~= texts_of(old(out)@) + march_flag(cli@));
}

fn add_mabi(cli: &CliArgs, out: &mut Vec<String>)
    ensures
        texts_of(final(out)@) == texts_of(old(out)@) + mabi_flag(cli@),
{
    match &cli.slots.mabi {
        Some(m) => {
            let mut s: String = own("-mabi=");
            s.append(m.as_str());
            push_text(out, s.as_str());
        },
        None => {
            if cli.target == Target::RiscV64 {
                push_text(out, "-mabi=lp64d");
            }
        },
    }
    assert(texts_of(out@) =~= texts_of(old(out)@) + mabi_flag(cli@));
}

/// The arguments of the assembler.
pub fn assembler_args(cli: &CliArgs, output: &str, input: &str) -> (r: Vec<String>)
    ensures
        texts_of(r@) == assembler_arguments(cli@, output@, input@),
{
    let mut out: Vec<String> = Vec::new();
    assert(texts_of(out@) =~= Seq::empty());
    push_text(&mut out, "-o");
    push_text(&mut out, output);
    assert(texts_of(out@) =~= seq!["-o"@, output@]);
    add_march(cli, &mut out);
    add_mabi(cli, &mut out);
    push_text(&mut out, input);
    assert(texts_of(out@) =~= assembler_arguments(cli@, output@, input@));
    out
}

} // verus!
