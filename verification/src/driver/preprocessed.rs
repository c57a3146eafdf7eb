//! Text made of preprocessed tokens.

use crate::common::text::str_eq;
use vstd::prelude::*;
use vstd::string::*;

verus! {

/// What a preprocessed token is.
#[derive(Clone, Copy, Debug, PartialEq, Eq, Structural)]
pub enum PPTokenKind {
    Newline,
    Whitespace,
    Punctuator,
    /// Everything else that has a text.
    Other,
}

/// A preprocessed token.
#[derive(Debug)]
pub struct PPToken {
    pub kind: PPTokenKind,
    pub text: String,
}

/// A preprocessed token, as contracts see it.
pub struct TokenModel {
    pub kind: PPTokenKind,
    pub text: Seq<char>,
}

impl View for PPToken {
    type V = TokenModel;

    open spec fn view(&self) -> TokenModel {
        TokenModel { kind: self.kind, text: self.text@ }
    }
}

/// The models of tokens.
pub open spec fn tokens_of(s: Seq<PPToken>) -> Seq<TokenModel> {
    s.map_values(|t: PPToken| t@)
}

/// Text as far as it was written.
pub struct Written {
    pub text: Seq<char>,
    /// Whether white space was seen that nothing was written for yet.
    pub space: bool,
    /// Whether the last token was a lone dot.
    pub dot: bool,
}

/// Whether white space counts at the end of a text.
pub open spec fn takes_space(text: Seq<char>) -> bool {
    text.len() > 0 && text.last() != '\n'
}

/// The text after one more token. White space becomes a single blank in front of
/// the next token of its line; in assembly none follows a dot.
pub open spec fn token_written(w: Written, t: TokenModel, assembly: bool) -> Written {
    match t.kind {
        PPTokenKind::Newline => Written { text: w.text.push('\n'), space: false, dot: false },
        PPTokenKind::Whitespace => Written { space: w.space || takes_space(w.text), ..w },
        _ => if t.text.len() > 0 {
            Written {
                text: (if w.space && !(assembly && w.dot) {
                    w.text.push(' ')
                } else {
                    w.text
                }) + t.text,
                space: false,
                dot: t.kind == PPTokenKind::Punctuator && t.text == "."@,
            }
        } else {
            Written { dot: false, ..w }
        },
    }
}

/// The text after the first `n` tokens.
pub open spec fn tokens_written(ts: Seq<TokenModel>, n: int, assembly: bool) -> Written
    decreases n,
{
    if n <= 0 || n > ts.len() {
        Written { text: Seq::empty(), space: false, dot: false }
    } else {
        token_written(tokens_written(ts, n - 1, assembly), ts[n - 1], assembly)
    }
}

/// The text of preprocessed tokens.
pub open spec fn preprocessed(ts: Seq<TokenModel>, assembly: bool) -> Seq<char> {
    tokens_written(ts, ts.len() as int, assembly).text
}

fn ends_open(s: &String) -> (r: bool)
    ensures
        r == takes_space(s@),
{
    let n: usize = s.as_str().unicode_len();
    n > 0 && s.as_str().get_char(n - 1) != '\n'
}

fn is_dot(t: &PPToken) -> (r: bool)
    ensures
        r == (t.kind == PPTokenKind::Punctuator && t.text@ == "."@),
{
    t.kind == PPTokenKind::Punctuator && str_eq(t.text.as_str(), ".")
}

/// The text of preprocessed tokens, line by line. In assembly no blank follows a
/// dot, so that directives stay in one piece.
pub fn write_preprocessed(tokens: &Vec<PPToken>, assembly: bool) -> (r: String)
    ensures
        r@ == preprocessed(tokens_of(tokens@), assembly),
{
    proof {
        reveal_strlit("\n");
        reveal_strlit(" ");
    }
    let mut out: String = String::new();
    let mut space: bool = false;
    let mut dot: bool = false;
    let mut i: usize = 0;
    assert(out@ =~= Seq::empty());
    while i < tokens.len()
        invariant
            i <= tokens@.len(),
            "\n"@ =~= seq!['\n'],
            " "@ =~= seq![' '],
            tokens_written(tokens_of(tokens@), i as int, assembly) == (Written {
                text: out@,
                space,
                dot,
            }),
        decreases tokens@.len() - i,
    {
        let t: &PPToken = &tokens[i];
        assert(tokens_of(tokens@)[i as int] == t@);
        let ghost before = out@;
        match t.kind {
            PPTokenKind::Newline => {
                out.append("\n");
                assert(out@ =~= before.push('\n'));
                space = false;
                dot = false;
            },
            PPTokenKind::Whitespace => {
                if ends_open(&out) {
                    space = true;
                }
            },
            _ => {
                if t.text.as_str().unicode_len() > 0 {
                    if space && !(assembly && dot) {
                        out.append(" ");
                        assert(out@ =~= before.push(' '));
                    }
                    out.append(t.text.as_str());
                    space = false;
                    dot = is_dot(t);
                } else {
                    dot = false;
                }
            },
        }
        i += 1;
    }
    out
}

/// The texts of the first `n` tokens with a blank between each two.
pub open spec fn spaced(ts: Seq<TokenModel>, n: int) -> Seq<char>
    decreases n,
{
    if n <= 0 || n > ts.len() {
        Seq::empty()
    } else if n == 1 {
        ts[0].text
    } else {
        spaced(ts, n - 1) + " "@ + ts[n - 1].text
    }
}

/// The text that the lexer reads: the texts of the tokens with a blank between
/// each two.
pub fn lexer_text(tokens: &Vec<PPToken>) -> (r: String)
    ensures
        r@ == spaced(tokens_of(tokens@), tokens@.len() as int),
{
    let mut out: String = String::new();
    assert(out@ =~= Seq::empty());
    let mut i: usize = 0;
    while i < tokens.len()
        invariant
            i <= tokens@.len(),
            out@ == spaced(tokens_of(tokens@), i as int),
        decreases tokens@.len() - i,
    {
        let ghost before = out@;
        assert(tokens_of(tokens@)[i as int] == tokens@[i as int]@);
        if i > 0 {
            out.append(" ");
        }
        out.append(tokens[i].text.as_str());
        i += 1;
        assert(out@ =~= spaced(tokens_of(tokens@), i as int));
    }
    out
}

/// White space in front of a line break leaves no trace.
pub proof fn lemma_no_blank_before_newline(
    w: Written,
    blanks: TokenModel,
    newline: TokenModel,
    assembly: bool,
)
    requires
        blanks.kind == PPTokenKind::Whitespace,
        newline.kind == PPTokenKind::Newline,
    ensures
        token_written(token_written(w, blanks, assembly), newline, assembly)
            == token_written(w, newline, assembly),
{
}

} // verus!
