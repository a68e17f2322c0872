//! Recursive-descent parser: turns the token sequence into a forest of
//! [`AndOrNode`] statements.
//!
//! Every executable parse function is proved to return exactly the value and
//! the cursor position of its specification twin (prefix `s_`).  The
//! specification twins are written with explicitly clamped cursor updates, so
//! that the whole parser terminates on every input by construction; on inputs
//! the grammar accepts the clamps never fire.

use crate::expr::{
    AndIf, AndOrNode, Argument, AssignmentExpr, CommandExpr, CompoundList, ExpansionExpr, ForExpr,
    FunctionExpr, IfBranch, IfExpr, MergeExpr, NotExpr, OrIf, PipeLineExpr, RedirectExpr,
    RedirectType, SubShellExpr, VariableLookup, WhileExpr,
};
use crate::expr::{
    andor_dv, args_dv, AndOrM, ArgM, AssignM, CommandM, CompoundM, ExpM, ForM, FuncM, IfBranchM, IfM,
    PipelineM, RedirectM, WhileM,
};
use crate::tokenizer::{res_dv, s_tokens, tokens, ShTokenType, Token, TokenM};
use std::rc::Rc;
use vstd::prelude::*;

verus! {

broadcast use {vstd::std_specs::vec::group_vec_axioms, vstd::seq::group_seq_axioms};

// ---------------------------------------------------------------------------
// Cursor primitives.
// ---------------------------------------------------------------------------

/// The token at position `loc`, or an end-of-file sentinel past the end.
pub open spec fn tok_at(toks: Seq<TokenM>, loc: nat) -> TokenM {
    if loc < toks.len() {
        toks[loc as int]
    } else {
        TokenM { lexeme: Seq::empty(), token_type: ShTokenType::EndOfFile }
    }
}

/// Whether the token at `loc` has kind `t`.
pub open spec fn cur_is(toks: Seq<TokenM>, loc: nat, t: ShTokenType) -> bool {
    tok_at(toks, loc).token_type == t
}

/// The cursor one token further, capped at the end of the stream.
pub open spec fn s_adv(toks: Seq<TokenM>, loc: nat) -> nat {
    if loc < toks.len() {
        loc + 1
    } else {
        loc
    }
}

/// Remaining-token measure used in every `decreases` clause.
pub open spec fn rem(toks: Seq<TokenM>, loc: nat) -> nat {
    if loc <= toks.len() {
        (toks.len() - loc) as nat
    } else {
        0
    }
}

/// Clamps a returned cursor `to` into `[from, toks.len()]`.
pub open spec fn seq_clamp(toks: Seq<TokenM>, from: nat, to: nat) -> nat {
    if to < from {
        from
    } else if to > toks.len() {
        toks.len()
    } else {
        to
    }
}

/// Clamps a returned cursor `to` into `(from, toks.len()]`; meaningful only
/// when `from` is strictly inside the stream.
pub open spec fn strict_clamp(toks: Seq<TokenM>, from: nat, to: nat) -> nat {
    if to <= from {
        from + 1
    } else if to > toks.len() {
        toks.len()
    } else {
        to
    }
}

/// The cursor after the run of whitespace tokens starting at `loc`.
pub open spec fn s_skip_ws(toks: Seq<TokenM>, loc: nat) -> nat
    decreases rem(toks, loc),
{
    if cur_is(toks, loc, ShTokenType::WhiteSpace) {
        s_skip_ws(toks, loc + 1)
    } else {
        loc
    }
}

/// The cursor after the run of whitespace and newline tokens starting at `loc`.
pub open spec fn s_skip_ws_nl(toks: Seq<TokenM>, loc: nat) -> nat
    decreases rem(toks, loc),
{
    if cur_is(toks, loc, ShTokenType::WhiteSpace) || cur_is(toks, loc, ShTokenType::NewLine) {
        s_skip_ws_nl(toks, loc + 1)
    } else {
        loc
    }
}

/// Consuming `t` if it is the current token: whether it was, and the cursor.
pub open spec fn s_try_consume(toks: Seq<TokenM>, loc: nat, t: ShTokenType) -> (bool, nat) {
    if cur_is(toks, loc, t) {
        (true, s_adv(toks, loc))
    } else {
        (false, loc)
    }
}

/// A printable name for each token kind, used in error messages.
pub open spec fn kind_name(t: ShTokenType) -> Seq<char> {
    match t {
        ShTokenType::NewLine => "NewLine"@,
        ShTokenType::WhiteSpace => "WhiteSpace"@,
        ShTokenType::EndOfFile => "EndOfFile"@,
        ShTokenType::BackSlash => "BackSlash"@,
        ShTokenType::DollarSign => "DollarSign"@,
        ShTokenType::LeftParen => "LeftParen"@,
        ShTokenType::RightParen => "RightParen"@,
        ShTokenType::LeftBracket => "LeftBracket"@,
        ShTokenType::RightBracket => "RightBracket"@,
        ShTokenType::DoubleLeftBracket => "DoubleLeftBracket"@,
        ShTokenType::DoubleRightBracket => "DoubleRightBracket"@,
        ShTokenType::LeftBrace => "LeftBrace"@,
        ShTokenType::RightBrace => "RightBrace"@,
        ShTokenType::Bang => "Bang"@,
        ShTokenType::AtSign => "AtSign"@,
        ShTokenType::Star => "Star"@,
        ShTokenType::Pound => "Pound"@,
        ShTokenType::QuestionMark => "QuestionMark"@,
        ShTokenType::Tilde => "Tilde"@,
        ShTokenType::Pipe => "Pipe"@,
        ShTokenType::Control => "Control"@,
        ShTokenType::RedirectOut => "RedirectOut"@,
        ShTokenType::RedirectIn => "RedirectIn"@,
        ShTokenType::AppendOut => "AppendOut"@,
        ShTokenType::AndIf => "AndIf"@,
        ShTokenType::OrIf => "OrIf"@,
        ShTokenType::Equal => "Equal"@,
        ShTokenType::SemiColon => "SemiColon"@,
        ShTokenType::Case => "Case"@,
        ShTokenType::Do => "Do"@,
        ShTokenType::Done => "Done"@,
        ShTokenType::Elif => "Elif"@,
        ShTokenType::Else => "Else"@,
        ShTokenType::Esac => "Esac"@,
        ShTokenType::Fi => "Fi"@,
        ShTokenType::For => "For"@,
        ShTokenType::If => "If"@,
        ShTokenType::In => "In"@,
        ShTokenType::Then => "Then"@,
        ShTokenType::Until => "Until"@,
        ShTokenType::While => "While"@,
        ShTokenType::Function => "Function"@,
        ShTokenType::NameSpace => "NameSpace"@,
        ShTokenType::Select => "Select"@,
        ShTokenType::Time => "Time"@,
        ShTokenType::Name => "Name"@,
        ShTokenType::DoubleQuoteStr => "DoubleQuoteStr"@,
        ShTokenType::BackTickStr => "BackTickStr"@,
    }
}

/// The error text of a failed mandatory consume.
pub open spec fn s_consume_err(t: ShTokenType, found: Seq<char>) -> Seq<char> {
    "Syntax error: Expected a token "@ + kind_name(t) + ", but found "@ + found
}

/// Consuming a mandatory token `t` after optional whitespace: the error if it
/// is not there, and the cursor.
pub open spec fn s_consume(toks: Seq<TokenM>, loc: nat, t: ShTokenType) -> (Result<
    (),
    Seq<char>,
>, nat) {
    let lw = seq_clamp(toks, loc, s_skip_ws(toks, loc));
    if cur_is(toks, lw, t) {
        (Ok(()), s_adv(toks, lw))
    } else {
        (Err(s_consume_err(t, tok_at(toks, lw).lexeme)), lw)
    }
}

// ---------------------------------------------------------------------------
// Executable twins of the cursor primitives.
// ---------------------------------------------------------------------------

/// The token sequence a token vector stands for.
pub open spec fn tdv(toks: Vec<Token>) -> Seq<TokenM> {
    toks.deep_view()
}

fn cur_type(toks: &Vec<Token>, loc: usize) -> (r: ShTokenType)
    ensures
        r == tok_at(tdv(*toks), loc as nat).token_type,
{
    if loc < toks.len() {
        toks[loc].token_type
    } else {
        ShTokenType::EndOfFile
    }
}

fn cur_lexeme(toks: &Vec<Token>, loc: usize) -> (r: String)
    ensures
        r@ == tok_at(tdv(*toks), loc as nat).lexeme,
{
    if loc < toks.len() {
        toks[loc].lexeme.clone()
    } else {
        let empty = String::new();
        proof {
            assert(empty@ =~= Seq::<char>::empty());
        }
        empty
    }
}

fn adv(toks: &Vec<Token>, loc: usize) -> (r: usize)
    ensures
        r == s_adv(tdv(*toks), loc as nat),
{
    if loc < toks.len() {
        loc + 1
    } else {
        loc
    }
}

fn clamp_seq(toks: &Vec<Token>, from: usize, to: usize) -> (r: usize)
    ensures
        r == seq_clamp(tdv(*toks), from as nat, to as nat),
{
    if to < from {
        from
    } else if to > toks.len() {
        toks.len()
    } else {
        to
    }
}

fn clamp_strict(toks: &Vec<Token>, from: usize, to: usize) -> (r: usize)
    requires
        from < toks.len(),
    ensures
        r == strict_clamp(tdv(*toks), from as nat, to as nat),
{
    if to <= from {
        from + 1
    } else if to > toks.len() {
        toks.len()
    } else {
        to
    }
}

fn skip_ws(toks: &Vec<Token>, loc: usize) -> (r: usize)
    requires
        loc <= toks.len(),
    ensures
        r == s_skip_ws(tdv(*toks), loc as nat),
        loc <= r <= toks.len(),
    decreases toks.len() - loc,
{
    if loc < toks.len() && matches!(toks[loc].token_type, ShTokenType::WhiteSpace) {
        skip_ws(toks, loc + 1)
    } else {
        loc
    }
}

fn skip_ws_nl(toks: &Vec<Token>, loc: usize) -> (r: usize)
    requires
        loc <= toks.len(),
    ensures
        r == s_skip_ws_nl(tdv(*toks), loc as nat),
        loc <= r <= toks.len(),
    decreases toks.len() - loc,
{
    if loc < toks.len()
        && (matches!(toks[loc].token_type, ShTokenType::WhiteSpace)
            || matches!(toks[loc].token_type, ShTokenType::NewLine)) {
        skip_ws_nl(toks, loc + 1)
    } else {
        loc
    }
}

fn try_consume(toks: &Vec<Token>, loc: usize, t: ShTokenType) -> (r: (bool, usize))
    ensures
        (r.0, r.1 as nat) == s_try_consume(tdv(*toks), loc as nat, t),
{
    let ct = cur_type(toks, loc);
    if ct == t {
        (true, adv(toks, loc))
    } else {
        (false, loc)
    }
}

fn kind_name_str(t: ShTokenType) -> (r: &'static str)
    ensures
        r@ == kind_name(t),
{
    match t {
        ShTokenType::NewLine => "NewLine",
        ShTokenType::WhiteSpace => "WhiteSpace",
        ShTokenType::EndOfFile => "EndOfFile",
        ShTokenType::BackSlash => "BackSlash",
        ShTokenType::DollarSign => "DollarSign",
        ShTokenType::LeftParen => "LeftParen",
        ShTokenType::RightParen => "RightParen",
        ShTokenType::LeftBracket => "LeftBracket",
        ShTokenType::RightBracket => "RightBracket",
        ShTokenType::DoubleLeftBracket => "DoubleLeftBracket",
        ShTokenType::DoubleRightBracket => "DoubleRightBracket",
        ShTokenType::LeftBrace => "LeftBrace",
        ShTokenType::RightBrace => "RightBrace",
        ShTokenType::Bang => "Bang",
        ShTokenType::AtSign => "AtSign",
        ShTokenType::Star => "Star",
        ShTokenType::Pound => "Pound",
        ShTokenType::QuestionMark => "QuestionMark",
        ShTokenType::Tilde => "Tilde",
        ShTokenType::Pipe => "Pipe",
        ShTokenType::Control => "Control",
        ShTokenType::RedirectOut => "RedirectOut",
        ShTokenType::RedirectIn => "RedirectIn",
        ShTokenType::AppendOut => "AppendOut",
        ShTokenType::AndIf => "AndIf",
        ShTokenType::OrIf => "OrIf",
        ShTokenType::Equal => "Equal",
        ShTokenType::SemiColon => "SemiColon",
        ShTokenType::Case => "Case",
        ShTokenType::Do => "Do",
        ShTokenType::Done => "Done",
        ShTokenType::Elif => "Elif",
        ShTokenType::Else => "Else",
        ShTokenType::Esac => "Esac",
        ShTokenType::Fi => "Fi",
        ShTokenType::For => "For",
        ShTokenType::If => "If",
        ShTokenType::In => "In",
        ShTokenType::Then => "Then",
        ShTokenType::Until => "Until",
        ShTokenType::While => "While",
        ShTokenType::Function => "Function",
        ShTokenType::NameSpace => "NameSpace",
        ShTokenType::Select => "Select",
        ShTokenType::Time => "Time",
        ShTokenType::Name => "Name",
        ShTokenType::DoubleQuoteStr => "DoubleQuoteStr",
        ShTokenType::BackTickStr => "BackTickStr",
    }
}

fn consume_err_msg(t: ShTokenType, found: &String) -> (r: String)
    ensures
        r@ == s_consume_err(t, found@),
{
    let mut m = String::from_str("Syntax error: Expected a token ");
    m.append(kind_name_str(t));
    m.append(", but found ");
    m.append(found.as_str());
    m
}

fn consume(toks: &Vec<Token>, loc: usize, t: ShTokenType) -> (r: (Result<(), String>, usize))
    requires
        loc <= toks.len(),
    ensures
        (res_dv(r.0), r.1 as nat) == s_consume(tdv(*toks), loc as nat, t),
        r.1 <= toks.len(),
{
    let lw = skip_ws(toks, loc);
    let lw = clamp_seq(toks, loc, lw);
    let (hit, l2) = try_consume(toks, lw, t);
    if hit {
        (Ok(()), l2)
    } else {
        let found = cur_lexeme(toks, lw);
        (Err(consume_err_msg(t, &found)), lw)
    }
}

// ---------------------------------------------------------------------------
// Collecting runs of tokens.
// ---------------------------------------------------------------------------

/// Error text for an unterminated nested construct.
pub open spec fn s_no_matching(t: ShTokenType) -> Seq<char> {
    "Syntax Error: Unexpected end of file, no matching '"@ + kind_name(t) + "'"@
}

/// The concatenated lexemes of all tokens before the next `stop` token, the
/// `stop` token itself consumed; reaching the end of the stream instead is an
/// error.
pub open spec fn s_collect_until(toks: Seq<TokenM>, loc: nat, stop: ShTokenType) -> (Result<
    Seq<char>,
    Seq<char>,
>, nat)
    decreases rem(toks, loc), 5int,
{
    if cur_is(toks, loc, stop) {
        (Ok(Seq::empty()), s_adv(toks, loc))
    } else if loc >= toks.len() || cur_is(toks, loc, ShTokenType::EndOfFile) {
        (Err(s_no_matching(stop)), loc)
    } else {
        match s_collect_until(toks, loc + 1, stop) {
            (Err(e), l) => (Err(e), l),
            (Ok(rest), l) => (Ok(tok_at(toks, loc).lexeme + rest), l),
        }
    }
}

fn collect_until(toks: &Vec<Token>, loc: usize, stop: ShTokenType) -> (r: (Result<
    String,
    String,
>, usize))
    requires
        loc <= toks.len(),
    ensures
        (res_dv(r.0), r.1 as nat) == s_collect_until(tdv(*toks), loc as nat, stop),
        r.1 <= toks.len(),
    decreases toks.len() - loc, 5int,
{
    let ct = cur_type(toks, loc);
    if ct == stop {
        let empty = String::new();
        proof {
            assert(empty@ =~= Seq::<char>::empty());
        }
        (Ok(empty), adv(toks, loc))
    } else if loc >= toks.len() || ct == ShTokenType::EndOfFile {
        let mut m = String::from_str("Syntax Error: Unexpected end of file, no matching '");
        m.append(kind_name_str(stop));
        m.append("'");
        (Err(m), loc)
    } else {
        match collect_until(toks, loc + 1, stop) {
            (Err(e), l) => (Err(e), l),
            (Ok(rest), l) => {
                let mut s = cur_lexeme(toks, loc);
                s.append(rest.as_str());
                (Ok(s), l)
            },
        }
    }
}

/// The concatenated lexemes strictly inside a balanced pair of delimiters,
/// starting on the opener at `loc` with `count` openers outstanding; the
/// closer that balances the count is consumed.
pub open spec fn s_collect_matching(
    toks: Seq<TokenM>,
    loc: nat,
    lt: ShTokenType,
    rt: ShTokenType,
    count: int,
) -> (Result<Seq<char>, Seq<char>>, nat)
    decreases rem(toks, loc), 5int,
{
    if loc >= toks.len() {
        (Err(s_no_matching(rt)), loc)
    } else {
        let l1 = loc + 1;
        if cur_is(toks, l1, ShTokenType::EndOfFile) {
            (Err(s_no_matching(rt)), l1)
        } else {
            let newcount = count + if cur_is(toks, l1, lt) {
                1int
            } else if cur_is(toks, l1, rt) {
                -1int
            } else {
                0int
            };
            if newcount > 0 {
                match s_collect_matching(toks, l1, lt, rt, newcount) {
                    (Err(e), l) => (Err(e), l),
                    (Ok(rest), l) => (Ok(tok_at(toks, l1).lexeme + rest), l),
                }
            } else {
                (Ok(Seq::empty()), s_adv(toks, l1))
            }
        }
    }
}

fn collect_matching(
    toks: &Vec<Token>,
    loc: usize,
    lt: ShTokenType,
    rt: ShTokenType,
    count: u128,
) -> (r: (Result<String, String>, usize))
    requires
        loc <= toks.len(),
        1 <= count,
        count as int <= 1 + loc as int,
    ensures
        (res_dv(r.0), r.1 as nat) == s_collect_matching(
            tdv(*toks),
            loc as nat,
            lt,
            rt,
            count as int,
        ),
        r.1 <= toks.len(),
    decreases toks.len() - loc, 5int,
{
    if loc >= toks.len() {
        let mut m = String::from_str("Syntax Error: Unexpected end of file, no matching '");
        m.append(kind_name_str(rt));
        m.append("'");
        (Err(m), loc)
    } else {
        let l1 = loc + 1;
        let t1 = cur_type(toks, l1);
        if t1 == ShTokenType::EndOfFile {
            let mut m = String::from_str("Syntax Error: Unexpected end of file, no matching '");
            m.append(kind_name_str(rt));
            m.append("'");
            (Err(m), l1)
        } else {
            let newcount: u128 = if t1 == lt {
                count + 1
            } else if t1 == rt {
                count - 1
            } else {
                count
            };
            if newcount > 0 {
                match collect_matching(toks, l1, lt, rt, newcount) {
                    (Err(e), l) => (Err(e), l),
                    (Ok(rest), l) => {
                        let mut s = cur_lexeme(toks, l1);
                        s.append(rest.as_str());
                        (Ok(s), l)
                    },
                }
            } else {
                let empty = String::new();
                proof {
                    assert(empty@ =~= Seq::<char>::empty());
                }
                (Ok(empty), adv(toks, l1))
            }
        }
    }
}

// ---------------------------------------------------------------------------
// Parameter expansion.
// ---------------------------------------------------------------------------

/// First position `k` in `w` with `w[k] == ':'` and `w[k + 1] == '-'`.
pub open spec fn s_find_colon_dash(w: Seq<char>, i: nat) -> Option<nat>
    decreases w.len() - i,
{
    if i + 1 >= w.len() {
        None
    } else if w[i as int] == ':' && w[i as int + 1] == '-' {
        Some(i)
    } else {
        s_find_colon_dash(w, i + 1)
    }
}

fn find_colon_dash(w: &str) -> (r: Option<usize>)
    ensures
        match r {
            Some(k) => s_find_colon_dash(w@, 0) == Some(k as nat) && k + 1 < w@.len(),
            None => s_find_colon_dash(w@, 0) is None,
        },
{
    let n = w.unicode_len();
    if n < 2 {
        return None;
    }
    let mut i: usize = 0;
    while i < n - 1
        invariant
            i <= n,
            n == w@.len(),
            2 <= n,
            s_find_colon_dash(w@, 0) == s_find_colon_dash(w@, i as nat),
        decreases n - i,
    {
        if w.get_char(i) == ':' && w.get_char(i + 1) == '-' {
            return Some(i);
        }
        i += 1;
    }
    None
}

/// The `${...}` forms, entered on the opening brace: `#name` is a length
/// expansion, a name split at `:-` is a use-default form, a name ending in
/// `:` followed by `=` or `?` is an assign-default or error form, and a bare
/// name is plain expansion; anything else is a parse error.
pub open spec fn s_parse_expansion(toks: Seq<TokenM>, loc: nat) -> (Result<ExpM, Seq<char>>, nat)
    decreases rem(toks, loc), 8int,
{
    if !cur_is(toks, loc, ShTokenType::LeftBrace) {
        (Err("Error parsing expansion"@), loc)
    } else {
        let l1 = loc + 1;
        if cur_is(toks, l1, ShTokenType::Pound) {
            let l2 = s_adv(toks, l1);
            if !cur_is(toks, l2, ShTokenType::Name) {
                (Err("Expected a name after '#'"@), l2)
            } else {
                let name = tok_at(toks, l2).lexeme;
                let l3 = s_adv(toks, l2);
                if cur_is(toks, l3, ShTokenType::RightBrace) {
                    (Ok(ExpM::Length(name)), s_adv(toks, l3))
                } else {
                    (Err(s_consume_err(ShTokenType::RightBrace, tok_at(toks, l3).lexeme)), l3)
                }
            }
        } else if cur_is(toks, l1, ShTokenType::Name) {
            let w = tok_at(toks, l1).lexeme;
            let l2 = s_adv(toks, l1);
            match s_find_colon_dash(w, 0) {
                Some(k) => {
                    let name = w.take(k as int);
                    let dhead = w.skip(k + 2int);
                    match s_collect_until(toks, l2, ShTokenType::RightBrace) {
                        (Err(e), l) => (Err(e), l),
                        (Ok(rest), l) => (Ok(ExpM::Substitute(name, dhead + rest)), l),
                    }
                },
                None => {
                    if w.len() > 0 && w.last() == ':' && cur_is(toks, l2, ShTokenType::Equal) {
                        let l3 = s_adv(toks, l2);
                        match s_collect_until(toks, l3, ShTokenType::RightBrace) {
                            (Err(e), l) => (Err(e), l),
                            (Ok(rest), l) => (Ok(ExpM::Assign(w.drop_last(), rest)), l),
                        }
                    } else if w.len() > 0 && w.last() == ':' && cur_is(
                        toks,
                        l2,
                        ShTokenType::QuestionMark,
                    ) {
                        let l3 = s_adv(toks, l2);
                        match s_collect_until(toks, l3, ShTokenType::RightBrace) {
                            (Err(e), l) => (Err(e), l),
                            (Ok(rest), l) => (Ok(ExpM::ErrorOn(w.drop_last(), rest)), l),
                        }
                    } else if cur_is(toks, l2, ShTokenType::RightBrace) {
                        (Ok(ExpM::Plain(w)), s_adv(toks, l2))
                    } else {
                        (Err(s_consume_err(ShTokenType::RightBrace, tok_at(toks, l2).lexeme)), l2)
                    }
                },
            }
        } else {
            (Err("Error parsing expansion"@), l1)
        }
    }
}

fn parse_expansion(toks: &Vec<Token>, loc: usize) -> (r: (Result<ExpansionExpr, String>, usize))
    requires
        loc <= toks.len(),
    ensures
        (res_dv(r.0), r.1 as nat) == s_parse_expansion(tdv(*toks), loc as nat),
        r.1 <= toks.len(),
    decreases toks.len() - loc, 8int,
{
    let t = cur_type(toks, loc);
    if t != ShTokenType::LeftBrace {
        (Err(String::from_str("Error parsing expansion")), loc)
    } else {
        let l1 = loc + 1;
        let t1 = cur_type(toks, l1);
        if t1 == ShTokenType::Pound {
            let l2 = adv(toks, l1);
            let t2 = cur_type(toks, l2);
            if t2 != ShTokenType::Name {
                (Err(String::from_str("Expected a name after '#'")), l2)
            } else {
                let name = cur_lexeme(toks, l2);
                let l3 = adv(toks, l2);
                if cur_type(toks, l3) == ShTokenType::RightBrace {
                    (Ok(ExpansionExpr::StringLengthExpansion(name)), adv(toks, l3))
                } else {
                    let found = cur_lexeme(toks, l3);
                    (Err(consume_err_msg(ShTokenType::RightBrace, &found)), l3)
                }
            }
        } else if t1 == ShTokenType::Name {
            let w = cur_lexeme(toks, l1);
            let l2 = adv(toks, l1);
            match find_colon_dash(w.as_str()) {
                Some(k) => {
                    let wlen = w.as_str().unicode_len();
                    let name = w.as_str().substring_char(0, k).to_owned();
                    let dhead = w.as_str().substring_char(k + 2, wlen);
                    match collect_until(toks, l2, ShTokenType::RightBrace) {
                        (Err(e), l) => (Err(e), l),
                        (Ok(rest), l) => {
                            let mut d = dhead.to_owned();
                            d.append(rest.as_str());
                            proof {
                                assert(w@.subrange(0, k as int) =~= w@.take(k as int));
                                assert(w@.subrange(k + 2, w@.len() as int) =~= w@.skip(
                                    k + 2 as int,
                                ));
                            }
                            (Ok(ExpansionExpr::ParameterSubstitute(name, d)), l)
                        },
                    }
                },
                None => {
                    let wlen = w.as_str().unicode_len();
                    let ends_colon = wlen > 0 && w.as_str().get_char(wlen - 1) == ':';
                    let t2 = cur_type(toks, l2);
                    if ends_colon && t2 == ShTokenType::Equal {
                        let l3 = adv(toks, l2);
                        match collect_until(toks, l3, ShTokenType::RightBrace) {
                            (Err(e), l) => (Err(e), l),
                            (Ok(rest), l) => {
                                let name = w.as_str().substring_char(0, wlen - 1).to_owned();
                                proof {
                                    assert(w@.subrange(0, w@.len() - 1) =~= w@.drop_last());
                                }
                                (Ok(ExpansionExpr::ParameterAssign(name, rest)), l)
                            },
                        }
                    } else if ends_colon && t2 == ShTokenType::QuestionMark {
                        let l3 = adv(toks, l2);
                        match collect_until(toks, l3, ShTokenType::RightBrace) {
                            (Err(e), l) => (Err(e), l),
                            (Ok(rest), l) => {
                                let name = w.as_str().substring_char(0, wlen - 1).to_owned();
                                proof {
                                    assert(w@.subrange(0, w@.len() - 1) =~= w@.drop_last());
                                }
                                (Ok(ExpansionExpr::ParameterError(name, rest)), l)
                            },
                        }
                    } else if t2 == ShTokenType::RightBrace {
                        (Ok(ExpansionExpr::ParameterExpansion(w)), adv(toks, l2))
                    } else {
                        let found = cur_lexeme(toks, l2);
                        (Err(consume_err_msg(ShTokenType::RightBrace, &found)), l2)
                    }
                },
            }
        } else {
            (Err(String::from_str("Error parsing expansion")), l1)
        }
    }
}

// ---------------------------------------------------------------------------
// Arguments.
// ---------------------------------------------------------------------------

/// Whether a token kind ends the argument list of a command.
pub open spec fn is_arg_terminator(t: ShTokenType) -> bool {
    ||| t == ShTokenType::WhiteSpace
    ||| t == ShTokenType::NewLine
    ||| t == ShTokenType::SemiColon
    ||| t == ShTokenType::AndIf
    ||| t == ShTokenType::Done
    ||| t == ShTokenType::OrIf
    ||| t == ShTokenType::Pipe
    ||| t == ShTokenType::RedirectOut
    ||| t == ShTokenType::AppendOut
    ||| t == ShTokenType::RedirectIn
    ||| t == ShTokenType::Control
    ||| t == ShTokenType::RightParen
    ||| t == ShTokenType::LeftParen
    ||| t == ShTokenType::EndOfFile
}

/// Whether a token kind names a variable when it follows `$`.
pub open spec fn is_special_var_tok(t: ShTokenType) -> bool {
    ||| t == ShTokenType::DollarSign
    ||| t == ShTokenType::Bang
    ||| t == ShTokenType::Star
    ||| t == ShTokenType::AtSign
    ||| t == ShTokenType::QuestionMark
    ||| t == ShTokenType::Pound
}

/// Exactly one primitive argument fragment: a literal, a `$` form, a backtick
/// substitution, or nothing at a terminator.
pub open spec fn s_arg_one(toks: Seq<TokenM>, loc: nat) -> (Result<Option<ArgM>, Seq<char>>, nat)
    decreases rem(toks, loc), 9int,
{
    let t = tok_at(toks, loc).token_type;
    if t == ShTokenType::Name {
        (Ok(Some(ArgM::Name(tok_at(toks, loc).lexeme))), s_adv(toks, loc))
    } else if t == ShTokenType::DollarSign {
        let l1 = loc + 1;
        let t1 = tok_at(toks, l1).token_type;
        if t1 == ShTokenType::Name {
            (Ok(Some(ArgM::Variable(tok_at(toks, l1).lexeme))), s_adv(toks, l1))
        } else if t1 == ShTokenType::LeftParen {
            match s_collect_matching(toks, l1, ShTokenType::LeftParen, ShTokenType::RightParen, 1) {
                (Err(e), l) => (Err(e), l),
                (Ok(inner), l) => (Ok(Some(ArgM::SubShell(inner))), l),
            }
        } else if t1 == ShTokenType::LeftBrace {
            match s_parse_expansion(toks, l1) {
                (Err(e), l) => (Err(e), l),
                (Ok(e), l) => (Ok(Some(ArgM::Expansion(e))), l),
            }
        } else if is_special_var_tok(t1) {
            (Ok(Some(ArgM::Variable(tok_at(toks, l1).lexeme))), s_adv(toks, l1))
        } else {
            (Err("Expected some value after '$'"@), l1)
        }
    } else if t == ShTokenType::BackTickStr {
        (Ok(Some(ArgM::SubShell(tok_at(toks, loc).lexeme))), s_adv(toks, loc))
    } else if is_arg_terminator(t) {
        (Ok(None), loc)
    } else {
        (Ok(Some(ArgM::Name(tok_at(toks, loc).lexeme))), s_adv(toks, loc))
    }
}

fn arg_one(toks: &Vec<Token>, loc: usize) -> (r: (Result<Option<Argument>, String>, usize))
    requires
        loc <= toks.len(),
    ensures
        (res_dv(r.0), r.1 as nat) == s_arg_one(tdv(*toks), loc as nat),
        r.1 <= toks.len(),
    decreases toks.len() - loc, 9int,
{
    let t = cur_type(toks, loc);
    if t == ShTokenType::Name {
        (Ok(Some(Argument::Name(cur_lexeme(toks, loc)))), adv(toks, loc))
    } else if t == ShTokenType::DollarSign {
        let l1 = loc + 1;
        let t1 = cur_type(toks, l1);
        if t1 == ShTokenType::Name {
            (Ok(Some(Argument::Variable(VariableLookup { name: cur_lexeme(toks, l1) }))), adv(
                toks,
                l1,
            ))
        } else if t1 == ShTokenType::LeftParen {
            match collect_matching(toks, l1, ShTokenType::LeftParen, ShTokenType::RightParen, 1) {
                (Err(e), l) => (Err(e), l),
                (Ok(inner), l) => (Ok(Some(Argument::SubShell(SubShellExpr { shell: inner }))), l),
            }
        } else if t1 == ShTokenType::LeftBrace {
            match parse_expansion(toks, l1) {
                (Err(e), l) => (Err(e), l),
                (Ok(e), l) => (Ok(Some(Argument::Expansion(e))), l),
            }
        } else if t1 == ShTokenType::DollarSign || t1 == ShTokenType::Bang || t1
            == ShTokenType::Star || t1 == ShTokenType::AtSign || t1 == ShTokenType::QuestionMark
            || t1 == ShTokenType::Pound {
            (Ok(Some(Argument::Variable(VariableLookup { name: cur_lexeme(toks, l1) }))), adv(
                toks,
                l1,
            ))
        } else {
            (Err(String::from_str("Expected some value after '$'")), l1)
        }
    } else if t == ShTokenType::BackTickStr {
        (Ok(Some(Argument::SubShell(SubShellExpr { shell: cur_lexeme(toks, loc) }))), adv(
            toks,
            loc,
        ))
    } else if t == ShTokenType::WhiteSpace || t == ShTokenType::NewLine || t
        == ShTokenType::SemiColon || t == ShTokenType::AndIf || t == ShTokenType::Done || t
        == ShTokenType::OrIf || t == ShTokenType::Pipe || t == ShTokenType::RedirectOut || t
        == ShTokenType::AppendOut || t == ShTokenType::RedirectIn || t == ShTokenType::Control || t
        == ShTokenType::RightParen || t == ShTokenType::LeftParen || t == ShTokenType::EndOfFile {
        (Ok(None), loc)
    } else {
        (Ok(Some(Argument::Name(cur_lexeme(toks, loc)))), adv(toks, loc))
    }
}

/// Folds further fragments onto `acc`, left to right, while fragments keep
/// coming with no separator between them.
pub open spec fn s_arg_more(toks: Seq<TokenM>, loc: nat, acc: ArgM) -> (Result<
    Option<ArgM>,
    Seq<char>,
>, nat)
    decreases rem(toks, loc), 11int,
{
    match s_arg_one(toks, loc) {
        (Err(e), l) => (Err(e), l),
        (Ok(None), l) => (Ok(Some(acc)), l),
        (Ok(Some(b)), l) => {
            let merged = ArgM::Merge(Box::new(acc), Box::new(b));
            if loc >= toks.len() {
                (Ok(Some(merged)), l)
            } else {
                s_arg_more(toks, strict_clamp(toks, loc, l), merged)
            }
        },
    }
}

fn arg_more(toks: &Vec<Token>, loc: usize, acc: Argument) -> (r: (Result<
    Option<Argument>,
    String,
>, usize))
    requires
        loc <= toks.len(),
    ensures
        (res_dv(r.0), r.1 as nat) == s_arg_more(tdv(*toks), loc as nat, acc.deep_view()),
        r.1 <= toks.len(),
    decreases toks.len() - loc, 11int,
{
    let (one, l) = arg_one(toks, loc);
    match one {
        Err(e) => (Err(e), l),
        Ok(None) => (Ok(Some(acc)), l),
        Ok(Some(b)) => {
            let merged = Argument::Merge(MergeExpr { left: Box::new(acc), right: Box::new(b) });
            if loc >= toks.len() {
                (Ok(Some(merged)), l)
            } else {
                let l2 = clamp_strict(toks, loc, l);
                arg_more(toks, l2, merged)
            }
        },
    }
}

/// One whole argument: the left-to-right fold of all adjacent fragments, or
/// nothing when the current token cannot start an argument.
pub open spec fn s_parse_argument(toks: Seq<TokenM>, loc: nat) -> (Result<
    Option<ArgM>,
    Seq<char>,
>, nat)
    decreases rem(toks, loc), 12int,
{
    match s_arg_one(toks, loc) {
        (Err(e), l) => (Err(e), l),
        (Ok(None), l) => (Ok(None), l),
        (Ok(Some(a)), l) => {
            if loc >= toks.len() {
                (Ok(Some(a)), l)
            } else {
                s_arg_more(toks, strict_clamp(toks, loc, l), a)
            }
        },
    }
}

fn parse_argument_at(toks: &Vec<Token>, loc: usize) -> (r: (Result<Option<Argument>, String>, usize))
    requires
        loc <= toks.len(),
    ensures
        (res_dv(r.0), r.1 as nat) == s_parse_argument(tdv(*toks), loc as nat),
        r.1 <= toks.len(),
    decreases toks.len() - loc, 12int,
{
    let (one, l) = arg_one(toks, loc);
    match one {
        Err(e) => (Err(e), l),
        Ok(None) => (Ok(None), l),
        Ok(Some(a)) => {
            if loc >= toks.len() {
                (Ok(Some(a)), l)
            } else {
                let l2 = clamp_strict(toks, loc, l);
                arg_more(toks, l2, a)
            }
        },
    }
}

// ---------------------------------------------------------------------------
// Assignment prefixes and simple commands.
// ---------------------------------------------------------------------------

/// The lexeme of the token just before `loc` (empty at the edges).
pub open spec fn prev_lexeme(toks: Seq<TokenM>, loc: nat) -> Seq<char> {
    if 1 <= loc && loc <= toks.len() {
        toks[loc as int - 1].lexeme
    } else {
        Seq::empty()
    }
}

/// Error text for an input that ends where more was expected.
pub open spec fn s_eof_after(toks: Seq<TokenM>, loc: nat) -> Seq<char> {
    "Syntax error: Unexpected end of file after "@ + prev_lexeme(toks, loc)
}

/// A tentative `name=value` prefix: consumed only when the `=` really
/// follows; otherwise the cursor backtracks to where it started.
pub open spec fn s_parse_assignment(toks: Seq<TokenM>, loc: nat) -> (Result<
    Option<AssignM>,
    Seq<char>,
>, nat)
    decreases rem(toks, loc), 13int,
{
    if cur_is(toks, loc, ShTokenType::Name) {
        let key = tok_at(toks, loc).lexeme;
        let l1 = loc + 1;
        if cur_is(toks, l1, ShTokenType::Equal) {
            let l2 = s_adv(toks, l1);
            match s_parse_argument(toks, l2) {
                (Err(e), l) => (Err(e), l),
                (Ok(Some(v)), l) => (Ok(Some(AssignM { key: key, val: v })), l),
                (Ok(None), l) => (Ok(None), loc),
            }
        } else {
            (Ok(None), loc)
        }
    } else {
        if loc < toks.len() {
            (Ok(None), loc)
        } else {
            (Err(s_eof_after(toks, loc)), loc)
        }
    }
}

fn eof_after_msg(toks: &Vec<Token>, loc: usize) -> (r: String)
    ensures
        r@ == s_eof_after(tdv(*toks), loc as nat),
{
    let mut m = String::from_str("Syntax error: Unexpected end of file after ");
    if 1 <= loc && loc <= toks.len() {
        m.append(toks[loc - 1].lexeme.as_str());
    }
    m
}

fn parse_assignment(toks: &Vec<Token>, loc: usize) -> (r: (Result<
    Option<AssignmentExpr>,
    String,
>, usize))
    requires
        loc <= toks.len(),
    ensures
        (res_dv(r.0), r.1 as nat) == s_parse_assignment(tdv(*toks), loc as nat),
        r.1 <= toks.len(),
    decreases toks.len() - loc, 13int,
{
    if cur_type(toks, loc) == ShTokenType::Name {
        let key = cur_lexeme(toks, loc);
        let l1 = loc + 1;
        if cur_type(toks, l1) == ShTokenType::Equal {
            let l2 = adv(toks, l1);
            match parse_argument_at(toks, l2) {
                (Err(e), l) => (Err(e), l),
                (Ok(Some(v)), l) => (Ok(Some(AssignmentExpr { key: key, val: v })), l),
                (Ok(None), _l) => (Ok(None), loc),
            }
        } else {
            (Ok(None), loc)
        }
    } else {
        if loc < toks.len() {
            (Ok(None), loc)
        } else {
            (Err(eof_after_msg(toks, loc)), loc)
        }
    }
}

/// All further arguments of a command, each separated from the next by
/// whitespace, appended onto `acc`.
pub open spec fn s_cmd_args(toks: Seq<TokenM>, loc: nat, acc: Seq<ArgM>) -> (Result<
    Seq<ArgM>,
    Seq<char>,
>, nat)
    decreases rem(toks, loc), 14int,
{
    match s_parse_argument(toks, loc) {
        (Err(e), l) => (Err(e), l),
        (Ok(None), l) => (Ok(acc), l),
        (Ok(Some(a)), lr) => {
            if loc >= toks.len() {
                (Ok(acc.push(a)), lr)
            } else {
                let l1 = strict_clamp(toks, loc, lr);
                let l2 = seq_clamp(toks, l1, s_skip_ws(toks, l1));
                s_cmd_args(toks, l2, acc.push(a))
            }
        },
    }
}

fn cmd_args(toks: &Vec<Token>, loc: usize, acc: Vec<Argument>) -> (r: (Result<
    Vec<Argument>,
    String,
>, usize))
    requires
        loc <= toks.len(),
    ensures
        (res_dv(r.0), r.1 as nat) == s_cmd_args(tdv(*toks), loc as nat, acc.deep_view()),
        r.1 <= toks.len(),
    decreases toks.len() - loc, 14int,
{
    let ghost acc0 = acc.deep_view();
    match parse_argument_at(toks, loc) {
        (Err(e), l) => (Err(e), l),
        (Ok(None), l) => (Ok(acc), l),
        (Ok(Some(a)), lr) => {
            let ghost am = a.deep_view();
            let mut acc2 = acc;
            acc2.push(a);
            proof {
                assert(acc2.deep_view() =~= acc0.push(am));
            }
            if loc >= toks.len() {
                (Ok(acc2), lr)
            } else {
                let l1 = clamp_strict(toks, loc, lr);
                let lsk = skip_ws(toks, l1);
                let l2 = clamp_seq(toks, l1, lsk);
                cmd_args(toks, l2, acc2)
            }
        },
    }
}

/// A simple command: an optional assignment prefix, then a command name and
/// its arguments; a lone assignment is a command with an empty name, and a
/// missing command with no assignment is an error.
pub open spec fn s_parse_command(toks: Seq<TokenM>, loc: nat) -> (Result<CommandM, Seq<char>>, nat)
    decreases rem(toks, loc), 15int,
{
    match s_parse_assignment(toks, loc) {
        (Err(e), l) => (Err(e), l),
        (Ok(ass), l1r) => {
            let l1 = seq_clamp(toks, loc, l1r);
            let l2 = seq_clamp(toks, l1, s_skip_ws(toks, l1));
            match s_parse_argument(toks, l2) {
                (Err(e), l) => (Err(e), l),
                (Ok(None), l3) => {
                    if ass is Some {
                        (Ok(CommandM {
                            command: ArgM::Name(Seq::empty()),
                            arguments: Seq::empty(),
                            assignment: ass,
                        }), l3)
                    } else {
                        (Err("Syntax error: Expected some command, instead found '"@ + tok_at(
                            toks,
                            l2,
                        ).lexeme + "'"@), l3)
                    }
                },
                (Ok(Some(name)), l3r) => {
                    let l3 = seq_clamp(toks, l2, l3r);
                    let l4 = seq_clamp(toks, l3, s_skip_ws(toks, l3));
                    if l4 >= toks.len() {
                        let l5 = s_try_consume(toks, l4, ShTokenType::SemiColon).1;
                        (Ok(CommandM { command: name, arguments: Seq::empty(), assignment: ass }),
                            l5)
                    } else {
                        match s_cmd_args(toks, l4, Seq::empty()) {
                            (Err(e), l) => (Err(e), l),
                            (Ok(args), l5r) => {
                                let l5 = seq_clamp(toks, l4, l5r);
                                let l6 = s_try_consume(toks, l5, ShTokenType::SemiColon).1;
                                (Ok(CommandM { command: name, arguments: args, assignment: ass }),
                                    l6)
                            },
                        }
                    }
                },
            }
        },
    }
}

fn parse_command(toks: &Vec<Token>, loc: usize) -> (r: (Result<CommandExpr, String>, usize))
    requires
        loc <= toks.len(),
    ensures
        (res_dv(r.0), r.1 as nat) == s_parse_command(tdv(*toks), loc as nat),
        r.1 <= toks.len(),
    decreases toks.len() - loc, 15int,
{
    match parse_assignment(toks, loc) {
        (Err(e), l) => (Err(e), l),
        (Ok(ass), l1r) => {
            let l1 = clamp_seq(toks, loc, l1r);
            let lsk = skip_ws(toks, l1);
            let l2 = clamp_seq(toks, l1, lsk);
            match parse_argument_at(toks, l2) {
                (Err(e), l) => (Err(e), l),
                (Ok(None), l3) => {
                    if ass.is_some() {
                        let empty = String::new();
                        let noargs: Vec<Argument> = Vec::new();
                        proof {
                            assert(empty@ =~= Seq::<char>::empty());
                            assert(noargs.deep_view() =~= Seq::<ArgM>::empty());
                            assert(args_dv(noargs@) =~= noargs.deep_view());
                        }
                        (Ok(CommandExpr {
                            command: Argument::Name(empty),
                            arguments: noargs,
                            assignment: ass,
                        }), l3)
                    } else {
                        let mut m = String::from_str(
                            "Syntax error: Expected some command, instead found '",
                        );
                        let found = cur_lexeme(toks, l2);
                        m.append(found.as_str());
                        m.append("'");
                        (Err(m), l3)
                    }
                },
                (Ok(Some(name)), l3r) => {
                    let l3 = clamp_seq(toks, l2, l3r);
                    let lsk2 = skip_ws(toks, l3);
                    let l4 = clamp_seq(toks, l3, lsk2);
                    if l4 >= toks.len() {
                        let (_h, l5) = try_consume(toks, l4, ShTokenType::SemiColon);
                        let args: Vec<Argument> = Vec::new();
                        proof {
                            assert(args.deep_view() =~= Seq::<ArgM>::empty());
                            assert(args_dv(args@) =~= args.deep_view());
                        }
                        (Ok(CommandExpr { command: name, arguments: args, assignment: ass }), l5)
                    } else {
                        let args0: Vec<Argument> = Vec::new();
                        proof {
                            assert(args0.deep_view() =~= Seq::<ArgM>::empty());
                        }
                        match cmd_args(toks, l4, args0) {
                            (Err(e), l) => (Err(e), l),
                            (Ok(args), l5r) => {
                                let l5 = clamp_seq(toks, l4, l5r);
                                let (_h, l6) = try_consume(toks, l5, ShTokenType::SemiColon);
                                proof {
                                    assert(args_dv(args@) =~= args.deep_view());
                                }
                                (Ok(CommandExpr {
                                    command: name,
                                    arguments: args,
                                    assignment: ass,
                                }), l6)
                            },
                        }
                    }
                },
            }
        },
    }
}

// ---------------------------------------------------------------------------
// Redirects and the background marker.
// ---------------------------------------------------------------------------

/// At most one `>`, `>>` or `<` with its target file; when no redirect
/// operator is found the cursor steps back one token, undoing the whitespace
/// probe.
pub open spec fn s_parse_redirect(toks: Seq<TokenM>, loc: nat) -> (Result<
    Option<RedirectM>,
    Seq<char>,
>, nat)
    decreases rem(toks, loc), 6int,
{
    let lw = seq_clamp(toks, loc, s_skip_ws(toks, loc));
    let is_out = cur_is(toks, lw, ShTokenType::RedirectOut);
    let is_app = cur_is(toks, lw, ShTokenType::AppendOut);
    let is_in = cur_is(toks, lw, ShTokenType::RedirectIn);
    if is_out || is_app || is_in {
        let mode = if is_out {
            RedirectType::Out
        } else if is_app {
            RedirectType::OutAppend
        } else {
            RedirectType::In
        };
        let fd: u32 = if is_in {
            0
        } else {
            1
        };
        let l1 = lw + 1;
        let l2 = seq_clamp(toks, l1, s_skip_ws(toks, l1));
        match s_parse_argument(toks, l2) {
            (Err(e), l) => (Err(e), l),
            (Ok(None), l) => (Err("Syntax error: Expected a file name after '"@ + tok_at(
                toks,
                l2,
            ).lexeme + "'"@), l),
            (Ok(Some(f)), l) => (Ok(Some(RedirectM { file: f, mode: mode, file_descriptor: fd })),
                l),
        }
    } else {
        let lr: nat = if cur_is(toks, lw, ShTokenType::EndOfFile) {
            lw
        } else if lw >= 1 {
            (lw - 1) as nat
        } else {
            0
        };
        (Ok(None), lr)
    }
}

fn parse_redirect(toks: &Vec<Token>, loc: usize) -> (r: (Result<Option<RedirectExpr>, String>, usize))
    requires
        loc <= toks.len(),
    ensures
        (res_dv(r.0), r.1 as nat) == s_parse_redirect(tdv(*toks), loc as nat),
        r.1 <= toks.len(),
    decreases toks.len() - loc, 6int,
{
    let lsk = skip_ws(toks, loc);
    let lw = clamp_seq(toks, loc, lsk);
    let t = cur_type(toks, lw);
    let is_out = t == ShTokenType::RedirectOut;
    let is_app = t == ShTokenType::AppendOut;
    let is_in = t == ShTokenType::RedirectIn;
    if is_out || is_app || is_in {
        let mode = if is_out {
            RedirectType::Out
        } else if is_app {
            RedirectType::OutAppend
        } else {
            RedirectType::In
        };
        let fd: u32 = if is_in {
            0
        } else {
            1
        };
        let l1 = lw + 1;
        let lsk2 = skip_ws(toks, l1);
        let l2 = clamp_seq(toks, l1, lsk2);
        match parse_argument_at(toks, l2) {
            (Err(e), l) => (Err(e), l),
            (Ok(None), l) => {
                let mut m = String::from_str("Syntax error: Expected a file name after '");
                let found = cur_lexeme(toks, l2);
                m.append(found.as_str());
                m.append("'");
                (Err(m), l)
            },
            (Ok(Some(f)), l) => (Ok(Some(RedirectExpr { file: f, mode: mode, file_descriptor: fd })),
                l),
        }
    } else {
        let lr: usize = if t == ShTokenType::EndOfFile {
            lw
        } else if lw >= 1 {
            lw - 1
        } else {
            0
        };
        (Ok(None), lr)
    }
}

/// A trailing `&` marks the pipeline as backgrounded.
pub open spec fn s_parse_control(toks: Seq<TokenM>, loc: nat) -> (bool, nat) {
    let lw = seq_clamp(toks, loc, s_skip_ws(toks, loc));
    s_try_consume(toks, lw, ShTokenType::Control)
}

fn parse_control(toks: &Vec<Token>, loc: usize) -> (r: (bool, usize))
    requires
        loc <= toks.len(),
    ensures
        (r.0, r.1 as nat) == s_parse_control(tdv(*toks), loc as nat),
        r.1 <= toks.len(),
{
    let lsk = skip_ws(toks, loc);
    let lw = clamp_seq(toks, loc, lsk);
    try_consume(toks, lw, ShTokenType::Control)
}

// ---------------------------------------------------------------------------
// Pipelines, compounds and statements.
// ---------------------------------------------------------------------------

/// A run of pipelines ended by the token `stop` (which is consumed), each
/// followed by skipped whitespace and newlines.
pub open spec fn s_pipes_until(toks: Seq<TokenM>, loc: nat, stop: ShTokenType, acc: Seq<PipelineM>)
    -> (Result<Seq<PipelineM>, Seq<char>>, nat)
    decreases rem(toks, loc), 170int,
{
    if cur_is(toks, loc, stop) {
        (Ok(acc), s_adv(toks, loc))
    } else {
        match s_parse_pipeline(toks, loc) {
            (Err(e), l) => (Err(e), l),
            (Ok(p), lr) => {
                if loc >= toks.len() {
                    (Ok(acc.push(p)), lr)
                } else {
                    let l1 = strict_clamp(toks, loc, lr);
                    let l2 = seq_clamp(toks, l1, s_skip_ws_nl(toks, l1));
                    s_pipes_until(toks, l2, stop, acc.push(p))
                }
            },
        }
    }
}

/// The pipelines of an `if` branch, ended (without consuming it) by `fi`,
/// `else` or `elif`.
pub open spec fn s_if_branch(toks: Seq<TokenM>, loc: nat, acc: Seq<PipelineM>) -> (Result<
    Seq<PipelineM>,
    Seq<char>,
>, nat)
    decreases rem(toks, loc), 170int,
{
    if cur_is(toks, loc, ShTokenType::Fi) || cur_is(toks, loc, ShTokenType::Else) || cur_is(
        toks,
        loc,
        ShTokenType::Elif,
    ) {
        (Ok(acc), loc)
    } else {
        match s_parse_pipeline(toks, loc) {
            (Err(e), l) => (Err(e), l),
            (Ok(p), lr) => {
                if loc >= toks.len() {
                    (Ok(acc.push(p)), lr)
                } else {
                    let l1 = strict_clamp(toks, loc, lr);
                    let l2 = seq_clamp(toks, l1, s_skip_ws_nl(toks, l1));
                    s_if_branch(toks, l2, acc.push(p))
                }
            },
        }
    }
}

/// The item list of a `for`, ended (without consuming it) by `;`, a newline
/// or `do`; a missing item is an error.
pub open spec fn s_for_items(toks: Seq<TokenM>, loc: nat, acc: Seq<ArgM>) -> (Result<
    Seq<ArgM>,
    Seq<char>,
>, nat)
    decreases rem(toks, loc), 170int,
{
    if cur_is(toks, loc, ShTokenType::SemiColon) || cur_is(toks, loc, ShTokenType::NewLine)
        || cur_is(toks, loc, ShTokenType::Do) {
        (Ok(acc), loc)
    } else {
        let l1 = seq_clamp(toks, loc, s_skip_ws(toks, loc));
        match s_parse_argument(toks, l1) {
            (Err(e), l) => (Err(e), l),
            (Ok(None), l) => (Err("Expected some argument instead found "@ + tok_at(
                toks,
                l1,
            ).lexeme), l),
            (Ok(Some(a)), lr) => {
                if loc >= toks.len() {
                    (Ok(acc.push(a)), lr)
                } else {
                    s_for_items(toks, strict_clamp(toks, loc, lr), acc.push(a))
                }
            },
        }
    }
}

/// An `if`/`elif` construct, entered on its `if` or `elif` keyword.
pub open spec fn s_parse_if(toks: Seq<TokenM>, loc: nat) -> (Result<IfM, Seq<char>>, nat)
    decreases rem(toks, loc), 150int,
{
    if !cur_is(toks, loc, ShTokenType::If) && !cur_is(toks, loc, ShTokenType::Elif) {
        (Err("Syntax error: Expected 'if' or 'elif', found "@ + tok_at(toks, loc).lexeme), loc)
    } else {
        let l1 = loc + 1;
        match s_parse_pipeline(toks, l1) {
            (Err(e), l) => (Err(e), l),
            (Ok(cond), lcr) => {
                let l2 = seq_clamp(toks, l1, lcr);
                let l3 = seq_clamp(toks, l2, s_skip_ws_nl(toks, l2));
                match s_consume(toks, l3, ShTokenType::Then) {
                    (Err(e), l) => (Err(e), l),
                    (Ok(u), l4r) => {
                        let l4 = seq_clamp(toks, l3, l4r);
                        let l5 = seq_clamp(toks, l4, s_skip_ws_nl(toks, l4));
                        match s_if_branch(toks, l5, Seq::empty()) {
                            (Err(e), l) => (Err(e), l),
                            (Ok(branch), l6r) => {
                                let l6 = seq_clamp(toks, l5, l6r);
                                let l7 = seq_clamp(toks, l6, s_skip_ws_nl(toks, l6));
                                if cur_is(toks, l7, ShTokenType::Elif) {
                                    match s_parse_if(toks, l7) {
                                        (Err(e), l) => (Err(e), l),
                                        (Ok(elifx), l8) => (Ok(IfM {
                                            condition: cond,
                                            if_branch: branch,
                                            else_branch: Some(IfBranchM::Elif(Box::new(elifx))),
                                        }), seq_clamp(
                                            toks,
                                            l7,
                                            s_skip_ws_nl(toks, seq_clamp(toks, l7, l8)),
                                        )),
                                    }
                                } else if cur_is(toks, l7, ShTokenType::Else) {
                                    let l8 = s_adv(toks, l7);
                                    let l9 = seq_clamp(toks, l8, s_skip_ws_nl(toks, l8));
                                    match s_pipes_until(toks, l9, ShTokenType::Fi, Seq::empty()) {
                                        (Err(e), l) => (Err(e), l),
                                        (Ok(cmds), l10r) => {
                                            let l10 = seq_clamp(toks, l9, l10r);
                                            let l11 = seq_clamp(
                                                toks,
                                                l10,
                                                s_skip_ws_nl(toks, l10),
                                            );
                                            (Ok(IfM {
                                                condition: cond,
                                                if_branch: branch,
                                                else_branch: Some(IfBranchM::Else(cmds)),
                                            }), l11)
                                        },
                                    }
                                } else {
                                    match s_consume(toks, l7, ShTokenType::Fi) {
                                        (Err(e), l) => (Err(e), l),
                                        (Ok(u2), l8) => (Ok(IfM {
                                            condition: cond,
                                            if_branch: branch,
                                            else_branch: None,
                                        }), l8),
                                    }
                                }
                            },
                        }
                    },
                }
            },
        }
    }
}

/// A `while` or `until` loop, entered on its keyword; `until` wraps the
/// condition in a negation.
pub open spec fn s_parse_while(toks: Seq<TokenM>, loc: nat) -> (Result<WhileM, Seq<char>>, nat)
    decreases rem(toks, loc), 150int,
{
    let is_until = cur_is(toks, loc, ShTokenType::Until);
    if !is_until && !cur_is(toks, loc, ShTokenType::While) {
        (Err("Syntax error: Expected 'while' or 'until', found "@ + tok_at(toks, loc).lexeme), loc)
    } else {
        let l1 = loc + 1;
        match s_parse_pipeline(toks, l1) {
            (Err(e), l) => (Err(e), l),
            (Ok(condp), lcr) => {
                let cond = AndOrM::Pipeline(Box::new(condp));
                let l2 = seq_clamp(toks, l1, lcr);
                let l3 = seq_clamp(toks, l2, s_skip_ws_nl(toks, l2));
                match s_consume(toks, l3, ShTokenType::Do) {
                    (Err(e), l) => (Err(e), l),
                    (Ok(u), l4r) => {
                        let l4 = seq_clamp(toks, l3, l4r);
                        let l5 = seq_clamp(toks, l4, s_skip_ws_nl(toks, l4));
                        match s_pipes_until(toks, l5, ShTokenType::Done, Seq::empty()) {
                            (Err(e), l) => (Err(e), l),
                            (Ok(body), l6) => {
                                let cond2 = if is_until {
                                    AndOrM::Notif(Box::new(cond))
                                } else {
                                    cond
                                };
                                (Ok(WhileM { condition: cond2, body: body }), l6)
                            },
                        }
                    },
                }
            },
        }
    }
}

/// A `for` loop, entered on its keyword.
pub open spec fn s_parse_for(toks: Seq<TokenM>, loc: nat) -> (Result<ForM, Seq<char>>, nat)
    decreases rem(toks, loc), 150int,
{
    if !cur_is(toks, loc, ShTokenType::For) {
        (Err(s_consume_err(ShTokenType::For, tok_at(toks, loc).lexeme)), loc)
    } else {
        let l1 = loc + 1;
        let l2 = seq_clamp(toks, l1, s_skip_ws(toks, l1));
        if !cur_is(toks, l2, ShTokenType::Name) {
            (Err("Expected some name after 'for' instead found "@ + tok_at(toks, l2).lexeme), l2)
        } else {
            let name = tok_at(toks, l2).lexeme;
            let l3 = s_adv(toks, l2);
            let l4 = seq_clamp(toks, l3, s_skip_ws(toks, l3));
            if cur_is(toks, l4, ShTokenType::In) {
                let l5 = s_adv(toks, l4);
                match s_for_items(toks, l5, Seq::empty()) {
                    (Err(e), l) => (Err(e), l),
                    (Ok(items), l6r) => {
                        let l6 = seq_clamp(toks, l5, l6r);
                        let l7 = s_try_consume(toks, l6, ShTokenType::SemiColon).1;
                        let l8 = seq_clamp(toks, l7, s_skip_ws_nl(toks, l7));
                        match s_consume(toks, l8, ShTokenType::Do) {
                            (Err(e), l) => (Err(e), l),
                            (Ok(u), l9r) => {
                                let l9 = seq_clamp(toks, l8, l9r);
                                let l10 = seq_clamp(toks, l9, s_skip_ws_nl(toks, l9));
                                match s_pipes_until(toks, l10, ShTokenType::Done, Seq::empty()) {
                                    (Err(e), l) => (Err(e), l),
                                    (Ok(cmds), l11) => (Ok(ForM {
                                        name: name,
                                        list: items,
                                        commands: cmds,
                                    }), l11),
                                }
                            },
                        }
                    },
                }
            } else {
                let l5 = seq_clamp(toks, l4, s_skip_ws_nl(toks, l4));
                match s_pipes_until(toks, l5, ShTokenType::Done, Seq::empty()) {
                    (Err(e), l) => (Err(e), l),
                    (Ok(cmds), l6) => (Ok(ForM { name: name, list: Seq::empty(), commands: cmds }),
                        l6),
                }
            }
        }
    }
}

/// A tentative function definition `name() { ... }`; without the `()` the
/// cursor backtracks and the input is an ordinary command.
pub open spec fn s_parse_function(toks: Seq<TokenM>, loc: nat) -> (Result<
    Option<FuncM>,
    Seq<char>,
>, nat)
    decreases rem(toks, loc), 150int,
{
    let l1 = s_adv(toks, loc);
    if !cur_is(toks, l1, ShTokenType::LeftParen) {
        (Ok(None), loc)
    } else {
        let l2 = l1 + 1;
        if !cur_is(toks, l2, ShTokenType::RightParen) {
            (Ok(None), loc)
        } else {
            let l3 = l2 + 1;
            let l4 = seq_clamp(toks, l3, s_skip_ws_nl(toks, l3));
            match s_consume(toks, l4, ShTokenType::LeftBrace) {
                (Err(e), l) => (Err(e), l),
                (Ok(u), l5r) => {
                    let l5 = seq_clamp(toks, l4, l5r);
                    let l6 = seq_clamp(toks, l5, s_skip_ws_nl(toks, l5));
                    match s_pipes_until(toks, l6, ShTokenType::RightBrace, Seq::empty()) {
                        (Err(e), l) => (Err(e), l),
                        (Ok(cmds), l7) => (Ok(Some(FuncM {
                            fname: tok_at(toks, loc).lexeme,
                            commands: cmds,
                        })), l7),
                    }
                },
            }
        }
    }
}

/// One pipeline stage: a control construct, a function definition when
/// `allow_function` holds, or a simple command.
pub open spec fn s_stage(toks: Seq<TokenM>, loc: nat, allow_function: bool) -> (Result<
    CompoundM,
    Seq<char>,
>, nat)
    decreases rem(toks, loc), 155int,
{
    let t = tok_at(toks, loc).token_type;
    if t == ShTokenType::If {
        match s_parse_if(toks, loc) {
            (Err(e), l) => (Err(e), l),
            (Ok(x), l) => (Ok(CompoundM::If(x)), l),
        }
    } else if t == ShTokenType::While || t == ShTokenType::Until {
        match s_parse_while(toks, loc) {
            (Err(e), l) => (Err(e), l),
            (Ok(x), l) => (Ok(CompoundM::While(x)), l),
        }
    } else if t == ShTokenType::For {
        match s_parse_for(toks, loc) {
            (Err(e), l) => (Err(e), l),
            (Ok(x), l) => (Ok(CompoundM::For(x)), l),
        }
    } else if allow_function {
        match s_parse_function(toks, loc) {
            (Err(e), l) => (Err(e), l),
            (Ok(Some(f)), l) => (Ok(CompoundM::Func(f)), l),
            (Ok(None), lf) => match s_parse_command(toks, loc) {
                (Err(e), l) => (Err(e), l),
                (Ok(c), l) => (Ok(CompoundM::Cmd(c)), l),
            },
        }
    } else {
        match s_parse_command(toks, loc) {
            (Err(e), l) => (Err(e), l),
            (Ok(c), l) => (Ok(CompoundM::Cmd(c)), l),
        }
    }
}

/// The later stages of a pipeline, each introduced by `|`.
pub open spec fn s_pipe_stages(toks: Seq<TokenM>, loc: nat, acc: Seq<CompoundM>) -> (Result<
    Seq<CompoundM>,
    Seq<char>,
>, nat)
    decreases rem(toks, loc), 170int,
{
    if !cur_is(toks, loc, ShTokenType::Pipe) {
        (Ok(acc), loc)
    } else {
        let l1 = loc + 1;
        match s_stage(toks, l1, false) {
            (Err(e), l) => (Err(e), l),
            (Ok(st), lr) => {
                if l1 >= toks.len() {
                    (Ok(acc.push(st)), lr)
                } else {
                    s_pipe_stages(toks, strict_clamp(toks, l1, lr), acc.push(st))
                }
            },
        }
    }
}

/// A whole pipeline: stages joined by `|`, then at most one redirect and an
/// optional background marker.
pub open spec fn s_parse_pipeline(toks: Seq<TokenM>, loc: nat) -> (Result<PipelineM, Seq<char>>, nat)
    decreases rem(toks, loc), 160int,
{
    let l0 = seq_clamp(toks, loc, s_skip_ws(toks, loc));
    match s_stage(toks, l0, true) {
        (Err(e), l) => (Err(e), l),
        (Ok(first), l1r) => {
            let l1 = seq_clamp(toks, l0, l1r);
            let stages0 = Seq::empty().push(first);
            let staged = if l0 >= toks.len() {
                (Ok(stages0), l1)
            } else {
                s_pipe_stages(toks, strict_clamp(toks, l0, l1), stages0)
            };
            match staged {
                (Err(e), l) => (Err(e), l),
                (Ok(stages), l2r) => {
                    let l2 = seq_clamp(toks, l0, l2r);
                    let l3 = seq_clamp(toks, l2, s_skip_ws(toks, l2));
                    let redirected = if !cur_is(toks, l3, ShTokenType::EndOfFile) && !cur_is(
                        toks,
                        l3,
                        ShTokenType::NewLine,
                    ) {
                        s_parse_redirect(toks, l3)
                    } else {
                        (Ok(None), l3)
                    };
                    match redirected {
                        (Err(e), l) => (Err(e), l),
                        (Ok(rd), l4r) => {
                            let l4 = seq_clamp(toks, l3, l4r);
                            let bg = s_parse_control(toks, l4);
                            (Ok(PipelineM {
                                pipeline: stages,
                                capture_out: false,
                                file_redirect: rd,
                                background: bg.0,
                            }), bg.1)
                        },
                    }
                },
            }
        },
    }
}

/// A statement: an optional leading `!`, then pipelines joined left to right
/// by `&&` and `||` with no precedence between them.
pub open spec fn s_andor_more(toks: Seq<TokenM>, loc: nat, left: AndOrM) -> (Result<
    AndOrM,
    Seq<char>,
>, nat)
    decreases rem(toks, loc), 180int,
{
    if cur_is(toks, loc, ShTokenType::AndIf) {
        let l1 = loc + 1;
        match s_parse_pipeline(toks, l1) {
            (Err(e), l) => (Err(e), l),
            (Ok(p), lr) => {
                let combined = AndOrM::Andif(Box::new(left), Box::new(AndOrM::Pipeline(Box::new(p))));
                s_andor_more(toks, strict_clamp(toks, loc, seq_clamp(toks, l1, lr)), combined)
            },
        }
    } else if cur_is(toks, loc, ShTokenType::OrIf) {
        let l1 = loc + 1;
        let l1b = seq_clamp(toks, l1, s_skip_ws(toks, l1));
        match s_parse_pipeline(toks, l1b) {
            (Err(e), l) => (Err(e), l),
            (Ok(p), lr) => {
                let combined = AndOrM::Orif(Box::new(left), Box::new(AndOrM::Pipeline(Box::new(p))));
                s_andor_more(toks, strict_clamp(toks, loc, seq_clamp(toks, l1b, lr)), combined)
            },
        }
    } else {
        (Ok(left), loc)
    }
}

/// One full `&&`/`||`/`!` statement.
pub open spec fn s_parse_andor(toks: Seq<TokenM>, loc: nat) -> (Result<AndOrM, Seq<char>>, nat)
    decreases rem(toks, loc), 190int,
{
    let l0 = seq_clamp(toks, loc, s_skip_ws_nl(toks, loc));
    let banged = s_try_consume(toks, l0, ShTokenType::Bang);
    let l1 = banged.1;
    match s_parse_pipeline(toks, l1) {
        (Err(e), l) => (Err(e), l),
        (Ok(p), lr) => {
            let l2 = seq_clamp(toks, l1, lr);
            match s_andor_more(toks, l2, AndOrM::Pipeline(Box::new(p))) {
                (Err(e), l) => (Err(e), l),
                (Ok(node), l3r) => {
                    let l3 = seq_clamp(toks, l2, l3r);
                    let l4 = seq_clamp(toks, l3, s_skip_ws_nl(toks, l3));
                    let node2 = if banged.0 {
                        AndOrM::Notif(Box::new(node))
                    } else {
                        node
                    };
                    (Ok(node2), l4)
                },
            }
        },
    }
}

/// The whole program: statements until the end of the stream, the failing
/// ones skipped with their messages collected in order.
pub open spec fn s_program(toks: Seq<TokenM>, loc: nat) -> (Seq<AndOrM>, Seq<char>)
    decreases rem(toks, loc), 200int,
{
    if cur_is(toks, loc, ShTokenType::EndOfFile) {
        (Seq::empty(), Seq::empty())
    } else {
        match s_parse_andor(toks, loc) {
            (Err(e), lr) => {
                let l1 = strict_clamp(toks, loc, lr);
                let l2 = s_try_consume(toks, l1, ShTokenType::NewLine).1;
                let restp = s_program(toks, l2);
                (restp.0, e + restp.1)
            },
            (Ok(node), lr) => {
                let l1 = strict_clamp(toks, loc, lr);
                let l2 = s_try_consume(toks, l1, ShTokenType::NewLine).1;
                let restp = s_program(toks, l2);
                (Seq::empty().push(node) + restp.0, restp.1)
            },
        }
    }
}

// ---------------------------------------------------------------------------
// Executable twins of the compound parsers.
// ---------------------------------------------------------------------------

fn pipes_until(toks: &Vec<Token>, loc: usize, stop: ShTokenType, acc: Vec<PipeLineExpr>) -> (r: (
    Result<Vec<PipeLineExpr>, String>,
    usize,
))
    requires
        loc <= toks.len(),
    ensures
        (res_dv(r.0), r.1 as nat) == s_pipes_until(tdv(*toks), loc as nat, stop, acc.deep_view()),
        r.1 <= toks.len(),
    decreases toks.len() - loc, 170int,
{
    let ghost acc0 = acc.deep_view();
    if cur_type(toks, loc) == stop {
        (Ok(acc), adv(toks, loc))
    } else {
        match parse_pipeline(toks, loc) {
            (Err(e), l) => (Err(e), l),
            (Ok(p), lr) => {
                let ghost pm = p.deep_view();
                let mut acc2 = acc;
                acc2.push(p);
                proof {
                    assert(acc2.deep_view() =~= acc0.push(pm));
                }
                if loc >= toks.len() {
                    (Ok(acc2), lr)
                } else {
                    let l1 = clamp_strict(toks, loc, lr);
                    let lsk = skip_ws_nl(toks, l1);
                    let l2 = clamp_seq(toks, l1, lsk);
                    pipes_until(toks, l2, stop, acc2)
                }
            },
        }
    }
}

fn if_branch_list(toks: &Vec<Token>, loc: usize, acc: Vec<PipeLineExpr>) -> (r: (Result<
    Vec<PipeLineExpr>,
    String,
>, usize))
    requires
        loc <= toks.len(),
    ensures
        (res_dv(r.0), r.1 as nat) == s_if_branch(tdv(*toks), loc as nat, acc.deep_view()),
        r.1 <= toks.len(),
    decreases toks.len() - loc, 170int,
{
    let ghost acc0 = acc.deep_view();
    let t = cur_type(toks, loc);
    if t == ShTokenType::Fi || t == ShTokenType::Else || t == ShTokenType::Elif {
        (Ok(acc), loc)
    } else {
        match parse_pipeline(toks, loc) {
            (Err(e), l) => (Err(e), l),
            (Ok(p), lr) => {
                let ghost pm = p.deep_view();
                let mut acc2 = acc;
                acc2.push(p);
                proof {
                    assert(acc2.deep_view() =~= acc0.push(pm));
                }
                if loc >= toks.len() {
                    (Ok(acc2), lr)
                } else {
                    let l1 = clamp_strict(toks, loc, lr);
                    let lsk = skip_ws_nl(toks, l1);
                    let l2 = clamp_seq(toks, l1, lsk);
                    if_branch_list(toks, l2, acc2)
                }
            },
        }
    }
}

fn for_items(toks: &Vec<Token>, loc: usize, acc: Vec<Argument>) -> (r: (Result<
    Vec<Argument>,
    String,
>, usize))
    requires
        loc <= toks.len(),
    ensures
        (res_dv(r.0), r.1 as nat) == s_for_items(tdv(*toks), loc as nat, acc.deep_view()),
        r.1 <= toks.len(),
    decreases toks.len() - loc, 170int,
{
    let ghost acc0 = acc.deep_view();
    let t = cur_type(toks, loc);
    if t == ShTokenType::SemiColon || t == ShTokenType::NewLine || t == ShTokenType::Do {
        (Ok(acc), loc)
    } else {
        let lsk = skip_ws(toks, loc);
        let l1 = clamp_seq(toks, loc, lsk);
        match parse_argument_at(toks, l1) {
            (Err(e), l) => (Err(e), l),
            (Ok(None), l) => {
                let mut m = String::from_str("Expected some argument instead found ");
                let found = cur_lexeme(toks, l1);
                m.append(found.as_str());
                (Err(m), l)
            },
            (Ok(Some(a)), lr) => {
                let ghost am = a.deep_view();
                let mut acc2 = acc;
                acc2.push(a);
                proof {
                    assert(acc2.deep_view() =~= acc0.push(am));
                }
                if loc >= toks.len() {
                    (Ok(acc2), lr)
                } else {
                    let l1s = clamp_strict(toks, loc, lr);
                    for_items(toks, l1s, acc2)
                }
            },
        }
    }
}

#[verifier::rlimit(100)]
fn parse_if(toks: &Vec<Token>, loc: usize) -> (r: (Result<IfExpr, String>, usize))
    requires
        loc <= toks.len(),
    ensures
        (res_dv(r.0), r.1 as nat) == s_parse_if(tdv(*toks), loc as nat),
        r.1 <= toks.len(),
    decreases toks.len() - loc, 150int,
{
    let t = cur_type(toks, loc);
    if t != ShTokenType::If && t != ShTokenType::Elif {
        let mut m = String::from_str("Syntax error: Expected 'if' or 'elif', found ");
        let found = cur_lexeme(toks, loc);
        m.append(found.as_str());
        (Err(m), loc)
    } else {
        let l1 = loc + 1;
        match parse_pipeline(toks, l1) {
            (Err(e), l) => (Err(e), l),
            (Ok(cond), lcr) => {
                let l2 = clamp_seq(toks, l1, lcr);
                let lsk = skip_ws_nl(toks, l2);
                let l3 = clamp_seq(toks, l2, lsk);
                match consume(toks, l3, ShTokenType::Then) {
                    (Err(e), l) => (Err(e), l),
                    (Ok(u), l4r) => {
                        let l4 = clamp_seq(toks, l3, l4r);
                        let lsk2 = skip_ws_nl(toks, l4);
                        let l5 = clamp_seq(toks, l4, lsk2);
                        let acc0: Vec<PipeLineExpr> = Vec::new();
                        proof {
                            assert(acc0.deep_view() =~= Seq::<PipelineM>::empty());
                        }
                        match if_branch_list(toks, l5, acc0) {
                            (Err(e), l) => (Err(e), l),
                            (Ok(branch), l6r) => {
                                let l6 = clamp_seq(toks, l5, l6r);
                                let lsk3 = skip_ws_nl(toks, l6);
                                let l7 = clamp_seq(toks, l6, lsk3);
                                let t7 = cur_type(toks, l7);
                                if t7 == ShTokenType::Elif {
                                    match parse_if(toks, l7) {
                                        (Err(e), l) => (Err(e), l),
                                        (Ok(elifx), l8) => {
                                            let l8c = clamp_seq(toks, l7, l8);
                                            let lsk4 = skip_ws_nl(toks, l8c);
                                            let lf = clamp_seq(toks, l7, lsk4);
                                            proof {
                                                crate::expr::lemma_pipelines_dv(branch@);
                                                assert(crate::expr::pipelines_dv(branch@)
                                                    =~= branch.deep_view());
                                            }
                                            (Ok(IfExpr {
                                                condition: cond,
                                                if_branch: branch,
                                                else_branch: Some(IfBranch::Elif(Box::new(elifx))),
                                            }), lf)
                                        },
                                    }
                                } else if t7 == ShTokenType::Else {
                                    let l8 = adv(toks, l7);
                                    let lsk4 = skip_ws_nl(toks, l8);
                                    let l9 = clamp_seq(toks, l8, lsk4);
                                    let acc1: Vec<PipeLineExpr> = Vec::new();
                                    proof {
                                        assert(acc1.deep_view() =~= Seq::<PipelineM>::empty());
                                    }
                                    match pipes_until(toks, l9, ShTokenType::Fi, acc1) {
                                        (Err(e), l) => (Err(e), l),
                                        (Ok(cmds), l10r) => {
                                            let l10 = clamp_seq(toks, l9, l10r);
                                            let lsk5 = skip_ws_nl(toks, l10);
                                            let l11 = clamp_seq(toks, l10, lsk5);
                                            proof {
                                                crate::expr::lemma_pipelines_dv(branch@);
                                                assert(crate::expr::pipelines_dv(branch@)
                                                    =~= branch.deep_view());
                                                crate::expr::lemma_pipelines_dv(cmds@);
                                                assert(crate::expr::pipelines_dv(cmds@)
                                                    =~= cmds.deep_view());
                                            }
                                            (Ok(IfExpr {
                                                condition: cond,
                                                if_branch: branch,
                                                else_branch: Some(IfBranch::Else(cmds)),
                                            }), l11)
                                        },
                                    }
                                } else {
                                    match consume(toks, l7, ShTokenType::Fi) {
                                        (Err(e), l) => (Err(e), l),
                                        (Ok(u2), l8) => {
                                            proof {
                                                crate::expr::lemma_pipelines_dv(branch@);
                                                assert(crate::expr::pipelines_dv(branch@)
                                                    =~= branch.deep_view());
                                            }
                                            (Ok(IfExpr {
                                                condition: cond,
                                                if_branch: branch,
                                                else_branch: None,
                                            }), l8)
                                        },
                                    }
                                }
                            },
                        }
                    },
                }
            },
        }
    }
}

#[verifier::rlimit(100)]
fn parse_while(toks: &Vec<Token>, loc: usize) -> (r: (Result<WhileExpr, String>, usize))
    requires
        loc <= toks.len(),
    ensures
        (res_dv(r.0), r.1 as nat) == s_parse_while(tdv(*toks), loc as nat),
        r.1 <= toks.len(),
    decreases toks.len() - loc, 150int,
{
    let t = cur_type(toks, loc);
    let is_until = t == ShTokenType::Until;
    if !is_until && t != ShTokenType::While {
        let mut m = String::from_str("Syntax error: Expected 'while' or 'until', found ");
        let found = cur_lexeme(toks, loc);
        m.append(found.as_str());
        (Err(m), loc)
    } else {
        let l1 = loc + 1;
        match parse_pipeline(toks, l1) {
            (Err(e), l) => (Err(e), l),
            (Ok(condp), lcr) => {
                let cond = AndOrNode::Pipeline(Box::new(condp));
                let l2 = clamp_seq(toks, l1, lcr);
                let lsk = skip_ws_nl(toks, l2);
                let l3 = clamp_seq(toks, l2, lsk);
                match consume(toks, l3, ShTokenType::Do) {
                    (Err(e), l) => (Err(e), l),
                    (Ok(u), l4r) => {
                        let l4 = clamp_seq(toks, l3, l4r);
                        let lsk2 = skip_ws_nl(toks, l4);
                        let l5 = clamp_seq(toks, l4, lsk2);
                        let acc0: Vec<PipeLineExpr> = Vec::new();
                        proof {
                            assert(acc0.deep_view() =~= Seq::<PipelineM>::empty());
                        }
                        match pipes_until(toks, l5, ShTokenType::Done, acc0) {
                            (Err(e), l) => (Err(e), l),
                            (Ok(body), l6) => {
                                let ghost condm = cond.deep_view();
                                let cond2 = if is_until {
                                    AndOrNode::Notif(Box::new(NotExpr { condition: cond }))
                                } else {
                                    cond
                                };
                                proof {
                                    crate::expr::lemma_pipelines_dv(body@);
                                    assert(crate::expr::pipelines_dv(body@) =~= body.deep_view());
                                    if is_until {
                                        assert(cond2.deep_view() == AndOrM::Notif(
                                            Box::new(condm),
                                        ));
                                    }
                                }
                                (Ok(WhileExpr { condition: cond2, body: body }), l6)
                            },
                        }
                    },
                }
            },
        }
    }
}

#[verifier::rlimit(100)]
fn parse_for(toks: &Vec<Token>, loc: usize) -> (r: (Result<ForExpr, String>, usize))
    requires
        loc <= toks.len(),
    ensures
        (res_dv(r.0), r.1 as nat) == s_parse_for(tdv(*toks), loc as nat),
        r.1 <= toks.len(),
    decreases toks.len() - loc, 150int,
{
    if cur_type(toks, loc) != ShTokenType::For {
        let found = cur_lexeme(toks, loc);
        (Err(consume_err_msg(ShTokenType::For, &found)), loc)
    } else {
        let l1 = loc + 1;
        let lsk = skip_ws(toks, l1);
        let l2 = clamp_seq(toks, l1, lsk);
        if cur_type(toks, l2) != ShTokenType::Name {
            let mut m = String::from_str("Expected some name after 'for' instead found ");
            let found = cur_lexeme(toks, l2);
            m.append(found.as_str());
            (Err(m), l2)
        } else {
            let name = cur_lexeme(toks, l2);
            let l3 = adv(toks, l2);
            let lsk2 = skip_ws(toks, l3);
            let l4 = clamp_seq(toks, l3, lsk2);
            if cur_type(toks, l4) == ShTokenType::In {
                let l5 = adv(toks, l4);
                let items0: Vec<Argument> = Vec::new();
                proof {
                    assert(items0.deep_view() =~= Seq::<ArgM>::empty());
                }
                match for_items(toks, l5, items0) {
                    (Err(e), l) => (Err(e), l),
                    (Ok(items), l6r) => {
                        let l6 = clamp_seq(toks, l5, l6r);
                        let (_h, l7) = try_consume(toks, l6, ShTokenType::SemiColon);
                        let lsk3 = skip_ws_nl(toks, l7);
                        let l8 = clamp_seq(toks, l7, lsk3);
                        match consume(toks, l8, ShTokenType::Do) {
                            (Err(e), l) => (Err(e), l),
                            (Ok(u), l9r) => {
                                let l9 = clamp_seq(toks, l8, l9r);
                                let lsk4 = skip_ws_nl(toks, l9);
                                let l10 = clamp_seq(toks, l9, lsk4);
                                let acc0: Vec<PipeLineExpr> = Vec::new();
                                proof {
                                    assert(acc0.deep_view() =~= Seq::<PipelineM>::empty());
                                }
                                match pipes_until(toks, l10, ShTokenType::Done, acc0) {
                                    (Err(e), l) => (Err(e), l),
                                    (Ok(cmds), l11) => {
                                        proof {
                                            crate::expr::lemma_pipelines_dv(cmds@);
                                            assert(crate::expr::pipelines_dv(cmds@)
                                                =~= cmds.deep_view());
                                            assert(args_dv(items@) =~= items.deep_view());
                                        }
                                        (Ok(ForExpr {
                                            name: name,
                                            list: items,
                                            commands: cmds,
                                        }), l11)
                                    },
                                }
                            },
                        }
                    },
                }
            } else {
                let lsk3 = skip_ws_nl(toks, l4);
                let l5 = clamp_seq(toks, l4, lsk3);
                let acc0: Vec<PipeLineExpr> = Vec::new();
                let items: Vec<Argument> = Vec::new();
                proof {
                    assert(acc0.deep_view() =~= Seq::<PipelineM>::empty());
                    assert(items.deep_view() =~= Seq::<ArgM>::empty());
                }
                match pipes_until(toks, l5, ShTokenType::Done, acc0) {
                    (Err(e), l) => (Err(e), l),
                    (Ok(cmds), l6) => {
                        proof {
                            crate::expr::lemma_pipelines_dv(cmds@);
                            assert(crate::expr::pipelines_dv(cmds@) =~= cmds.deep_view());
                            assert(args_dv(items@) =~= items.deep_view());
                        }
                        (Ok(ForExpr { name: name, list: items, commands: cmds }), l6)
                    },
                }
            }
        }
    }
}

#[verifier::rlimit(100)]
fn parse_function(toks: &Vec<Token>, loc: usize) -> (r: (Result<Option<FunctionExpr>, String>, usize))
    requires
        loc <= toks.len(),
    ensures
        (res_dv(r.0), r.1 as nat) == s_parse_function(tdv(*toks), loc as nat),
        r.1 <= toks.len(),
    decreases toks.len() - loc, 150int,
{
    let l1 = adv(toks, loc);
    if cur_type(toks, l1) != ShTokenType::LeftParen {
        (Ok(None), loc)
    } else {
        let l2 = l1 + 1;
        if cur_type(toks, l2) != ShTokenType::RightParen {
            (Ok(None), loc)
        } else {
            let l3 = l2 + 1;
            let lsk = skip_ws_nl(toks, l3);
            let l4 = clamp_seq(toks, l3, lsk);
            match consume(toks, l4, ShTokenType::LeftBrace) {
                (Err(e), l) => (Err(e), l),
                (Ok(u), l5r) => {
                    let l5 = clamp_seq(toks, l4, l5r);
                    let lsk2 = skip_ws_nl(toks, l5);
                    let l6 = clamp_seq(toks, l5, lsk2);
                    let acc0: Vec<PipeLineExpr> = Vec::new();
                    proof {
                        assert(acc0.deep_view() =~= Seq::<PipelineM>::empty());
                    }
                    match pipes_until(toks, l6, ShTokenType::RightBrace, acc0) {
                        (Err(e), l) => (Err(e), l),
                        (Ok(cmds), l7) => {
                            let fname = cur_lexeme(toks, loc);
                            let body = Rc::new(cmds);
                            let f = FunctionExpr { fname: fname, commands: body };
                            proof {
                                crate::expr::lemma_pipelines_dv((*f.commands)@);
                                assert(crate::expr::pipelines_dv((*f.commands)@)
                                    =~= f.commands.deep_view());
                            }
                            (Ok(Some(f)), l7)
                        },
                    }
                },
            }
        }
    }
}

#[verifier::rlimit(100)]
fn parse_stage(toks: &Vec<Token>, loc: usize, allow_function: bool) -> (r: (Result<
    CompoundList,
    String,
>, usize))
    requires
        loc <= toks.len(),
    ensures
        (res_dv(r.0), r.1 as nat) == s_stage(tdv(*toks), loc as nat, allow_function),
        r.1 <= toks.len(),
    decreases toks.len() - loc, 155int,
{
    let t = cur_type(toks, loc);
    if t == ShTokenType::If {
        match parse_if(toks, loc) {
            (Err(e), l) => (Err(e), l),
            (Ok(x), l) => (Ok(CompoundList::Ifexpr(x)), l),
        }
    } else if t == ShTokenType::While || t == ShTokenType::Until {
        match parse_while(toks, loc) {
            (Err(e), l) => (Err(e), l),
            (Ok(x), l) => (Ok(CompoundList::Whileexpr(x)), l),
        }
    } else if t == ShTokenType::For {
        match parse_for(toks, loc) {
            (Err(e), l) => (Err(e), l),
            (Ok(x), l) => (Ok(CompoundList::Forexpr(x)), l),
        }
    } else if allow_function {
        match parse_function(toks, loc) {
            (Err(e), l) => (Err(e), l),
            (Ok(Some(f)), l) => (Ok(CompoundList::Functionexpr(f)), l),
            (Ok(None), _lf) => match parse_command(toks, loc) {
                (Err(e), l) => (Err(e), l),
                (Ok(c), l) => (Ok(CompoundList::Commandexpr(c)), l),
            },
        }
    } else {
        match parse_command(toks, loc) {
            (Err(e), l) => (Err(e), l),
            (Ok(c), l) => (Ok(CompoundList::Commandexpr(c)), l),
        }
    }
}

fn pipe_stages(toks: &Vec<Token>, loc: usize, acc: Vec<CompoundList>) -> (r: (Result<
    Vec<CompoundList>,
    String,
>, usize))
    requires
        loc <= toks.len(),
    ensures
        (res_dv(r.0), r.1 as nat) == s_pipe_stages(tdv(*toks), loc as nat, acc.deep_view()),
        r.1 <= toks.len(),
    decreases toks.len() - loc, 170int,
{
    let ghost acc0 = acc.deep_view();
    if cur_type(toks, loc) != ShTokenType::Pipe {
        (Ok(acc), loc)
    } else {
        let l1 = loc + 1;
        match parse_stage(toks, l1, false) {
            (Err(e), l) => (Err(e), l),
            (Ok(st), lr) => {
                let ghost sm = st.deep_view();
                let mut acc2 = acc;
                acc2.push(st);
                proof {
                    assert(acc2.deep_view() =~= acc0.push(sm));
                }
                if l1 >= toks.len() {
                    (Ok(acc2), lr)
                } else {
                    let l2 = clamp_strict(toks, l1, lr);
                    pipe_stages(toks, l2, acc2)
                }
            },
        }
    }
}

#[verifier::rlimit(100)]
fn parse_pipeline(toks: &Vec<Token>, loc: usize) -> (r: (Result<PipeLineExpr, String>, usize))
    requires
        loc <= toks.len(),
    ensures
        (res_dv(r.0), r.1 as nat) == s_parse_pipeline(tdv(*toks), loc as nat),
        r.1 <= toks.len(),
    decreases toks.len() - loc, 160int,
{
    let lsk = skip_ws(toks, loc);
    let l0 = clamp_seq(toks, loc, lsk);
    match parse_stage(toks, l0, true) {
        (Err(e), l) => (Err(e), l),
        (Ok(first), l1r) => {
            let ghost fm = first.deep_view();
            let l1 = clamp_seq(toks, l0, l1r);
            let mut stages: Vec<CompoundList> = Vec::new();
            stages.push(first);
            proof {
                assert(stages.deep_view() =~= Seq::<CompoundM>::empty().push(fm));
            }
            let staged = if l0 >= toks.len() {
                (Ok(stages), l1)
            } else {
                let ls = clamp_strict(toks, l0, l1);
                pipe_stages(toks, ls, stages)
            };
            match staged {
                (Err(e), l) => (Err(e), l),
                (Ok(allstages), l2r) => {
                    let l2 = clamp_seq(toks, l0, l2r);
                    let lsk2 = skip_ws(toks, l2);
                    let l3 = clamp_seq(toks, l2, lsk2);
                    let t3 = cur_type(toks, l3);
                    let redirected = if t3 != ShTokenType::EndOfFile && t3 != ShTokenType::NewLine {
                        parse_redirect(toks, l3)
                    } else {
                        (Ok(None), l3)
                    };
                    match redirected {
                        (Err(e), l) => (Err(e), l),
                        (Ok(rd), l4r) => {
                            let l4 = clamp_seq(toks, l3, l4r);
                            let (bg, l5) = parse_control(toks, l4);
                            proof {
                                crate::expr::lemma_compounds_dv(allstages@);
                                assert(crate::expr::compounds_dv(allstages@)
                                    =~= allstages.deep_view());
                            }
                            (Ok(PipeLineExpr {
                                pipeline: allstages,
                                capture_out: false,
                                file_redirect: rd,
                                background: bg,
                            }), l5)
                        },
                    }
                },
            }
        },
    }
}

#[verifier::rlimit(100)]
fn andor_more(toks: &Vec<Token>, loc: usize, left: AndOrNode) -> (r: (Result<
    AndOrNode,
    String,
>, usize))
    requires
        loc <= toks.len(),
    ensures
        (res_dv(r.0), r.1 as nat) == s_andor_more(tdv(*toks), loc as nat, left.deep_view()),
        r.1 <= toks.len(),
    decreases toks.len() - loc, 180int,
{
    let t = cur_type(toks, loc);
    if t == ShTokenType::AndIf {
        let l1 = loc + 1;
        match parse_pipeline(toks, l1) {
            (Err(e), l) => (Err(e), l),
            (Ok(p), lr) => {
                let ghost leftm = left.deep_view();
                let ghost pm = p.deep_view();
                let combined = AndOrNode::Andif(Box::new(AndIf {
                    left: left,
                    right: AndOrNode::Pipeline(Box::new(p)),
                }));
                proof {
                    assert(andor_dv(AndOrNode::Pipeline(Box::new(p))) == AndOrM::Pipeline(
                        Box::new(pm),
                    ));
                    assert(combined.deep_view() == AndOrM::Andif(
                        Box::new(leftm),
                        Box::new(AndOrM::Pipeline(Box::new(pm))),
                    ));
                }
                let lc = clamp_seq(toks, l1, lr);
                let l2 = clamp_strict(toks, loc, lc);
                andor_more(toks, l2, combined)
            },
        }
    } else if t == ShTokenType::OrIf {
        let l1 = loc + 1;
        let lsk = skip_ws(toks, l1);
        let l1b = clamp_seq(toks, l1, lsk);
        match parse_pipeline(toks, l1b) {
            (Err(e), l) => (Err(e), l),
            (Ok(p), lr) => {
                let ghost leftm = left.deep_view();
                let ghost pm = p.deep_view();
                let combined = AndOrNode::Orif(Box::new(OrIf {
                    left: left,
                    right: AndOrNode::Pipeline(Box::new(p)),
                }));
                proof {
                    assert(andor_dv(AndOrNode::Pipeline(Box::new(p))) == AndOrM::Pipeline(
                        Box::new(pm),
                    ));
                    assert(combined.deep_view() == AndOrM::Orif(
                        Box::new(leftm),
                        Box::new(AndOrM::Pipeline(Box::new(pm))),
                    ));
                }
                let lc = clamp_seq(toks, l1b, lr);
                let l2 = clamp_strict(toks, loc, lc);
                andor_more(toks, l2, combined)
            },
        }
    } else {
        (Ok(left), loc)
    }
}

#[verifier::rlimit(100)]
fn parse_andor(toks: &Vec<Token>, loc: usize) -> (r: (Result<AndOrNode, String>, usize))
    requires
        loc <= toks.len(),
    ensures
        (res_dv(r.0), r.1 as nat) == s_parse_andor(tdv(*toks), loc as nat),
        r.1 <= toks.len(),
    decreases toks.len() - loc, 190int,
{
    let lsk = skip_ws_nl(toks, loc);
    let l0 = clamp_seq(toks, loc, lsk);
    let (banged, l1) = try_consume(toks, l0, ShTokenType::Bang);
    match parse_pipeline(toks, l1) {
        (Err(e), l) => (Err(e), l),
        (Ok(p), lr) => {
            let l2 = clamp_seq(toks, l1, lr);
            match andor_more(toks, l2, AndOrNode::Pipeline(Box::new(p))) {
                (Err(e), l) => (Err(e), l),
                (Ok(node), l3r) => {
                    let l3 = clamp_seq(toks, l2, l3r);
                    let lsk2 = skip_ws_nl(toks, l3);
                    let l4 = clamp_seq(toks, l3, lsk2);
                    let node2 = if banged {
                        AndOrNode::Notif(Box::new(NotExpr { condition: node }))
                    } else {
                        node
                    };
                    (Ok(node2), l4)
                },
            }
        },
    }
}

#[verifier::rlimit(100)]
fn program(toks: &Vec<Token>, loc: usize) -> (r: (Vec<AndOrNode>, String))
    requires
        loc <= toks.len(),
    ensures
        (r.0.deep_view(), r.1@) == s_program(tdv(*toks), loc as nat),
    decreases toks.len() - loc, 200int,
{
    if cur_type(toks, loc) == ShTokenType::EndOfFile {
        let v: Vec<AndOrNode> = Vec::new();
        let s = String::new();
        proof {
            assert(v.deep_view() =~= Seq::<AndOrM>::empty());
            assert(s@ =~= Seq::<char>::empty());
        }
        (v, s)
    } else {
        match parse_andor(toks, loc) {
            (Err(e), lr) => {
                let l1 = clamp_strict(toks, loc, lr);
                let (_h, l2) = try_consume(toks, l1, ShTokenType::NewLine);
                let (stmts, resterr) = program(toks, l2);
                let mut m = e;
                m.append(resterr.as_str());
                (stmts, m)
            },
            (Ok(node), lr) => {
                let ghost nm = node.deep_view();
                let l1 = clamp_strict(toks, loc, lr);
                let (_h, l2) = try_consume(toks, l1, ShTokenType::NewLine);
                let (rest, errs) = program(toks, l2);
                let ghost rest0 = rest.deep_view();
                let mut stmts = rest;
                stmts.insert(0, node);
                proof {
                    assert(stmts.deep_view() =~= Seq::<AndOrM>::empty().push(nm) + rest0);
                }
                (stmts, errs)
            },
        }
    }
}

// ---------------------------------------------------------------------------
// The public parser.
// ---------------------------------------------------------------------------

/// The statements and the accumulated error text of a whole source text:
/// what [`Parser::parse`] appends and stores.
pub open spec fn s_parse_source(line: Seq<char>) -> (Seq<AndOrM>, Seq<char>) {
    match s_tokens(line) {
        Ok(t) => s_program(t, 0),
        Err(e) => (Seq::empty(), e),
    }
}

/// The recursive-descent parser: holds the token stream, a cursor into it,
/// the statements parsed so far and the accumulated error text.
pub struct Parser {
    pub token: Vec<Token>,
    pub exprs: Vec<AndOrNode>,
    pub loc: usize,
    pub err: String,
}

impl Parser {
    /// The cursor always sits inside (or one past) the token stream.
    pub open spec fn wf(&self) -> bool {
        self.loc <= self.token.len()
    }

    /// The model of the token stream held by the parser.
    pub open spec fn tokens_view(&self) -> Seq<TokenM> {
        self.token.deep_view()
    }

    /// The cursor position.
    pub open spec fn cursor(&self) -> nat {
        self.loc as nat
    }

    /// A fresh parser with no tokens, no statements and no error.
    pub fn new() -> (p: Parser)
        ensures
            p.wf(),
            p.exprs.deep_view() == Seq::<AndOrM>::empty(),
            p.err@ == Seq::<char>::empty(),
            p.tokens_view() == Seq::<TokenM>::empty(),
    {
        let p = Parser { token: Vec::new(), exprs: Vec::new(), loc: 0, err: String::new() };
        proof {
            assert(p.exprs.deep_view() =~= Seq::<AndOrM>::empty());
            assert(p.token.deep_view() =~= Seq::<TokenM>::empty());
            assert(p.err@ =~= Seq::<char>::empty());
        }
        p
    }

    /// Lexes and parses a whole source text: the statements parse out of the
    /// text are appended to `exprs`, and `err` holds the lexing error or the
    /// collected parse errors (empty when the text parses cleanly).
    pub fn parse(&mut self, line: &str)
        ensures
            final(self).wf(),
            final(self).tokens_view() == (match s_tokens(line@) {
                Ok(t) => t,
                Err(e) => Seq::<TokenM>::empty(),
            }),
            final(self).exprs.deep_view() == old(self).exprs.deep_view() + s_parse_source(
                line@,
            ).0,
            final(self).err@ == s_parse_source(line@).1,
    {
        let toks = match tokens(line) {
            Ok(t) => t,
            Err(e) => {
                self.err = e;
                self.token = Vec::new();
                self.loc = 0;
                proof {
                    assert(self.token.deep_view() =~= Seq::<TokenM>::empty());
                    assert(s_program(Seq::<TokenM>::empty(), 0).0 =~= Seq::<AndOrM>::empty());
                    assert(self.exprs.deep_view() =~= old(self).exprs.deep_view()
                        + Seq::<AndOrM>::empty());
                }
                return ;
            },
        };
        self.token = toks;
        self.loc = 0;
        let (mut stmts, errs) = program(&self.token, 0);
        self.err = errs;
        let ghost before = self.exprs.deep_view();
        let ghost added = stmts.deep_view();
        self.exprs.append(&mut stmts);
        self.loc = self.token.len();
        proof {
            assert(self.exprs.deep_view() =~= before + added);
        }
    }

    /// Parses one argument at the parser's cursor, advancing it; `None` when
    /// the current token cannot start an argument.
    pub fn parse_argument(&mut self) -> (r: Result<Option<Argument>, String>)
        requires
            old(self).wf(),
        ensures
            final(self).wf(),
            (res_dv(r), final(self).cursor()) == s_parse_argument(
                old(self).tokens_view(),
                old(self).cursor(),
            ),
            final(self).tokens_view() == old(self).tokens_view(),
            final(self).exprs == old(self).exprs,
    {
        let (r, l) = parse_argument_at(&self.token, self.loc);
        self.loc = l;
        r
    }
}

/// The assignment lookahead backtracks completely: when no assignment is
/// recognised the cursor stands exactly where it started, so the same
/// tokens are re-read as an ordinary command.
pub proof fn lemma_assignment_backtracks(toks: Seq<TokenM>, loc: nat)
    ensures
        (s_parse_assignment(toks, loc).0 matches Ok(a) && a is None) ==> s_parse_assignment(
            toks,
            loc,
        ).1 == loc,
{
}

} // verus!
