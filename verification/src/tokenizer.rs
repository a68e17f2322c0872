//! Lexer: turns shell source text into a flat token sequence.
//!
//! The executable lexer [`tokens`] is proved to return exactly the token
//! sequence described by the specification lexer [`s_tokens`]: a single
//! forward pass with one-character lookahead, quoted spans scanned to their
//! closing delimiter, reserved words recognised by exact match, and adjacent
//! `Name` fragments merged into one token.

use vstd::prelude::*;

verus! {

/// Kind of a shell token.
#[derive(Clone, Copy, Debug, PartialEq, Eq, Structural)]
pub enum ShTokenType {
    NewLine,
    WhiteSpace,
    EndOfFile,
    BackSlash,
    DollarSign,
    LeftParen,
    RightParen,
    LeftBracket,
    RightBracket,
    DoubleLeftBracket,
    DoubleRightBracket,
    LeftBrace,
    RightBrace,
    Bang,
    AtSign,
    Star,
    Pound,
    QuestionMark,
    Tilde,
    Pipe,
    Control,
    RedirectOut,
    RedirectIn,
    AppendOut,
    AndIf,
    OrIf,
    Equal,
    SemiColon,
    Case,
    Do,
    Done,
    Elif,
    Else,
    Esac,
    Fi,
    For,
    If,
    In,
    Then,
    Until,
    While,
    Function,
    NameSpace,
    Select,
    Time,
    Name,
    DoubleQuoteStr,
    BackTickStr,
}

/// A token: the text it covers and its kind.
#[derive(Clone, Debug, PartialEq)]
pub struct Token {
    pub lexeme: String,
    pub token_type: ShTokenType,
}

/// Mathematical model of a token: the lexeme as a character sequence.
pub struct TokenM {
    pub lexeme: Seq<char>,
    pub token_type: ShTokenType,
}

impl DeepView for Token {
    type V = TokenM;

    open spec fn deep_view(&self) -> TokenM {
        TokenM { lexeme: self.lexeme@, token_type: self.token_type }
    }
}

/// Maps a `Result` to the deep views of its two sides.
pub open spec fn res_dv<T: DeepView, E: DeepView>(r: Result<T, E>) -> Result<T::V, E::V> {
    match r {
        Ok(t) => Ok(t.deep_view()),
        Err(e) => Err(e.deep_view()),
    }
}

/// The characters that end a bareword and are (or begin) tokens of their own.
pub open spec fn spec_is_delemiter(c: char) -> bool {
    ||| c == ' '
    ||| c == '\t'
    ||| c == '$'
    ||| c == '\\'
    ||| c == '\''
    ||| c == '('
    ||| c == ')'
    ||| c == '{'
    ||| c == '}'
    ||| c == '['
    ||| c == ']'
    ||| c == '!'
    ||| c == '@'
    ||| c == '*'
    ||| c == '#'
    ||| c == '?'
    ||| c == '~'
    ||| c == '|'
    ||| c == '>'
    ||| c == '<'
    ||| c == '`'
    ||| c == '"'
    ||| c == '&'
    ||| c == '='
    ||| c == '\n'
    ||| c == ';'
}

/// True exactly on the delimiter characters of the language.
pub fn is_delemiter(c: char) -> (r: bool)
    ensures
        r == spec_is_delemiter(c),
{
    match c {
        ' ' | '\t' | '$' | '\\' | '\'' | '(' | ')' | '{' | '}' | '[' | ']' | '!' | '@' | '*'
            | '#' | '?' | '~' | '|' | '>' | '<' | '`' | '"' | '&' | '=' | '\n' | ';' => true,
        _ => false,
    }
}

/// A bareword ends at a delimiter or at any of the remaining ASCII whitespace
/// characters.
pub open spec fn spec_is_break(c: char) -> bool {
    spec_is_delemiter(c) || c == '\r' || c == '\u{b}' || c == '\u{c}'
}

fn is_break(c: char) -> (r: bool)
    ensures
        r == spec_is_break(c),
{
    match c {
        '\r' | '\u{b}' | '\u{c}' => true,
        _ => is_delemiter(c),
    }
}

/// The reserved-word table: an exact, case-sensitive match maps a bareword to
/// its keyword kind; everything else is a plain `Name`.
pub open spec fn s_reserved(w: Seq<char>) -> ShTokenType {
    if w == "case"@ {
        ShTokenType::Case
    } else if w == "do"@ {
        ShTokenType::Do
    } else if w == "done"@ {
        ShTokenType::Done
    } else if w == "elif"@ {
        ShTokenType::Elif
    } else if w == "else"@ {
        ShTokenType::Else
    } else if w == "esac"@ {
        ShTokenType::Esac
    } else if w == "fi"@ {
        ShTokenType::Fi
    } else if w == "for"@ {
        ShTokenType::For
    } else if w == "if"@ {
        ShTokenType::If
    } else if w == "in"@ {
        ShTokenType::In
    } else if w == "then"@ {
        ShTokenType::Then
    } else if w == "until"@ {
        ShTokenType::Until
    } else if w == "while"@ {
        ShTokenType::While
    } else if w == "function"@ {
        ShTokenType::Function
    } else if w == "namespace"@ {
        ShTokenType::NameSpace
    } else if w == "select"@ {
        ShTokenType::Select
    } else if w == "time"@ {
        ShTokenType::Time
    } else {
        ShTokenType::Name
    }
}

/// Character-by-character string equality.
pub fn str_eq(a: &str, b: &str) -> (r: bool)
    ensures
        r == (a@ == b@),
{
    let na = a.unicode_len();
    let nb = b.unicode_len();
    if na != nb {
        return false;
    }
    let mut i: usize = 0;
    while i < na
        invariant
            na == a@.len(),
            nb == b@.len(),
            na == nb,
            i <= na,
            forall|k: int| 0 <= k < i ==> a@[k] == b@[k],
        decreases na - i,
    {
        if a.get_char(i) != b.get_char(i) {
            return false;
        }
        i += 1;
    }
    proof {
        assert(a@ =~= b@);
    }
    true
}

fn reserved_lookup(w: &str) -> (r: ShTokenType)
    ensures
        r == s_reserved(w@),
{
    if str_eq(w, "case") {
        ShTokenType::Case
    } else if str_eq(w, "do") {
        ShTokenType::Do
    } else if str_eq(w, "done") {
        ShTokenType::Done
    } else if str_eq(w, "elif") {
        ShTokenType::Elif
    } else if str_eq(w, "else") {
        ShTokenType::Else
    } else if str_eq(w, "esac") {
        ShTokenType::Esac
    } else if str_eq(w, "fi") {
        ShTokenType::Fi
    } else if str_eq(w, "for") {
        ShTokenType::For
    } else if str_eq(w, "if") {
        ShTokenType::If
    } else if str_eq(w, "in") {
        ShTokenType::In
    } else if str_eq(w, "then") {
        ShTokenType::Then
    } else if str_eq(w, "until") {
        ShTokenType::Until
    } else if str_eq(w, "while") {
        ShTokenType::While
    } else if str_eq(w, "function") {
        ShTokenType::Function
    } else if str_eq(w, "namespace") {
        ShTokenType::NameSpace
    } else if str_eq(w, "select") {
        ShTokenType::Select
    } else if str_eq(w, "time") {
        ShTokenType::Time
    } else {
        ShTokenType::Name
    }
}

/// Index of the first occurrence of `c` at or after `i`, if any.
pub open spec fn s_find(s: Seq<char>, i: nat, c: char) -> Option<nat>
    decreases s.len() - i,
{
    if i >= s.len() {
        None
    } else if s[i as int] == c {
        Some(i)
    } else {
        s_find(s, i + 1, c)
    }
}

/// Index of the first break character at or after `i` (the length if none).
pub open spec fn s_word_end(s: Seq<char>, i: nat) -> nat
    decreases s.len() - i,
{
    if i >= s.len() {
        s.len()
    } else if spec_is_break(s[i as int]) {
        i
    } else {
        s_word_end(s, i + 1)
    }
}

/// Makes a one-token model out of a single character of input.
pub open spec fn s_single(s: Seq<char>, i: nat, t: ShTokenType) -> Result<(TokenM, nat), Seq<char>> {
    Ok((TokenM { lexeme: s.subrange(i as int, i as int + 1), token_type: t }, (i + 1) as nat))
}

/// A two-character operator when the next character repeats `c`, else the
/// one-character operator.
pub open spec fn s_pair(s: Seq<char>, i: nat, c: char, single: ShTokenType, double: ShTokenType)
    -> Result<(TokenM, nat), Seq<char>> {
    if i + 1 < s.len() && s[i as int + 1] == c {
        Ok((TokenM { lexeme: s.subrange(i as int, i as int + 2), token_type: double }, (i + 2) as nat))
    } else {
        s_single(s, i, single)
    }
}

/// A span scanned to the matching closer `c`: the token covers the characters
/// strictly between the opener at `i` and the closer; an input with no closer
/// is a lexing error.
pub open spec fn s_span(s: Seq<char>, i: nat, c: char, t: ShTokenType, err: Seq<char>)
    -> Result<(TokenM, nat), Seq<char>> {
    match s_find(s, i + 1, c) {
        None => Err(err),
        Some(j) => Ok((TokenM { lexeme: s.subrange(i as int + 1, j as int), token_type: t },
                       (j + 1) as nat)),
    }
}

/// Scans exactly one token starting at position `i`.
pub open spec fn s_step(s: Seq<char>, i: nat) -> Result<(TokenM, nat), Seq<char>>
    recommends
        i < s.len(),
{
    let c = s[i as int];
    if c == '\n' {
        s_single(s, i, ShTokenType::NewLine)
    } else if c == ' ' || c == '\t' {
        s_single(s, i, ShTokenType::WhiteSpace)
    } else if c == '\\' {
        s_single(s, i, ShTokenType::BackSlash)
    } else if c == '$' {
        s_single(s, i, ShTokenType::DollarSign)
    } else if c == '`' {
        s_span(s, i, '`', ShTokenType::BackTickStr, "Couldn't find second '`'."@)
    } else if c == '"' {
        s_span(s, i, '"', ShTokenType::DoubleQuoteStr, "Couldn't find second '\"'."@)
    } else if c == '\'' {
        s_span(s, i, '\'', ShTokenType::Name, "Couldn't find second '''."@)
    } else if c == '(' {
        s_single(s, i, ShTokenType::LeftParen)
    } else if c == ')' {
        s_single(s, i, ShTokenType::RightParen)
    } else if c == '{' {
        s_single(s, i, ShTokenType::LeftBrace)
    } else if c == '}' {
        s_single(s, i, ShTokenType::RightBrace)
    } else if c == '!' {
        s_single(s, i, ShTokenType::Bang)
    } else if c == '@' {
        s_single(s, i, ShTokenType::AtSign)
    } else if c == '*' {
        s_single(s, i, ShTokenType::Star)
    } else if c == '#' {
        s_single(s, i, ShTokenType::Pound)
    } else if c == '?' {
        s_single(s, i, ShTokenType::QuestionMark)
    } else if c == '~' {
        s_single(s, i, ShTokenType::Tilde)
    } else if c == '=' {
        s_single(s, i, ShTokenType::Equal)
    } else if c == ';' {
        s_single(s, i, ShTokenType::SemiColon)
    } else if c == '[' {
        s_pair(s, i, '[', ShTokenType::LeftBracket, ShTokenType::DoubleLeftBracket)
    } else if c == ']' {
        s_pair(s, i, ']', ShTokenType::RightBracket, ShTokenType::DoubleRightBracket)
    } else if c == '&' {
        s_pair(s, i, '&', ShTokenType::Control, ShTokenType::AndIf)
    } else if c == '|' {
        s_pair(s, i, '|', ShTokenType::Pipe, ShTokenType::OrIf)
    } else if c == '>' {
        s_pair(s, i, '>', ShTokenType::RedirectOut, ShTokenType::AppendOut)
    } else if c == '<' {
        s_single(s, i, ShTokenType::RedirectIn)
    } else {
        let j = s_word_end(s, i + 1);
        Ok((TokenM {
            lexeme: s.subrange(i as int, j as int),
            token_type: s_reserved(s.subrange(i as int, j as int)),
        }, j))
    }
}

/// Prepends a token, merging it into the head of `rest` when both are plain
/// `Name` fragments that touched with no separator.
pub open spec fn s_cons_merge(t: TokenM, rest: Seq<TokenM>) -> Seq<TokenM> {
    if t.token_type == ShTokenType::Name && rest.len() > 0
        && rest[0].token_type == ShTokenType::Name {
        seq![TokenM { lexeme: t.lexeme + rest[0].lexeme, token_type: ShTokenType::Name }]
            + rest.skip(1)
    } else {
        seq![t] + rest
    }
}

/// The token sequence of the input from position `i` on.
pub open spec fn s_tokens_from(s: Seq<char>, i: nat) -> Result<Seq<TokenM>, Seq<char>>
    decreases s.len() - i,
{
    if i >= s.len() {
        Ok(Seq::empty())
    } else {
        match s_step(s, i) {
            Err(e) => Err(e),
            Ok((t, j)) => {
                let jj: nat = if j > s.len() {
                    s.len()
                } else if j <= i {
                    i + 1
                } else {
                    j
                };
                match s_tokens_from(s, jj) {
                    Err(e) => Err(e),
                    Ok(rest) => Ok(s_cons_merge(t, rest)),
                }
            },
        }
    }
}

/// The token sequence of the whole input, or the lexing error.
pub open spec fn s_tokens(s: Seq<char>) -> Result<Seq<TokenM>, Seq<char>> {
    s_tokens_from(s, 0)
}

fn find_char(s: &str, start: usize, c: char) -> (r: Option<usize>)
    requires
        start <= s@.len(),
    ensures
        match r {
            Some(j) => s_find(s@, start as nat, c) == Some(j as nat) && start <= j < s@.len(),
            None => s_find(s@, start as nat, c) is None,
        },
{
    let n = s.unicode_len();
    let mut j = start;
    while j < n
        invariant
            start <= j <= n,
            n == s@.len(),
            s_find(s@, start as nat, c) == s_find(s@, j as nat, c),
        decreases n - j,
    {
        if s.get_char(j) == c {
            return Some(j);
        }
        j += 1;
    }
    None
}

fn word_end(s: &str, start: usize) -> (r: usize)
    requires
        start <= s@.len(),
    ensures
        r == s_word_end(s@, start as nat),
        start <= r <= s@.len(),
{
    let n = s.unicode_len();
    let mut j = start;
    while j < n
        invariant
            start <= j <= n,
            n == s@.len(),
            s_word_end(s@, start as nat) == s_word_end(s@, j as nat),
        decreases n - j,
    {
        if is_break(s.get_char(j)) {
            return j;
        }
        j += 1;
    }
    n
}

fn single(s: &str, i: usize, t: ShTokenType) -> (r: (Token, usize))
    requires
        i < s@.len(),
        s@.len() <= usize::MAX,
    ensures
        Ok::<_, Seq<char>>((r.0.deep_view(), r.1 as nat)) == s_single(s@, i as nat, t),
{
    let lex = s.substring_char(i, i + 1).to_owned();
    (Token { lexeme: lex, token_type: t }, i + 1)
}

fn pair(s: &str, i: usize, c: char, st: ShTokenType, dt: ShTokenType) -> (r: (Token, usize))
    requires
        i < s@.len(),
        s@.len() <= usize::MAX,
    ensures
        Ok::<_, Seq<char>>((r.0.deep_view(), r.1 as nat)) == s_pair(s@, i as nat, c, st, dt),
{
    if i + 1 < s.unicode_len() && s.get_char(i + 1) == c {
        let lex = s.substring_char(i, i + 2).to_owned();
        (Token { lexeme: lex, token_type: dt }, i + 2)
    } else {
        single(s, i, st)
    }
}

fn span(s: &str, i: usize, c: char, t: ShTokenType, err: &str) -> (r: Result<(Token, usize), String>)
    requires
        i < s@.len(),
        s@.len() <= usize::MAX,
    ensures
        (match r {
            Ok(p) => Ok((p.0.deep_view(), p.1 as nat)),
            Err(e) => Err(e@),
        }) == s_span(s@, i as nat, c, t, err@),
{
    match find_char(s, i + 1, c) {
        None => Err(err.to_owned()),
        Some(j) => {
            let lex = s.substring_char(i + 1, j).to_owned();
            Ok((Token { lexeme: lex, token_type: t }, j + 1))
        },
    }
}

fn step(s: &str, i: usize) -> (r: Result<(Token, usize), String>)
    requires
        i < s@.len(),
        s@.len() <= usize::MAX,
    ensures
        (match r {
            Ok(p) => Ok((p.0.deep_view(), p.1 as nat)),
            Err(e) => Err(e@),
        }) == s_step(s@, i as nat),
{
    let c = s.get_char(i);
    if c == '\n' {
        Ok(single(s, i, ShTokenType::NewLine))
    } else if c == ' ' || c == '\t' {
        Ok(single(s, i, ShTokenType::WhiteSpace))
    } else if c == '\\' {
        Ok(single(s, i, ShTokenType::BackSlash))
    } else if c == '$' {
        Ok(single(s, i, ShTokenType::DollarSign))
    } else if c == '`' {
        span(s, i, '`', ShTokenType::BackTickStr, "Couldn't find second '`'.")
    } else if c == '"' {
        span(s, i, '"', ShTokenType::DoubleQuoteStr, "Couldn't find second '\"'.")
    } else if c == '\'' {
        span(s, i, '\'', ShTokenType::Name, "Couldn't find second '''.")
    } else if c == '(' {
        Ok(single(s, i, ShTokenType::LeftParen))
    } else if c == ')' {
        Ok(single(s, i, ShTokenType::RightParen))
    } else if c == '{' {
        Ok(single(s, i, ShTokenType::LeftBrace))
    } else if c == '}' {
        Ok(single(s, i, ShTokenType::RightBrace))
    } else if c == '!' {
        Ok(single(s, i, ShTokenType::Bang))
    } else if c == '@' {
        Ok(single(s, i, ShTokenType::AtSign))
    } else if c == '*' {
        Ok(single(s, i, ShTokenType::Star))
    } else if c == '#' {
        Ok(single(s, i, ShTokenType::Pound))
    } else if c == '?' {
        Ok(single(s, i, ShTokenType::QuestionMark))
    } else if c == '~' {
        Ok(single(s, i, ShTokenType::Tilde))
    } else if c == '=' {
        Ok(single(s, i, ShTokenType::Equal))
    } else if c == ';' {
        Ok(single(s, i, ShTokenType::SemiColon))
    } else if c == '[' {
        Ok(pair(s, i, '[', ShTokenType::LeftBracket, ShTokenType::DoubleLeftBracket))
    } else if c == ']' {
        Ok(pair(s, i, ']', ShTokenType::RightBracket, ShTokenType::DoubleRightBracket))
    } else if c == '&' {
        Ok(pair(s, i, '&', ShTokenType::Control, ShTokenType::AndIf))
    } else if c == '|' {
        Ok(pair(s, i, '|', ShTokenType::Pipe, ShTokenType::OrIf))
    } else if c == '>' {
        Ok(pair(s, i, '>', ShTokenType::RedirectOut, ShTokenType::AppendOut))
    } else if c == '<' {
        Ok(single(s, i, ShTokenType::RedirectIn))
    } else {
        let j = word_end(s, i + 1);
        let w = s.substring_char(i, j);
        let t = reserved_lookup(w);
        Ok((Token { lexeme: w.to_owned(), token_type: t }, j))
    }
}

fn tokens_from(s: &str, i: usize) -> (r: Result<Vec<Token>, String>)
    requires
        i <= s@.len(),
        s@.len() <= usize::MAX,
    ensures
        res_dv(r) == s_tokens_from(s@, i as nat),
    decreases s@.len() - i,
{
    let n = s.unicode_len();
    if i >= n {
        let v: Vec<Token> = Vec::new();
        proof {
            assert(v.deep_view() =~= Seq::<TokenM>::empty());
        }
        return Ok(v);
    }
    let (t, j) = match step(s, i) {
        Ok(p) => p,
        Err(e) => {
            return Err(e);
        },
    };
    let jj: usize = if j > n {
        n
    } else if j <= i {
        i + 1
    } else {
        j
    };
    match tokens_from(s, jj) {
        Err(e) => Err(e),
        Ok(mut rest) => {
            let ghost tm = t.deep_view();
            let ghost rest0 = rest.deep_view();
            if rest.len() > 0 && t.token_type == ShTokenType::Name
                && rest[0].token_type == ShTokenType::Name {
                let mut lex = t.lexeme;
                lex.append(rest[0].lexeme.as_str());
                rest.set(0, Token { lexeme: lex, token_type: ShTokenType::Name });
                proof {
                    assert(rest.deep_view() =~= s_cons_merge(tm, rest0));
                }
                Ok(rest)
            } else {
                rest.insert(0, t);
                proof {
                    assert(rest.deep_view() =~= s_cons_merge(tm, rest0));
                }
                Ok(rest)
            }
        },
    }
}

/// Lexes the whole input into tokens, or reports the first unterminated
/// quoted or backtick span as an error.
pub fn tokens(st: &str) -> (r: Result<Vec<Token>, String>)
    ensures
        res_dv(r) == s_tokens(st@),
{
    let n = st.unicode_len();
    if n == 0 {
        let v: Vec<Token> = Vec::new();
        proof {
            assert(v.deep_view() =~= Seq::<TokenM>::empty());
        }
        return Ok(v);
    }
    tokens_from(st, 0)
}

/// Lexing is a pure function of the input text: two runs over the same text
/// give identical token sequences.
pub proof fn lemma_tokens_deterministic(
    s: Seq<char>,
    r1: Result<Seq<TokenM>, Seq<char>>,
    r2: Result<Seq<TokenM>, Seq<char>>,
)
    requires
        r1 == s_tokens(s),
        r2 == s_tokens(s),
    ensures
        r1 == r2,
{
}

} // verus!
