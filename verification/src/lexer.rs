use vstd::prelude::*;

use crate::token::{Token, TokenType, TokenTypeV, TokenV};
use vstd::std_specs::iter::IteratorSpec;

verus! {

/// Why the source could not be split into tokens; the two numbers are the line and the
/// column where the lexer was.
#[derive(Debug)]
pub enum LexError {
    InvalidCharacter(char, usize, usize),
    InvalidNumber(String, usize, usize),
    InvalidTypeSuffix(String, usize, usize),
}

/// The model of a `LexError`.
pub enum LexErrorV {
    InvalidCharacter(char, nat, nat),
    InvalidNumber(Seq<char>, nat, nat),
    InvalidTypeSuffix(Seq<char>, nat, nat),
}

impl View for LexError {
    type V = LexErrorV;

    open spec fn view(&self) -> LexErrorV {
        match self {
            LexError::InvalidCharacter(c, l, k) => LexErrorV::InvalidCharacter(*c, *l as nat, *k as nat),
            LexError::InvalidNumber(s, l, k) => LexErrorV::InvalidNumber(s@, *l as nat, *k as nat),
            LexError::InvalidTypeSuffix(s, l, k) => LexErrorV::InvalidTypeSuffix(s@, *l as nat, *k as nat),
        }
    }
}

pub open spec fn is_digit(c: char) -> bool {
    '0' <= c <= '9'
}

pub open spec fn is_alpha(c: char) -> bool {
    ('a' <= c <= 'z') || ('A' <= c <= 'Z')
}

pub open spec fn is_ident_char(c: char) -> bool {
    is_digit(c) || is_alpha(c) || c == '_'
}

pub open spec fn is_hex(c: char) -> bool {
    is_digit(c) || ('a' <= c <= 'f') || ('A' <= c <= 'F')
}

pub open spec fn hex_value(c: char) -> nat {
    if is_digit(c) {
        (c as nat - '0' as nat) as nat
    } else if 'a' <= c <= 'f' {
        (c as nat - 'a' as nat + 10) as nat
    } else {
        (c as nat - 'A' as nat + 10) as nat
    }
}

/// The character at `p`, or `'\0'` past the end.
pub open spec fn peek_at(cs: Seq<char>, p: int) -> char {
    if 0 <= p < cs.len() {
        cs[p]
    } else {
        '\0'
    }
}

/// The character after the one at `p`, or `'\0'` past the end.
pub open spec fn peek_next_at(cs: Seq<char>, p: int) -> char {
    if 0 <= p + 1 < cs.len() {
        cs[p + 1]
    } else {
        '\0'
    }
}

/// The token the lexer makes at a position.
pub open spec fn mk(ty: TokenTypeV, line: int, col: int, pos: int) -> TokenV {
    TokenV { token_type: ty, line: line as nat, column: col as nat, position: pos as nat }
}

/// Skipping blanks, newlines and `//` comments from position `p`; `in_comment` is set
/// inside a comment, which ends before the next newline.
pub open spec fn spec_skip_ws(cs: Seq<char>, p: int, line: int, col: int, in_comment: bool) -> (int, int, int)
    decreases cs.len() - p, if in_comment { 1int } else { 0int },
{
    if p < 0 || p >= cs.len() {
        (p, line, col)
    } else if in_comment {
        if cs[p] != '\n' {
            spec_skip_ws(cs, p + 1, line, col + 1, true)
        } else {
            spec_skip_ws(cs, p, line, col, false)
        }
    } else {
        let c = cs[p];
        if c == ' ' || c == '\r' || c == '\t' {
            spec_skip_ws(cs, p + 1, line, col + 1, false)
        } else if c == '\n' {
            spec_skip_ws(cs, p + 1, line + 1, 1, false)
        } else if c == '/' && peek_next_at(cs, p) == '/' {
            spec_skip_ws(cs, p + 1, line, col + 1, true)
        } else {
            (p, line, col)
        }
    }
}

/// End of the run of digits that starts at `p`.
pub open spec fn digits_end(cs: Seq<char>, p: int) -> int
    decreases cs.len() - p,
{
    if 0 <= p < cs.len() && is_digit(cs[p]) {
        digits_end(cs, p + 1)
    } else {
        p
    }
}

/// End of the run of letters, digits and underscores that starts at `p`.
pub open spec fn ident_end(cs: Seq<char>, p: int) -> int
    decreases cs.len() - p,
{
    if 0 <= p < cs.len() && is_ident_char(cs[p]) {
        ident_end(cs, p + 1)
    } else {
        p
    }
}

/// The position of the first `"` at or after `p`.
pub open spec fn find_quote(cs: Seq<char>, p: int) -> Option<int>
    decreases cs.len() - p,
{
    if p < 0 || p >= cs.len() {
        None
    } else if cs[p] == '"' {
        Some(p)
    } else {
        find_quote(cs, p + 1)
    }
}

/// The value of a string of decimal digits.
pub open spec fn digits_value(s: Seq<char>) -> nat
    decreases s.len(),
{
    if s.len() == 0 {
        0
    } else {
        digits_value(s.drop_last()) * 10 + (s.last() as nat - '0' as nat) as nat
    }
}

/// The keyword spelled by `text`, if any.
pub open spec fn spec_keyword(text: Seq<char>) -> Option<TokenTypeV> {
    if text == "def"@ {
        Some(TokenTypeV::Def)
    } else if text == "let"@ {
        Some(TokenTypeV::Let)
    } else if text == "if"@ {
        Some(TokenTypeV::If)
    } else if text == "class"@ {
        Some(TokenTypeV::Class)
    } else if text == "struct"@ {
        Some(TokenTypeV::Struct)
    } else if text == "else"@ {
        Some(TokenTypeV::Else)
    } else if text == "while"@ {
        Some(TokenTypeV::While)
    } else if text == "for"@ {
        Some(TokenTypeV::For)
    } else if text == "return"@ {
        Some(TokenTypeV::Return)
    } else if text == "true"@ {
        Some(TokenTypeV::True)
    } else if text == "false"@ {
        Some(TokenTypeV::False)
    } else if text == "as"@ {
        Some(TokenTypeV::As)
    } else if text == "int"@ {
        Some(TokenTypeV::Int)
    } else if text == "long"@ {
        Some(TokenTypeV::Long)
    } else if text == "float"@ {
        Some(TokenTypeV::Float)
    } else if text == "bool"@ {
        Some(TokenTypeV::Boolean)
    } else if text == "void"@ {
        Some(TokenTypeV::Void)
    } else if text == "char"@ {
        Some(TokenTypeV::Char)
    } else {
        None
    }
}

/// What scanning one token gives: the token and the position, line and column after it;
/// an error; or a string literal that is never closed, on which the lexer does not stop.
pub enum Scan {
    Tok(TokenV, int, int, int),
    Error(LexErrorV),
    Unterminated,
}

/// A token of one or two characters: `c2` is taken as well when it comes next.
pub open spec fn two_char(cs: Seq<char>, p1: int, line: int, col1: int, c2: char, both: TokenTypeV, one: TokenTypeV) -> Scan {
    if peek_at(cs, p1) == c2 {
        Scan::Tok(mk(both, line, col1 + 1, p1 + 1), p1 + 1, line, col1 + 1)
    } else {
        Scan::Tok(mk(one, line, col1, p1), p1, line, col1)
    }
}

/// Scanning a string literal whose opening quote ends just before `p`.
pub open spec fn scan_string(cs: Seq<char>, p: int, line: int, col: int) -> Scan {
    match find_quote(cs, p) {
        Some(q) => {
            let col2 = col + (q + 1 - p);
            Scan::Tok(mk(TokenTypeV::StringLiteral(cs.subrange(p, q)), line, col2, q + 1), q + 1, line, col2)
        },
        None => Scan::Unterminated,
    }
}

/// Scanning a number whose first digit ends just before `p`.
pub open spec fn scan_number(cs: Seq<char>, p: int, line: int, col: int) -> Scan {
    let start = p - 1;
    let start_col = col - 1;
    let q = digits_end(cs, p);
    if peek_at(cs, q) == '.' && is_digit(peek_next_at(cs, q)) {
        let r = digits_end(cs, q + 1);
        Scan::Tok(mk(TokenTypeV::FloatLiteral(cs.subrange(start, r)), line, start_col, start), r, line, col + (r - p))
    } else {
        let text = cs.subrange(start, q);
        if digits_value(text) <= i32::MAX {
            Scan::Tok(mk(TokenTypeV::IntLiteral(digits_value(text) as i32), line, start_col, start), q, line, col + (q - p))
        } else {
            Scan::Error(LexErrorV::InvalidNumber(text, line as nat, start_col as nat))
        }
    }
}

/// Scanning a name or keyword whose first character ends just before `p`.
pub open spec fn scan_identifier(cs: Seq<char>, p: int, line: int, col: int) -> Scan {
    let start = p - 1;
    let q = ident_end(cs, p);
    let text = cs.subrange(start, q);
    let ty = match spec_keyword(text) {
        Some(k) => k,
        None => TokenTypeV::Identifier(text),
    };
    Scan::Tok(mk(ty, line, col - 1, start), q, line, col + (q - p))
}

/// The character an escape letter stands for, `x` aside.
pub open spec fn escape_char(e: char) -> Option<char> {
    if e == 'n' {
        Some('\n')
    } else if e == 'r' {
        Some('\r')
    } else if e == 't' {
        Some('\t')
    } else if e == '\\' {
        Some('\\')
    } else if e == '\'' {
        Some('\'')
    } else if e == '0' {
        Some('\0')
    } else {
        None
    }
}

/// Scanning a character literal whose opening quote ends just before `p`.
pub open spec fn scan_char(cs: Seq<char>, p: int, line: int, col: int) -> Scan {
    let sl = line as nat;
    let sc = (col - 1) as nat;
    let start = p - 1;
    if p >= cs.len() || cs[p] == '\n' {
        Scan::Error(LexErrorV::InvalidCharacter('\'', sl, sc))
    } else {
        // the character, and the position and column after it
        let body: Result<(char, int, int), LexErrorV> = if cs[p] == '\\' {
            if p + 1 >= cs.len() {
                Err(LexErrorV::InvalidCharacter('\0', sl, sc))
            } else {
                let e = cs[p + 1];
                if e == 'x' {
                    let h1 = peek_at(cs, p + 2);
                    let h2 = peek_next_at(cs, p + 2);
                    if is_hex(h1) && is_hex(h2) {
                        Ok(((hex_value(h1) * 16 + hex_value(h2)) as u8 as char, p + 4, col + 4))
                    } else {
                        Err(LexErrorV::InvalidCharacter('x', sl, sc))
                    }
                } else {
                    match escape_char(e) {
                        Some(ch) => Ok((ch, p + 2, col + 2)),
                        None => Err(LexErrorV::InvalidCharacter(e, sl, sc)),
                    }
                }
            }
        } else {
            Ok((cs[p], p + 1, col + 1))
        };
        match body {
            Err(e) => Scan::Error(e),
            Ok((ch, pp, cc)) => if peek_at(cs, pp) != '\'' {
                Scan::Error(LexErrorV::InvalidCharacter('\'', sl, sc))
            } else {
                Scan::Tok(mk(TokenTypeV::CharLiteral(ch), line, col - 1, start), pp + 1, line, cc + 1)
            },
        }
    }
}

/// Scanning the token that starts at `p`, which is before the end.
pub open spec fn spec_scan_token(cs: Seq<char>, p: int, line: int, col: int) -> Scan {
    let c = cs[p];
    let p1 = p + 1;
    let col1 = col + 1;
    let one = |ty: TokenTypeV| Scan::Tok(mk(ty, line, col1, p1), p1, line, col1);
    if c == '@' {
        one(TokenTypeV::At)
    } else if c == '\'' {
        scan_char(cs, p1, line, col1)
    } else if c == '"' {
        scan_string(cs, p1, line, col1)
    } else if c == '.' {
        one(TokenTypeV::Period)
    } else if c == '(' {
        one(TokenTypeV::LeftParen)
    } else if c == ')' {
        one(TokenTypeV::RightParen)
    } else if c == '{' {
        one(TokenTypeV::LeftBrace)
    } else if c == '}' {
        one(TokenTypeV::RightBrace)
    } else if c == '[' {
        one(TokenTypeV::LeftBracket)
    } else if c == ']' {
        one(TokenTypeV::RightBracket)
    } else if c == ',' {
        one(TokenTypeV::Comma)
    } else if c == ';' {
        one(TokenTypeV::Semicolon)
    } else if c == '+' {
        one(TokenTypeV::Plus)
    } else if c == '*' {
        one(TokenTypeV::Star)
    } else if c == '%' {
        one(TokenTypeV::Percent)
    } else if c == '!' {
        two_char(cs, p1, line, col1, '=', TokenTypeV::BangEqual, TokenTypeV::Bang)
    } else if c == ':' {
        two_char(cs, p1, line, col1, ':', TokenTypeV::DoubleColon, TokenTypeV::Colon)
    } else if c == '=' {
        two_char(cs, p1, line, col1, '=', TokenTypeV::EqualEqual, TokenTypeV::Equal)
    } else if c == '<' {
        two_char(cs, p1, line, col1, '=', TokenTypeV::LessEqual, TokenTypeV::Less)
    } else if c == '>' {
        two_char(cs, p1, line, col1, '=', TokenTypeV::GreaterEqual, TokenTypeV::Greater)
    } else if c == '-' {
        two_char(cs, p1, line, col1, '>', TokenTypeV::Arrow, TokenTypeV::Minus)
    } else if c == '&' {
        two_char(cs, p1, line, col1, '&', TokenTypeV::And, TokenTypeV::Ampersand)
    } else if c == '|' {
        if peek_at(cs, p1) == '|' {
            Scan::Tok(mk(TokenTypeV::Or, line, col1 + 1, p1 + 1), p1 + 1, line, col1 + 1)
        } else {
            Scan::Error(LexErrorV::InvalidCharacter('|', line as nat, col1 as nat))
        }
    } else if c == '/' {
        one(TokenTypeV::Slash)
    } else if is_digit(c) {
        scan_number(cs, p1, line, col1)
    } else if is_alpha(c) || c == '_' {
        scan_identifier(cs, p1, line, col1)
    } else {
        Scan::Error(LexErrorV::InvalidCharacter(c, line as nat, col1 as nat))
    }
}

/// The outcome of splitting a whole source into tokens.
pub enum LexOutcome {
    Tokens(Seq<TokenV>),
    Error(LexErrorV),
    Unterminated,
}

pub proof fn lemma_skip_ws_mono(cs: Seq<char>, p: int, line: int, col: int, in_comment: bool)
    requires
        0 <= p,
    ensures
        spec_skip_ws(cs, p, line, col, in_comment).0 >= p,
    decreases cs.len() - p, if in_comment { 1int } else { 0int },
{
    if p < cs.len() {
        if in_comment {
            if cs[p] != '\n' {
                lemma_skip_ws_mono(cs, p + 1, line, col + 1, true);
            } else {
                lemma_skip_ws_mono(cs, p, line, col, false);
            }
        } else {
            let c = cs[p];
            if c == ' ' || c == '\r' || c == '\t' {
                lemma_skip_ws_mono(cs, p + 1, line, col + 1, false);
            } else if c == '\n' {
                lemma_skip_ws_mono(cs, p + 1, line + 1, 1, false);
            } else if c == '/' && peek_next_at(cs, p) == '/' {
                lemma_skip_ws_mono(cs, p + 1, line, col + 1, true);
            }
        }
    }
}

pub proof fn lemma_digits_end(cs: Seq<char>, p: int)
    requires
        0 <= p,
    ensures
        p <= digits_end(cs, p),
        p <= cs.len() ==> digits_end(cs, p) <= cs.len(),
        forall|k: int| p <= k < digits_end(cs, p) ==> is_digit(#[trigger] cs[k]),
        digits_end(cs, p) < cs.len() ==> !is_digit(cs[digits_end(cs, p)]),
    decreases cs.len() - p,
{
    if 0 <= p < cs.len() && is_digit(cs[p]) {
        lemma_digits_end(cs, p + 1);
    }
}

pub proof fn lemma_ident_end(cs: Seq<char>, p: int)
    requires
        0 <= p,
    ensures
        p <= ident_end(cs, p),
        p <= cs.len() ==> ident_end(cs, p) <= cs.len(),
        forall|k: int| p <= k < ident_end(cs, p) ==> is_ident_char(#[trigger] cs[k]),
        ident_end(cs, p) < cs.len() ==> !is_ident_char(cs[ident_end(cs, p)]),
    decreases cs.len() - p,
{
    if 0 <= p < cs.len() && is_ident_char(cs[p]) {
        lemma_ident_end(cs, p + 1);
    }
}

pub proof fn lemma_find_quote(cs: Seq<char>, p: int)
    requires
        0 <= p,
    ensures
        find_quote(cs, p) matches Some(q) ==> p <= q < cs.len() && cs[q] == '"' && forall|k: int| p <= k < q ==> cs[k] != '"',
        find_quote(cs, p) is None ==> forall|k: int| p <= k < cs.len() ==> cs[k] != '"',
    decreases cs.len() - p,
{
    if 0 <= p < cs.len() && cs[p] != '"' {
        lemma_find_quote(cs, p + 1);
    }
}

/// Scanning a token consumes at least one character and never goes past the end.
pub proof fn lemma_scan_advances(cs: Seq<char>, p: int, line: int, col: int)
    requires
        0 <= p < cs.len(),
    ensures
        spec_scan_token(cs, p, line, col) matches Scan::Tok(_, p2, _, _) ==> p < p2 <= cs.len(),
{
    lemma_digits_end(cs, p + 1);
    let q = digits_end(cs, p + 1);
    lemma_digits_end(cs, q + 1);
    lemma_ident_end(cs, p + 1);
    lemma_find_quote(cs, p + 1);
}

/// Splitting the rest of the source, from position `p`, after the tokens `acc`.
pub open spec fn spec_tokenize_from(cs: Seq<char>, p: int, line: int, col: int, acc: Seq<TokenV>) -> LexOutcome
    decreases cs.len() - p,
{
    if p < 0 || p >= cs.len() {
        LexOutcome::Tokens(acc.push(mk(TokenTypeV::Eof, line, col, p)))
    } else {
        let (p1, l1, c1) = spec_skip_ws(cs, p, line, col, false);
        if p1 >= cs.len() {
            LexOutcome::Tokens(acc.push(mk(TokenTypeV::Eof, l1, c1, p1)))
        } else {
            proof {
                lemma_skip_ws_mono(cs, p, line, col, false);
                lemma_scan_advances(cs, p1, l1, c1);
            }
            match spec_scan_token(cs, p1, l1, c1) {
                Scan::Tok(t, p2, l2, c2) => spec_tokenize_from(cs, p2, l2, c2, acc.push(t)),
                Scan::Error(e) => LexOutcome::Error(e),
                Scan::Unterminated => LexOutcome::Unterminated,
            }
        }
    }
}

/// Splitting a whole source, starting at line 1, column 1.
pub open spec fn spec_tokenize(cs: Seq<char>) -> LexOutcome {
    spec_tokenize_from(cs, 0, 1, 1, Seq::empty())
}

/// Scanning at `p` gives a token of kind `ty` that takes the next `len` characters.
pub open spec fn scans_to(cs: Seq<char>, p: int, line: int, col: int, ty: TokenTypeV, len: int) -> bool {
    spec_scan_token(cs, p, line, col) matches Scan::Tok(t, p2, _, _) && t.token_type == ty && p2 == p + len
}

/// Operators of two characters are one token: `>=`, `<=`, `==`, `!=`, `::`, `->`, `&&`
/// and `||` each scan to their own token, which takes both characters. Where the
/// second character does not follow, the first alone is its one-character token.
/// Single-character operators and punctuation take one character.
pub proof fn law_operator_tokens(cs: Seq<char>, p: int, line: int, col: int)
    requires
        0 <= p < cs.len(),
    ensures
        cs[p] == '>' && peek_at(cs, p + 1) == '=' ==> scans_to(cs, p, line, col, TokenTypeV::GreaterEqual, 2),
        cs[p] == '>' && peek_at(cs, p + 1) != '=' ==> scans_to(cs, p, line, col, TokenTypeV::Greater, 1),
        cs[p] == '<' && peek_at(cs, p + 1) == '=' ==> scans_to(cs, p, line, col, TokenTypeV::LessEqual, 2),
        cs[p] == '<' && peek_at(cs, p + 1) != '=' ==> scans_to(cs, p, line, col, TokenTypeV::Less, 1),
        cs[p] == '=' && peek_at(cs, p + 1) == '=' ==> scans_to(cs, p, line, col, TokenTypeV::EqualEqual, 2),
        cs[p] == '=' && peek_at(cs, p + 1) != '=' ==> scans_to(cs, p, line, col, TokenTypeV::Equal, 1),
        cs[p] == '!' && peek_at(cs, p + 1) == '=' ==> scans_to(cs, p, line, col, TokenTypeV::BangEqual, 2),
        cs[p] == '!' && peek_at(cs, p + 1) != '=' ==> scans_to(cs, p, line, col, TokenTypeV::Bang, 1),
        cs[p] == ':' && peek_at(cs, p + 1) == ':' ==> scans_to(cs, p, line, col, TokenTypeV::DoubleColon, 2),
        cs[p] == ':' && peek_at(cs, p + 1) != ':' ==> scans_to(cs, p, line, col, TokenTypeV::Colon, 1),
        cs[p] == '-' && peek_at(cs, p + 1) == '>' ==> scans_to(cs, p, line, col, TokenTypeV::Arrow, 2),
        cs[p] == '-' && peek_at(cs, p + 1) != '>' ==> scans_to(cs, p, line, col, TokenTypeV::Minus, 1),
        cs[p] == '&' && peek_at(cs, p + 1) == '&' ==> scans_to(cs, p, line, col, TokenTypeV::And, 2),
        cs[p] == '&' && peek_at(cs, p + 1) != '&' ==> scans_to(cs, p, line, col, TokenTypeV::Ampersand, 1),
        cs[p] == '|' && peek_at(cs, p + 1) == '|' ==> scans_to(cs, p, line, col, TokenTypeV::Or, 2),
        cs[p] == '+' ==> scans_to(cs, p, line, col, TokenTypeV::Plus, 1),
        cs[p] == '*' ==> scans_to(cs, p, line, col, TokenTypeV::Star, 1),
        cs[p] == '/' ==> scans_to(cs, p, line, col, TokenTypeV::Slash, 1),
        cs[p] == '%' ==> scans_to(cs, p, line, col, TokenTypeV::Percent, 1),
        cs[p] == ';' ==> scans_to(cs, p, line, col, TokenTypeV::Semicolon, 1),
        cs[p] == '(' ==> scans_to(cs, p, line, col, TokenTypeV::LeftParen, 1),
        cs[p] == ')' ==> scans_to(cs, p, line, col, TokenTypeV::RightParen, 1),
{
}

} // verus!

verus! {

broadcast use vstd::string::group_string_axioms;

/// Turns source text into tokens.
pub struct Lexer {
    pub source: String,
    chars: Vec<char>,
    current: usize,
    line: usize,
    column: usize,
}

/// The characters of `s`, in order.
fn collect_chars(s: &String) -> (r: Vec<char>)
    ensures
        r@ == s@,
{
    str_chars(s.as_str())
}

/// The characters of `st`, in order.
pub(crate) fn str_chars(st: &str) -> (r: Vec<char>)
    ensures
        r@ == st@,
{
    let mut out: Vec<char> = Vec::new();
    let mut it = st.chars();
    let ghost total = st@;
    proof {
        assert(it.remaining() == st@);
    }
    loop
        invariant
            out@ + it.remaining() == total,
            it.obeys_prophetic_iter_laws(),
            it.decrease() is Some,
        ensures
            out@ == total,
        decreases it.decrease()->0,
    {
        match it.next() {
            Some(c) => {
                out.push(c);
            },
            None => {
                proof {
                    assert(out@ =~= out@ + it.remaining());
                }
                break;
            },
        }
    }
    out
}

} // verus!

verus! {

/// `String::push` of std: appends the character `c` at the end of `s`.
#[verifier::external_body]
pub(crate) fn string_push(s: &mut String, c: char)
    ensures
        final(s)@ == old(s)@.push(c),
{
    s.push(c);
}

/// The characters `cs[start..end]` as a string.
pub(crate) fn chars_to_string(cs: &Vec<char>, start: usize, end: usize) -> (r: String)
    requires
        start <= end <= cs@.len(),
    ensures
        r@ == cs@.subrange(start as int, end as int),
{
    let mut out = String::new();
    let mut i: usize = start;
    while i < end
        invariant
            start <= i <= end <= cs@.len(),
            out@ == cs@.subrange(start as int, i as int),
        decreases end - i,
    {
        string_push(&mut out, cs[i]);
        i = i + 1;
        proof {
            assert(out@ =~= cs@.subrange(start as int, i as int));
        }
    }
    out
}

/// Whether `cs[start..end]` spells `lit`.
fn slice_is(cs: &Vec<char>, start: usize, end: usize, lit: &str) -> (r: bool)
    requires
        start <= end <= cs@.len(),
    ensures
        r == (cs@.subrange(start as int, end as int) == lit@),
{
    let n = lit.unicode_len();
    if end - start != n {
        return false;
    }
    let mut i: usize = 0;
    while i < n
        invariant
            start <= end <= cs@.len(),
            end - start == n,
            n == lit@.len(),
            i <= n,
            forall|k: int| 0 <= k < i ==> cs@[start + k] == lit@[k],
        decreases n - i,
    {
        if cs[start + i] != lit.get_char(i) {
            proof {
                assert(cs@.subrange(start as int, end as int)[i as int] != lit@[i as int]);
            }
            return false;
        }
        i = i + 1;
    }
    proof {
        assert(cs@.subrange(start as int, end as int) =~= lit@);
    }
    true
}

fn is_digit_char(c: char) -> (r: bool)
    ensures
        r == is_digit(c),
{
    '0' <= c && c <= '9'
}

fn is_alpha_char(c: char) -> (r: bool)
    ensures
        r == is_alpha(c),
{
    ('a' <= c && c <= 'z') || ('A' <= c && c <= 'Z')
}

fn is_hex_char(c: char) -> (r: bool)
    ensures
        r == is_hex(c),
{
    ('0' <= c && c <= '9') || ('a' <= c && c <= 'f') || ('A' <= c && c <= 'F')
}

fn hex_digit_value(c: char) -> (r: u8)
    requires
        is_hex(c),
    ensures
        r as nat == hex_value(c),
{
    if '0' <= c && c <= '9' {
        (c as u32 - '0' as u32) as u8
    } else if 'a' <= c && c <= 'f' {
        (c as u32 - 'a' as u32 + 10) as u8
    } else {
        (c as u32 - 'A' as u32 + 10) as u8
    }
}

fn keyword(cs: &Vec<char>, start: usize, end: usize) -> (r: Option<TokenType>)
    requires
        start <= end <= cs@.len(),
    ensures
        match spec_keyword(cs@.subrange(start as int, end as int)) {
            Some(k) => r matches Some(t) && t@ == k,
            None => r is None,
        },
{
    if slice_is(cs, start, end, "def") {
        Some(TokenType::Def)
    } else if slice_is(cs, start, end, "let") {
        Some(TokenType::Let)
    } else if slice_is(cs, start, end, "if") {
        Some(TokenType::If)
    } else if slice_is(cs, start, end, "class") {
        Some(TokenType::Class)
    } else if slice_is(cs, start, end, "struct") {
        Some(TokenType::Struct)
    } else if slice_is(cs, start, end, "else") {
        Some(TokenType::Else)
    } else if slice_is(cs, start, end, "while") {
        Some(TokenType::While)
    } else if slice_is(cs, start, end, "for") {
        Some(TokenType::For)
    } else if slice_is(cs, start, end, "return") {
        Some(TokenType::Return)
    } else if slice_is(cs, start, end, "true") {
        Some(TokenType::True)
    } else if slice_is(cs, start, end, "false") {
        Some(TokenType::False)
    } else if slice_is(cs, start, end, "as") {
        Some(TokenType::As)
    } else if slice_is(cs, start, end, "int") {
        Some(TokenType::Int)
    } else if slice_is(cs, start, end, "long") {
        Some(TokenType::Long)
    } else if slice_is(cs, start, end, "float") {
        Some(TokenType::Float)
    } else if slice_is(cs, start, end, "bool") {
        Some(TokenType::Boolean)
    } else if slice_is(cs, start, end, "void") {
        Some(TokenType::Void)
    } else if slice_is(cs, start, end, "char") {
        Some(TokenType::Char)
    } else {
        None
    }
}

proof fn lemma_digits_prefix(s: Seq<char>, k: int)
    requires
        0 <= k <= s.len(),
        forall|i: int| 0 <= i < s.len() ==> is_digit(#[trigger] s[i]),
    ensures
        digits_value(s.take(k)) <= digits_value(s),
    decreases s.len(),
{
    if k < s.len() {
        assert(s.drop_last().take(k) =~= s.take(k));
        lemma_digits_prefix(s.drop_last(), k);
    } else {
        assert(s.take(k) =~= s);
    }
}

pub open spec fn tokens_view(v: Seq<Token>) -> Seq<TokenV> {
    v.map_values(|t: Token| t@)
}

impl Lexer {
    /// The characters of the source.
    pub closed spec fn chars_view(&self) -> Seq<char> {
        self.chars@
    }

    /// The source text.
    pub closed spec fn source_view(&self) -> Seq<char> {
        self.source@
    }

    /// Position, line and column of the next character.
    pub closed spec fn state(&self) -> (int, int, int) {
        (self.current as int, self.line as int, self.column as int)
    }

    /// The representation invariant: the position is within the source and the line
    /// and column cannot outgrow it.
    pub closed spec fn wf(&self) -> bool {
        &&& self.current <= self.chars@.len()
        &&& 1 <= self.line <= self.current + 1
        &&& 1 <= self.column <= self.current + 1
        &&& self.chars@.len() + 2 <= usize::MAX
    }

    /// A lexer at the start of `source`: position 0, line 1, column 1.
    pub fn new(source: String) -> (r: Lexer)
        ensures
            r.chars_view() == source@,
            r.state() == (0int, 1int, 1int),
            r.source_view() == source@,
            source@.len() + 2 <= usize::MAX ==> r.wf(),
    {
        let chars = collect_chars(&source);
        Lexer { source, chars, current: 0, line: 1, column: 1 }
    }

    fn make_token(&self, token_type: TokenType) -> (r: Token)
        ensures
            r@ == mk(token_type@, self.line as int, self.column as int, self.current as int),
    {
        Token::new(token_type, self.line, self.column, self.current)
    }

    fn is_at_end(&self) -> (r: bool)
        ensures
            r == (self.current >= self.chars@.len()),
    {
        self.current >= self.chars.len()
    }

    fn peek(&self) -> (r: char)
        ensures
            r == peek_at(self.chars@, self.current as int),
    {
        if self.is_at_end() {
            '\0'
        } else {
            self.chars[self.current]
        }
    }

    fn peek_next(&self) -> (r: char)
        requires
            self.wf(),
        ensures
            r == peek_next_at(self.chars@, self.current as int),
    {
        if self.current + 1 >= self.chars.len() {
            '\0'
        } else {
            self.chars[self.current + 1]
        }
    }

    fn advance(&mut self) -> (r: char)
        requires
            old(self).wf(),
        ensures
            final(self).wf(),
            final(self).chars@ == old(self).chars@,
            final(self).line == old(self).line,
            old(self).current < old(self).chars@.len() ==> r == old(self).chars@[old(self).current as int]
                && final(self).current == old(self).current + 1 && final(self).column == old(self).column + 1,
            old(self).current >= old(self).chars@.len() ==> r == '\0' && final(self).current == old(self).current
                && final(self).column == old(self).column,
    {
        if !self.is_at_end() {
            let c = self.chars[self.current];
            self.current = self.current + 1;
            self.column = self.column + 1;
            c
        } else {
            '\0'
        }
    }

    fn match_char(&mut self, expected: char) -> (r: bool)
        requires
            old(self).wf(),
            expected != '\0',
        ensures
            final(self).wf(),
            final(self).chars@ == old(self).chars@,
            final(self).line == old(self).line,
            r == (peek_at(old(self).chars@, old(self).current as int) == expected),
            r ==> final(self).current == old(self).current + 1 && final(self).column == old(self).column + 1,
            !r ==> final(self).current == old(self).current && final(self).column == old(self).column,
    {
        if self.peek() == expected {
            self.advance();
            true
        } else {
            false
        }
    }

    fn skip_whitespace(&mut self)
        requires
            old(self).wf(),
        ensures
            final(self).wf(),
            final(self).chars@ == old(self).chars@,
            final(self).state() == spec_skip_ws(old(self).chars@, old(self).current as int, old(self).line as int, old(self).column as int, false),
    {
        let ghost target = spec_skip_ws(self.chars@, self.current as int, self.line as int, self.column as int, false);
        let ghost cs = self.chars@;
        while !self.is_at_end()
            invariant
                self.wf(),
                self.chars@ == cs,
                spec_skip_ws(cs, self.current as int, self.line as int, self.column as int, false) == target,
            ensures
                self.wf(),
                self.chars@ == cs,
                self.state() == target,
            decreases cs.len() - self.current,
        {
            let c = self.peek();
            if c == ' ' || c == '\r' || c == '\t' {
                self.advance();
            } else if c == '\n' {
                self.advance();
                self.line = self.line + 1;
                self.column = 1;
            } else if c == '/' && self.peek_next() == '/' {
                let ghost p0 = self.current;
                self.advance();
                while !self.is_at_end() && self.peek() != '\n'
                    invariant
                        self.current > p0,
                        self.wf(),
                        self.chars@ == cs,
                        spec_skip_ws(cs, self.current as int, self.line as int, self.column as int, true) == target,
                    decreases cs.len() - self.current,
                {
                    self.advance();
                }
            } else {
                break;
            }
        }
    }
}

impl Lexer {
    /// Position after the run of characters satisfying `f` from the current position.
    fn identifier_end(&mut self)
        requires
            old(self).wf(),
        ensures
            final(self).wf(),
            final(self).chars@ == old(self).chars@,
            final(self).line == old(self).line,
            final(self).current == ident_end(old(self).chars@, old(self).current as int),
            final(self).column == old(self).column + (final(self).current - old(self).current),
    {
        let ghost cs = self.chars@;
        let ghost p0 = self.current;
        let ghost c0 = self.column;
        loop
            invariant
                self.wf(),
                self.chars@ == cs,
                self.line == old(self).line,
                p0 <= self.current,
                self.column == c0 + (self.current - p0),
                ident_end(cs, self.current as int) == ident_end(cs, p0 as int),
            ensures
                self.wf(),
                self.chars@ == cs,
                self.line == old(self).line,
                self.current == ident_end(cs, p0 as int),
                self.column == c0 + (self.current - p0),
            decreases cs.len() - self.current,
        {
            let c = self.peek();
            if is_digit_char(c) || is_alpha_char(c) || c == '_' {
                proof {
                    assert(self.current < cs.len());
                }
                self.advance();
            } else {
                break;
            }
        }
    }

    /// Advances over a run of digits.
    fn digits_end(&mut self)
        requires
            old(self).wf(),
        ensures
            final(self).wf(),
            final(self).chars@ == old(self).chars@,
            final(self).line == old(self).line,
            final(self).current == digits_end(old(self).chars@, old(self).current as int),
            final(self).column == old(self).column + (final(self).current - old(self).current),
    {
        let ghost cs = self.chars@;
        let ghost p0 = self.current;
        let ghost c0 = self.column;
        loop
            invariant
                self.wf(),
                self.chars@ == cs,
                self.line == old(self).line,
                p0 <= self.current,
                self.column == c0 + (self.current - p0),
                digits_end(cs, self.current as int) == digits_end(cs, p0 as int),
            ensures
                self.wf(),
                self.chars@ == cs,
                self.line == old(self).line,
                self.current == digits_end(cs, p0 as int),
                self.column == c0 + (self.current - p0),
            decreases cs.len() - self.current,
        {
            let c = self.peek();
            if is_digit_char(c) {
                proof {
                    assert(self.current < cs.len());
                }
                self.advance();
            } else {
                break;
            }
        }
    }

    fn scan_identifier(&mut self) -> (r: Token)
        requires
            old(self).wf(),
            old(self).current >= 1,
            old(self).column >= 2,
        ensures
            final(self).wf(),
            final(self).chars@ == old(self).chars@,
            scan_identifier(old(self).chars@, old(self).current as int, old(self).line as int, old(self).column as int) matches Scan::Tok(t, p2, l2, c2)
                && r@ == t && final(self).state() == (p2, l2, c2),
    {
        let start_line = self.line;
        let start_col = self.column - 1;
        let start_pos = self.current - 1;
        proof {
            lemma_ident_end(self.chars@, self.current as int);
        }
        self.identifier_end();
        let token_type = match keyword(&self.chars, start_pos, self.current) {
            Some(k) => k,
            None => TokenType::Identifier(chars_to_string(&self.chars, start_pos, self.current)),
        };
        Token::new(token_type, start_line, start_col, start_pos)
    }

    fn scan_number(&mut self) -> (r: Result<Token, LexError>)
        requires
            old(self).wf(),
            old(self).current >= 1,
            is_digit(old(self).chars@[old(self).current - 1]),
            old(self).column >= 2,
        ensures
            final(self).wf(),
            final(self).chars@ == old(self).chars@,
            match scan_number(old(self).chars@, old(self).current as int, old(self).line as int, old(self).column as int) {
                Scan::Tok(t, p2, l2, c2) => r matches Ok(tok) && tok@ == t && final(self).state() == (p2, l2, c2),
                Scan::Error(e) => r matches Err(er) && er@ == e,
                Scan::Unterminated => false,
            },
    {
        let ghost cs = self.chars@;
        let ghost p0 = self.current as int;
        let start_line = self.line;
        let start_col = self.column - 1;
        let start_pos = self.current - 1;
        self.digits_end();
        let q = self.current;
        proof {
            lemma_digits_end(cs, p0);
        }
        if self.peek() == '.' && is_digit_char(self.peek_next()) {
            self.advance();
            self.digits_end();
            proof {
                lemma_digits_end(cs, q + 1);
            }
            let text = chars_to_string(&self.chars, start_pos, self.current);
            Ok(Token::new(TokenType::FloatLiteral(text), start_line, start_col, start_pos))
        } else {
            let ghost text = cs.subrange(start_pos as int, q as int);
            let mut v: u64 = 0;
            let mut i: usize = start_pos;
            proof {
                assert(is_digit(cs[start_pos as int]));
                assert forall|k: int| 0 <= k < text.len() implies is_digit(#[trigger] text[k]) by {
                    if k > 0 {
                        assert(text[k] == cs[start_pos + k]);
                    }
                }
                assert(text.take(0) =~= Seq::<char>::empty());
            }
            while i < q
                invariant
                    start_pos <= i <= q <= cs.len(),
                    self.chars@ == cs,
                    text == cs.subrange(start_pos as int, q as int),
                    forall|k: int| 0 <= k < text.len() ==> is_digit(#[trigger] text[k]),
                    v <= i32::MAX + 1,
                    v <= i32::MAX ==> v == digits_value(text.take(i - start_pos)),
                    v > i32::MAX ==> digits_value(text.take(i - start_pos)) > i32::MAX,
                decreases q - i,
            {
                let d = self.chars[i];
                proof {
                    assert(text[i - start_pos] == d);
                    assert(text.take(i - start_pos + 1).drop_last() =~= text.take(i - start_pos));
                    assert(text.take(i - start_pos + 1).last() == d);
                }
                if v <= 2147483647 {
                    let dv: u64 = (d as u32 - '0' as u32) as u64;
                    let nv = v * 10 + dv;
                    v = if nv > 2147483648 { 2147483648 } else { nv };
                }
                i = i + 1;
            }
            proof {
                assert(text.take(q - start_pos) =~= text);
            }
            if v <= 2147483647 {
                Ok(Token::new(TokenType::IntLiteral(v as i32), start_line, start_col, start_pos))
            } else {
                Err(LexError::InvalidNumber(chars_to_string(&self.chars, start_pos, q), start_line, start_col))
            }
        }
    }
}

impl Lexer {
    fn scan_char(&mut self) -> (r: Result<Token, LexError>)
        requires
            old(self).wf(),
            old(self).current >= 1,
            old(self).column >= 2,
        ensures
            final(self).wf(),
            final(self).chars@ == old(self).chars@,
            match scan_char(old(self).chars@, old(self).current as int, old(self).line as int, old(self).column as int) {
                Scan::Tok(t, p2, l2, c2) => r matches Ok(tok) && tok@ == t && final(self).state() == (p2, l2, c2),
                Scan::Error(e) => r matches Err(er) && er@ == e,
                Scan::Unterminated => false,
            },
    {
        let start_line = self.line;
        let start_col = self.column - 1;
        let start_pos = self.current - 1;
        if self.is_at_end() || self.peek() == '\n' {
            return Err(LexError::InvalidCharacter('\'', start_line, start_col));
        }
        let first = self.advance();
        let ch = if first == '\\' {
            let esc = if self.is_at_end() {
                '\0'
            } else {
                self.advance()
            };
            if esc == 'n' {
                '\n'
            } else if esc == 'r' {
                '\r'
            } else if esc == 't' {
                '\t'
            } else if esc == '\\' {
                '\\'
            } else if esc == '\'' {
                '\''
            } else if esc == '0' {
                '\0'
            } else if esc == 'x' {
                let h1 = self.peek();
                let h2 = self.peek_next();
                if is_hex_char(h1) && is_hex_char(h2) {
                    self.advance();
                    self.advance();
                    let val: u8 = hex_digit_value(h1) * 16 + hex_digit_value(h2);
                    val as char
                } else {
                    return Err(LexError::InvalidCharacter('x', start_line, start_col));
                }
            } else {
                return Err(LexError::InvalidCharacter(esc, start_line, start_col));
            }
        } else {
            first
        };
        if self.peek() != '\'' {
            return Err(LexError::InvalidCharacter('\'', start_line, start_col));
        }
        self.advance();
        Ok(Token::new(TokenType::CharLiteral(ch), start_line, start_col, start_pos))
    }

    /// Scans a string literal; `None` when it is never closed.
    fn scan_string(&mut self) -> (r: Option<Token>)
        requires
            old(self).wf(),
        ensures
            final(self).wf(),
            final(self).chars@ == old(self).chars@,
            match scan_string(old(self).chars@, old(self).current as int, old(self).line as int, old(self).column as int) {
                Scan::Tok(t, p2, l2, c2) => r matches Some(tok) && tok@ == t && final(self).state() == (p2, l2, c2),
                Scan::Error(e) => false,
                Scan::Unterminated => r is None,
            },
    {
        let ghost cs = self.chars@;
        let ghost p0 = self.current as int;
        let ghost c0 = self.column as int;
        proof {
            lemma_find_quote(cs, p0);
        }
        let mut string = String::new();
        loop
            invariant
                self.wf(),
                cs == old(self).chars@,
                p0 == old(self).current,
                c0 == old(self).column,
                self.chars@ == cs,
                self.line == old(self).line,
                p0 <= self.current,
                self.column == c0 + (self.current - p0),
                string@ == cs.subrange(p0, self.current as int),
                forall|k: int| p0 <= k < self.current ==> cs[k] != '"',
            decreases cs.len() - self.current,
        {
            if self.is_at_end() {
                proof {
                    lemma_find_quote(cs, p0);
                }
                return None;
            }
            let ch = self.advance();
            if ch == '"' {
                proof {
                    lemma_find_quote(cs, p0);
                }
                return Some(self.make_token(TokenType::StringLiteral(string)));
            }
            string_push(&mut string, ch);
            proof {
                assert(string@ =~= cs.subrange(p0, self.current as int));
            }
        }
    }

    fn scan_token(&mut self, tokens: &mut Vec<Token>) -> (r: Result<bool, LexError>)
        requires
            old(self).wf(),
            old(self).current < old(self).chars@.len(),
        ensures
            final(self).wf(),
            final(self).chars@ == old(self).chars@,
            match spec_scan_token(old(self).chars@, old(self).current as int, old(self).line as int, old(self).column as int) {
                Scan::Tok(t, p2, l2, c2) => r == Ok::<bool, LexError>(true)
                    && tokens_view(final(tokens)@) == tokens_view(old(tokens)@).push(t)
                    && final(self).state() == (p2, l2, c2),
                Scan::Error(e) => r matches Err(er) && er@ == e,
                Scan::Unterminated => r == Ok::<bool, LexError>(false),
            },
    {
        let ghost before = tokens_view(tokens@);
        let c = self.advance();
        let tok: Token = if c == '@' {
            self.make_token(TokenType::At)
        } else if c == '\'' {
            match self.scan_char() {
                Ok(t) => t,
                Err(e) => {
                    return Err(e);
                },
            }
        } else if c == '"' {
            match self.scan_string() {
                Some(t) => t,
                None => {
                    return Ok(false);
                },
            }
        } else if c == '.' {
            self.make_token(TokenType::Period)
        } else if c == '(' {
            self.make_token(TokenType::LeftParen)
        } else if c == ')' {
            self.make_token(TokenType::RightParen)
        } else if c == '{' {
            self.make_token(TokenType::LeftBrace)
        } else if c == '}' {
            self.make_token(TokenType::RightBrace)
        } else if c == '[' {
            self.make_token(TokenType::LeftBracket)
        } else if c == ']' {
            self.make_token(TokenType::RightBracket)
        } else if c == ',' {
            self.make_token(TokenType::Comma)
        } else if c == ';' {
            self.make_token(TokenType::Semicolon)
        } else if c == '+' {
            self.make_token(TokenType::Plus)
        } else if c == '*' {
            self.make_token(TokenType::Star)
        } else if c == '%' {
            self.make_token(TokenType::Percent)
        } else if c == '!' {
            let t = if self.match_char('=') {
                TokenType::BangEqual
            } else {
                TokenType::Bang
            };
            self.make_token(t)
        } else if c == ':' {
            let t = if self.match_char(':') {
                TokenType::DoubleColon
            } else {
                TokenType::Colon
            };
            self.make_token(t)
        } else if c == '=' {
            let t = if self.match_char('=') {
                TokenType::EqualEqual
            } else {
                TokenType::Equal
            };
            self.make_token(t)
        } else if c == '<' {
            let t = if self.match_char('=') {
                TokenType::LessEqual
            } else {
                TokenType::Less
            };
            self.make_token(t)
        } else if c == '>' {
            let t = if self.match_char('=') {
                TokenType::GreaterEqual
            } else {
                TokenType::Greater
            };
            self.make_token(t)
        } else if c == '-' {
            let t = if self.match_char('>') {
                TokenType::Arrow
            } else {
                TokenType::Minus
            };
            self.make_token(t)
        } else if c == '&' {
            if self.match_char('&') {
                self.make_token(TokenType::And)
            } else {
                self.make_token(TokenType::Ampersand)
            }
        } else if c == '|' {
            if self.match_char('|') {
                self.make_token(TokenType::Or)
            } else {
                return Err(LexError::InvalidCharacter(c, self.line, self.column));
            }
        } else if c == '/' {
            self.make_token(TokenType::Slash)
        } else if is_digit_char(c) {
            match self.scan_number() {
                Ok(t) => t,
                Err(e) => {
                    return Err(e);
                },
            }
        } else if is_alpha_char(c) || c == '_' {
            self.scan_identifier()
        } else {
            return Err(LexError::InvalidCharacter(c, self.line, self.column));
        };
        tokens.push(tok);
        proof {
            assert(tokens_view(tokens@) =~= before.push(tok@));
        }
        Ok(true)
    }

    /// Splits the rest of the source into tokens, ending with `Eof`; `None` when a string
    /// literal is never closed, a source on which `tokenize` would not return.
    pub fn try_tokenize(&mut self) -> (r: Option<Result<Vec<Token>, LexError>>)
        requires
            old(self).wf(),
        ensures
            match spec_tokenize_from(old(self).chars_view(), old(self).state().0, old(self).state().1, old(self).state().2, Seq::empty()) {
                LexOutcome::Tokens(ts) => r matches Some(Ok(v)) && tokens_view(v@) == ts,
                LexOutcome::Error(e) => r matches Some(Err(er)) && er@ == e,
                LexOutcome::Unterminated => r is None,
            },
    {
        let ghost cs = self.chars@;
        let ghost target = spec_tokenize_from(cs, self.current as int, self.line as int, self.column as int, Seq::empty());
        assert(target == spec_tokenize_from(old(self).chars_view(), old(self).state().0, old(self).state().1, old(self).state().2, Seq::empty()));
        let mut tokens: Vec<Token> = Vec::new();
        proof {
            assert(tokens_view(tokens@) =~= Seq::<TokenV>::empty());
        }
        while !self.is_at_end()
            invariant
                self.wf(),
                self.chars@ == cs,
                spec_tokenize_from(cs, self.current as int, self.line as int, self.column as int, tokens_view(tokens@)) == target,
                target == spec_tokenize_from(old(self).chars_view(), old(self).state().0, old(self).state().1, old(self).state().2, Seq::empty()),
            decreases cs.len() - self.current,
        {
            let ghost p0 = self.current as int;
            let ghost l0 = self.line as int;
            let ghost k0 = self.column as int;
            proof {
                lemma_skip_ws_mono(cs, p0, self.line as int, self.column as int, false);
            }
            self.skip_whitespace();
            if !self.is_at_end() {
                proof {
                    lemma_scan_advances(cs, self.current as int, self.line as int, self.column as int);
                    assert(target == match spec_scan_token(cs, self.current as int, self.line as int, self.column as int) {
                        Scan::Tok(t, p2, l2, c2) => spec_tokenize_from(cs, p2, l2, c2, tokens_view(tokens@).push(t)),
                        Scan::Error(e) => LexOutcome::Error(e),
                        Scan::Unterminated => LexOutcome::Unterminated,
                    });
                }
                match self.scan_token(&mut tokens) {
                    Err(e) => {
                        return Some(Err(e));
                    },
                    Ok(false) => {
                        return None;
                    },
                    Ok(true) => {},
                }
            }
        }
        let eof = self.make_token(TokenType::Eof);
        let ghost before = tokens_view(tokens@);
        tokens.push(eof);
        proof {
            assert(tokens_view(tokens@) =~= before.push(eof@));
        }
        Some(Ok(tokens))
    }

    /// Splits the source into tokens, ending with `Eof`.
    pub fn tokenize(&mut self) -> (r: Result<Vec<Token>, LexError>)
        requires
            old(self).wf(),
            !(spec_tokenize_from(old(self).chars_view(), old(self).state().0, old(self).state().1, old(self).state().2, Seq::empty()) is Unterminated),
        ensures
            match spec_tokenize_from(old(self).chars_view(), old(self).state().0, old(self).state().1, old(self).state().2, Seq::empty()) {
                LexOutcome::Tokens(ts) => r matches Ok(v) && tokens_view(v@) == ts,
                LexOutcome::Error(e) => r matches Err(er) && er@ == e,
                LexOutcome::Unterminated => false,
            },
    {
        self.try_tokenize().unwrap()
    }
}

proof fn lemma_scan_not_eof(cs: Seq<char>, p: int, line: int, col: int)
    requires
        0 <= p < cs.len(),
    ensures
        spec_scan_token(cs, p, line, col) matches Scan::Tok(t, _, _, _) ==> !(t.token_type is Eof),
{
}

proof fn lemma_tokenize_from_eof(cs: Seq<char>, p: int, line: int, col: int, acc: Seq<TokenV>)
    requires
        forall|i: int| 0 <= i < acc.len() ==> !((#[trigger] acc[i]).token_type is Eof),
    ensures
        spec_tokenize_from(cs, p, line, col, acc) matches LexOutcome::Tokens(ts) ==> {
            &&& ts.len() == acc.len() + 1 || ts.len() > acc.len() + 1
            &&& ts.take(acc.len() as int) == acc
            &&& ts.last().token_type is Eof
            &&& forall|i: int| 0 <= i < ts.len() - 1 ==> !((#[trigger] ts[i]).token_type is Eof)
        },
    decreases cs.len() - p,
{
    if p < 0 || p >= cs.len() {
        let ts = acc.push(mk(TokenTypeV::Eof, line, col, p));
        assert(ts.take(acc.len() as int) =~= acc);
    } else {
        let (p1, l1, c1) = spec_skip_ws(cs, p, line, col, false);
        lemma_skip_ws_mono(cs, p, line, col, false);
        if p1 >= cs.len() {
            let ts = acc.push(mk(TokenTypeV::Eof, l1, c1, p1));
            assert(ts.take(acc.len() as int) =~= acc);
        } else {
            lemma_scan_advances(cs, p1, l1, c1);
            lemma_scan_not_eof(cs, p1, l1, c1);
            if let Scan::Tok(t, p2, l2, c2) = spec_scan_token(cs, p1, l1, c1) {
                let acc2 = acc.push(t);
                assert forall|i: int| 0 <= i < acc2.len() implies !((#[trigger] acc2[i]).token_type is Eof) by {
                    if i < acc.len() {
                        assert(acc2[i] == acc[i]);
                    }
                }
                lemma_tokenize_from_eof(cs, p2, l2, c2, acc2);
                if let LexOutcome::Tokens(ts) = spec_tokenize_from(cs, p2, l2, c2, acc2) {
                    assert(ts.take(acc.len() as int) =~= ts.take(acc2.len() as int).take(acc.len() as int));
                    assert(acc2.take(acc.len() as int) =~= acc);
                }
            }
        }
    }
}

/// When a source splits into tokens, the list ends with the single `Eof` token.
pub proof fn law_tokens_end_with_eof(cs: Seq<char>)
    ensures
        spec_tokenize(cs) matches LexOutcome::Tokens(ts) ==> {
            &&& ts.len() >= 1
            &&& ts.last().token_type is Eof
            &&& forall|i: int| 0 <= i < ts.len() - 1 ==> !((#[trigger] ts[i]).token_type is Eof)
        },
{
    lemma_tokenize_from_eof(cs, 0, 1, 1, Seq::empty());
}

} // verus!
