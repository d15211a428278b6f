//! The Strategy Spec checks that go beyond its JSON Schema: unique ids, the syntax of each
//! entry's `when` expression and the ids it names, the minimum reward-to-risk; the canonical
//! text's exponent fix-up and its hash.
use crate::digest::{hex_encoded, sha256_digest, sha256_hex};
use crate::text::{nat_text, push_char, str_eq, u64_text};
use crate::validation::texts;
use vstd::prelude::*;
use vstd::string::*;
use vstd::utf8::{decode_utf8, encode_utf8, encode_utf8_decode_utf8, encode_utf8_valid_utf8, is_char_boundary};

verus! {

#[verifier::external_type_specification]
#[verifier::external_body]
pub struct ExJsonError(serde_json::Error);

/// One problem that the semantic check found.
#[derive(Debug, Clone)]
pub struct SemanticProblem {
    pub code: &'static str,
    pub message: String,
    pub path: Option<String>,
}

/// A problem's code, message and path, by their texts.
pub open spec fn problem_view(p: SemanticProblem) -> (Seq<char>, Seq<char>, Option<Seq<char>>) {
    (
        p.code@,
        p.message@,
        match p.path {
            Some(s) => Some(s@),
            None => None,
        },
    )
}

pub open spec fn problems_view(ps: Seq<SemanticProblem>) -> Seq<(Seq<char>, Seq<char>, Option<Seq<char>>)> {
    ps.map_values(|p: SemanticProblem| problem_view(p))
}

/// Spot or perpetual markets.
#[derive(Debug, Clone, Copy, PartialEq, Eq, Structural, Hash)]
pub enum AssetClass {
    Spot,
    Perp,
}

/// The venue a spec trades on.
#[derive(Debug, Clone, Copy, PartialEq, Eq, Structural, Hash)]
pub enum Exchange {
    Binance,
    Bybit,
}

/// Why a spec was rejected.
#[derive(Debug)]
pub enum SpecError {
    Schema(String),
    Semantic(Vec<SemanticProblem>),
    Json(serde_json::Error),
}

/// What the semantic check reads of a spec: the `id` of each indicator and each pattern
/// (`None` where an element has no string `id`), the `when` of each entry (`None` where it is
/// missing or no string), and whether `risk.min_rr` is a number below three.
#[derive(Debug, Clone)]
pub struct SpecOutline {
    pub indicator_ids: Vec<Option<String>>,
    pub pattern_ids: Vec<Option<String>>,
    pub entry_whens: Vec<Option<String>>,
    pub min_rr_below_three: bool,
}

// ---- characters and bytes ----

pub open spec fn is_lower_byte(b: u8) -> bool {
    97 <= b <= 122
}

pub open spec fn is_digit_byte(b: u8) -> bool {
    48 <= b <= 57
}

/// `u8::is_ascii_whitespace`: space, tab, line feed, form feed, carriage return.
pub open spec fn is_space_byte(b: u8) -> bool {
    b == 32 || b == 9 || b == 10 || b == 12 || b == 13
}

pub open spec fn is_word_byte(b: u8) -> bool {
    is_lower_byte(b) || is_digit_byte(b) || b == 95
}

pub open spec fn is_lower_char(c: char) -> bool {
    'a' <= c <= 'z'
}

pub open spec fn is_word_char(c: char) -> bool {
    is_lower_char(c) || ('0' <= c <= '9') || c == '_'
}

/// `char::is_whitespace`: the Unicode `White_Space` property.
pub open spec fn is_white_space(c: char) -> bool {
    let n = c as u32;
    (9 <= n <= 13) || n == 32 || n == 0x85 || n == 0xa0 || n == 0x1680 || (0x2000 <= n <= 0x200a)
        || n == 0x2028 || n == 0x2029 || n == 0x202f || n == 0x205f || n == 0x3000
}

pub open spec fn trim_start(s: Seq<char>) -> Seq<char>
    decreases s.len(),
{
    if s.len() > 0 && is_white_space(s[0]) {
        trim_start(s.drop_first())
    } else {
        s
    }
}

pub open spec fn trim_end(s: Seq<char>) -> Seq<char>
    decreases s.len(),
{
    if s.len() > 0 && is_white_space(s.last()) {
        trim_end(s.drop_last())
    } else {
        s
    }
}

/// `str::trim`: leading and trailing white space removed.
pub open spec fn trimmed(s: Seq<char>) -> Seq<char> {
    trim_end(trim_start(s))
}

/// The characters of ASCII bytes.
pub open spec fn ascii_text(b: Seq<u8>) -> Seq<char> {
    b.map_values(|x: u8| x as char)
}

/// What `{:?}` writes for a string: the text in double quotes, with escapes.
pub uninterp spec fn debug_text(s: Seq<char>) -> Seq<char>;

/// `str::trim`.
#[verifier::external_body]
pub(crate) fn trim_text(s: &str) -> (r: &str)
    ensures
        r@ == trimmed(s@),
{
    s.trim()
}

/// `&s[from..to]`, on character boundaries.
#[verifier::external_body]
fn str_slice(s: &str, from: usize, to: usize) -> (r: &str)
    requires
        from <= to <= s.spec_bytes().len(),
        is_char_boundary(s.spec_bytes(), from as int),
        is_char_boundary(s.spec_bytes(), to as int),
    ensures
        r.spec_bytes() == s.spec_bytes().subrange(from as int, to as int),
{
    &s[from..to]
}

/// `format!("{:?}", s)`.
#[verifier::external_body]
fn debug_quoted(s: &str) -> (r: String)
    ensures
        r@ == debug_text(s@),
{
    format!("{:?}", s)
}

// ---- tokenizing `when` ----

/// The end of the identifier characters from `i` on.
pub open spec fn ident_end(b: Seq<u8>, i: int) -> int
    decreases b.len() - i,
{
    if 0 <= i < b.len() && is_word_byte(b[i]) {
        ident_end(b, i + 1)
    } else {
        i
    }
}

pub open spec fn prepend(tok: Seq<char>, rest: Result<Seq<Seq<char>>, int>) -> Result<
    Seq<Seq<char>>,
    int,
> {
    match rest {
        Ok(t) => Ok(seq![tok] + t),
        Err(p) => Err(p),
    }
}

/// The tokens of `b` from byte `i` on: `&&`, `||`, `!`, `(`, `)` and identifiers (a lower-case
/// letter, then lower-case letters, digits and underscores), with ASCII white space between
/// them; `Err` with the position of the first byte that starts no token.
pub open spec fn tokenize_from(b: Seq<u8>, i: int) -> Result<Seq<Seq<char>>, int>
    decreases b.len() - i,
{
    if i < 0 || i >= b.len() {
        Ok(seq![])
    } else if is_space_byte(b[i]) {
        tokenize_from(b, i + 1)
    } else if i + 1 < b.len() && b[i] == 38 && b[i + 1] == 38 {
        prepend("&&"@, tokenize_from(b, i + 2))
    } else if i + 1 < b.len() && b[i] == 124 && b[i + 1] == 124 {
        prepend("||"@, tokenize_from(b, i + 2))
    } else if b[i] == 33 {
        prepend("!"@, tokenize_from(b, i + 1))
    } else if b[i] == 40 {
        prepend("("@, tokenize_from(b, i + 1))
    } else if b[i] == 41 {
        prepend(")"@, tokenize_from(b, i + 1))
    } else if is_lower_byte(b[i]) {
        let e = ident_end(b, i + 1);
        if i < e <= b.len() {
            prepend(ascii_text(b.subrange(i, e)), tokenize_from(b, e))
        } else {
            Err(i)
        }
    } else {
        Err(i)
    }
}

/// The end of the four-byte window shown in a tokenizing error at `p`.
pub open spec fn window_end(b: Seq<u8>, p: int) -> int {
    if p + 4 < b.len() {
        p + 4
    } else {
        b.len() as int
    }
}

/// Whether tokenizing `b` can report its error: the window it shows lies on character
/// boundaries (where it does not, the text cannot be sliced there).
pub open spec fn tokenize_reportable(b: Seq<u8>) -> bool {
    tokenize_from(b, 0) matches Err(p) ==> is_char_boundary(b, p) && is_char_boundary(
        b,
        window_end(b, p),
    )
}

pub open spec fn unexpected_token(t: Seq<char>) -> Seq<char> {
    "unexpected token "@ + debug_text(t)
}

proof fn lemma_ident_end(b: Seq<u8>, i: int)
    requires
        0 <= i <= b.len(),
    ensures
        i <= ident_end(b, i) <= b.len(),
        forall|j: int| i <= j < ident_end(b, i) ==> is_word_byte(#[trigger] b[j]),
        ident_end(b, i) < b.len() ==> !is_word_byte(b[ident_end(b, i)]),
    decreases b.len() - i,
{
    if i < b.len() && is_word_byte(b[i]) {
        lemma_ident_end(b, i + 1);
    }
}

fn push_token(tokens: &mut Vec<String>, tok: &str)
    ensures
        texts(final(tokens)@) == texts(old(tokens)@).push(tok@),
{
    let ghost before = tokens@;
    tokens.push(String::from_str(tok));
    assert(texts(tokens@) =~= texts(before).push(tok@));
}

/// Splits a `when` expression into tokens, or names the first text that starts no token.
fn tokenize_when(s: &str) -> (r: Result<Vec<String>, String>)
    requires
        tokenize_reportable(s.spec_bytes()),
    ensures
        match r {
            Ok(t) => tokenize_from(s.spec_bytes(), 0) == Ok::<Seq<Seq<char>>, int>(texts(t@)),
            Err(m) => tokenize_from(s.spec_bytes(), 0) matches Err(p) && m@ == unexpected_token(
                decode_utf8(s.spec_bytes().subrange(p, window_end(s.spec_bytes(), p))),
            ),
        },
{
    let b = s.as_bytes();
    let n = b.len();
    let ghost bs = b@;
    let mut tokens: Vec<String> = Vec::new();
    let mut i: usize = 0;
    proof {
        reveal_strlit("&&");
        reveal_strlit("||");
        reveal_strlit("!");
        reveal_strlit("(");
        reveal_strlit(")");
    }
    while i < n
        invariant
            bs == s.spec_bytes(),
            tokenize_reportable(bs),
            b@ == bs,
            n == bs.len(),
            i <= n,
            tokenize_from(bs, 0) == (match tokenize_from(bs, i as int) {
                Ok(t) => Ok(texts(tokens@) + t),
                Err(p) => Err(p),
            }),
        decreases n - i,
    {
        if b[i] == 32 || b[i] == 9 || b[i] == 10 || b[i] == 12 || b[i] == 13 {
            i = i + 1;
        } else if n - i >= 2 && b[i] == 38 && b[i + 1] == 38 {
            let ghost before = texts(tokens@);
            push_token(&mut tokens, "&&");
            proof {
                match tokenize_from(bs, i + 2) {
                    Ok(t) => assert(before + (seq!["&&"@] + t) =~= texts(tokens@) + t),
                    Err(_) => {},
                }
            }
            i = i + 2;
        } else if n - i >= 2 && b[i] == 124 && b[i + 1] == 124 {
            let ghost before = texts(tokens@);
            push_token(&mut tokens, "||");
            proof {
                match tokenize_from(bs, i + 2) {
                    Ok(t) => assert(before + (seq!["||"@] + t) =~= texts(tokens@) + t),
                    Err(_) => {},
                }
            }
            i = i + 2;
        } else if b[i] == 33 || b[i] == 40 || b[i] == 41 {
            let ghost before = texts(tokens@);
            let op: &str = if b[i] == 33 {
                "!"
            } else if b[i] == 40 {
                "("
            } else {
                ")"
            };
            push_token(&mut tokens, op);
            proof {
                match tokenize_from(bs, i + 1) {
                    Ok(t) => assert(before + (seq![op@] + t) =~= texts(tokens@) + t),
                    Err(_) => {},
                }
            }
            i = i + 1;
        } else if 97 <= b[i] && b[i] <= 122 {
            let start = i;
            let mut tok = String::new();
            push_char(&mut tok, b[i] as char);
            i = i + 1;
            while i < n && (97 <= b[i] && b[i] <= 122 || 48 <= b[i] && b[i] <= 57 || b[i] == 95)
                invariant
                    b@ == bs,
                    n == bs.len(),
                    start < i <= n,
                    ident_end(bs, start + 1) == ident_end(bs, i as int),
                    tok@ =~= ascii_text(bs.subrange(start as int, i as int)),
                decreases n - i,
            {
                push_char(&mut tok, b[i] as char);
                i = i + 1;
            }
            let ghost before = texts(tokens@);
            let ghost tk = tok@;
            tokens.push(tok);
            proof {
                assert(ident_end(bs, i as int) == i);
                assert(texts(tokens@) =~= before.push(tk));
                match tokenize_from(bs, i as int) {
                    Ok(t) => assert(before + (seq![tk] + t) =~= texts(tokens@) + t),
                    Err(_) => {},
                }
            }
        } else {
            let end = if n - i > 4 {
                i + 4
            } else {
                n
            };
            proof {
                assert(tokenize_from(bs, i as int) == Err::<Seq<Seq<char>>, int>(i as int));
                encode_utf8_valid_utf8(s@);
            }
            let piece = str_slice(s, i, end);
            proof {
                encode_utf8_decode_utf8(piece@);
            }
            let mut m = String::from_str("unexpected token ");
            m.append(debug_quoted(piece).as_str());
            return Err(m);
        }
    }
    proof {
        assert(texts(tokens@) + seq![] =~= texts(tokens@));
    }
    Ok(tokens)
}

// ---- parsing `when` ----

/// Whether token `p` is `x`.
pub open spec fn tok_at(t: Seq<Seq<char>>, p: int, x: Seq<char>) -> bool {
    0 <= p < t.len() && t[p] == x
}

pub open spec fn starts_lower(s: Seq<char>) -> bool {
    s.len() > 0 && is_lower_char(s[0])
}

/// `or ::= and ('||' and)*`, from token `p`: the position after it, or the error.
pub open spec fn spec_parse_or(t: Seq<Seq<char>>, p: int) -> Result<int, Seq<char>>
    decreases t.len() - p, 5int,
{
    if !(0 <= p <= t.len()) {
        Err(seq![])
    } else {
        match spec_parse_and(t, p) {
            Err(m) => Err(m),
            Ok(q) => if p < q <= t.len() {
                spec_parse_or_rest(t, q)
            } else {
                Err(seq![])
            },
        }
    }
}

pub open spec fn spec_parse_or_rest(t: Seq<Seq<char>>, q: int) -> Result<int, Seq<char>>
    decreases t.len() - q, 4int,
{
    if !(0 <= q <= t.len()) {
        Err(seq![])
    } else if tok_at(t, q, "||"@) {
        match spec_parse_and(t, q + 1) {
            Err(m) => Err(m),
            Ok(r) => if q + 1 < r <= t.len() {
                spec_parse_or_rest(t, r)
            } else {
                Err(seq![])
            },
        }
    } else {
        Ok(q)
    }
}

/// `and ::= not ('&&' not)*`.
pub open spec fn spec_parse_and(t: Seq<Seq<char>>, p: int) -> Result<int, Seq<char>>
    decreases t.len() - p, 3int,
{
    if !(0 <= p <= t.len()) {
        Err(seq![])
    } else {
        match spec_parse_not(t, p) {
            Err(m) => Err(m),
            Ok(q) => if p < q <= t.len() {
                spec_parse_and_rest(t, q)
            } else {
                Err(seq![])
            },
        }
    }
}

pub open spec fn spec_parse_and_rest(t: Seq<Seq<char>>, q: int) -> Result<int, Seq<char>>
    decreases t.len() - q, 2int,
{
    if !(0 <= q <= t.len()) {
        Err(seq![])
    } else if tok_at(t, q, "&&"@) {
        match spec_parse_not(t, q + 1) {
            Err(m) => Err(m),
            Ok(r) => if q + 1 < r <= t.len() {
                spec_parse_and_rest(t, r)
            } else {
                Err(seq![])
            },
        }
    } else {
        Ok(q)
    }
}

/// `not ::= '!' not | primary`.
pub open spec fn spec_parse_not(t: Seq<Seq<char>>, p: int) -> Result<int, Seq<char>>
    decreases t.len() - p, 1int,
{
    if !(0 <= p <= t.len()) {
        Err(seq![])
    } else if tok_at(t, p, "!"@) {
        spec_parse_not(t, p + 1)
    } else {
        spec_parse_primary(t, p)
    }
}

/// `primary ::= ID | '(' or ')'`.
pub open spec fn spec_parse_primary(t: Seq<Seq<char>>, p: int) -> Result<int, Seq<char>>
    decreases t.len() - p, 0int,
{
    if !(0 <= p <= t.len()) {
        Err(seq![])
    } else if p == t.len() {
        Err("unexpected end of expression"@)
    } else if t[p] == "("@ {
        match spec_parse_or(t, p + 1) {
            Err(m) => Err(m),
            Ok(q) => if tok_at(t, q, ")"@) {
                Ok(q + 1)
            } else {
                Err("expected ')'"@)
            },
        }
    } else if starts_lower(t[p]) {
        Ok(p + 1)
    } else {
        Err(unexpected_token(t[p]))
    }
}

/// The verdict on a (trimmed) `when` expression.
pub open spec fn spec_parse_when(s: Seq<char>) -> Result<(), Seq<char>> {
    let b = encode_utf8(s);
    if s.len() == 0 {
        Err("expression cannot be empty"@)
    } else {
        match tokenize_from(b, 0) {
            Err(p) => Err(unexpected_token(decode_utf8(b.subrange(p, window_end(b, p))))),
            Ok(t) => match spec_parse_or(t, 0) {
                Err(m) => Err(m),
                Ok(q) => if q < t.len() {
                    Err(unexpected_token(t[q]))
                } else {
                    Ok(())
                },
            },
        }
    }
}

fn token_is(t: &[String], p: usize, x: &str) -> (r: bool)
    ensures
        r == tok_at(texts(t@), p as int, x@),
        r ==> p < t.len(),
{
    p < t.len() && str_eq(t[p].as_str(), x)
}

fn token_starts_lower(s: &str) -> (r: bool)
    ensures
        r == starts_lower(s@),
{
    if s.unicode_len() == 0 {
        false
    } else {
        let c = s.get_char(0);
        let n = c as u32;
        97 <= n && n <= 122
    }
}

fn parse_or(tokens: &[String], pos: usize) -> (r: Result<usize, String>)
    requires
        pos <= tokens@.len(),
    ensures
        match r {
            Ok(q) => spec_parse_or(texts(tokens@), pos as int) == Ok::<int, Seq<char>>(q as int)
                && pos < q <= tokens@.len(),
            Err(m) => spec_parse_or(texts(tokens@), pos as int) == Err::<int, Seq<char>>(m@),
        },
    decreases tokens@.len() - pos, 5int,
{
    match parse_and(tokens, pos) {
        Err(m) => Err(m),
        Ok(q) => parse_or_rest(tokens, q),
    }
}

fn parse_or_rest(tokens: &[String], pos: usize) -> (r: Result<usize, String>)
    requires
        pos <= tokens@.len(),
    ensures
        match r {
            Ok(q) => spec_parse_or_rest(texts(tokens@), pos as int) == Ok::<int, Seq<char>>(
                q as int,
            ) && pos <= q <= tokens@.len(),
            Err(m) => spec_parse_or_rest(texts(tokens@), pos as int) == Err::<int, Seq<char>>(
                m@,
            ),
        },
    decreases tokens@.len() - pos, 4int,
{
    proof {
        reveal_strlit("||");
    }
    if token_is(tokens, pos, "||") {
        match parse_and(tokens, pos + 1) {
            Err(m) => Err(m),
            Ok(q) => parse_or_rest(tokens, q),
        }
    } else {
        Ok(pos)
    }
}

fn parse_and(tokens: &[String], pos: usize) -> (r: Result<usize, String>)
    requires
        pos <= tokens@.len(),
    ensures
        match r {
            Ok(q) => spec_parse_and(texts(tokens@), pos as int) == Ok::<int, Seq<char>>(q as int)
                && pos < q <= tokens@.len(),
            Err(m) => spec_parse_and(texts(tokens@), pos as int) == Err::<int, Seq<char>>(m@),
        },
    decreases tokens@.len() - pos, 3int,
{
    match parse_not(tokens, pos) {
        Err(m) => Err(m),
        Ok(q) => parse_and_rest(tokens, q),
    }
}

fn parse_and_rest(tokens: &[String], pos: usize) -> (r: Result<usize, String>)
    requires
        pos <= tokens@.len(),
    ensures
        match r {
            Ok(q) => spec_parse_and_rest(texts(tokens@), pos as int) == Ok::<int, Seq<char>>(
                q as int,
            ) && pos <= q <= tokens@.len(),
            Err(m) => spec_parse_and_rest(texts(tokens@), pos as int) == Err::<int, Seq<char>>(
                m@,
            ),
        },
    decreases tokens@.len() - pos, 2int,
{
    proof {
        reveal_strlit("&&");
    }
    if token_is(tokens, pos, "&&") {
        match parse_not(tokens, pos + 1) {
            Err(m) => Err(m),
            Ok(q) => parse_and_rest(tokens, q),
        }
    } else {
        Ok(pos)
    }
}

fn parse_not(tokens: &[String], pos: usize) -> (r: Result<usize, String>)
    requires
        pos <= tokens@.len(),
    ensures
        match r {
            Ok(q) => spec_parse_not(texts(tokens@), pos as int) == Ok::<int, Seq<char>>(q as int)
                && pos < q <= tokens@.len(),
            Err(m) => spec_parse_not(texts(tokens@), pos as int) == Err::<int, Seq<char>>(m@),
        },
    decreases tokens@.len() - pos, 1int,
{
    if token_is(tokens, pos, "!") {
        parse_not(tokens, pos + 1)
    } else {
        parse_primary(tokens, pos)
    }
}

fn parse_primary(tokens: &[String], pos: usize) -> (r: Result<usize, String>)
    requires
        pos <= tokens@.len(),
    ensures
        match r {
            Ok(q) => spec_parse_primary(texts(tokens@), pos as int) == Ok::<int, Seq<char>>(
                q as int,
            ) && pos < q <= tokens@.len(),
            Err(m) => spec_parse_primary(texts(tokens@), pos as int) == Err::<int, Seq<char>>(
                m@,
            ),
        },
    decreases tokens@.len() - pos, 0int,
{
    if pos == tokens.len() {
        return Err(String::from_str("unexpected end of expression"));
    }
    if token_is(tokens, pos, "(") {
        match parse_or(tokens, pos + 1) {
            Err(m) => Err(m),
            Ok(q) => if token_is(tokens, q, ")") {
                Ok(q + 1)
            } else {
                Err(String::from_str("expected ')'"))
            },
        }
    } else if token_starts_lower(tokens[pos].as_str()) {
        Ok(pos + 1)
    } else {
        let mut m = String::from_str("unexpected token ");
        m.append(debug_quoted(tokens[pos].as_str()).as_str());
        Err(m)
    }
}

/// Checks a (trimmed) `when` expression against the grammar.
fn parse_when(s: &str) -> (r: Result<(), String>)
    requires
        tokenize_reportable(s.spec_bytes()),
    ensures
        match r {
            Ok(()) => spec_parse_when(s@) is Ok,
            Err(m) => spec_parse_when(s@) == Err::<(), Seq<char>>(m@),
        },
{
    if s.is_empty() {
        return Err(String::from_str("expression cannot be empty"));
    }
    let tokens = match tokenize_when(s) {
        Ok(t) => t,
        Err(m) => {
            return Err(m);
        },
    };
    match parse_or(tokens.as_slice(), 0) {
        Err(m) => Err(m),
        Ok(q) => if q < tokens.len() {
            let mut m = String::from_str("unexpected token ");
            m.append(debug_quoted(tokens[q].as_str()).as_str());
            Err(m)
        } else {
            Ok(())
        },
    }
}

// ---- identifiers named in `when` ----

/// The words collected from the characters of `s`: runs of lower-case letters, digits and
/// underscores, kept when they start with a lower-case letter; and the run still open.
pub open spec fn word_scan(s: Seq<char>) -> (Seq<Seq<char>>, Seq<char>)
    decreases s.len(),
{
    if s.len() == 0 {
        (seq![], seq![])
    } else {
        let (out, cur) = word_scan(s.drop_last());
        let c = s.last();
        if is_word_char(c) {
            (out, cur.push(c))
        } else if starts_lower(cur) {
            (out.push(cur), seq![])
        } else {
            (out, seq![])
        }
    }
}

/// The identifiers a `when` expression names, in order.
pub open spec fn when_tokens(s: Seq<char>) -> Seq<Seq<char>> {
    let (out, cur) = word_scan(s);
    if starts_lower(cur) {
        out.push(cur)
    } else {
        out
    }
}

/// The identifiers named in `when`.
fn tokens(when: &str) -> (r: Vec<String>)
    ensures
        texts(r@) == when_tokens(when@),
{
    let n = when.unicode_len();
    let mut out: Vec<String> = Vec::new();
    let mut cur = String::new();
    let mut i: usize = 0;
    while i < n
        invariant
            n == when@.len(),
            i <= n,
            (texts(out@), cur@) == word_scan(when@.take(i as int)),
        decreases n - i,
    {
        let c = when.get_char(i);
        let ghost prev = when@.take(i as int);
        assert(when@.take(i + 1).drop_last() =~= prev);
        assert(when@.take(i + 1).last() == c);
        let k = c as u32;
        if (97 <= k && k <= 122) || (48 <= k && k <= 57) || k == 95 {
            push_char(&mut cur, c);
        } else if token_starts_lower(cur.as_str()) {
            let ghost before = texts(out@);
            out.push(cur);
            assert(texts(out@) =~= before.push(word_scan(prev).1));
            cur = String::new();
        } else {
            cur = String::new();
        }
        i = i + 1;
    }
    assert(when@.take(n as int) =~= when@);
    if token_starts_lower(cur.as_str()) {
        let ghost before = texts(out@);
        let ghost last = cur@;
        out.push(cur);
        assert(texts(out@) =~= before.push(last));
    }
    out
}

// ---- duplicate ids ----

/// Whether some text occurs twice.
pub open spec fn has_dup(xs: Seq<Seq<char>>) -> bool {
    exists|i: int, j: int| 0 <= i < j < xs.len() && xs[i] == xs[j]
}

/// Whether some id occurs twice.
fn has_dups(xs: &[String]) -> (r: bool)
    ensures
        r == has_dup(texts(xs@)),
{
    let ghost t = texts(xs@);
    let mut j: usize = 0;
    while j < xs.len()
        invariant
            t == texts(xs@),
            j <= xs@.len(),
            forall|a: int, b: int| 0 <= a < b < j ==> t[a] != t[b],
        decreases xs@.len() - j,
    {
        let mut i: usize = 0;
        while i < j
            invariant
                t == texts(xs@),
                i <= j < xs@.len(),
                forall|a: int| 0 <= a < i ==> t[a] != t[j as int],
            decreases j - i,
        {
            if str_eq(xs[i].as_str(), xs[j].as_str()) {
                assert(t[i as int] == t[j as int]);
                return true;
            }
            i = i + 1;
        }
        j = j + 1;
    }
    false
}

// ---- the semantic check ----

pub open spec fn problem(code: Seq<char>, message: Seq<char>, path: Seq<char>) -> (
    Seq<char>,
    Seq<char>,
    Option<Seq<char>>,
) {
    (code, message, Some(path))
}

pub open spec fn when_path(i: nat) -> Seq<char> {
    "entries["@ + nat_text(i) + "].when"@
}

/// The syntax problem of entry `i`'s `when` (checked after trimming), if any.
pub open spec fn syntax_problems(w: Seq<char>, i: nat) -> Seq<
    (Seq<char>, Seq<char>, Option<Seq<char>>),
> {
    match spec_parse_when(trimmed(w)) {
        Ok(()) => seq![],
        Err(m) => seq![
            problem("invalid_when_syntax"@, when_path(i) + ": "@ + m, when_path(i)),
        ],
    }
}

/// One problem per identifier in `toks` that is neither a boolean literal nor a known id.
pub open spec fn unknown_problems(toks: Seq<Seq<char>>, known: Seq<Seq<char>>, i: nat) -> Seq<
    (Seq<char>, Seq<char>, Option<Seq<char>>),
>
    decreases toks.len(),
{
    if toks.len() == 0 {
        seq![]
    } else {
        let rest = unknown_problems(toks.drop_last(), known, i);
        let tok = toks.last();
        if tok == "true"@ || tok == "false"@ || known.contains(tok) {
            rest
        } else {
            rest.push(
                problem(
                    "unknown_id"@,
                    when_path(i) + " references unknown id \""@ + tok + "\""@,
                    when_path(i),
                ),
            )
        }
    }
}

/// The `when` text of an entry (empty where it has none).
pub open spec fn when_text(w: Option<String>) -> Seq<char> {
    match w {
        Some(s) => s@,
        None => seq![],
    }
}

/// The problems of the entries, entry by entry: its syntax, then its unknown ids.
pub open spec fn entry_problems(whens: Seq<Option<String>>, known: Seq<Seq<char>>) -> Seq<
    (Seq<char>, Seq<char>, Option<Seq<char>>),
>
    decreases whens.len(),
{
    if whens.len() == 0 {
        seq![]
    } else {
        let i = (whens.len() - 1) as nat;
        let w = when_text(whens.last());
        entry_problems(whens.drop_last(), known) + syntax_problems(w, i) + unknown_problems(
            when_tokens(w),
            known,
            i,
        )
    }
}

/// The ids that are present, in order.
pub open spec fn present_ids(xs: Seq<Option<String>>) -> Seq<Seq<char>>
    decreases xs.len(),
{
    if xs.len() == 0 {
        seq![]
    } else {
        match xs.last() {
            Some(s) => present_ids(xs.drop_last()).push(s@),
            None => present_ids(xs.drop_last()),
        }
    }
}

/// Every problem the semantic check reports, in order: duplicate indicator ids, duplicate
/// pattern ids, each entry's `when`, and a minimum reward-to-risk below three.
pub open spec fn semantic_problems(o: SpecOutline) -> Seq<(Seq<char>, Seq<char>, Option<Seq<char>>)> {
    let ind = present_ids(o.indicator_ids@);
    let pat = present_ids(o.pattern_ids@);
    (if has_dup(ind) {
        seq![problem("dup_indicator_id"@, "indicator ids must be unique"@, "indicators"@)]
    } else {
        seq![]
    }) + (if has_dup(pat) {
        seq![problem("dup_pattern_id"@, "pattern ids must be unique"@, "patterns"@)]
    } else {
        seq![]
    }) + entry_problems(o.entry_whens@, ind + pat) + (if o.min_rr_below_three {
        seq![
            problem(
                "min_rr_below_three"@,
                "risk.min_rr must be >= 3 (Apostila methodology requires >= 3)"@,
                "risk.min_rr"@,
            ),
        ]
    } else {
        seq![]
    })
}

/// The inputs on which the check can report every syntax error: for each entry, tokenizing
/// its trimmed `when` fails, if at all, where the shown window lies on character boundaries.
pub open spec fn whens_reportable(whens: Seq<Option<String>>) -> bool {
    forall|i: int|
        0 <= i < whens.len() ==> tokenize_reportable(
            encode_utf8(trimmed(when_text(#[trigger] whens[i]))),
        )
}

fn push_problem(problems: &mut Vec<SemanticProblem>, p: SemanticProblem)
    ensures
        problems_view(final(problems)@) == problems_view(old(problems)@).push(problem_view(p)),
{
    let ghost before = problems@;
    problems.push(p);
    assert(problems_view(problems@) =~= problems_view(before).push(problem_view(p)));
}

fn when_path_text(index: usize) -> (r: String)
    ensures
        r@ == when_path(index as nat),
{
    let mut path = String::from_str("entries[");
    path.append(u64_text(index as u64).as_str());
    path.append("].when");
    path
}

/// Adds the syntax problem of entry `index`'s `when`, if any.
fn check_when_syntax(when: &str, index: usize, problems: &mut Vec<SemanticProblem>)
    requires
        tokenize_reportable(encode_utf8(trimmed(when@))),
    ensures
        problems_view(final(problems)@) == problems_view(old(problems)@) + syntax_problems(
            when@,
            index as nat,
        ),
{
    let trimmed_when = trim_text(when);
    match parse_when(trimmed_when) {
        Ok(()) => {
            assert(problems_view(problems@) + seq![] =~= problems_view(problems@));
        },
        Err(msg) => {
            let path = when_path_text(index);
            let mut message = when_path_text(index);
            message.append(": ");
            message.append(msg.as_str());
            let ghost before = problems_view(problems@);
            push_problem(
                problems,
                SemanticProblem { code: "invalid_when_syntax", message, path: Some(path) },
            );
            assert(problems_view(problems@) =~= before + syntax_problems(when@, index as nat));
        },
    }
}

fn ids_of(xs: &Vec<Option<String>>) -> (r: Vec<String>)
    ensures
        texts(r@) == present_ids(xs@),
{
    let mut out: Vec<String> = Vec::new();
    let mut i: usize = 0;
    while i < xs.len()
        invariant
            i <= xs@.len(),
            texts(out@) == present_ids(xs@.take(i as int)),
        decreases xs@.len() - i,
    {
        assert(xs@.take(i + 1).drop_last() =~= xs@.take(i as int));
        assert(xs@.take(i + 1).last() == xs@[i as int]);
        match &xs[i] {
            Some(s) => {
                let ghost before = texts(out@);
                out.push(s.clone());
                assert(texts(out@) =~= before.push(s@));
            },
            None => {},
        }
        i = i + 1;
    }
    assert(xs@.take(xs@.len() as int) =~= xs@);
    out
}

fn contains_id(xs: &Vec<String>, x: &str) -> (r: bool)
    ensures
        r == texts(xs@).contains(x@),
{
    let mut i: usize = 0;
    while i < xs.len()
        invariant
            i <= xs@.len(),
            forall|j: int| 0 <= j < i ==> (#[trigger] xs@[j])@ != x@,
        decreases xs@.len() - i,
    {
        if str_eq(xs[i].as_str(), x) {
            assert(texts(xs@)[i as int] == x@);
            return true;
        }
        i = i + 1;
    }
    proof {
        if texts(xs@).contains(x@) {
            let j = choose|j: int| 0 <= j < texts(xs@).len() && texts(xs@)[j] == x@;
            assert(xs@[j]@ == x@);
        }
    }
    false
}

/// Adds the unknown-id problems of entry `index`, whose identifiers are `toks`.
fn check_known_ids(
    toks: &Vec<String>,
    ind_ids: &Vec<String>,
    pat_ids: &Vec<String>,
    index: usize,
    problems: &mut Vec<SemanticProblem>,
)
    ensures
        problems_view(final(problems)@) == problems_view(old(problems)@) + unknown_problems(
            texts(toks@),
            texts(ind_ids@) + texts(pat_ids@),
            index as nat,
        ),
{
    let ghost known = texts(ind_ids@) + texts(pat_ids@);
    let ghost start = problems_view(problems@);
    let mut k: usize = 0;
    proof {
        reveal_strlit("true");
        reveal_strlit("false");
        assert(start + seq![] =~= start);
        assert(texts(toks@).take(0) =~= seq![]);
    }
    while k < toks.len()
        invariant
            k <= toks@.len(),
            known == texts(ind_ids@) + texts(pat_ids@),
            problems_view(problems@) == start + unknown_problems(
                texts(toks@).take(k as int),
                known,
                index as nat,
            ),
        decreases toks@.len() - k,
    {
        let tok = toks[k].as_str();
        let ghost prefix = texts(toks@).take(k as int);
        assert(texts(toks@).take(k + 1).drop_last() =~= prefix);
        assert(texts(toks@).take(k + 1).last() == tok@);
        let known_here = contains_id(ind_ids, tok) || contains_id(pat_ids, tok);
        proof {
            assert(known.contains(tok@) <==> (texts(ind_ids@).contains(tok@) || texts(
                pat_ids@,
            ).contains(tok@))) by {
                if known.contains(tok@) {
                    let j = choose|j: int| 0 <= j < known.len() && known[j] == tok@;
                    if j >= texts(ind_ids@).len() {
                        assert(texts(pat_ids@)[j - texts(ind_ids@).len()] == tok@);
                    }
                }
                if texts(pat_ids@).contains(tok@) {
                    let j = choose|j: int|
                        0 <= j < texts(pat_ids@).len() && texts(pat_ids@)[j] == tok@;
                    assert(known[j + texts(ind_ids@).len()] == tok@);
                }
                if texts(ind_ids@).contains(tok@) {
                    let j = choose|j: int|
                        0 <= j < texts(ind_ids@).len() && texts(ind_ids@)[j] == tok@;
                    assert(known[j] == tok@);
                }
            }
        }
        if !(str_eq(tok, "true") || str_eq(tok, "false") || known_here) {
            let path = when_path_text(index);
            let mut message = when_path_text(index);
            message.append(" references unknown id \"");
            message.append(tok);
            message.append("\"");
            let ghost before = problems_view(problems@);
            push_problem(
                problems,
                SemanticProblem { code: "unknown_id", message, path: Some(path) },
            );
            assert(before.push(problems_view(problems@).last()) =~= problems_view(problems@));
        }
        k = k + 1;
    }
    assert(texts(toks@).take(toks@.len() as int) =~= texts(toks@));
}

/// The checks beyond the JSON Schema: unique indicator and pattern ids, well-formed `when`
/// expressions that name only known ids (or `true`/`false`), and a minimum
/// reward-to-risk of at least three. `Ok` exactly when there is no problem.
pub fn semantic_check(spec: &SpecOutline) -> (r: Result<(), SpecError>)
    requires
        whens_reportable(spec.entry_whens@),
    ensures
        r is Ok <==> semantic_problems(*spec).len() == 0,
        r is Err ==> (r matches Err(SpecError::Semantic(ps)) && problems_view(ps@)
            == semantic_problems(*spec)),
{
    let mut problems: Vec<SemanticProblem> = Vec::new();
    let ind_ids = ids_of(&spec.indicator_ids);
    let pat_ids = ids_of(&spec.pattern_ids);
    let ghost ind = texts(ind_ids@);
    let ghost pat = texts(pat_ids@);
    if has_dups(ind_ids.as_slice()) {
        push_problem(
            &mut problems,
            SemanticProblem {
                code: "dup_indicator_id",
                message: String::from_str("indicator ids must be unique"),
                path: Some(String::from_str("indicators")),
            },
        );
    }
    if has_dups(pat_ids.as_slice()) {
        push_problem(
            &mut problems,
            SemanticProblem {
                code: "dup_pattern_id",
                message: String::from_str("pattern ids must be unique"),
                path: Some(String::from_str("patterns")),
            },
        );
    }
    let ghost head = problems_view(problems@);
    proof {
        assert(head =~= (if has_dup(ind) {
            seq![problem("dup_indicator_id"@, "indicator ids must be unique"@, "indicators"@)]
        } else {
            seq![]
        }) + (if has_dup(pat) {
            seq![problem("dup_pattern_id"@, "pattern ids must be unique"@, "patterns"@)]
        } else {
            seq![]
        }));
        assert(head + seq![] =~= head);
        assert(spec.entry_whens@.take(0) =~= seq![]);
    }
    let mut i: usize = 0;
    while i < spec.entry_whens.len()
        invariant
            i <= spec.entry_whens@.len(),
            whens_reportable(spec.entry_whens@),
            ind == texts(ind_ids@),
            pat == texts(pat_ids@),
            problems_view(problems@) == head + entry_problems(
                spec.entry_whens@.take(i as int),
                ind + pat,
            ),
        decreases spec.entry_whens@.len() - i,
    {
        let ghost prefix = spec.entry_whens@.take(i as int);
        assert(spec.entry_whens@.take(i + 1).drop_last() =~= prefix);
        assert(spec.entry_whens@.take(i + 1).last() == spec.entry_whens@[i as int]);
        let when: &str = match &spec.entry_whens[i] {
            Some(w) => w.as_str(),
            None => "",
        };
        proof {
            reveal_strlit("");
            assert(when@ == when_text(spec.entry_whens@[i as int]));
        }
        let ghost before = problems_view(problems@);
        check_when_syntax(when, i, &mut problems);
        let toks = tokens(when);
        check_known_ids(&toks, &ind_ids, &pat_ids, i, &mut problems);
        proof {
            assert(problems_view(problems@) =~= head + entry_problems(
                spec.entry_whens@.take(i + 1),
                ind + pat,
            ));
        }
        i = i + 1;
    }
    assert(spec.entry_whens@.take(spec.entry_whens@.len() as int) =~= spec.entry_whens@);
    if spec.min_rr_below_three {
        push_problem(
            &mut problems,
            SemanticProblem {
                code: "min_rr_below_three",
                message: String::from_str(
                    "risk.min_rr must be >= 3 (Apostila methodology requires >= 3)",
                ),
                path: Some(String::from_str("risk.min_rr")),
            },
        );
    }
    assert(problems_view(problems@) =~= semantic_problems(*spec));
    if problems.len() == 0 {
        Ok(())
    } else {
        Err(SpecError::Semantic(problems))
    }
}

// ---- canonical text ----

/// The canonical text from character `i` on, given whether `i` is inside a JSON string and
/// whether the previous character was an escaping backslash: every `e` outside strings that a
/// digit follows gets a `+` after it.
pub open spec fn exponent_fix_from(s: Seq<char>, i: int, in_str: bool, escaped: bool) -> Seq<char>
    decreases s.len() - i,
{
    if i < 0 || i >= s.len() {
        seq![]
    } else {
        let c = s[i];
        if escaped {
            seq![c] + exponent_fix_from(s, i + 1, in_str, false)
        } else if c == '\\' && in_str {
            seq![c] + exponent_fix_from(s, i + 1, in_str, true)
        } else if c == '"' {
            seq![c] + exponent_fix_from(s, i + 1, !in_str, false)
        } else if c == 'e' && !in_str {
            if i + 1 < s.len() && '0' <= s[i + 1] <= '9' {
                seq!['e', '+'] + exponent_fix_from(s, i + 1, in_str, false)
            } else {
                seq!['e'] + exponent_fix_from(s, i + 1, in_str, false)
            }
        } else {
            seq![c] + exponent_fix_from(s, i + 1, in_str, false)
        }
    }
}

/// Adds `+` to bare positive exponents outside JSON strings (`1e21` becomes `1e+21`).
pub fn fix_positive_exponents(s: String) -> (r: String)
    ensures
        r@ == exponent_fix_from(s@, 0, false, false),
{
    let n = s.unicode_len();
    let mut out = String::new();
    let mut in_str = false;
    let mut escaped = false;
    let mut i: usize = 0;
    while i < n
        invariant
            n == s@.len(),
            i <= n,
            out@ + exponent_fix_from(s@, i as int, in_str, escaped) == exponent_fix_from(
                s@,
                0,
                false,
                false,
            ),
        decreases n - i,
    {
        let c = s.as_str().get_char(i);
        if escaped {
            escaped = false;
            push_char(&mut out, c);
        } else if c == '\\' && in_str {
            escaped = true;
            push_char(&mut out, c);
        } else if c == '"' {
            in_str = !in_str;
            push_char(&mut out, c);
        } else if c == 'e' && !in_str {
            push_char(&mut out, c);
            if i + 1 < n {
                let d = s.as_str().get_char(i + 1);
                if '0' <= d && d <= '9' {
                    push_char(&mut out, '+');
                }
            }
        } else {
            push_char(&mut out, c);
        }
        i = i + 1;
    }
    assert(out@ + seq![] =~= out@);
    out
}

/// The spec hash of a canonical text: lower-case hex SHA-256 of its UTF-8 bytes.
pub fn canonical_hash(canonical: &str) -> (r: String)
    ensures
        r@ == hex_encoded(sha256_digest(encode_utf8(canonical@))),
        r@.len() == 64,
{
    sha256_hex(canonical)
}

// ---- where the check cannot report ----

/// The position where tokenizing fails, if it does.
pub open spec fn error_position(r: Result<Seq<Seq<char>>, int>) -> Option<int> {
    match r {
        Ok(_) => None,
        Err(p) => Some(p),
    }
}

/// Where tokenizing `s` fails, if it does.
fn tokenize_error_position(s: &str) -> (r: Option<usize>)
    ensures
        r matches Some(p) ==> error_position(tokenize_from(s.spec_bytes(), 0)) == Some(p as int)
            && p < s.spec_bytes().len(),
        r is None ==> error_position(tokenize_from(s.spec_bytes(), 0)) is None,
{
    let b = s.as_bytes();
    let n = b.len();
    let ghost bs = b@;
    let mut i: usize = 0;
    while i < n
        invariant
            bs == s.spec_bytes(),
            b@ == bs,
            n == bs.len(),
            i <= n,
            error_position(tokenize_from(bs, 0)) == error_position(tokenize_from(bs, i as int)),
        decreases n - i,
    {
        if b[i] == 32 || b[i] == 9 || b[i] == 10 || b[i] == 12 || b[i] == 13 {
            i = i + 1;
        } else if n - i >= 2 && ((b[i] == 38 && b[i + 1] == 38) || (b[i] == 124 && b[i + 1]
            == 124)) {
            i = i + 2;
        } else if b[i] == 33 || b[i] == 40 || b[i] == 41 {
            i = i + 1;
        } else if 97 <= b[i] && b[i] <= 122 {
            let start = i;
            i = i + 1;
            while i < n && (97 <= b[i] && b[i] <= 122 || 48 <= b[i] && b[i] <= 57 || b[i] == 95)
                invariant
                    b@ == bs,
                    n == bs.len(),
                    start < i <= n,
                    ident_end(bs, start + 1) == ident_end(bs, i as int),
                decreases n - i,
            {
                i = i + 1;
            }
            assert(ident_end(bs, i as int) == i);
        } else {
            return Some(i);
        }
    }
    None
}

/// Whether the check can report every syntax error of this `when`: tokenizing its trimmed
/// text fails, if at all, where the window shown lies on character boundaries.
pub fn when_reportable(when: &str) -> (r: bool)
    ensures
        r == tokenize_reportable(encode_utf8(trimmed(when@))),
{
    let t = trim_text(when);
    match tokenize_error_position(t) {
        None => true,
        Some(p) => {
            let n = t.as_bytes().len();
            let end = if n - p > 4 {
                p + 4
            } else {
                n
            };
            t.is_char_boundary(p) && t.is_char_boundary(end)
        },
    }
}

/// The semantic check, or `None` for a spec on which it cannot report (a `when` whose
/// offending text does not lie on character boundaries).
pub fn semantic_check_checked(spec: &SpecOutline) -> (r: Option<Result<(), SpecError>>)
    ensures
        r is None <==> !whens_reportable(spec.entry_whens@),
        r matches Some(x) ==> (x is Ok <==> semantic_problems(*spec).len() == 0),
        r matches Some(x) ==> (x is Err ==> (x matches Err(SpecError::Semantic(ps))
            && problems_view(ps@) == semantic_problems(*spec))),
{
    let mut i: usize = 0;
    while i < spec.entry_whens.len()
        invariant
            i <= spec.entry_whens@.len(),
            forall|j: int|
                0 <= j < i ==> tokenize_reportable(
                    encode_utf8(trimmed(when_text(#[trigger] spec.entry_whens@[j]))),
                ),
        decreases spec.entry_whens@.len() - i,
    {
        let when: &str = match &spec.entry_whens[i] {
            Some(w) => w.as_str(),
            None => "",
        };
        proof {
            reveal_strlit("");
            assert(when@ == when_text(spec.entry_whens@[i as int]));
        }
        if !when_reportable(when) {
            return None;
        }
        i = i + 1;
    }
    Some(semantic_check(spec))
}

// ---- JSON Schema validation ----

/// The messages of the errors that a JSON Schema (given as JSON text) reports for a spec
/// (given as JSON text), in the order the validator yields them; `None` where the schema or
/// the spec is not JSON or the schema does not compile.
pub uninterp spec fn schema_errors(schema: Seq<char>, spec: Seq<char>) -> Option<Seq<Seq<char>>>;

/// Parses both texts with `serde_json`, compiles the schema with `jsonschema`'s default
/// options and collects the `Display` text of each error that `iter_errors` yields.
#[verifier::external_body]
fn schema_error_texts(schema: &str, spec: &str) -> (r: Option<Vec<String>>)
    ensures
        match r {
            Some(v) => schema_errors(schema@, spec@) == Some(texts(v@)),
            None => schema_errors(schema@, spec@) is None,
        },
{
    let schema: serde_json::Value = match serde_json::from_str(schema) {
        Ok(v) => v,
        Err(_) => return None,
    };
    let spec: serde_json::Value = match serde_json::from_str(spec) {
        Ok(v) => v,
        Err(_) => return None,
    };
    let validator = match jsonschema::Validator::options().build(&schema) {
        Ok(v) => v,
        Err(_) => return None,
    };
    Some(validator.iter_errors(&spec).map(|e| e.to_string()).collect())
}

/// The texts joined with `sep` between each two.
pub open spec fn joined(parts: Seq<Seq<char>>, sep: Seq<char>) -> Seq<char>
    decreases parts.len(),
{
    if parts.len() == 0 {
        Seq::empty()
    } else if parts.len() == 1 {
        parts[0]
    } else {
        joined(parts.drop_last(), sep) + sep + parts.last()
    }
}

/// What validation answers for the errors a schema reports: `Ok` without any, else the
/// schema error with the messages joined by `"; "`.
pub open spec fn schema_answer(errors: Seq<Seq<char>>, r: Result<(), SpecError>) -> bool {
    if errors.len() == 0 {
        r is Ok
    } else {
        r matches Err(SpecError::Schema(m)) && m@ == joined(errors, "; "@)
    }
}

/// Validates a spec against the JSON Schema: `Ok` when the schema reports no error, else
/// `Schema` with every message, joined by `"; "`. `None` where the schema or the spec is not
/// JSON or the schema does not compile.
pub fn validate(schema: &str, spec: &str) -> (r: Option<Result<(), SpecError>>)
    ensures
        match schema_errors(schema@, spec@) {
            None => r is None,
            Some(errors) => r matches Some(x) && schema_answer(errors, x),
        },
{
    let errors = match schema_error_texts(schema, spec) {
        Some(v) => v,
        None => {
            return None;
        },
    };
    if errors.len() == 0 {
        return Some(Ok(()));
    }
    let ghost es = texts(errors@);
    let mut out = String::from_str(errors[0].as_str());
    let mut i: usize = 1;
    proof {
        reveal_strlit("; ");
        assert(es.take(1) =~= seq![es[0]]);
    }
    while i < errors.len()
        invariant
            1 <= i <= errors@.len(),
            es == texts(errors@),
            out@ == joined(es.take(i as int), "; "@),
        decreases errors@.len() - i,
    {
        out.append("; ");
        out.append(errors[i].as_str());
        proof {
            let t = es.take(i + 1);
            assert(t.drop_last() =~= es.take(i as int));
            assert(t.last() == es[i as int]);
        }
        i = i + 1;
    }
    proof {
        assert(es.take(errors@.len() as int) =~= es);
    }
    Some(Err(SpecError::Schema(out)))
}

} // verus!
