//! Backtest engine pieces: the entry-condition language, trading sessions, price rounding
//! and fills, exits within a bar, and the report types.
use crate::decimal::{
    decimal_ceil, decimal_difference, decimal_floor, decimal_product, decimal_quotient,
    decimal_sum, num_ge, num_le, opt_view, Dec,
};
use crate::strategy_spec::is_white_space;
use crate::text::{push_char, str_eq};
use vstd::prelude::*;
use vstd::string::*;
use vstd::utf8::{decode_utf8, encode_utf8_decode_utf8, is_char_boundary};

verus! {

/// How a bar that touches both the stop and the take-profit is resolved.
#[derive(Debug, Clone, Copy, PartialEq, Eq, Structural)]
pub enum IntrabarAssumption {
    Conservative,
    Optimistic,
}

/// Unless a snapshot says otherwise, a bar that touches both exits stops out.
pub fn default_intrabar() -> (r: IntrabarAssumption)
    ensures
        r == IntrabarAssumption::Conservative,
{
    IntrabarAssumption::Conservative
}

/// The direction of a backtest position.
#[derive(Debug, Clone, Copy, PartialEq, Eq, Structural)]
pub enum Side {
    Long,
    Short,
}

impl Side {
    /// `"long"` or `"short"`.
    pub fn from_str(value: &str) -> (r: Option<Side>)
        ensures
            r == (if value@ == "long"@ {
                Some(Side::Long)
            } else if value@ == "short"@ {
                Some(Side::Short)
            } else {
                None
            }),
    {
        if str_eq(value, "long") {
            Some(Side::Long)
        } else if str_eq(value, "short") {
            Some(Side::Short)
        } else {
            None
        }
    }

    pub fn as_str(self) -> (r: &'static str)
        ensures
            r@ == (match self {
                Side::Long => "long"@,
                Side::Short => "short"@,
            }),
    {
        match self {
            Side::Long => "long",
            Side::Short => "short",
        }
    }

    pub fn is_long(self) -> (r: bool)
        ensures
            r <==> self == Side::Long,
    {
        match self {
            Side::Long => true,
            Side::Short => false,
        }
    }
}

// ---- the entry-condition language ----

/// An entry condition: identifiers combined with `!`, `&&` and `||`.
#[derive(Debug)]
pub enum Expr {
    Id(String),
    Not(Box<Expr>),
    And(Box<Expr>, Box<Expr>),
    Or(Box<Expr>, Box<Expr>),
}

/// An entry condition with its identifiers taken as texts.
pub enum ExprTree {
    Id(Seq<char>),
    Not(Box<ExprTree>),
    And(Box<ExprTree>, Box<ExprTree>),
    Or(Box<ExprTree>, Box<ExprTree>),
}

pub open spec fn expr_tree(e: Expr) -> ExprTree
    decreases e,
{
    match e {
        Expr::Id(s) => ExprTree::Id(s@),
        Expr::Not(a) => ExprTree::Not(Box::new(expr_tree(*a))),
        Expr::And(a, b) => ExprTree::And(Box::new(expr_tree(*a)), Box::new(expr_tree(*b))),
        Expr::Or(a, b) => ExprTree::Or(Box::new(expr_tree(*a)), Box::new(expr_tree(*b))),
    }
}

impl View for Expr {
    type V = ExprTree;

    open spec fn view(&self) -> ExprTree {
        expr_tree(*self)
    }
}

/// The truth of `id` in a context: the last value recorded for it, false when there is none.
pub open spec fn context_value(values: Seq<(Seq<char>, bool)>, id: Seq<char>) -> bool
    decreases values.len(),
{
    if values.len() == 0 {
        false
    } else if values.last().0 == id {
        values.last().1
    } else {
        context_value(values.drop_last(), id)
    }
}

/// The truth of a condition in a context.
pub open spec fn spec_eval(e: ExprTree, values: Seq<(Seq<char>, bool)>) -> bool
    decreases e,
{
    match e {
        ExprTree::Id(s) => context_value(values, s),
        ExprTree::Not(a) => !spec_eval(*a, values),
        ExprTree::And(a, b) => spec_eval(*a, values) && spec_eval(*b, values),
        ExprTree::Or(a, b) => spec_eval(*a, values) || spec_eval(*b, values),
    }
}

/// The texts and values of a context.
pub open spec fn context_view(values: Seq<(String, bool)>) -> Seq<(Seq<char>, bool)> {
    values.map_values(|v: (String, bool)| (v.0@, v.1))
}

fn lookup(values: &Vec<(String, bool)>, id: &str) -> (r: bool)
    ensures
        r == context_value(context_view(values@), id@),
{
    let mut i = values.len();
    let ghost all = context_view(values@);
    assert(all.take(i as int) =~= all);
    while i > 0
        invariant
            i <= values@.len(),
            all == context_view(values@),
            context_value(all, id@) == context_value(all.take(i as int), id@),
        decreases i,
    {
        let ghost pre = all.take(i as int);
        assert(pre.drop_last() =~= all.take(i - 1));
        assert(pre.last() == all[i - 1]);
        if str_eq(values[i - 1].0.as_str(), id) {
            return values[i - 1].1;
        }
        i = i - 1;
    }
    assert(all.take(0) =~= seq![]);
    false
}

impl Expr {
    /// Evaluates the condition; an identifier missing from the context is false.
    pub fn eval(&self, values: &Vec<(String, bool)>) -> (r: bool)
        ensures
            r == spec_eval(self@, context_view(values@)),
        decreases self,
    {
        match self {
            Expr::Id(id) => lookup(values, id.as_str()),
            Expr::Not(a) => !a.eval(values),
            Expr::And(a, b) => a.eval(values) && b.eval(values),
            Expr::Or(a, b) => a.eval(values) || b.eval(values),
        }
    }
}

/// The first position from `p` on that holds no white space.
pub open spec fn ws_end(s: Seq<char>, p: int) -> int
    decreases s.len() - p,
{
    if 0 <= p < s.len() && is_white_space(s[p]) {
        ws_end(s, p + 1)
    } else {
        p
    }
}

pub open spec fn is_id_char(c: char) -> bool {
    ('a' <= c <= 'z') || ('A' <= c <= 'Z') || ('0' <= c <= '9') || c == '_'
}

/// The first position from `p` on that holds no identifier character.
pub open spec fn id_end(s: Seq<char>, p: int) -> int
    decreases s.len() - p,
{
    if 0 <= p < s.len() && is_id_char(s[p]) {
        id_end(s, p + 1)
    } else {
        p
    }
}

/// Whether `x` occurs in `s` at `p`.
pub open spec fn starts_at(s: Seq<char>, p: int, x: Seq<char>) -> bool {
    0 <= p && p + x.len() <= s.len() && s.subrange(p, p + x.len()) == x
}

/// `or ::= and ('||' and)*` from position `p`.
pub open spec fn spec_expr_or(s: Seq<char>, p: int) -> Result<(ExprTree, int), Seq<char>>
    decreases s.len() - p, 5int,
{
    if !(0 <= p <= s.len()) {
        Err(seq![])
    } else {
        match spec_expr_and(s, p) {
            Err(m) => Err(m),
            Ok((e, q)) => if p < q <= s.len() {
                spec_expr_or_rest(s, e, q)
            } else {
                Err(seq![])
            },
        }
    }
}

pub open spec fn spec_expr_or_rest(s: Seq<char>, acc: ExprTree, q: int) -> Result<
    (ExprTree, int),
    Seq<char>,
>
    decreases s.len() - q, 4int,
{
    let q1 = ws_end(s, q);
    if !(0 <= q <= q1 <= s.len()) {
        Err(seq![])
    } else if starts_at(s, q1, seq!['|', '|']) {
        match spec_expr_and(s, q1 + 2) {
            Err(m) => Err(m),
            Ok((e, r)) => if q1 + 2 < r <= s.len() {
                spec_expr_or_rest(s, ExprTree::Or(Box::new(acc), Box::new(e)), r)
            } else {
                Err(seq![])
            },
        }
    } else {
        Ok((acc, q1))
    }
}

/// `and ::= unary ('&&' unary)*`.
pub open spec fn spec_expr_and(s: Seq<char>, p: int) -> Result<(ExprTree, int), Seq<char>>
    decreases s.len() - p, 3int,
{
    if !(0 <= p <= s.len()) {
        Err(seq![])
    } else {
        match spec_expr_unary(s, p) {
            Err(m) => Err(m),
            Ok((e, q)) => if p < q <= s.len() {
                spec_expr_and_rest(s, e, q)
            } else {
                Err(seq![])
            },
        }
    }
}

pub open spec fn spec_expr_and_rest(s: Seq<char>, acc: ExprTree, q: int) -> Result<
    (ExprTree, int),
    Seq<char>,
>
    decreases s.len() - q, 2int,
{
    let q1 = ws_end(s, q);
    if !(0 <= q <= q1 <= s.len()) {
        Err(seq![])
    } else if starts_at(s, q1, seq!['&', '&']) {
        match spec_expr_unary(s, q1 + 2) {
            Err(m) => Err(m),
            Ok((e, r)) => if q1 + 2 < r <= s.len() {
                spec_expr_and_rest(s, ExprTree::And(Box::new(acc), Box::new(e)), r)
            } else {
                Err(seq![])
            },
        }
    } else {
        Ok((acc, q1))
    }
}

/// `unary ::= '!' unary | '(' or ')' | id`.
pub open spec fn spec_expr_unary(s: Seq<char>, p: int) -> Result<(ExprTree, int), Seq<char>>
    decreases s.len() - p, 1int,
{
    let p1 = ws_end(s, p);
    if !(0 <= p <= p1 <= s.len()) {
        Err(seq![])
    } else if starts_at(s, p1, seq!['!']) {
        match spec_expr_unary(s, p1 + 1) {
            Err(m) => Err(m),
            Ok((e, q)) => Ok((ExprTree::Not(Box::new(e)), q)),
        }
    } else if starts_at(s, p1, seq!['(']) {
        match spec_expr_or(s, p1 + 1) {
            Err(m) => Err(m),
            Ok((e, q)) => {
                let q1 = ws_end(s, q);
                if starts_at(s, q1, seq![')']) {
                    Ok((e, q1 + 1))
                } else {
                    Err("missing closing ')' in entry.when"@)
                }
            },
        }
    } else {
        spec_expr_id(s, p1)
    }
}

/// `id ::= [A-Za-z0-9_]+`.
pub open spec fn spec_expr_id(s: Seq<char>, p: int) -> Result<(ExprTree, int), Seq<char>>
    decreases s.len() - p, 0int,
{
    let p1 = ws_end(s, p);
    let e = id_end(s, p1);
    if 0 <= p1 < e <= s.len() {
        Ok((ExprTree::Id(s.subrange(p1, e)), e))
    } else {
        Err("expected identifier in entry.when"@)
    }
}

/// A whole condition: one `or`, then only white space.
pub open spec fn spec_expr_parse(s: Seq<char>) -> Result<ExprTree, Seq<char>> {
    match spec_expr_or(s, 0) {
        Err(m) => Err(m),
        Ok((e, q)) => if ws_end(s, q) == s.len() {
            Ok(e)
        } else {
            Err("unexpected token in entry.when"@)
        },
    }
}

proof fn lemma_ws_end(s: Seq<char>, p: int)
    requires
        0 <= p <= s.len(),
    ensures
        p <= ws_end(s, p) <= s.len(),
        ws_end(s, p) < s.len() ==> !is_white_space(s[ws_end(s, p)]),
    decreases s.len() - p,
{
    if p < s.len() && is_white_space(s[p]) {
        lemma_ws_end(s, p + 1);
    }
}

proof fn lemma_id_end(s: Seq<char>, p: int)
    requires
        0 <= p <= s.len(),
    ensures
        p <= id_end(s, p) <= s.len(),
        id_end(s, p) < s.len() ==> !is_id_char(s[id_end(s, p)]),
    decreases s.len() - p,
{
    if p < s.len() && is_id_char(s[p]) {
        lemma_id_end(s, p + 1);
    }
}

/// A recursive-descent parser for entry conditions; positions count characters.
pub struct ExprParser<'a> {
    input: &'a str,
    len: usize,
    pos: usize,
}

impl<'a> ExprParser<'a> {
    pub closed spec fn text(&self) -> Seq<char> {
        self.input@
    }

    pub closed spec fn position(&self) -> int {
        self.pos as int
    }

    pub closed spec fn wf(&self) -> bool {
        self.len == self.input@.len() && self.pos <= self.len
    }

    pub fn new(input: &'a str) -> (r: ExprParser<'a>)
        ensures
            r.wf(),
            r.text() == input@,
            r.position() == 0,
    {
        ExprParser { input, len: input.unicode_len(), pos: 0 }
    }

    fn white_space(c: char) -> (r: bool)
        ensures
            r == is_white_space(c),
    {
        let n = c as u32;
        (9 <= n && n <= 13) || n == 32 || n == 0x85 || n == 0xa0 || n == 0x1680 || (0x2000 <= n
            && n <= 0x200a) || n == 0x2028 || n == 0x2029 || n == 0x202f || n == 0x205f || n
            == 0x3000
    }

    fn id_char(c: char) -> (r: bool)
        ensures
            r == is_id_char(c),
    {
        let n = c as u32;
        (97 <= n && n <= 122) || (65 <= n && n <= 90) || (48 <= n && n <= 57) || n == 95
    }

    /// Skips white space.
    fn skip_ws(&mut self)
        requires
            old(self).wf(),
        ensures
            final(self).wf(),
            final(self).text() == old(self).text(),
            final(self).position() == ws_end(old(self).text(), old(self).position()),
    {
        proof {
            lemma_ws_end(self.text(), self.position());
        }
        while self.pos < self.len && Self::white_space(self.input.get_char(self.pos))
            invariant
                self.wf(),
                self.text() == old(self).text(),
                ws_end(self.text(), self.position()) == ws_end(
                    old(self).text(),
                    old(self).position(),
                ),
            decreases self.len - self.pos,
        {
            self.pos = self.pos + 1;
        }
    }

    /// Takes `expected` if it comes next.
    fn consume(&mut self, expected: &str) -> (r: bool)
        requires
            old(self).wf(),
        ensures
            final(self).wf(),
            final(self).text() == old(self).text(),
            r == starts_at(old(self).text(), old(self).position(), expected@),
            final(self).position() == if r {
                old(self).position() + expected@.len()
            } else {
                old(self).position()
            },
    {
        let n = expected.unicode_len();
        if n > self.len - self.pos {
            return false;
        }
        let mut k: usize = 0;
        while k < n
            invariant
                self.wf(),
                n == expected@.len(),
                self.pos + n <= self.len,
                k <= n,
                forall|j: int| 0 <= j < k ==> self.text()[self.pos + j] == expected@[j],
            decreases n - k,
        {
            if self.input.get_char(self.pos + k) != expected.get_char(k) {
                assert(self.text().subrange(self.pos as int, self.pos + n)[k as int]
                    != expected@[k as int]);
                return false;
            }
            k = k + 1;
        }
        assert(self.text().subrange(self.pos as int, self.pos + n) =~= expected@);
        self.pos = self.pos + n;
        true
    }

    /// `id ::= [A-Za-z0-9_]+`.
    fn parse_id(&mut self) -> (r: Result<Expr, String>)
        requires
            old(self).wf(),
        ensures
            final(self).wf(),
            final(self).text() == old(self).text(),
            match r {
                Ok(e) => spec_expr_id(old(self).text(), old(self).position()) == Ok::<
                    (ExprTree, int),
                    Seq<char>,
                >((e@, final(self).position())),
                Err(m) => spec_expr_id(old(self).text(), old(self).position()) == Err::<
                    (ExprTree, int),
                    Seq<char>,
                >(m@),
            },
    {
        self.skip_ws();
        let start = self.pos;
        let mut id = String::new();
        proof {
            lemma_id_end(self.text(), self.position());
        }
        while self.pos < self.len && Self::id_char(self.input.get_char(self.pos))
            invariant
                self.wf(),
                self.text() == old(self).text(),
                start <= self.pos,
                id_end(self.text(), start as int) == id_end(self.text(), self.position()),
                id@ =~= self.text().subrange(start as int, self.position()),
            decreases self.len - self.pos,
        {
            push_char(&mut id, self.input.get_char(self.pos));
            self.pos = self.pos + 1;
        }
        if self.pos > start {
            Ok(Expr::Id(id))
        } else {
            Err(String::from_str("expected identifier in entry.when"))
        }
    }

    /// `unary ::= '!' unary | '(' or ')' | id`.
    fn parse_unary(&mut self) -> (r: Result<Expr, String>)
        requires
            old(self).wf(),
        ensures
            final(self).wf(),
            final(self).text() == old(self).text(),
            match r {
                Ok(e) => spec_expr_unary(old(self).text(), old(self).position()) == Ok::<
                    (ExprTree, int),
                    Seq<char>,
                >((e@, final(self).position())) && old(self).position() < final(self).position(),
                Err(m) => spec_expr_unary(old(self).text(), old(self).position()) == Err::<
                    (ExprTree, int),
                    Seq<char>,
                >(m@),
            },
        decreases old(self).len - old(self).pos, 1int,
    {
        proof {
            reveal_strlit("!");
            reveal_strlit("(");
            reveal_strlit(")");
            assert("!"@ =~= seq!['!']);
            assert("("@ =~= seq!['(']);
            assert(")"@ =~= seq![')']);
            lemma_ws_end(self.text(), self.position());
        }
        self.skip_ws();
        let ghost p1 = self.position();
        assert(p1 == ws_end(old(self).text(), old(self).position()));
        if self.consume("!") {
            return match self.parse_unary() {
                Ok(e) => {
                    let r = Expr::Not(Box::new(e));
                    assert(r@ == ExprTree::Not(Box::new(e@)));
                    Ok(r)
                },
                Err(m) => Err(m),
            };
        }
        if self.consume("(") {
            let expr = match self.parse_or() {
                Ok(e) => e,
                Err(m) => {
                    return Err(m);
                },
            };
            let ghost q = self.position();
            assert(p1 + 1 < q);
            proof {
                lemma_ws_end(self.text(), q);
            }
            self.skip_ws();
            if !self.consume(")") {
                return Err(String::from_str("missing closing ')' in entry.when"));
            }
            return Ok(expr);
        }
        let ghost p1 = self.position();
        let r = self.parse_id();
        proof {
            lemma_ws_end(self.text(), p1);
        }
        r
    }

    /// `and ::= unary ('&&' unary)*`.
    fn parse_and(&mut self) -> (r: Result<Expr, String>)
        requires
            old(self).wf(),
        ensures
            final(self).wf(),
            final(self).text() == old(self).text(),
            match r {
                Ok(e) => spec_expr_and(old(self).text(), old(self).position()) == Ok::<
                    (ExprTree, int),
                    Seq<char>,
                >((e@, final(self).position())) && old(self).position() < final(self).position(),
                Err(m) => spec_expr_and(old(self).text(), old(self).position()) == Err::<
                    (ExprTree, int),
                    Seq<char>,
                >(m@),
            },
        decreases old(self).len - old(self).pos, 3int,
    {
        let ghost p0 = self.position();
        let mut expr = match self.parse_unary() {
            Ok(e) => e,
            Err(m) => {
                return Err(m);
            },
        };
        proof {
            reveal_strlit("&&");
            assert("&&"@ =~= seq!['&', '&']);
        }
        loop
            invariant
                self.wf(),
                self.text() == old(self).text(),
                self.len == old(self).len,
                "&&"@ == seq!['&', '&'],
                p0 == old(self).position(),
                p0 < self.position(),
                spec_expr_and(self.text(), p0) == spec_expr_and_rest(
                    self.text(),
                    expr@,
                    self.position(),
                ),
            ensures
                self.wf(),
                self.text() == old(self).text(),
                p0 < self.position(),
                spec_expr_and(self.text(), p0) == Ok::<(ExprTree, int), Seq<char>>(
                    (expr@, self.position()),
                ),
            decreases self.len - self.pos,
        {
            let ghost q = self.position();
            proof {
                lemma_ws_end(self.text(), q);
            }
            self.skip_ws();
            let ghost q1 = self.position();
            assert(q1 == ws_end(self.text(), q));
            if !self.consume("&&") {
                assert(!starts_at(self.text(), q1, seq!['&', '&']));
                assert(spec_expr_and_rest(self.text(), expr@, q) == Ok::<(ExprTree, int), Seq<char>>((expr@, q1)));
                break;
            }
            assert(starts_at(self.text(), q1, seq!['&', '&']));
            assert(self.position() == q1 + 2);
            let rhs = match self.parse_unary() {
                Ok(e) => e,
                Err(m) => {
                    assert(spec_expr_unary(self.text(), q1 + 2) == Err::<(ExprTree, int), Seq<char>>(m@));
                    assert(spec_expr_and_rest(self.text(), expr@, q) == Err::<(ExprTree, int), Seq<char>>(m@));
                    return Err(m);
                },
            };
            expr = Expr::And(Box::new(expr), Box::new(rhs));
        }
        Ok(expr)
    }

    /// `or ::= and ('||' and)*`.
    fn parse_or(&mut self) -> (r: Result<Expr, String>)
        requires
            old(self).wf(),
        ensures
            final(self).wf(),
            final(self).text() == old(self).text(),
            match r {
                Ok(e) => spec_expr_or(old(self).text(), old(self).position()) == Ok::<
                    (ExprTree, int),
                    Seq<char>,
                >((e@, final(self).position())) && old(self).position() < final(self).position(),
                Err(m) => spec_expr_or(old(self).text(), old(self).position()) == Err::<
                    (ExprTree, int),
                    Seq<char>,
                >(m@),
            },
        decreases old(self).len - old(self).pos, 5int,
    {
        let ghost p0 = self.position();
        let mut expr = match self.parse_and() {
            Ok(e) => e,
            Err(m) => {
                return Err(m);
            },
        };
        proof {
            reveal_strlit("||");
            assert("||"@ =~= seq!['|', '|']);
        }
        loop
            invariant
                self.wf(),
                self.text() == old(self).text(),
                self.len == old(self).len,
                "||"@ == seq!['|', '|'],
                p0 == old(self).position(),
                p0 < self.position(),
                spec_expr_or(self.text(), p0) == spec_expr_or_rest(
                    self.text(),
                    expr@,
                    self.position(),
                ),
            ensures
                self.wf(),
                self.text() == old(self).text(),
                p0 < self.position(),
                spec_expr_or(self.text(), p0) == Ok::<(ExprTree, int), Seq<char>>(
                    (expr@, self.position()),
                ),
            decreases self.len - self.pos,
        {
            let ghost q = self.position();
            proof {
                lemma_ws_end(self.text(), q);
            }
            self.skip_ws();
            if !self.consume("||") {
                break;
            }
            let rhs = match self.parse_and() {
                Ok(e) => e,
                Err(m) => {
                    return Err(m);
                },
            };
            expr = Expr::Or(Box::new(expr), Box::new(rhs));
        }
        Ok(expr)
    }

    /// Parses the whole input as one condition.
    pub fn parse(self) -> (r: Result<Expr, String>)
        requires
            self.wf(),
            self.position() == 0,
        ensures
            match r {
                Ok(e) => spec_expr_parse(self.text()) == Ok::<ExprTree, Seq<char>>(e@),
                Err(m) => spec_expr_parse(self.text()) == Err::<ExprTree, Seq<char>>(m@),
            },
    {
        let mut p = self;
        let expr = match p.parse_or() {
            Ok(e) => e,
            Err(m) => {
                return Err(m);
            },
        };
        p.skip_ws();
        if p.pos == p.len {
            Ok(expr)
        } else {
            Err(String::from_str("unexpected token in entry.when"))
        }
    }
}

// ---- trading sessions ----

/// The value of a run of decimal digits.
pub open spec fn digits_value(s: Seq<char>) -> int
    decreases s.len(),
{
    if s.len() == 0 {
        0
    } else {
        digits_value(s.drop_last()) * 10 + (s.last() as int - 48)
    }
}

pub open spec fn all_digits(s: Seq<char>) -> bool {
    forall|i: int| 0 <= i < s.len() ==> '0' <= #[trigger] s[i] <= '9'
}

/// `u32::from_str`: an optional `+`, then one or more decimal digits, no larger than
/// `u32::MAX`.
pub open spec fn parse_u32_text(s: Seq<char>) -> Option<u32> {
    let d = if s.len() > 0 && s[0] == '+' {
        s.drop_first()
    } else {
        s
    };
    if d.len() > 0 && all_digits(d) && digits_value(d) <= u32::MAX {
        Some(digits_value(d) as u32)
    } else {
        None
    }
}

proof fn lemma_digits_value_nonneg(s: Seq<char>)
    requires
        all_digits(s),
    ensures
        digits_value(s) >= 0,
    decreases s.len(),
{
    if s.len() > 0 {
        assert(all_digits(s.drop_last())) by {
            assert forall|i: int| 0 <= i < s.drop_last().len() implies '0' <= #[trigger] s.drop_last()[i]
                <= '9' by {
                assert(s.drop_last()[i] == s[i]);
            }
        }
        lemma_digits_value_nonneg(s.drop_last());
    }
}

/// Parses a decimal `u32` as `str::parse::<u32>` does.
pub fn parse_u32(s: &str) -> (r: Option<u32>)
    ensures
        r == parse_u32_text(s@),
{
    let n = s.unicode_len();
    let mut i: usize = 0;
    if n > 0 && s.get_char(0) == '+' {
        i = 1;
    }
    let ghost d = if s@.len() > 0 && s@[0] == '+' {
        s@.drop_first()
    } else {
        s@
    };
    assert(d =~= s@.subrange(i as int, n as int));
    if i == n {
        return None;
    }
    let mut value: u64 = 0;
    let start = i;
    while i < n
        invariant
            n == s@.len(),
            start < n,
            start <= i <= n,
            d =~= s@.subrange(start as int, n as int),
            d == (if s@.len() > 0 && s@[0] == '+' {
                s@.drop_first()
            } else {
                s@
            }),
            all_digits(s@.subrange(start as int, i as int)),
            value == digits_value(s@.subrange(start as int, i as int)),
            value <= u32::MAX,
        decreases n - i,
    {
        let c = s.get_char(i);
        let k = c as u32;
        if k < 48 || k > 57 {
            assert(d[i - start] == c);
            assert(!('0' <= c <= '9'));
            assert(!all_digits(d));
            return None;
        }
        let ghost pre = s@.subrange(start as int, i as int);
        let ghost next = s@.subrange(start as int, i + 1);
        assert(next.drop_last() =~= pre);
        assert(next.last() == c);
        assert(all_digits(next)) by {
            assert forall|j: int| 0 <= j < next.len() implies '0' <= #[trigger] next[j] <= '9' by {
                if j < pre.len() {
                    assert(next[j] == pre[j]);
                }
            }
        }
        value = value * 10 + (k as u64 - 48);
        if value > 4294967295 {
            proof {
                if all_digits(d) {
                    assert(s@.subrange(start as int, n as int) =~= d);
                    lemma_digits_growth(s@, start as int, i + 1, n as int);
                }
            }
            return None;
        }
        i = i + 1;
    }
    Some(value as u32)
}

/// Appending digits never makes the value smaller.
proof fn lemma_digits_growth(s: Seq<char>, start: int, a: int, b: int)
    requires
        0 <= start <= a <= b <= s.len(),
        all_digits(s.subrange(start, a)),
    ensures
        all_digits(s.subrange(start, b)) ==> digits_value(s.subrange(start, b)) >= digits_value(
            s.subrange(start, a),
        ),
    decreases b - a,
{
    if a < b && all_digits(s.subrange(start, b)) {
        let sb = s.subrange(start, b);
        let sb1 = s.subrange(start, b - 1);
        assert(sb.drop_last() =~= sb1);
        assert(all_digits(sb1)) by {
            assert forall|j: int| 0 <= j < sb1.len() implies '0' <= #[trigger] sb1[j] <= '9' by {
                assert(sb1[j] == sb[j]);
            }
        }
        lemma_digits_growth(s, start, a, b - 1);
        lemma_digits_value_nonneg(sb1);
        assert('0' <= sb.last() <= '9');
    }
}

/// The first `-` at or after `i` (the length when there is none).
pub open spec fn first_dash(s: Seq<char>, i: int) -> int
    decreases s.len() - i,
{
    if 0 <= i < s.len() && s[i] != '-' {
        first_dash(s, i + 1)
    } else {
        i
    }
}

proof fn lemma_first_dash(s: Seq<char>, i: int)
    requires
        0 <= i <= s.len(),
    ensures
        i <= first_dash(s, i) <= s.len(),
        first_dash(s, i) < s.len() ==> s[first_dash(s, i)] == '-',
    decreases s.len() - i,
{
    if i < s.len() && s[i] != '-' {
        lemma_first_dash(s, i + 1);
    }
}

/// The hours `"HH-HH"` names: the part before the first `-` (zero unless it parses), and the
/// part after it up to the next `-` (23 unless there is one that parses).
pub open spec fn window_bounds(window: Seq<char>) -> (u32, u32) {
    let a = first_dash(window, 0);
    let start = match parse_u32_text(window.subrange(0, a)) {
        Some(v) => v,
        None => 0u32,
    };
    let end = if a < window.len() {
        match parse_u32_text(window.subrange(a + 1, first_dash(window, a + 1))) {
            Some(v) => v,
            None => 23u32,
        }
    } else {
        23u32
    };
    (start, end)
}

/// The hour of a timestamp `YYYY-MM-DDTHH...`: the text at bytes 11 to 13 (zero where it is
/// missing or does not parse).
pub open spec fn timestamp_hour(ts: Seq<u8>) -> u32 {
    if 13 <= ts.len() && is_char_boundary(ts, 11) && is_char_boundary(ts, 13) {
        match parse_u32_text(decode_utf8(ts.subrange(11, 13))) {
            Some(h) => h,
            None => 0u32,
        }
    } else {
        0u32
    }
}

/// Whether the hour lies in the window; a window whose end is before its start wraps past
/// midnight.
pub open spec fn spec_in_session(ts: Seq<u8>, window: Seq<char>) -> bool {
    let hour = timestamp_hour(ts);
    let (start, end) = window_bounds(window);
    if start <= end {
        start <= hour <= end
    } else {
        hour >= start || hour <= end
    }
}

/// `s.get(from..to)`: the slice, where both ends are in range and on character boundaries.
#[verifier::external_body]
pub(crate) fn str_get(s: &str, from: usize, to: usize) -> (r: Option<&str>)
    requires
        from <= to,
    ensures
        r is Some <==> (to <= s.spec_bytes().len() && is_char_boundary(s.spec_bytes(), from as int)
            && is_char_boundary(s.spec_bytes(), to as int)),
        r matches Some(x) ==> x.spec_bytes() == s.spec_bytes().subrange(from as int, to as int),
{
    s.get(from..to)
}

fn find_dash(s: &str, from: usize) -> (r: usize)
    requires
        from <= s@.len(),
    ensures
        r == first_dash(s@, from as int),
{
    let n = s.unicode_len();
    let mut i = from;
    while i < n && s.get_char(i) != '-'
        invariant
            n == s@.len(),
            from <= i <= n,
            first_dash(s@, from as int) == first_dash(s@, i as int),
        decreases n - i,
    {
        i = i + 1;
    }
    i
}

/// Whether the timestamp's hour lies in the session window `"HH-HH"`.
pub fn in_session(ts: &str, window: &str) -> (r: bool)
    ensures
        r == spec_in_session(ts.spec_bytes(), window@),
{
    let hour: u32 = match str_get(ts, 11, 13) {
        Some(h) => {
            proof {
                encode_utf8_decode_utf8(h@);
            }
            match parse_u32(h) {
                Some(v) => v,
                None => 0,
            }
        },
        None => 0,
    };
    let n = window.unicode_len();
    proof {
        lemma_first_dash(window@, 0);
    }
    let a = find_dash(window, 0);
    let start: u32 = match parse_u32(window.substring_char(0, a)) {
        Some(v) => v,
        None => 0,
    };
    let end: u32 = if a < n {
        proof {
            lemma_first_dash(window@, a + 1);
        }
        let b = find_dash(window, a + 1);
        match parse_u32(window.substring_char(a + 1, b)) {
            Some(v) => v,
            None => 23,
        }
    } else {
        23
    };
    if start <= end {
        hour >= start && hour <= end
    } else {
        hour >= start || hour <= end
    }
}

// ---- prices ----

/// `value` rounded down to a multiple of `step` (unchanged for a step that is not positive);
/// `None` where the decimal arithmetic overflows.
pub open spec fn spec_round_down(value: (int, nat), step: (int, nat)) -> Option<(int, nat)> {
    if step.0 <= 0 {
        Some(value)
    } else {
        match decimal_quotient(value, step) {
            Some(q) => decimal_product(decimal_floor(q), step),
            None => None,
        }
    }
}

/// `value` rounded up to a multiple of `step` (unchanged for a step that is not positive).
pub open spec fn spec_round_up(value: (int, nat), step: (int, nat)) -> Option<(int, nat)> {
    if step.0 <= 0 {
        Some(value)
    } else {
        match decimal_quotient(value, step) {
            Some(q) => decimal_product(decimal_ceil(q), step),
            None => None,
        }
    }
}

/// Rounds `value` down to a multiple of `step`, or `None` where that overflows.
pub fn round_down(value: Dec, step: Dec) -> (r: Option<Dec>)
    ensures
        opt_view(r) == spec_round_down(value@, step@),
{
    if !step.is_positive() {
        return Some(value);
    }
    match value.checked_div(step) {
        Some(q) => q.floor().checked_mul(step),
        None => None,
    }
}

/// Rounds `value` up to a multiple of `step`, or `None` where that overflows.
pub fn round_up(value: Dec, step: Dec) -> (r: Option<Dec>)
    ensures
        opt_view(r) == spec_round_up(value@, step@),
{
    if !step.is_positive() {
        return Some(value);
    }
    match value.checked_div(step) {
        Some(q) => q.ceil().checked_mul(step),
        None => None,
    }
}

/// The price of a fill with slippage: `price * bps / 10000` added for a buy, taken off for a
/// sell.
pub open spec fn spec_execution_price(price: (int, nat), slippage_bps: (int, nat), buy: bool) -> Option<
    (int, nat),
> {
    match decimal_product(price, slippage_bps) {
        Some(p) => match decimal_quotient(p, (10000int, 0nat)) {
            Some(adj) => if buy {
                decimal_sum(price, adj)
            } else {
                decimal_difference(price, adj)
            },
            None => None,
        },
        None => None,
    }
}

pub fn execution_price(price: Dec, slippage_bps: Dec, buy: bool) -> (r: Option<Dec>)
    ensures
        opt_view(r) == spec_execution_price(price@, slippage_bps@, buy),
{
    let adj = match price.checked_mul(slippage_bps) {
        Some(p) => match p.checked_div(Dec::from_u64(10000)) {
            Some(a) => a,
            None => {
                return None;
            },
        },
        None => {
            return None;
        },
    };
    if buy {
        price.checked_add(adj)
    } else {
        price.checked_sub(adj)
    }
}

/// `n / d`, zero for a zero denominator.
pub open spec fn spec_ratio(n: (int, nat), d: (int, nat)) -> Option<(int, nat)> {
    if d.0 == 0 {
        Some((0int, 0nat))
    } else {
        decimal_quotient(n, d)
    }
}

pub fn ratio(n: Dec, d: Dec) -> (r: Option<Dec>)
    ensures
        opt_view(r) == spec_ratio(n@, d@),
{
    if d.is_zero() {
        Some(Dec::zero())
    } else {
        n.checked_div(d)
    }
}

// ---- exits within a bar ----

/// Why a position was closed.
#[derive(Debug, Clone, Copy, PartialEq, Eq, Structural)]
pub enum ExitReason {
    StopLoss,
    TakeProfit,
}

impl ExitReason {
    pub fn as_str(self) -> (r: &'static str)
        ensures
            r@ == (match self {
                ExitReason::StopLoss => "stop_loss"@,
                ExitReason::TakeProfit => "take_profit"@,
            }),
    {
        match self {
            ExitReason::StopLoss => "stop_loss",
            ExitReason::TakeProfit => "take_profit",
        }
    }
}

/// The exit a bar triggers: a long stops out at a low at or below its stop and takes profit
/// at a high at or above its target (a short the other way round); a bar that does both
/// resolves by the intrabar assumption.
pub open spec fn spec_bar_exit(
    side: Side,
    high: (int, nat),
    low: (int, nat),
    stop: (int, nat),
    take_profit: (int, nat),
    intrabar: IntrabarAssumption,
) -> Option<((int, nat), ExitReason)> {
    let hit_stop = if side == Side::Long {
        num_le(low, stop)
    } else {
        num_ge(high, stop)
    };
    let hit_tp = if side == Side::Long {
        num_ge(high, take_profit)
    } else {
        num_le(low, take_profit)
    };
    if hit_stop && hit_tp {
        match intrabar {
            IntrabarAssumption::Conservative => Some((stop, ExitReason::StopLoss)),
            IntrabarAssumption::Optimistic => Some((take_profit, ExitReason::TakeProfit)),
        }
    } else if hit_stop {
        Some((stop, ExitReason::StopLoss))
    } else if hit_tp {
        Some((take_profit, ExitReason::TakeProfit))
    } else {
        None
    }
}

/// The exit price and reason a bar with this high and low triggers, if any.
pub fn bar_exit(
    side: Side,
    high: Dec,
    low: Dec,
    stop: Dec,
    take_profit: Dec,
    intrabar: IntrabarAssumption,
) -> (r: Option<(Dec, ExitReason)>)
    ensures
        match r {
            Some((p, why)) => spec_bar_exit(side, high@, low@, stop@, take_profit@, intrabar)
                == Some((p@, why)),
            None => spec_bar_exit(side, high@, low@, stop@, take_profit@, intrabar) is None,
        },
{
    let hit_stop = if side.is_long() {
        low.le(&stop)
    } else {
        high.ge(&stop)
    };
    let hit_tp = if side.is_long() {
        high.ge(&take_profit)
    } else {
        low.le(&take_profit)
    };
    if hit_stop && hit_tp {
        match intrabar {
            IntrabarAssumption::Conservative => Some((stop, ExitReason::StopLoss)),
            IntrabarAssumption::Optimistic => Some((take_profit, ExitReason::TakeProfit)),
        }
    } else if hit_stop {
        Some((stop, ExitReason::StopLoss))
    } else if hit_tp {
        Some((take_profit, ExitReason::TakeProfit))
    } else {
        None
    }
}

// ---- the report ----

/// One point of the equity curve; the decimals are written as text.
#[derive(Debug, Clone)]
pub struct EquityPoint {
    pub ts: String,
    pub equity: String,
    pub drawdown_pct: String,
}

/// The trades and net result of one month.
#[derive(Debug, Clone)]
pub struct HeatmapCell {
    pub trades: usize,
    pub pnl: String,
}

/// A closed trade; the decimals are written as text.
#[derive(Debug, Clone)]
pub struct Trade {
    pub entry_ts: String,
    pub exit_ts: String,
    pub symbol: String,
    pub side: String,
    pub qty: String,
    pub entry_price: String,
    pub exit_price: String,
    pub stop_price: String,
    pub take_profit_price: String,
    pub gross_pnl: String,
    pub fees: String,
    pub net_pnl: String,
    pub rr: String,
    pub exit_reason: String,
}

/// What a backtest assumed, for reproducing it. Version labels are sorted by key.
#[derive(Debug, Clone)]
pub struct BacktestMeta {
    pub data_snapshot_id: String,
    pub fee_model: String,
    pub slippage_model: String,
    pub intrabar_assumption: IntrabarAssumption,
    pub funding_model: String,
    pub contract_spec: String,
    pub lib_versions: Vec<(String, String)>,
    pub image_digest: String,
    pub seeds: Vec<u64>,
}

/// The headline metrics (sorted by name) and the run's assumptions.
#[derive(Debug, Clone)]
pub struct KpiBundle {
    pub metrics: Vec<(String, String)>,
    pub meta: BacktestMeta,
}

/// A backtest's result; the heatmap is sorted by month.
#[derive(Debug, Clone)]
pub struct BacktestReport {
    pub spec_hash: String,
    pub data_snapshot_id: String,
    pub kpi_jsonb: KpiBundle,
    pub equity_curve: Vec<EquityPoint>,
    pub heatmap: Vec<(String, HeatmapCell)>,
    pub trades: Vec<Trade>,
}

} // verus!
