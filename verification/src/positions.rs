//! Live positions: signed quantity per symbol (positive long, negative short).
use crate::decimal::{
    decimal_difference, decimal_product, decimal_quotient, decimal_sum, opt_view, parts_abs, Dec,
};
use crate::market::Side;
use crate::text::{str_lt, text_lt, lemma_text_lt_transitive, lemma_text_lt_irreflexive};
use vstd::prelude::*;

verus! {

/// Symbols in strictly increasing order.
pub open spec fn keys_increasing(s: Seq<(Seq<char>, (int, nat))>) -> bool {
    forall|i: int, j: int| 0 <= i < j < s.len() ==> text_lt(s[i].0, s[j].0)
}

/// The position held for `symbol`, if any.
pub open spec fn book_get(s: Seq<(Seq<char>, (int, nat))>, symbol: Seq<char>) -> Option<(int, nat)> {
    if exists|i: int| 0 <= i < s.len() && s[i].0 == symbol {
        Some(s[choose|i: int| 0 <= i < s.len() && s[i].0 == symbol].1)
    } else {
        None
    }
}

/// The quantity after a fill of `qty` on `side` against a position of `current`.
pub open spec fn spec_after_fill(current: (int, nat), side: Side, qty: (int, nat)) -> Option<(int, nat)> {
    match side {
        Side::Buy => decimal_sum(current, qty),
        Side::Sell => decimal_difference(current, qty),
    }
}

/// Positions keyed by symbol, in symbol order; no symbol is held with a zero quantity.
#[derive(Debug)]
pub struct PositionBook {
    entries: Vec<(String, Dec)>,
}

pub open spec fn entries_view(v: Seq<(String, Dec)>) -> Seq<(Seq<char>, (int, nat))> {
    v.map_values(|e: (String, Dec)| (e.0@, e.1@))
}

impl View for PositionBook {
    type V = Seq<(Seq<char>, (int, nat))>;

    closed spec fn view(&self) -> Seq<(Seq<char>, (int, nat))> {
        entries_view(self.entries@)
    }
}

/// A book with symbols in increasing order and no zero position.
pub open spec fn book_wf(s: Seq<(Seq<char>, (int, nat))>) -> bool {
    &&& keys_increasing(s)
    &&& forall|i: int| 0 <= i < s.len() ==> (#[trigger] s[i]).1.0 != 0
}

/// In a book with increasing symbols, the entry at `i` is the one found for its symbol.
pub proof fn lemma_book_get_at(s: Seq<(Seq<char>, (int, nat))>, i: int)
    requires
        keys_increasing(s),
        0 <= i < s.len(),
    ensures
        book_get(s, s[i].0) == Some(s[i].1),
{
    let j = choose|j: int| 0 <= j < s.len() && s[j].0 == s[i].0;
    if j < i {
        assert(text_lt(s[j].0, s[i].0));
        lemma_text_lt_irreflexive(s[i].0);
    } else if j > i {
        assert(text_lt(s[i].0, s[j].0));
        lemma_text_lt_irreflexive(s[i].0);
    }
}

/// Replacing the quantity at `p` changes only what is found for that symbol.
pub proof fn lemma_book_update(s: Seq<(Seq<char>, (int, nat))>, p: int, q: (int, nat))
    requires
        book_wf(s),
        0 <= p < s.len(),
        q.0 != 0,
    ensures
        book_wf(s.update(p, (s[p].0, q))),
        book_get(s.update(p, (s[p].0, q)), s[p].0) == Some(q),
        forall|k: Seq<char>|
            k != s[p].0 ==> #[trigger] book_get(s.update(p, (s[p].0, q)), k) == book_get(s, k),
{
    let t = s.update(p, (s[p].0, q));
    assert(keys_increasing(t)) by {
        assert forall|i: int, j: int| 0 <= i < j < t.len() implies text_lt(t[i].0, t[j].0) by {
            assert(t[i].0 == s[i].0);
            assert(t[j].0 == s[j].0);
        }
    }
    lemma_book_get_at(t, p);
    assert forall|k: Seq<char>| k != s[p].0 implies #[trigger] book_get(t, k) == book_get(s, k) by {
        if exists|i: int| 0 <= i < s.len() && s[i].0 == k {
            let i = choose|i: int| 0 <= i < s.len() && s[i].0 == k;
            lemma_book_get_at(s, i);
            lemma_book_get_at(t, i);
        } else {
            assert forall|i: int| 0 <= i < t.len() implies t[i].0 != k by {
                assert(t[i].0 == s[i].0);
            }
        }
    }
}

/// Removing the entry at `p` drops its symbol and changes nothing else.
pub proof fn lemma_book_remove(s: Seq<(Seq<char>, (int, nat))>, p: int)
    requires
        book_wf(s),
        0 <= p < s.len(),
    ensures
        book_wf(s.remove(p)),
        book_get(s.remove(p), s[p].0) is None,
        forall|k: Seq<char>| k != s[p].0 ==> #[trigger] book_get(s.remove(p), k) == book_get(s, k),
{
    let t = s.remove(p);
    assert(keys_increasing(t)) by {
        assert forall|i: int, j: int| 0 <= i < j < t.len() implies text_lt(t[i].0, t[j].0) by {
            let si = if i < p { i } else { i + 1 };
            let sj = if j < p { j } else { j + 1 };
            assert(t[i] == s[si]);
            assert(t[j] == s[sj]);
        }
    }
    assert forall|i: int| 0 <= i < t.len() implies (#[trigger] t[i]).1.0 != 0 by {
        let si = if i < p { i } else { i + 1 };
        assert(t[i] == s[si]);
    }
    assert forall|i: int| 0 <= i < t.len() implies t[i].0 != s[p].0 by {
        let si = if i < p { i } else { i + 1 };
        assert(t[i] == s[si]);
        lemma_text_lt_irreflexive(s[p].0);
        if si < p {
            assert(text_lt(s[si].0, s[p].0));
        } else {
            assert(text_lt(s[p].0, s[si].0));
        }
    }
    assert forall|k: Seq<char>| k != s[p].0 implies #[trigger] book_get(t, k) == book_get(s, k) by {
        if exists|i: int| 0 <= i < s.len() && s[i].0 == k {
            let i = choose|i: int| 0 <= i < s.len() && s[i].0 == k;
            lemma_book_get_at(s, i);
            let ti = if i < p { i } else { i - 1 };
            assert(t[ti] == s[i]);
            lemma_book_get_at(t, ti);
        } else {
            assert forall|i: int| 0 <= i < t.len() implies t[i].0 != k by {
                let si = if i < p { i } else { i + 1 };
                assert(t[i] == s[si]);
            }
        }
    }
}

/// Inserting a new symbol at its place in the order adds it and changes nothing else.
pub proof fn lemma_book_insert(s: Seq<(Seq<char>, (int, nat))>, p: int, key: Seq<char>, q: (int, nat))
    requires
        book_wf(s),
        0 <= p <= s.len(),
        q.0 != 0,
        forall|k: int| 0 <= k < p ==> text_lt(s[k].0, key),
        p < s.len() ==> text_lt(key, s[p].0),
    ensures
        book_wf(s.insert(p, (key, q))),
        book_get(s.insert(p, (key, q)), key) == Some(q),
        forall|k: Seq<char>| k != key ==> #[trigger] book_get(s.insert(p, (key, q)), k) == book_get(
            s,
            k,
        ),
{
    let t = s.insert(p, (key, q));
    assert(keys_increasing(t)) by {
        assert forall|i: int, j: int| 0 <= i < j < t.len() implies text_lt(t[i].0, t[j].0) by {
            if i < p && j < p {
                assert(t[i] == s[i]);
                assert(t[j] == s[j]);
            } else if i < p && j == p {
                assert(t[i] == s[i]);
            } else if i < p {
                assert(t[i] == s[i]);
                assert(t[j] == s[j - 1]);
                if j - 1 > p {
                    assert(text_lt(s[p].0, s[j - 1].0));
                    lemma_text_lt_transitive(key, s[p].0, s[j - 1].0);
                }
                lemma_text_lt_transitive(s[i].0, key, s[j - 1].0);
            } else if i == p {
                assert(t[j] == s[j - 1]);
                if j - 1 > p {
                    assert(text_lt(s[p].0, s[j - 1].0));
                    lemma_text_lt_transitive(key, s[p].0, s[j - 1].0);
                }
            } else {
                assert(t[i] == s[i - 1]);
                assert(t[j] == s[j - 1]);
            }
        }
    }
    assert forall|i: int| 0 <= i < t.len() implies (#[trigger] t[i]).1.0 != 0 by {
        if i < p {
            assert(t[i] == s[i]);
        } else if i > p {
            assert(t[i] == s[i - 1]);
        }
    }
    lemma_book_get_at(t, p);
    assert forall|k: Seq<char>| k != key implies #[trigger] book_get(t, k) == book_get(s, k) by {
        if exists|i: int| 0 <= i < s.len() && s[i].0 == k {
            let i = choose|i: int| 0 <= i < s.len() && s[i].0 == k;
            lemma_book_get_at(s, i);
            let ti = if i < p { i } else { i + 1 };
            assert(t[ti] == s[i]);
            lemma_book_get_at(t, ti);
        } else {
            assert forall|i: int| 0 <= i < t.len() implies t[i].0 != k by {
                if i < p {
                    assert(t[i] == s[i]);
                } else if i > p {
                    assert(t[i] == s[i - 1]);
                }
            }
        }
    }
}

impl PositionBook {
    #[verifier::type_invariant]
    spec fn well_formed(self) -> bool {
        book_wf(self@)
    }

    pub fn new() -> (r: PositionBook)
        ensures
            r@ == Seq::<(Seq<char>, (int, nat))>::empty(),
    {
        PositionBook { entries: Vec::new() }
    }

    pub fn len(&self) -> (r: usize)
        ensures
            r == self@.len(),
    {
        self.entries.len()
    }

    pub fn is_empty(&self) -> (r: bool)
        ensures
            r <==> self@.len() == 0,
    {
        self.entries.len() == 0
    }

    /// The entry at position `i` in symbol order.
    pub fn entry(&self, i: usize) -> (r: (String, Dec))
        requires
            i < self@.len(),
        ensures
            r.0@ == self@[i as int].0,
            r.1@ == self@[i as int].1,
            book_wf(self@),
    {
        proof {
            use_type_invariant(self);
        }
        let e = &self.entries[i];
        (e.0.clone(), e.1)
    }

    /// Where `symbol` is or would go: every earlier symbol is smaller and, unless it is the
    /// end, the symbol there is not smaller.
    fn locate(&self, symbol: &str) -> (p: usize)
        ensures
            p <= self@.len(),
            forall|k: int| 0 <= k < p ==> text_lt(self@[k].0, symbol@),
            p < self@.len() ==> !text_lt(self@[p as int].0, symbol@),
            book_wf(self@),
    {
        proof {
            use_type_invariant(self);
        }
        let mut p: usize = 0;
        while p < self.entries.len() && str_lt(self.entries[p].0.as_str(), symbol)
            invariant
                p <= self@.len(),
                self@.len() == self.entries@.len(),
                self@ == entries_view(self.entries@),
                forall|k: int| 0 <= k < p ==> text_lt(self@[k].0, symbol@),
            decreases self.entries@.len() - p,
        {
            p = p + 1;
        }
        p
    }

    /// The position for `symbol`, zero when none is held.
    pub open spec fn current(self, symbol: Seq<char>) -> (int, nat) {
        match book_get(self@, symbol) {
            Some(q) => q,
            None => (0int, 0nat),
        }
    }

    /// Applies a fill of `qty` on `side` to the position in `symbol`; a position that comes
    /// to zero is dropped.
    pub fn apply_fill(&mut self, symbol: &str, side: Side, qty: Dec)
        requires
            spec_after_fill(old(self).current(symbol@), side, qty@) is Some,
        ensures
            ({
                let after = spec_after_fill(old(self).current(symbol@), side, qty@).unwrap();
                &&& book_get(final(self)@, symbol@) == (if after.0 == 0 {
                    None
                } else {
                    Some(after)
                })
                &&& forall|k: Seq<char>|
                    k != symbol@ ==> #[trigger] book_get(final(self)@, k) == book_get(old(self)@, k)
            }),
    {
        let p = self.locate(symbol);
        let held = p < self.entries.len() && !str_lt(symbol, self.entries[p].0.as_str());
        let ghost before = self@;
        proof {
            if held {
                crate::text::lemma_text_lt_total(before[p as int].0, symbol@);
                lemma_book_get_at(before, p as int);
            } else {
                lemma_text_lt_irreflexive(symbol@);
                assert forall|i: int| 0 <= i < before.len() implies before[i].0 != symbol@ by {
                    if i > p {
                        assert(text_lt(before[p as int].0, before[i].0));
                    }
                }
            }
        }
        let cur = if held {
            self.entries[p].1
        } else {
            Dec::zero()
        };
        let next = match side {
            Side::Buy => cur.checked_add(qty),
            Side::Sell => cur.checked_sub(qty),
        };
        let next = match next {
            Some(n) => n,
            None => {
                assert(false);
                return ;
            },
        };
        let mut entries: Vec<(String, Dec)> = Vec::new();
        std::mem::swap(&mut entries, &mut self.entries);
        assert(entries_view(entries@) == before);
        if held {
            let (key, _) = entries.remove(p);
            if !next.is_zero() {
                entries.insert(p, (key, next));
                proof {
                    assert(entries_view(entries@) =~= before.update(p as int, (symbol@, next@)));
                    lemma_book_update(before, p as int, next@);
                }
            } else {
                proof {
                    assert(entries_view(entries@) =~= before.remove(p as int));
                    lemma_book_remove(before, p as int);
                }
            }
        } else {
            if !next.is_zero() {
                entries.insert(p, (String::from_str(symbol), next));
                proof {
                    assert(entries_view(entries@) =~= before.insert(p as int, (symbol@, next@)));
                    lemma_book_insert(before, p as int, symbol@, next@);
                }
            }
        }
        self.entries = entries;
    }

    /// The position held for `symbol`.
    pub fn get(&self, symbol: &str) -> (r: Option<Dec>)
        ensures
            opt_view(r) == book_get(self@, symbol@),
    {
        let p = self.locate(symbol);
        if p < self.entries.len() && !str_lt(symbol, self.entries[p].0.as_str()) {
            proof {
                crate::text::lemma_text_lt_total(self@[p as int].0, symbol@);
                assert(self@[p as int].0 == symbol@);
                assert(book_get(self@, symbol@) == Some(self@[p as int].1)) by {
                    let j = choose|j: int| 0 <= j < self@.len() && self@[j].0 == symbol@;
                    if j < p {
                        lemma_text_lt_irreflexive(symbol@);
                    } else if j > p {
                        lemma_text_lt_irreflexive(symbol@);
                        assert(text_lt(self@[p as int].0, self@[j].0));
                    }
                }
            }
            Some(self.entries[p].1)
        } else {
            proof {
                lemma_text_lt_irreflexive(symbol@);
                assert forall|i: int| 0 <= i < self@.len() implies self@[i].0 != symbol@ by {
                    if i > p {
                        assert(text_lt(self@[p as int].0, self@[i].0));
                    }
                }
            }
            None
        }
    }
}

} // verus!

verus! {

/// The sum of the absolute quantities, added in symbol order from zero (`None` on overflow).
pub open spec fn abs_total(s: Seq<(Seq<char>, (int, nat))>) -> Option<(int, nat)>
    decreases s.len(),
{
    if s.len() == 0 {
        Some((0int, 0nat))
    } else {
        match abs_total(s.drop_last()) {
            Some(t) => decimal_sum(t, parts_abs(s.last().1)),
            None => None,
        }
    }
}

/// Gross exposure as a percentage of equity: zero without equity, else
/// `(sum |qty| / equity) * 100` (`None` on overflow).
pub open spec fn spec_gross_pct(book: Seq<(Seq<char>, (int, nat))>, equity: (int, nat)) -> Option<
    (int, nat),
> {
    if equity.0 == 0 {
        Some((0int, 0nat))
    } else {
        match abs_total(book) {
            Some(g) => match decimal_quotient(g, equity) {
                Some(ratio) => decimal_product(ratio, (100int, 0nat)),
                None => None,
            },
            None => None,
        }
    }
}

/// Signed positions per symbol, with equity now and at the start of the day.
#[derive(Debug)]
pub struct LivePositionState {
    pub positions: PositionBook,
    pub equity: Dec,
    pub start_of_day_equity: Dec,
}

impl Default for LivePositionState {
    fn default() -> (r: LivePositionState)
        ensures
            r.positions@.len() == 0,
            r.equity@ == (0int, 0nat),
            r.start_of_day_equity@ == (0int, 0nat),
    {
        LivePositionState {
            positions: PositionBook::new(),
            equity: Dec::zero(),
            start_of_day_equity: Dec::zero(),
        }
    }
}

impl LivePositionState {
    /// Adds a buy to, or takes a sell from, the position in `symbol`; a position that
    /// comes to zero is dropped.
    pub fn update_fill(&mut self, symbol: &str, side: Side, qty: Dec)
        requires
            spec_after_fill(old(self).positions.current(symbol@), side, qty@) is Some,
        ensures
            final(self).equity == old(self).equity,
            final(self).start_of_day_equity == old(self).start_of_day_equity,
            ({
                let after = spec_after_fill(old(self).positions.current(symbol@), side, qty@).unwrap();
                &&& book_get(final(self).positions@, symbol@) == (if after.0 == 0 {
                    None
                } else {
                    Some(after)
                })
                &&& forall|k: Seq<char>|
                    k != symbol@ ==> #[trigger] book_get(final(self).positions@, k) == book_get(
                        old(self).positions@,
                        k,
                    )
            }),
    {
        self.positions.apply_fill(symbol, side, qty);
    }

    /// Applies the fill unless the new quantity would overflow; returns whether it did.
    pub fn try_update_fill(&mut self, symbol: &str, side: Side, qty: Dec) -> (applied: bool)
        ensures
            book_get(old(self).positions@, symbol@) is None && side == Side::Buy ==> applied
                && book_get(final(self).positions@, symbol@) == (if qty@.0 == 0 {
                None
            } else {
                Some(qty@)
            }),
            book_get(old(self).positions@, symbol@) == Some(qty@) && side == Side::Sell
                ==> applied && book_get(final(self).positions@, symbol@) is None,
            applied == spec_after_fill(old(self).positions.current(symbol@), side, qty@) is Some,
            !applied ==> final(self).positions@ == old(self).positions@,
            final(self).equity == old(self).equity,
            final(self).start_of_day_equity == old(self).start_of_day_equity,
            applied ==> ({
                let after = spec_after_fill(old(self).positions.current(symbol@), side, qty@).unwrap();
                &&& book_get(final(self).positions@, symbol@) == (if after.0 == 0 {
                    None
                } else {
                    Some(after)
                })
                &&& forall|k: Seq<char>|
                    k != symbol@ ==> #[trigger] book_get(final(self).positions@, k) == book_get(
                        old(self).positions@,
                        k,
                    )
            }),
    {
        let cur = match self.positions.get(symbol) {
            Some(q) => q,
            None => Dec::zero(),
        };
        let next = match side {
            Side::Buy => cur.checked_add(qty),
            Side::Sell => cur.checked_sub(qty),
        };
        if next.is_some() {
            self.update_fill(symbol, side, qty);
            true
        } else {
            false
        }
    }

    /// The symbols with an open position, in symbol order.
    pub fn open_symbols(&self) -> (r: Vec<String>)
        ensures
            r@.map_values(|s: String| s@) == self.positions@.map_values(
                |e: (Seq<char>, (int, nat))| e.0,
            ),
    {
        let mut out: Vec<String> = Vec::new();
        let mut i: usize = 0;
        while i < self.positions.len()
            invariant
                0 <= i <= self.positions@.len(),
                out@.map_values(|s: String| s@) =~= self.positions@.take(i as int).map_values(
                    |e: (Seq<char>, (int, nat))| e.0,
                ),
            decreases self.positions@.len() - i,
        {
            let (sym, _) = self.positions.entry(i);
            let ghost before = out@;
            out.push(sym);
            assert(self.positions@.take(i + 1) =~= self.positions@.take(i as int).push(
                self.positions@[i as int],
            ));
            assert(out@.map_values(|s: String| s@) =~= before.map_values(|s: String| s@).push(
                sym@,
            ));
            i = i + 1;
        }
        assert(self.positions@.take(self.positions@.len() as int) =~= self.positions@);
        out
    }

    pub fn is_flat(&self) -> (r: bool)
        ensures
            r <==> self.positions@.len() == 0,
    {
        self.positions.is_empty()
    }

    fn gross_pct_core(&self) -> (r: Option<Dec>)
        ensures
            opt_view(r) == spec_gross_pct(self.positions@, self.equity@),
    {
        if self.equity.is_zero() {
            return Some(Dec::zero());
        }
        let mut total = Dec::zero();
        let mut i: usize = 0;
        while i < self.positions.len()
            invariant
                0 <= i <= self.positions@.len(),
                abs_total(self.positions@.take(i as int)) == Some(total@),
                self.equity@.0 != 0,
            decreases self.positions@.len() - i,
        {
            let (_, q) = self.positions.entry(i);
            assert(self.positions@.take(i + 1).drop_last() =~= self.positions@.take(i as int));
            assert(self.positions@.take(i + 1).last() == self.positions@[i as int]);
            let qa = q.abs();
            match total.checked_add(qa) {
                Some(t) => {
                    total = t;
                },
                None => {
                    proof {
                        assert(abs_total(self.positions@.take(i + 1)) is None);
                        lemma_abs_total_none_extends(self.positions@, i as int + 1);
                    }
                    assert(self.positions@.take(self.positions@.len() as int) =~= self.positions@);
                    return None;
                },
            }
            i = i + 1;
        }
        assert(self.positions@.take(self.positions@.len() as int) =~= self.positions@);
        match total.checked_div(self.equity) {
            Some(ratio) => ratio.checked_mul(Dec::from_u64(100)),
            None => None,
        }
    }

    /// Gross exposure as a percentage of equity (zero when equity is zero).
    pub fn gross_position_pct(&self) -> (r: Dec)
        requires
            spec_gross_pct(self.positions@, self.equity@) is Some,
        ensures
            r@ == spec_gross_pct(self.positions@, self.equity@).unwrap(),
    {
        match self.gross_pct_core() {
            Some(r) => r,
            None => {
                assert(false);
                Dec::zero()
            },
        }
    }

    /// Gross exposure, or `None` where the decimal arithmetic overflows.
    pub fn gross_position_pct_checked(&self) -> (r: Option<Dec>)
        ensures
            opt_view(r) == spec_gross_pct(self.positions@, self.equity@),
    {
        if self.gross_pct_core().is_some() {
            Some(self.gross_position_pct())
        } else {
            None
        }
    }
}

/// Once the running total overflows, it stays overflowed.
pub proof fn lemma_abs_total_none_extends(s: Seq<(Seq<char>, (int, nat))>, n: int)
    requires
        0 <= n <= s.len(),
        abs_total(s.take(n)) is None,
    ensures
        abs_total(s) is None,
    decreases s.len() - n,
{
    if n < s.len() {
        assert(s.take(n + 1).drop_last() =~= s.take(n));
        lemma_abs_total_none_extends(s, n + 1);
    } else {
        assert(s.take(n) =~= s);
    }
}

} // verus!
