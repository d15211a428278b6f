//! Order intents, the idempotent order outbox, market ticks and the paper broker.
use crate::clock::Timestamp;
use crate::decimal::{
    decimal_difference, decimal_product, decimal_quotient, decimal_sum, opt_view, Dec,
};
use crate::market::Side;
use vstd::prelude::*;
use vstd::string::*;
use vstd::utf8::encode_utf8;

verus! {

/// The UUID v5 (`Uuid::new_v5`) in the OID namespace of the name `name`, as a 128-bit integer.
pub uninterp spec fn uuid_v5_oid(name: Seq<u8>) -> u128;

/// `Uuid::new_v5(&Uuid::NAMESPACE_OID, name).as_u128()`.
#[verifier::external_body]
fn uuid_v5_oid_exec(name: &[u8]) -> (r: u128)
    ensures
        r == uuid_v5_oid(name@),
{
    uuid::Uuid::new_v5(&uuid::Uuid::NAMESPACE_OID, name).as_u128()
}

/// The name hashed for a client order id.
pub open spec fn client_order_id_name(spec_hash: Seq<char>, intent_id: Seq<char>) -> Seq<u8> {
    encode_utf8(spec_hash + ":"@ + intent_id)
}

/// The client order id of an intent: the UUID v5 of `"{spec_hash}:{intent_id}"`, so retrying
/// an intent reuses its id.
pub fn deterministic_client_order_id(spec_hash: &str, intent_id: &str) -> (r: u128)
    ensures
        r == uuid_v5_oid(client_order_id_name(spec_hash@, intent_id@)),
{
    let name = String::from_str(spec_hash).concat(":").concat(intent_id);
    proof {
        reveal_strlit(":");
    }
    uuid_v5_oid_exec(name.as_str().as_bytes())
}

/// An order the strategy wants placed.
#[derive(Debug, Clone)]
pub struct OrderIntent {
    pub intent_id: String,
    pub symbol: String,
    pub side: Side,
    pub qty: Dec,
}

/// Where an order stands with the venue.
#[derive(Debug, Clone, Copy, PartialEq, Eq, Structural)]
pub enum OutboxStatus {
    Pending,
    Acked,
    Filled,
    Rejected,
}

/// An order recorded before it is sent.
#[derive(Debug, Clone)]
pub struct OutboxOrder {
    pub client_order_id: u128,
    pub intent: OrderIntent,
    pub status: OutboxStatus,
}

/// Orders still open with the venue: pending or acknowledged.
pub open spec fn is_open_status(s: OutboxStatus) -> bool {
    s == OutboxStatus::Pending || s == OutboxStatus::Acked
}

/// The orders ordered by strictly increasing client order id.
pub open spec fn ids_increasing(s: Seq<OutboxOrder>) -> bool {
    forall|i: int, j: int|
        0 <= i < j < s.len() ==> s[i].client_order_id < s[j].client_order_id
}

pub open spec fn holds_id(s: Seq<OutboxOrder>, id: u128) -> bool {
    exists|i: int| 0 <= i < s.len() && s[i].client_order_id == id
}

/// The ids of the open orders, in the order the outbox holds them.
pub open spec fn open_ids(s: Seq<OutboxOrder>) -> Seq<u128>
    decreases s.len(),
{
    if s.len() == 0 {
        Seq::empty()
    } else {
        let rest = open_ids(s.drop_last());
        if is_open_status(s.last().status) {
            rest.push(s.last().client_order_id)
        } else {
            rest
        }
    }
}

/// The symbols of the open orders, in the order the outbox holds them.
pub open spec fn open_symbols_of(s: Seq<OutboxOrder>) -> Seq<Seq<char>>
    decreases s.len(),
{
    if s.len() == 0 {
        Seq::empty()
    } else {
        let rest = open_symbols_of(s.drop_last());
        if is_open_status(s.last().status) {
            rest.push(s.last().intent.symbol@)
        } else {
            rest
        }
    }
}

/// The outbox: every order is recorded under its deterministic id before it is sent, so an
/// intent is never sent twice and open orders can be reconciled after a restart.
#[derive(Debug)]
pub struct OrderOutbox {
    orders: Vec<OutboxOrder>,
}

impl View for OrderOutbox {
    type V = Seq<OutboxOrder>;

    closed spec fn view(&self) -> Seq<OutboxOrder> {
        self.orders@
    }
}

impl Default for OrderOutbox {
    fn default() -> (r: OrderOutbox)
        ensures
            r@ == Seq::<OutboxOrder>::empty(),
    {
        OrderOutbox::new()
    }
}

impl OrderOutbox {
    #[verifier::type_invariant]
    spec fn well_formed(self) -> bool {
        ids_increasing(self.orders@)
    }

    pub fn new() -> (r: OrderOutbox)
        ensures
            r@ == Seq::<OutboxOrder>::empty(),
    {
        OrderOutbox { orders: Vec::new() }
    }

    /// Records `intent` as pending under its deterministic id unless that id is already held;
    /// returns the id either way.
    pub fn enqueue(&mut self, spec_hash: &str, intent: OrderIntent) -> (r: u128)
        ensures
            r == uuid_v5_oid(client_order_id_name(spec_hash@, intent.intent_id@)),
            ids_increasing(final(self)@),
            holds_id(final(self)@, r),
            holds_id(old(self)@, r) ==> final(self)@ == old(self)@,
            !holds_id(old(self)@, r) ==> exists|p: int|
                0 <= p <= old(self)@.len() && final(self)@ == old(self)@.insert(
                    p,
                    OutboxOrder { client_order_id: r, intent, status: OutboxStatus::Pending },
                ),
    {
        proof {
            use_type_invariant(&*self);
        }
        let id = deterministic_client_order_id(spec_hash, intent.intent_id.as_str());
        let mut p: usize = 0;
        while p < self.orders.len() && self.orders[p].client_order_id < id
            invariant
                0 <= p <= self.orders@.len(),
                self.orders@ == old(self).orders@,
                ids_increasing(self.orders@),
                forall|k: int| 0 <= k < p ==> self.orders@[k].client_order_id < id,
            decreases self.orders@.len() - p,
        {
            p = p + 1;
        }
        if p < self.orders.len() && self.orders[p].client_order_id == id {
            assert(self.orders@[p as int].client_order_id == id);
            return id;
        }
        proof {
            assert forall|k: int| 0 <= k < self.orders@.len() implies self.orders@[k].client_order_id
                != id by {
                if k >= p {
                    assert(self.orders@[p as int].client_order_id <= self.orders@[k].client_order_id);
                }
            }
        }
        let order = OutboxOrder { client_order_id: id, intent, status: OutboxStatus::Pending };
        let ghost before = self.orders@;
        let mut orders: Vec<OutboxOrder> = Vec::new();
        std::mem::swap(&mut orders, &mut self.orders);
        orders.insert(p, order);
        proof {
            assert forall|i: int, j: int| 0 <= i < j < orders@.len() implies orders@[i].client_order_id
                < orders@[j].client_order_id by {
                if j < p {
                    assert(orders@[i] == before[i]);
                    assert(orders@[j] == before[j]);
                } else if i < p && j == p {
                    assert(orders@[i] == before[i]);
                } else if i < p {
                    assert(orders@[i] == before[i]);
                    assert(orders@[j] == before[j - 1]);
                } else if i == p {
                    assert(orders@[j] == before[j - 1]);
                    assert(before[p as int].client_order_id <= before[j - 1].client_order_id);
                } else {
                    assert(orders@[i] == before[i - 1]);
                    assert(orders@[j] == before[j - 1]);
                }
            }
        }
        self.orders = orders;
        assert(self.orders@[p as int].client_order_id == id);
        id
    }

    /// Sets the status of the order with id `client_order_id`; `false` when there is none.
    pub fn mark(&mut self, client_order_id: u128, status: OutboxStatus) -> (r: bool)
        ensures
            r == holds_id(old(self)@, client_order_id),
            ids_increasing(final(self)@),
            !r ==> final(self)@ == old(self)@,
            r ==> exists|i: int|
                0 <= i < old(self)@.len() && old(self)@[i].client_order_id == client_order_id
                    && final(self)@ == old(self)@.update(
                    i,
                    OutboxOrder { status, ..old(self)@[i] },
                ),
    {
        proof {
            use_type_invariant(&*self);
        }
        let mut i: usize = 0;
        while i < self.orders.len()
            invariant
                0 <= i <= self.orders@.len(),
                self.orders@ == old(self).orders@,
                ids_increasing(self.orders@),
                forall|k: int| 0 <= k < i ==> self.orders@[k].client_order_id != client_order_id,
            decreases self.orders@.len() - i,
        {
            if self.orders[i].client_order_id == client_order_id {
                let ghost before = self.orders@;
                let mut orders: Vec<OutboxOrder> = Vec::new();
                std::mem::swap(&mut orders, &mut self.orders);
                let mut order = orders.remove(i);
                order.status = status;
                orders.insert(i, order);
                assert(orders@ =~= before.update(i as int, OutboxOrder { status, ..before[i as int] }));
                assert(ids_increasing(orders@)) by {
                    assert forall|a: int, b: int| 0 <= a < b < orders@.len() implies orders@[a].client_order_id
                        < orders@[b].client_order_id by {
                        assert(orders@[a].client_order_id == before[a].client_order_id);
                        assert(orders@[b].client_order_id == before[b].client_order_id);
                    }
                }
                self.orders = orders;
                assert(old(self)@[i as int].client_order_id == client_order_id);
                assert(self@ == old(self)@.update(
                    i as int,
                    OutboxOrder { status, ..old(self)@[i as int] },
                ));
                return true;
            }
            i = i + 1;
        }
        false
    }

    /// The ids of the pending and acknowledged orders, in increasing order.
    pub fn pending_for_reconciliation(&self) -> (r: Vec<u128>)
        ensures
            r@ == open_ids(self@),
            ids_increasing(self@),
    {
        proof {
            use_type_invariant(self);
        }
        let mut out: Vec<u128> = Vec::new();
        let mut i: usize = 0;
        while i < self.orders.len()
            invariant
                0 <= i <= self.orders@.len(),
                out@ == open_ids(self.orders@.take(i as int)),
            decreases self.orders@.len() - i,
        {
            assert(self.orders@.take(i + 1).drop_last() =~= self.orders@.take(i as int));
            let status = self.orders[i].status;
            if status == OutboxStatus::Pending || status == OutboxStatus::Acked {
                out.push(self.orders[i].client_order_id);
            }
            i = i + 1;
        }
        assert(self.orders@.take(self.orders@.len() as int) =~= self.orders@);
        out
    }

    /// The symbols of the pending and acknowledged orders, in id order.
    pub fn open_order_symbols(&self) -> (r: Vec<String>)
        ensures
            r@.map_values(|s: String| s@) == open_symbols_of(self@),
    {
        let mut out: Vec<String> = Vec::new();
        let mut i: usize = 0;
        while i < self.orders.len()
            invariant
                0 <= i <= self.orders@.len(),
                out@.map_values(|s: String| s@) == open_symbols_of(self.orders@.take(i as int)),
            decreases self.orders@.len() - i,
        {
            assert(self.orders@.take(i + 1).drop_last() =~= self.orders@.take(i as int));
            let status = self.orders[i].status;
            if status == OutboxStatus::Pending || status == OutboxStatus::Acked {
                let sym = self.orders[i].intent.symbol.clone();
                let ghost before = out@;
                out.push(sym);
                assert(out@.map_values(|s: String| s@) =~= before.map_values(|s: String| s@).push(
                    sym@,
                ));
            }
            i = i + 1;
        }
        assert(self.orders@.take(self.orders@.len() as int) =~= self.orders@);
        out
    }
}

/// A last-trade price from the market-data feed.
#[derive(Debug, Clone)]
pub struct MarketTick {
    pub symbol: String,
    pub price: Dec,
    pub ts: Timestamp,
}

/// An execution of an order.
#[derive(Debug, Clone)]
pub struct Fill {
    pub client_order_id: u128,
    pub symbol: String,
    pub side: Side,
    pub qty: Dec,
    pub price: Dec,
    pub ts: Timestamp,
}

/// The virtual fill price: the tick moved against the taker by `slippage_bps / 10000`, or
/// `None` where the decimal arithmetic overflows.
pub open spec fn spec_paper_price(slippage_bps: (int, nat), side: Side, tick_price: (int, nat)) -> Option<
    (int, nat),
> {
    match decimal_quotient(slippage_bps, (10000int, 0nat)) {
        Some(slip) => {
            let factor = if side == Side::Buy {
                decimal_sum((1int, 0nat), slip)
            } else {
                decimal_difference((1int, 0nat), slip)
            };
            match factor {
                Some(f) => decimal_product(tick_price, f),
                None => None,
            }
        },
        None => None,
    }
}

/// Fills orders virtually at live tick prices with a fixed slippage.
#[derive(Debug, Clone)]
pub struct PaperBroker {
    pub slippage_bps: Dec,
}

impl PaperBroker {
    pub fn new(slippage_bps: Dec) -> (r: PaperBroker)
        ensures
            r.slippage_bps == slippage_bps,
    {
        PaperBroker { slippage_bps }
    }

    fn fill_price(&self, side: Side, tick_price: Dec) -> (r: Option<Dec>)
        ensures
            opt_view(r) == spec_paper_price(self.slippage_bps@, side, tick_price@),
    {
        let slip = match self.slippage_bps.checked_div(Dec::from_u64(10000)) {
            Some(s) => s,
            None => return None,
        };
        let factor = match side {
            Side::Buy => Dec::one().checked_add(slip),
            Side::Sell => Dec::one().checked_sub(slip),
        };
        match factor {
            Some(f) => tick_price.checked_mul(f),
            None => None,
        }
    }

    /// Fills `intent` in full at the tick price adjusted for slippage, stamped with the tick's
    /// time.
    pub fn execute_market(&self, client_order_id: u128, intent: &OrderIntent, tick: &MarketTick) -> (r:
        Fill)
        requires
            spec_paper_price(self.slippage_bps@, intent.side, tick.price@) is Some,
        ensures
            r.client_order_id == client_order_id,
            r.symbol@ == intent.symbol@,
            r.side == intent.side,
            r.qty == intent.qty,
            r.price@ == spec_paper_price(self.slippage_bps@, intent.side, tick.price@).unwrap(),
            r.ts == tick.ts,
    {
        let price = match self.fill_price(intent.side, tick.price) {
            Some(p) => p,
            None => {
                assert(false);
                tick.price
            },
        };
        Fill {
            client_order_id,
            symbol: intent.symbol.clone(),
            side: intent.side,
            qty: intent.qty,
            price,
            ts: tick.ts,
        }
    }

    /// The fill, or `None` where computing its price would overflow.
    pub fn execute_market_checked(
        &self,
        client_order_id: u128,
        intent: &OrderIntent,
        tick: &MarketTick,
    ) -> (r: Option<Fill>)
        ensures
            r is Some <==> spec_paper_price(self.slippage_bps@, intent.side, tick.price@) is Some,
            r matches Some(f) ==> {
                &&& f.client_order_id == client_order_id
                &&& f.symbol@ == intent.symbol@
                &&& f.side == intent.side
                &&& f.qty == intent.qty
                &&& f.price@ == spec_paper_price(self.slippage_bps@, intent.side, tick.price@).unwrap()
                &&& f.ts == tick.ts
            },
    {
        if self.fill_price(intent.side, tick.price).is_some() {
            Some(self.execute_market(client_order_id, intent, tick))
        } else {
            None
        }
    }
}

} // verus!
