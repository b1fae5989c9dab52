//! The price-ordered list of an order book.
//!
//! Each trade pair has a list of price levels, kept as nodes that are linked
//! by the prices of their neighbours. Three nodes are always there once the
//! list of a pair has been touched: the bottom at price zero, the top at the
//! largest price, and between them the head, which has no price. The levels
//! with buy orders stand between the bottom and the head, those with sell
//! orders between the head and the top, each side in rising order of price;
//! the top links on to the bottom, so the nodes form a ring.
//!
//! The two limit prices are taken by the bottom and the top, so a level has
//! a price strictly between them.

use crate::table::{without, Key, Table};
use crate::swap_orderbook;
use crate::swap_orderbook::spec_is_limit_order_finished;
use crate::utilities::{Did, LimitOrder, OrderType};
use vstd::prelude::*;

verus! {

/// Why an operation on the list failed.
#[derive(Clone, Copy, Debug, PartialEq, Eq, Structural)]
pub enum Error {
    /// The order is not among the orders of its price level.
    OrderNotInList,
    /// An order of the level is not in the order book.
    OrderNotFound,
    /// An order of the level is neither filled nor canceled.
    OrderNotFinished,
    /// There is no level at the price.
    LevelNotFound,
    /// The amounts of the level would have passed the largest 64-bit number.
    AmountOverflow,
    /// The amounts of the level would have fallen below zero.
    AmountUnderflow,
}

/// One node of the list: a price level, or one of the three fixed nodes.
#[derive(Debug, PartialEq, Eq)]
pub struct LinkedItem {
    pub prev: Option<u64>,
    pub next: Option<u64>,
    pub price: Option<u64>,
    pub buy_amount: u64,
    pub sell_amount: u64,
    pub orders: Vec<Did>,
}

/// A node as a mathematical value.
pub struct LinkedItemView {
    pub prev: Option<u64>,
    pub next: Option<u64>,
    pub price: Option<u64>,
    pub buy_amount: u64,
    pub sell_amount: u64,
    pub orders: Seq<Did>,
}

impl View for LinkedItem {
    type V = LinkedItemView;

    open spec fn view(&self) -> LinkedItemView {
        LinkedItemView {
            prev: self.prev,
            next: self.next,
            price: self.price,
            buy_amount: self.buy_amount,
            sell_amount: self.sell_amount,
            orders: self.orders@,
        }
    }
}

impl Clone for LinkedItem {
    fn clone(&self) -> (r: Self)
        ensures
            r@ == self@,
    {
        LinkedItem {
            prev: self.prev,
            next: self.next,
            price: self.price,
            buy_amount: self.buy_amount,
            sell_amount: self.sell_amount,
            orders: crate::table::list_copy(&self.orders),
        }
    }
}

/// The bottom of an empty list.
pub open spec fn bottom_view() -> LinkedItemView {
    LinkedItemView {
        prev: Some(u64::MAX),
        next: None,
        price: Some(0),
        buy_amount: 0,
        sell_amount: 0,
        orders: Seq::empty(),
    }
}

/// The top of an empty list.
pub open spec fn top_view() -> LinkedItemView {
    LinkedItemView {
        prev: None,
        next: Some(0),
        price: Some(u64::MAX),
        buy_amount: 0,
        sell_amount: 0,
        orders: Seq::empty(),
    }
}

/// The head of an empty list.
pub open spec fn head_view() -> LinkedItemView {
    LinkedItemView {
        prev: Some(0),
        next: Some(u64::MAX),
        price: None,
        buy_amount: 0,
        sell_amount: 0,
        orders: Seq::empty(),
    }
}

/// The nodes with the three fixed nodes of the pair `key1` written as those
/// of an empty list.
pub open spec fn with_empty_list(
    nodes: Map<(Did, Option<u64>), LinkedItemView>,
    key1: Did,
) -> Map<(Did, Option<u64>), LinkedItemView> {
    nodes.insert((key1, Some(0)), bottom_view()).insert((key1, Some(u64::MAX)), top_view()).insert(
        (key1, None),
        head_view(),
    )
}

/// The order of the nodes of one pair: their keys from the bottom to the
/// top, and the place of the head among them.
pub struct Ring {
    pub keys: Seq<Option<u64>>,
    pub head: int,
}

/// The ring of an empty list.
pub open spec fn empty_ring() -> Ring {
    Ring { keys: seq![Some(0u64), None, Some(u64::MAX)], head: 1 }
}

/// The keys begin with the bottom and end with the top, the head is the one
/// key without a price, the prices rise from the bottom to the head and from
/// the head to the top, and no key occurs twice.
pub open spec fn ring_shape(ring: Ring) -> bool {
    let keys = ring.keys;
    let n = keys.len();
    &&& 1 <= ring.head < n - 1
    &&& keys[0] == Some(0u64)
    &&& keys[n - 1] == Some(u64::MAX)
    &&& keys[ring.head] == None::<u64>
    &&& forall|i: int| 0 <= i < n && i != ring.head ==> (#[trigger] keys[i]) is Some
    &&& forall|i: int, j: int|
        0 <= i < j < ring.head ==> (#[trigger] keys[i]).unwrap() < (#[trigger] keys[j]).unwrap()
    &&& forall|i: int, j: int|
        ring.head < i < j < n ==> (#[trigger] keys[i]).unwrap() < (#[trigger] keys[j]).unwrap()
    &&& forall|i: int, j: int| 0 <= i < j < n ==> (#[trigger] keys[i]) != (#[trigger] keys[j])
}

/// The nodes of one pair are those of the ring: each node stands under its
/// own price, each is linked to the next and back, the top is linked on to
/// the bottom, and every price level has an order.
pub open spec fn ring_linked(nodes: Map<Option<u64>, LinkedItemView>, ring: Ring) -> bool {
    let keys = ring.keys;
    let n = keys.len();
    &&& forall|i: int| 0 <= i < n ==> nodes.contains_key(#[trigger] keys[i])
    &&& forall|k: Option<u64>| #[trigger]
        nodes.contains_key(k) ==> exists|i: int| 0 <= i < n && #[trigger] keys[i] == k
    &&& forall|i: int| 0 <= i < n ==> nodes[#[trigger] keys[i]].price == keys[i]
    &&& forall|i: int, j: int|
        0 <= i && j == i + 1 && j < n ==> nodes[#[trigger] keys[i]].next == #[trigger] keys[j]
            && nodes[keys[j]].prev == keys[i]
    &&& nodes[keys[n - 1]].next == keys[0]
    &&& nodes[keys[0]].prev == keys[n - 1]
    &&& forall|i: int|
        0 < i < n - 1 && i != ring.head ==> nodes[#[trigger] keys[i]].orders.len() > 0
}

/// No buy price reaches a sell price.
pub open spec fn ring_uncrossed(ring: Ring) -> bool {
    forall|i: int, j: int|
        0 <= i < ring.head < j < ring.keys.len() ==> (#[trigger] ring.keys[i]).unwrap() < (
        #[trigger] ring.keys[j]).unwrap()
}

/// The nodes of the pair `key1`, by price.
pub open spec fn pair_nodes(nodes: Map<(Did, Option<u64>), LinkedItemView>, key1: Did) -> Map<
    Option<u64>,
    LinkedItemView,
> {
    Map::new(
        |key2: Option<u64>| nodes.contains_key((key1, key2)),
        |key2: Option<u64>| nodes[(key1, key2)],
    )
}

/// The nodes of all pairs but `key1`.
pub open spec fn other_pairs(nodes: Map<(Did, Option<u64>), LinkedItemView>, key1: Did) -> Map<
    (Did, Option<u64>),
    LinkedItemView,
> {
    Map::new(
        |key: (Did, Option<u64>)| key.0 != key1 && nodes.contains_key(key),
        |key: (Did, Option<u64>)| nodes[key],
    )
}

/// The lists of all trade pairs.
pub struct LinkedList {
    items: Table<(Did, Option<u64>), LinkedItem>,
    rings: Ghost<Map<Did, Ring>>,
}

impl LinkedList {
    /// The nodes of all pairs, each under its pair and its price.
    pub closed spec fn nodes(&self) -> Map<(Did, Option<u64>), LinkedItemView> {
        self.items@.map_values(|item: LinkedItem| item@)
    }

    /// The order of the nodes of each pair whose list has been set up.
    pub closed spec fn rings(&self) -> Map<Did, Ring> {
        self.rings@
    }

    /// Whether the list of the pair has been set up.
    pub open spec fn initialized(&self, key1: Did) -> bool {
        self.rings().contains_key(key1)
    }

    /// The order of the nodes of the pair. Meant for a pair whose list has
    /// been set up.
    pub open spec fn ring(&self, key1: Did) -> Ring {
        self.rings()[key1]
    }

    /// The list of the pair is sound: it has no node at all, or its nodes
    /// are those of its ring.
    pub closed spec fn pair_wf(&self, key1: Did) -> bool {
        if self.rings@.contains_key(key1) {
            &&& ring_shape(self.rings@[key1])
            &&& ring_linked(pair_nodes(self.nodes(), key1), self.rings@[key1])
        } else {
            forall|key2: Option<u64>| !self.nodes().contains_key((key1, key2))
        }
    }

    /// The lists of all pairs are sound.
    pub closed spec fn wf(&self) -> bool {
        forall|key1: Did| #[trigger] self.pair_wf(key1)
    }

    /// In the list of the pair no buy price reaches a sell price.
    pub open spec fn uncrossed(&self, key1: Did) -> bool {
        self.initialized(key1) ==> ring_uncrossed(self.ring(key1))
    }

    /// Order-book list integrity: in a sound list whose buy prices are below
    /// its sell prices, the walk from the bottom along the `next` links
    /// reaches the top in as many steps as the ring has keys, the prices it
    /// visits rise strictly, and every level it visits has an order.
    pub proof fn lemma_walk(&self, key1: Did)
        requires
            self.wf(),
            self.initialized(key1),
            self.uncrossed(key1),
        ensures
            is_walk(pair_nodes(self.nodes(), key1), self.ring(key1).keys),
            rising(self.ring(key1).keys),
            levels_have_orders(pair_nodes(self.nodes(), key1), self.ring(key1).keys),
    {
        self.lemma_wf(key1);
        let ring = self.ring(key1);
        let keys = ring.keys;
        let nodes = pair_nodes(self.nodes(), key1);
        assert forall|i: int, j: int|
            0 <= i < j < keys.len() && (#[trigger] keys[i]) is Some && (
            #[trigger] keys[j]) is Some implies keys[i].unwrap() < keys[j].unwrap() by {
            if j < ring.head {
            } else if i > ring.head {
            } else {
                assert(i < ring.head < j);
            }
        }
        assert forall|i: int| 0 < i < keys.len() - 1 && (#[trigger] keys[i]) is Some implies nodes[keys[i]].orders.len()
            > 0 by {
            assert(i != ring.head);
        }
    }

    /// What soundness says of one pair.
    pub proof fn lemma_wf(&self, key1: Did)
        requires
            self.wf(),
        ensures
            self.initialized(key1) ==> ring_shape(self.ring(key1)) && ring_linked(
                pair_nodes(self.nodes(), key1),
                self.ring(key1),
            ),
            !self.initialized(key1) ==> forall|key2: Option<u64>|
                !self.nodes().contains_key((key1, key2)),
            self.initialized(key1) == self.nodes().contains_key((key1, None)),
    {
        assert(self.pair_wf(key1));
        if self.initialized(key1) {
            let ring = self.ring(key1);
            assert(pair_nodes(self.nodes(), key1).contains_key(ring.keys[ring.head]));
        }
    }

    /// Writing a node that differs from the one under its key only in its
    /// amounts and orders, and still has an order, keeps the lists sound.
    proof fn lemma_payload(&self, key1: Did, key2: Option<u64>, item: LinkedItemView)
        requires
            self.wf(),
            self.nodes().contains_key((key1, key2)),
            item.prev == self.nodes()[(key1, key2)].prev,
            item.next == self.nodes()[(key1, key2)].next,
            item.price == self.nodes()[(key1, key2)].price,
            self.nodes()[(key1, key2)].orders.len() > 0 ==> item.orders.len() > 0,
        ensures
            forall|other: LinkedList|
                other.rings() == self.rings() && #[trigger] other.nodes() == self.nodes().insert(
                    (key1, key2),
                    item,
                ) ==> other.wf(),
    {
        assert forall|other: LinkedList|
            other.rings() == self.rings() && #[trigger] other.nodes() == self.nodes().insert(
                (key1, key2),
                item,
            ) implies other.wf() by {
            assert forall|k: Did| #[trigger] other.pair_wf(k) by {
                assert(self.pair_wf(k));
                if k != key1 {
                    assert(pair_nodes(other.nodes(), k) =~= pair_nodes(self.nodes(), k));
                } else {
                    let ring = self.rings()[key1];
                    let before = pair_nodes(self.nodes(), key1);
                    let after = pair_nodes(other.nodes(), key1);
                    assert(after =~= before.insert(key2, item));
                    lemma_ring_payload(before, ring, key2, item);
                }
            }
        }
    }

    /// The lists with no pair set up.
    pub fn new() -> (r: Self)
        ensures
            r.wf(),
            r.nodes() == Map::<(Did, Option<u64>), LinkedItemView>::empty(),
            r.rings() == Map::<Did, Ring>::empty(),
    {
        let r = LinkedList { items: Table::new(), rings: Ghost(Map::empty()) };
        proof {
            assert(r.nodes() =~= Map::<(Did, Option<u64>), LinkedItemView>::empty());
            assert forall|key1: Did| #[trigger] r.pair_wf(key1) by {}
        }
        r
    }

    /// The node under the pair and the price, which is there.
    fn fetch(&self, key1: Did, key2: Option<u64>) -> (r: LinkedItem)
        requires
            self.nodes().contains_key((key1, key2)),
        ensures
            r@ == self.nodes()[(key1, key2)],
    {
        match self.items.get(&(key1, key2)) {
            Some(item) => item.clone(),
            None => {
                proof {
                    assert(false);
                }
                LinkedItem {
                    prev: None,
                    next: None,
                    price: None,
                    buy_amount: 0,
                    sell_amount: 0,
                    orders: Vec::new(),
                }
            },
        }
    }

    /// The node under the pair and the price, if there is one. Nothing is
    /// written: a list that is not set up stays so.
    pub fn get(&self, key1: Did, key2: Option<u64>) -> (r: Option<LinkedItem>)
        ensures
            match r {
                Some(item) => self.nodes().contains_key((key1, key2)) && item@
                    == self.nodes()[(key1, key2)],
                None => !self.nodes().contains_key((key1, key2)),
            },
    {
        match self.items.get(&(key1, key2)) {
            Some(item) => Some(item.clone()),
            None => None,
        }
    }

    /// The head of the list of the pair; sets the list up if it is not.
    pub fn read_head(&mut self, key: Did) -> (r: LinkedItem)
        ensures
            read_post(*old(self), *final(self), key, None, r@),
            old(self).wf() ==> final(self).wf(),
    {
        self.read(key, None)
    }

    /// The bottom of the list of the pair; sets the list up if it is not.
    pub fn read_bottom(&mut self, key: Did) -> (r: LinkedItem)
        ensures
            read_post(*old(self), *final(self), key, Some(0), r@),
            old(self).wf() ==> final(self).wf(),
    {
        self.read(key, Some(u64::MIN))
    }

    /// The top of the list of the pair; sets the list up if it is not.
    pub fn read_top(&mut self, key: Did) -> (r: LinkedItem)
        ensures
            read_post(*old(self), *final(self), key, Some(u64::MAX), r@),
            old(self).wf() ==> final(self).wf(),
    {
        self.read(key, Some(u64::MAX))
    }

    /// The node under the pair and the price. Where there is none, the head
    /// of the pair's list is returned; a list that is not set up, which is
    /// one without a head, is set up first: its three fixed nodes are
    /// written as those of an empty list. A list that is set up is never
    /// written to.
    pub fn read(&mut self, key1: Did, key2: Option<u64>) -> (r: LinkedItem)
        ensures
            read_post(*old(self), *final(self), key1, key2, r@),
            old(self).wf() ==> final(self).wf(),
    {
        proof {
            if self.wf() {
                self.lemma_wf(key1);
            }
        }
        match self.items.get(&(key1, key2)) {
            Some(item) => {
                return item.clone();
            },
            None => {},
        }
        match self.items.get(&(key1, None)) {
            Some(head) => {
                return head.clone();
            },
            None => {},
        }
        let bottom = LinkedItem {
            prev: Some(u64::MAX),
            next: None,
            price: Some(u64::MIN),
            orders: Vec::new(),
            buy_amount: 0,
            sell_amount: 0,
        };
        let top = LinkedItem {
            prev: None,
            next: Some(u64::MIN),
            price: Some(u64::MAX),
            orders: Vec::new(),
            buy_amount: 0,
            sell_amount: 0,
        };
        let head = LinkedItem {
            prev: Some(u64::MIN),
            next: Some(u64::MAX),
            price: None,
            orders: Vec::new(),
            buy_amount: 0,
            sell_amount: 0,
        };
        let r = head.clone();
        self.write(key1, bottom.price, bottom);
        self.write(key1, top.price, top);
        self.write(key1, head.price, head);
        proof {
            let ghost_old = *old(self);
            if !ghost_old.initialized(key1) {
                self.rings = Ghost(self.rings@.insert(key1, empty_ring()));
                if ghost_old.wf() {
                    assert forall|k: Did| #[trigger] self.pair_wf(k) by {
                        assert(ghost_old.pair_wf(k));
                        if k == key1 {
                            let m = pair_nodes(self.nodes(), key1);
                            let ring = empty_ring();
                            assert(ring_shape(ring));
                            assert(ghost_old.pair_wf(key1));
                            assert forall|q: Option<u64>| #[trigger] m.contains_key(q) implies exists|
                                i: int,
                            |
                                0 <= i < ring.keys.len() && #[trigger] ring.keys[i] == q by {
                                assert(!ghost_old.nodes().contains_key((key1, q)));
                                if q == Some(0u64) {
                                    assert(ring.keys[0] == q);
                                } else if q == Some(u64::MAX) {
                                    assert(ring.keys[2] == q);
                                } else {
                                    assert(ring.keys[1] == q);
                                }
                            }
                            assert(ring_linked(m, ring));
                        } else {
                            assert(pair_nodes(self.nodes(), k) =~= pair_nodes(ghost_old.nodes(), k));
                        }
                    }
                }
            }
        }
        r
    }

    /// Writes the node under the pair and the price, whatever was there.
    /// Nothing is done to the nodes around it.
    pub fn write(&mut self, key1: Did, key2: Option<u64>, item: LinkedItem)
        ensures
            final(self).nodes() == old(self).nodes().insert((key1, key2), item@),
            final(self).rings() == old(self).rings(),
    {
        self.items.insert((key1, key2), item);
        assert(self.nodes() =~= old(self).nodes().insert((key1, key2), item@));
    }

    /// Puts the order `value` on the list of the pair `key1` at the price
    /// `key2`. Where the price has a level, the order joins the end of its
    /// orders and the amounts are added to its amounts. Where it has none, a
    /// new level with the order and the amounts is linked in on the side
    /// `otype`, after the lower prices of that side and before the higher
    /// ones; a list that is not set up is set up first.
    pub fn append(
        &mut self,
        key1: Did,
        key2: u64,
        value: Did,
        sell_amount: u64,
        buy_amount: u64,
        otype: OrderType,
    ) -> (r: Result<(), Error>)
        requires
            old(self).wf(),
            0 < key2 < u64::MAX,
        ensures
            final(self).wf(),
            append_post(
                *old(self),
                *final(self),
                key1,
                key2,
                value,
                sell_amount,
                buy_amount,
                otype,
                r,
            ),
            old(self).uncrossed(key1) && keeps_uncrossed(*old(self), key1, key2, otype)
                ==> final(self).uncrossed(key1),
            final(self).rings().remove(key1) == old(self).rings().remove(key1),
    {
        if self.items.contains_key(&(key1, Some(key2))) {
            let mut item = self.fetch(key1, Some(key2));
            let buy = match item.buy_amount.checked_add(buy_amount) {
                Some(v) => v,
                None => {
                    return Err(Error::AmountOverflow);
                },
            };
            let sell = match item.sell_amount.checked_add(sell_amount) {
                Some(v) => v,
                None => {
                    return Err(Error::AmountOverflow);
                },
            };
            item.orders.push(value);
            item.buy_amount = buy;
            item.sell_amount = sell;
            proof {
                old(self).lemma_wf(key1);
                self.lemma_payload(key1, Some(key2), item@);
            }
            self.write(key1, Some(key2), item);
            return Ok(());
        }
        let start_item = match otype {
            OrderType::Buy => Some(u64::MIN),
            OrderType::Sell => None,
        };
        proof {
            old(self).lemma_wf(key1);
            if old(self).initialized(key1) {
                let r0 = old(self).ring(key1);
                assert(pair_nodes(old(self).nodes(), key1).contains_key(r0.keys[0]));
                assert(pair_nodes(old(self).nodes(), key1).contains_key(r0.keys[r0.head]));
            }
        }
        self.read(key1, start_item);
        let ghost base = *self;
        let (item, at) = self.locate(key1, key2, otype);
        self.splice(key1, key2, item, value, sell_amount, buy_amount, Ghost(otype), at);
        proof {
            let ring = base.ring(key1);
            if old(self).uncrossed(key1) && keeps_uncrossed(*old(self), key1, key2, otype) {
                base.lemma_wf(key1);
                let m = pair_nodes(base.nodes(), key1);
                assert(m.contains_key(ring.keys[ring.head]));
                assert(m[ring.keys[ring.head]].next == ring.keys[ring.head + 1]);
                assert(m[ring.keys[ring.head - 1]].next == ring.keys[ring.head]);
                lemma_insert_uncrossed(ring, otype, at@, key2);
            }
            assert(fits_at(ring, otype, key2, at@));
            assert(self.rings() =~= old(self).rings().insert(
                key1,
                ring_insert(ring, at@, Some(key2)),
            ));
            assert(self.rings().remove(key1) =~= old(self).rings().remove(key1));
            assert(level_linked_in(
                base.nodes(),
                ring,
                old(self).rings(),
                *self,
                key1,
                key2,
                value,
                sell_amount,
                buy_amount,
                otype,
            ));
        }
        Ok(())
    }

    /// Walks the side `otype` of the list from its lower end to the node
    /// after which a new level at the price `key2` belongs, and returns that
    /// node with the place of the new level in the ring.
    fn locate(&self, key1: Did, key2: u64, otype: OrderType) -> (r: (LinkedItem, Ghost<int>))
        requires
            self.wf(),
            self.initialized(key1),
            0 < key2 < u64::MAX,
            !self.nodes().contains_key((key1, Some(key2))),
        ensures
            fits_at(self.ring(key1), otype, key2, r.1@),
            self.nodes().contains_key((key1, self.ring(key1).keys[r.1@ - 1])),
            r.0@ == self.nodes()[(key1, self.ring(key1).keys[r.1@ - 1])],
    {
        let (start_item, end_item) = match otype {
            OrderType::Buy => (Some(u64::MIN), None),
            OrderType::Sell => (None, Some(u64::MAX)),
        };
        let ghost ring = self.ring(key1);
        let ghost nodes = pair_nodes(self.nodes(), key1);
        let ghost mut idx: int = if otype == OrderType::Buy {
            0
        } else {
            ring.head
        };
        proof {
            self.lemma_wf(key1);
            assert(nodes.contains_key(ring.keys[idx]));
            assert(!nodes.contains_key(Some(key2)));
        }
        let mut item = self.fetch(key1, start_item);
        let mut stop = false;
        while !stop
            invariant
                ring == self.ring(key1),
                nodes == pair_nodes(self.nodes(), key1),
                ring_shape(ring),
                ring_linked(nodes, ring),
                0 < key2 < u64::MAX,
                !nodes.contains_key(Some(key2)),
                0 <= idx < ring.keys.len() - 1,
                otype == OrderType::Buy ==> idx < ring.head && end_item == None::<u64>,
                otype == OrderType::Sell ==> idx >= ring.head && end_item == Some(u64::MAX),
                item@ == nodes[ring.keys[idx]],
                idx != ring.head ==> ring.keys[idx].unwrap() < key2,
                stop ==> fits_at(ring, otype, key2, idx + 1),
            decreases ring.keys.len() - idx, (if stop { 0int } else { 1int }),
        {
            proof {
                assert(nodes.contains_key(ring.keys[idx + 1]));
                assert(item.next == ring.keys[idx + 1]);
                assert(ring.keys[idx + 1] != Some(key2));
                if idx + 1 != ring.keys.len() - 1 {
                    assert(ring.keys[idx + 1] != ring.keys[ring.keys.len() - 1]);
                }
                if idx == 0 {
                    assert(ring.keys[0].unwrap() == 0);
                }
            }
            if item.next.same(&end_item) {
                stop = true;
            } else {
                let beyond = match item.next {
                    Some(price) => key2 < price,
                    None => false,
                };
                if beyond {
                    stop = true;
                } else {
                    proof {
                        if otype == OrderType::Sell {
                            assert(ring.keys[idx + 1] is Some);
                        }
                    }
                    item = self.fetch(key1, item.next);
                    proof {
                        idx = idx + 1;
                    }
                }
            }
        }
        proof {
            assert(nodes.contains_key(ring.keys[idx]));
        }
        (item, Ghost(idx + 1))
    }

    /// Links a new level at the price `key2` in after the node `item`, which
    /// is where the level belongs.
    fn splice(
        &mut self,
        key1: Did,
        key2: u64,
        item: LinkedItem,
        value: Did,
        sell_amount: u64,
        buy_amount: u64,
        Ghost(otype): Ghost<OrderType>,
        Ghost(at): Ghost<int>,
    )
        requires
            old(self).wf(),
            old(self).initialized(key1),
            0 < key2 < u64::MAX,
            !old(self).nodes().contains_key((key1, Some(key2))),
            fits_at(old(self).ring(key1), otype, key2, at),
            old(self).nodes().contains_key((key1, old(self).ring(key1).keys[at - 1])),
            item@ == old(self).nodes()[(key1, old(self).ring(key1).keys[at - 1])],
        ensures
            final(self).wf(),
            final(self).rings() == old(self).rings().insert(
                key1,
                ring_insert(old(self).ring(key1), at, Some(key2)),
            ),
            final(self).nodes() == spliced(
                old(self).nodes(),
                key1,
                old(self).ring(key1).keys[at - 1],
                old(self).ring(key1).keys[at],
                key2,
                (LinkedItemView {
                    prev: old(self).ring(key1).keys[at - 1],
                    next: old(self).ring(key1).keys[at],
                    price: Some(key2),
                    buy_amount,
                    sell_amount,
                    orders: seq![value],
                }),
            ),
    {
        let ghost ring = self.ring(key1);
        let ghost nodes = pair_nodes(self.nodes(), key1);
        proof {
            self.lemma_wf(key1);
            assert(nodes.contains_key(ring.keys[at]));
            assert(nodes.contains_key(ring.keys[at - 1]));
            assert(ring.keys[at - 1] != ring.keys[at]);
        }
        let prev_key = item.price;
        let next_key = item.next;
        let mut new_prev = item;
        new_prev.next = Some(key2);
        let mut new_next = self.fetch(key1, next_key);
        new_next.prev = Some(key2);
        let mut v = Vec::new();
        v.push(value);
        let new_item = LinkedItem {
            prev: prev_key,
            next: next_key,
            buy_amount,
            sell_amount,
            orders: v,
            price: Some(key2),
        };
        let ghost node = new_item@;
        proof {
            assert(node.orders =~= seq![value]);
            lemma_ring_insert(nodes, ring, otype, at, key2, node);
        }
        self.write(key1, prev_key, new_prev);
        self.write(key1, next_key, new_next);
        self.write(key1, Some(key2), new_item);
        proof {
            self.rings = Ghost(self.rings@.insert(key1, ring_insert(ring, at, Some(key2))));
            assert(pair_nodes(self.nodes(), key1) =~= linked_in(
                nodes,
                prev_key,
                next_key,
                key2,
                node,
            ));
            assert forall|k: Did| #[trigger] self.pair_wf(k) by {
                if k != key1 {
                    assert(old(self).pair_wf(k));
                    assert(pair_nodes(self.nodes(), k) =~= pair_nodes(old(self).nodes(), k));
                }
            }
        }
    }

    /// Takes the level at the price `key2` out of the list of the pair
    /// `key1`, with whatever orders it has, and links its two neighbours to
    /// each other. Nothing happens where the price has no level.
    pub fn remove_item(&mut self, key1: Did, key2: u64)
        requires
            old(self).wf(),
            0 < key2 < u64::MAX,
        ensures
            final(self).wf(),
            remove_item_post(*old(self), *final(self), key1, key2),
            !final(self).nodes().contains_key((key1, Some(key2))),
            old(self).nodes().contains_key((key1, Some(key2))) ==> relinked(
                old(self).nodes(),
                final(self).nodes(),
                key1,
                key2,
            ),
            old(self).uncrossed(key1) ==> final(self).uncrossed(key1),
    {
        if !self.items.contains_key(&(key1, Some(key2))) {
            return ;
        }
        let ghost ring = self.ring(key1);
        let ghost nodes = pair_nodes(self.nodes(), key1);
        let ghost at = position_of(ring, Some(key2));
        proof {
            self.lemma_wf(key1);
            assert(nodes.contains_key(Some(key2)));
            lemma_position(ring, at);
            assert(nodes.contains_key(ring.keys[at - 1]));
            assert(nodes.contains_key(ring.keys[at + 1]));
            assert(nodes.contains_key(ring.keys[at]));
            assert(ring.keys[at - 1] != ring.keys[at]);
            assert(ring.keys[at] != ring.keys[at + 1]);
            assert(ring.keys[at - 1] != ring.keys[at + 1]);
            assert(nodes[ring.keys[at - 1]].next == ring.keys[at]);
            assert(nodes[ring.keys[at]].next == ring.keys[at + 1]);
            lemma_ring_remove(nodes, ring, at);
            if old(self).uncrossed(key1) {
                lemma_remove_uncrossed(ring, at);
            }
        }
        let item = self.fetch(key1, Some(key2));
        let mut prev = self.fetch(key1, item.prev);
        let mut next = self.fetch(key1, item.next);
        prev.next = item.next;
        next.prev = item.prev;
        self.items.remove(&(key1, Some(key2)));
        assert(self.nodes() =~= old(self).nodes().remove((key1, Some(key2))));
        self.write(key1, item.prev, prev);
        self.write(key1, item.next, next);
        proof {
            self.rings = Ghost(self.rings@.insert(key1, ring_remove(ring, at)));
            assert(pair_nodes(self.nodes(), key1) =~= linked_out(
                nodes,
                ring.keys[at - 1],
                ring.keys[at],
                ring.keys[at + 1],
            ));
            assert forall|k: Did| #[trigger] self.pair_wf(k) by {
                if k != key1 {
                    assert(old(self).pair_wf(k));
                    assert(pair_nodes(self.nodes(), k) =~= pair_nodes(old(self).nodes(), k));
                }
            }
        }
    }

    /// Takes the order `order_id` out of the level at the price `key2`. A
    /// level left without an order is taken out of the list, whatever its
    /// amounts; from a level that keeps an order the amounts are taken off,
    /// which they must not exceed. Nothing happens where the price has no
    /// level.
    pub fn remove_order(
        &mut self,
        key1: Did,
        key2: u64,
        order_id: Did,
        sell_amount: u64,
        buy_amount: u64,
    ) -> (r: Result<(), Error>)
        requires
            old(self).wf(),
            0 < key2 < u64::MAX,
        ensures
            final(self).wf(),
            remove_order_post(
                *old(self),
                *final(self),
                key1,
                key2,
                order_id,
                sell_amount,
                buy_amount,
                r,
            ),
            only_order(old(self).nodes(), key1, key2, order_id) ==> {
                &&& r == Ok::<(), Error>(())
                &&& remove_item_post(*old(self), *final(self), key1, key2)
                &&& !final(self).nodes().contains_key((key1, Some(key2)))
                &&& relinked(old(self).nodes(), final(self).nodes(), key1, key2)
            },
            old(self).uncrossed(key1) ==> final(self).uncrossed(key1),
    {
        if !self.items.contains_key(&(key1, Some(key2))) {
            return Ok(());
        }
        let mut item = self.fetch(key1, Some(key2));
        proof {
            if only_order(self.nodes(), key1, key2, order_id) {
                crate::table::lemma_without_all(item.orders@, order_id);
                assert(item.orders@[0] == order_id);
            }
        }
        if !crate::table::list_contains(&item.orders, &order_id) {
            return Err(Error::OrderNotInList);
        }
        item.orders = crate::table::list_without(&item.orders, &order_id);
        if item.orders.len() == 0 {
            self.remove_item(key1, key2);
            return Ok(());
        }
        let buy = match item.buy_amount.checked_sub(buy_amount) {
            Some(v) => v,
            None => {
                return Err(Error::AmountUnderflow);
            },
        };
        let sell = match item.sell_amount.checked_sub(sell_amount) {
            Some(v) => v,
            None => {
                return Err(Error::AmountUnderflow);
            },
        };
        item.buy_amount = buy;
        item.sell_amount = sell;
        proof {
            self.lemma_payload(key1, Some(key2), item@);
        }
        self.write(key1, Some(key2), item);
        Ok(())
    }

    /// Takes the amounts off the amounts of the level at the price `key2`.
    pub fn update_amount(&mut self, key1: Did, key2: u64, sell_amount: u64, buy_amount: u64) -> (r:
        Result<(), Error>)
        requires
            old(self).wf(),
        ensures
            final(self).wf(),
            final(self).rings() == old(self).rings(),
            update_amount_post(
                old(self).nodes(),
                final(self).nodes(),
                key1,
                key2,
                sell_amount,
                buy_amount,
                r,
            ),
    {
        if !self.items.contains_key(&(key1, Some(key2))) {
            return Err(Error::LevelNotFound);
        }
        let mut item = self.fetch(key1, Some(key2));
        let buy = match item.buy_amount.checked_sub(buy_amount) {
            Some(v) => v,
            None => {
                return Err(Error::AmountUnderflow);
            },
        };
        let sell = match item.sell_amount.checked_sub(sell_amount) {
            Some(v) => v,
            None => {
                return Err(Error::AmountUnderflow);
            },
        };
        item.buy_amount = buy;
        item.sell_amount = sell;
        proof {
            self.lemma_payload(key1, Some(key2), item@);
        }
        self.write(key1, Some(key2), item);
        Ok(())
    }

    /// Takes the level at the price `key2` out of the list of the pair
    /// `key1` if every order of it is finished. `orders` is the order book
    /// that the orders are looked up in. Nothing happens where the price has
    /// no level, or where an order of the level is unknown or not finished.
    pub fn remove_orders_in_one_item(
        &mut self,
        orders: &swap_orderbook::Module,
        key1: Did,
        key2: u64,
    ) -> (r: Result<(), Error>)
        requires
            old(self).wf(),
            0 < key2 < u64::MAX,
        ensures
            final(self).wf(),
            remove_orders_post(*old(self), *final(self), orders@.orders, key1, key2, r),
            old(self).uncrossed(key1) ==> final(self).uncrossed(key1),
    {
        if !self.items.contains_key(&(key1, Some(key2))) {
            return Ok(());
        }
        let item = self.fetch(key1, Some(key2));
        let mut i: usize = 0;
        proof {
            assert(item.orders@.skip(0) =~= item.orders@);
        }
        while i < item.orders.len()
            invariant
                *self == *old(self),
                self.wf(),
                self.nodes().contains_key((key1, Some(key2))),
                item@ == self.nodes()[(key1, Some(key2))],
                i <= item.orders@.len(),
                first_unfinished(item.orders@, orders@.orders) == first_unfinished(
                    item.orders@.skip(i as int),
                    orders@.orders,
                ),
            decreases item.orders@.len() - i,
        {
            proof {
                assert(item.orders@.skip(i as int).skip(1) =~= item.orders@.skip(i + 1));
            }
            let order = match orders.order(item.orders[i]) {
                Some(order) => order,
                None => {
                    return Err(Error::OrderNotFound);
                },
            };
            if !swap_orderbook::Module::is_limit_order_finished(order) {
                return Err(Error::OrderNotFinished);
            }
            i += 1;
        }
        self.remove_item(key1, key2);
        Ok(())
    }

    /// Takes the finished orders at the front of the level at the price
    /// `key2` out of it. The level has an order that is unknown to the order
    /// book or not finished, so it keeps an order and stays in the list; its
    /// amounts stay as they are.
    fn trim_finished(&mut self, orders: &swap_orderbook::Module, key1: Did, key2: u64)
        requires
            old(self).wf(),
            old(self).nodes().contains_key((key1, Some(key2))),
            first_unfinished(old(self).nodes()[(key1, Some(key2))].orders, orders@.orders) is Some,
        ensures
            final(self).wf(),
            final(self).rings() == old(self).rings(),
            final(self).nodes() == old(self).nodes().insert(
                (key1, Some(key2)),
                trimmed(old(self).nodes()[(key1, Some(key2))], orders@.orders),
            ),
    {
        let mut item = self.fetch(key1, Some(key2));
        let ghost level = item.orders@;
        let mut i: usize = 0;
        let mut go = true;
        proof {
            assert(level.skip(0) =~= level);
        }
        while go && i < item.orders.len()
            invariant
                level == item.orders@,
                i <= level.len(),
                finished_prefix(level, orders@.orders) == i + finished_prefix(
                    level.skip(i as int),
                    orders@.orders,
                ),
                !go ==> finished_prefix(level.skip(i as int), orders@.orders) == 0,
            decreases level.len() - i, (if go { 1int } else { 0int }),
        {
            proof {
                assert(level.skip(i as int).skip(1) =~= level.skip(i + 1));
            }
            let finished = match orders.order(item.orders[i]) {
                Some(order) => swap_orderbook::Module::is_limit_order_finished(order),
                None => false,
            };
            if finished {
                i += 1;
            } else {
                go = false;
            }
        }
        proof {
            lemma_finished_prefix(level, orders@.orders);
            if i == level.len() {
                assert(level.skip(i as int).len() == 0);
            }
        }
        item.orders = crate::table::list_from(&item.orders, i);
        proof {
            self.lemma_payload(key1, Some(key2), item@);
        }
        self.write(key1, Some(key2), item);
    }

    /// Clears the side `otype` of the list of the pair `key1` of finished
    /// orders, from the level next to the head outwards. A level whose
    /// orders are all finished is taken out, and the next one is looked at.
    /// The first level with an order that is unknown to the order book or
    /// not finished loses the finished orders in front of that order, and
    /// the clearing ends there. `orders` is the order book that the orders
    /// are looked up in. A list that is not set up is set up.
    pub fn remove_all(&mut self, orders: &swap_orderbook::Module, key1: Did, otype: OrderType)
        requires
            old(self).wf(),
        ensures
            final(self).wf(),
            remove_all_post(*old(self), *final(self), orders@.orders, key1, otype),
            old(self).uncrossed(key1) ==> final(self).uncrossed(key1),
    {
        let end_item = if otype == OrderType::Buy {
            Some(u64::MIN)
        } else {
            Some(u64::MAX)
        };
        proof {
            old(self).lemma_wf(key1);
        }
        let mut head = self.read_head(key1);
        let ghost base = *self;
        let mut stop = false;
        proof {
            self.lemma_wf(key1);
            assert(base.nodes().contains_key((key1, None)));
            assert(other_pairs(base.nodes(), key1) =~= other_pairs(old(self).nodes(), key1));
            assert(base.rings().remove(key1) =~= old(self).rings().remove(key1));
            if !old(self).initialized(key1) {
                assert(ring_uncrossed(empty_ring()));
            }
        }
        while !stop
            invariant
                self.wf(),
                self.nodes().contains_key((key1, None)),
                self.initialized(key1),
                base.initialized(key1),
                head@ == self.nodes()[(key1, None)],
                end_item == if otype == OrderType::Buy {
                    Some(0u64)
                } else {
                    Some(u64::MAX)
                },
                base.uncrossed(key1) ==> self.uncrossed(key1),
                !stop ==> drain(
                    pair_nodes(self.nodes(), key1),
                    self.ring(key1),
                    otype,
                    orders@.orders,
                ) == drain(pair_nodes(base.nodes(), key1), base.ring(key1), otype, orders@.orders),
                stop ==> (pair_nodes(self.nodes(), key1), self.ring(key1)) == drain(
                    pair_nodes(base.nodes(), key1),
                    base.ring(key1),
                    otype,
                    orders@.orders,
                ),
                self.rings().remove(key1) == base.rings().remove(key1),
                other_pairs(self.nodes(), key1) == other_pairs(base.nodes(), key1),
            decreases self.ring(key1).keys.len(), (if stop { 0int } else { 1int }),
        {
            let ghost before = *self;
            let ghost ring = self.ring(key1);
            let ghost nodes = pair_nodes(self.nodes(), key1);
            let ghost at = if otype == OrderType::Buy {
                ring.head - 1
            } else {
                ring.head + 1
            };
            proof {
                self.lemma_wf(key1);
                assert(nodes.contains_key(ring.keys[ring.head]));
                assert(nodes.contains_key(ring.keys[at]));
                assert(nodes[ring.keys[ring.head - 1]].next == ring.keys[ring.head]);
                assert(nodes[ring.keys[ring.head]].next == ring.keys[ring.head + 1]);
                if 0 < at {
                    assert(ring.keys[0] != ring.keys[at]);
                }
                if at < ring.keys.len() - 1 {
                    assert(ring.keys[at] != ring.keys[ring.keys.len() - 1]);
                }
            }
            let key2 = Self::next_match_price(&head, otype);
            if key2.same(&end_item) {
                stop = true;
            } else {
                let price = match key2 {
                    Some(price) => price,
                    None => 0,
                };
                proof {
                    assert(ring.keys[at] == Some(price));
                    assert(0 < at < ring.keys.len() - 1);
                    lemma_position(ring, at);
                    assert(nodes[ring.keys[at - 1]].next == ring.keys[at]);
                    assert(nodes[ring.keys[at]].next == ring.keys[at + 1]);
                    assert(nodes.contains_key(ring.keys[at - 1]));
                    assert(nodes.contains_key(ring.keys[at + 1]));
                }
                match self.remove_orders_in_one_item(orders, key1, price) {
                    Err(_) => {
                        self.trim_finished(orders, key1, price);
                        proof {
                            assert(pair_nodes(self.nodes(), key1) =~= nodes.insert(
                                Some(price),
                                trimmed(nodes[Some(price)], orders@.orders),
                            ));
                            assert(other_pairs(self.nodes(), key1) =~= other_pairs(
                                before.nodes(),
                                key1,
                            ));
                        }
                        stop = true;
                    },
                    Ok(()) => {
                        proof {
                            assert(self.nodes() == unspliced(before.nodes(), key1, price));
                            assert(pair_nodes(self.nodes(), key1) =~= linked_out(
                                nodes,
                                ring.keys[at - 1],
                                ring.keys[at],
                                ring.keys[at + 1],
                            ));
                            assert(other_pairs(self.nodes(), key1) =~= other_pairs(
                                before.nodes(),
                                key1,
                            ));
                            assert(self.rings().remove(key1) =~= before.rings().remove(key1));
                            self.lemma_wf(key1);
                            let r2 = self.ring(key1);
                            assert(pair_nodes(self.nodes(), key1).contains_key(r2.keys[r2.head]));
                        }
                        head = self.fetch(key1, None);
                    },
                }
            }
        }
    }

    /// The price of the level that is matched after `item` on the side
    /// `otype`: the next lower for buy orders, the next higher for sell
    /// orders.
    pub fn next_match_price(item: &LinkedItem, otype: OrderType) -> (r: Option<u64>)
        ensures
            r == if otype == OrderType::Buy {
                item.prev
            } else {
                item.next
            },
    {
        if otype == OrderType::Buy {
            item.prev
        } else {
            item.next
        }
    }
}

/// What a read does. It returns the node that is there and changes nothing.
/// Where there is none, it returns the head of the pair's list and changes
/// nothing either; but where the list has no head yet, it first writes the
/// three fixed nodes of the pair as those of an empty list. A sound list
/// stays sound, and a sound list has a head exactly when it is set up.
pub open spec fn read_post(
    before: LinkedList,
    after: LinkedList,
    key1: Did,
    key2: Option<u64>,
    r: LinkedItemView,
) -> bool {
    &&& before.wf() ==> after.wf() && before.initialized(key1) == before.nodes().contains_key(
        (key1, None),
    )
    &&& if before.nodes().contains_key((key1, key2)) {
        &&& after.nodes() == before.nodes()
        &&& after.rings() == before.rings()
        &&& r == before.nodes()[(key1, key2)]
    } else if before.nodes().contains_key((key1, None)) {
        &&& after.nodes() == before.nodes()
        &&& after.rings() == before.rings()
        &&& r == before.nodes()[(key1, None)]
    } else {
        &&& after.nodes() == with_empty_list(before.nodes(), key1)
        &&& r == head_view()
        &&& after.rings() == if before.initialized(key1) {
            before.rings()
        } else {
            before.rings().insert(key1, empty_ring())
        }
    }
}

/// The ring with `key` put in at the place `at`.
pub open spec fn ring_insert(ring: Ring, at: int, key: Option<u64>) -> Ring {
    Ring {
        keys: Seq::new(
            ring.keys.len() + 1,
            |i: int|
                if i < at {
                    ring.keys[i]
                } else if i == at {
                    key
                } else {
                    ring.keys[i - 1]
                },
        ),
        head: if at <= ring.head {
            ring.head + 1
        } else {
            ring.head
        },
    }
}

/// The ring without the key at the place `at`.
pub open spec fn ring_remove(ring: Ring, at: int) -> Ring {
    Ring {
        keys: Seq::new(
            (ring.keys.len() - 1) as nat,
            |i: int|
                if i < at {
                    ring.keys[i]
                } else {
                    ring.keys[i + 1]
                },
        ),
        head: if at < ring.head {
            ring.head - 1
        } else {
            ring.head
        },
    }
}

/// Whether a new level at `price` belongs at the place `at` of the ring, on
/// the side `otype`: after the lower prices of that side and before the
/// higher ones.
pub open spec fn fits_at(ring: Ring, otype: OrderType, price: u64, at: int) -> bool {
    let keys = ring.keys;
    if otype == OrderType::Buy {
        &&& 0 < at <= ring.head
        &&& keys[at - 1].unwrap() < price
        &&& at == ring.head || price < keys[at].unwrap()
    } else {
        &&& ring.head < at < keys.len()
        &&& at - 1 == ring.head || keys[at - 1].unwrap() < price
        &&& price < keys[at].unwrap()
    }
}

/// The nodes of one pair after a new level was linked in between the node
/// under `prev` and the node under `next`.
pub open spec fn linked_in(
    nodes: Map<Option<u64>, LinkedItemView>,
    prev: Option<u64>,
    next: Option<u64>,
    price: u64,
    node: LinkedItemView,
) -> Map<Option<u64>, LinkedItemView> {
    nodes.insert(prev, LinkedItemView { next: Some(price), ..nodes[prev] }).insert(
        next,
        LinkedItemView { prev: Some(price), ..nodes[next] },
    ).insert(Some(price), node)
}

/// Putting a new price into the ring at the place where it fits keeps the
/// shape of the ring.
proof fn lemma_ring_insert_shape(ring: Ring, otype: OrderType, at: int, price: u64)
    requires
        ring_shape(ring),
        0 < price < u64::MAX,
        forall|i: int| 0 <= i < ring.keys.len() ==> #[trigger] ring.keys[i] != Some(price),
        fits_at(ring, otype, price, at),
    ensures
        ring_shape(ring_insert(ring, at, Some(price))),
{
    let keys = ring.keys;
    let n = keys.len() as int;
    let h = ring.head;
    let key = Some(price);
    let after = ring_insert(ring, at, key);
    let ks = after.keys;
    assert(ks.len() == n + 1);
    assert forall|i: int, j: int| 0 <= i < j < after.head implies (#[trigger] ks[i]).unwrap() < (
    #[trigger] ks[j]).unwrap() by {
        let i0 = if i < at { i } else { i - 1 };
        let j0 = if j < at { j } else { j - 1 };
        if at <= h {
            if i == at {
                if at < j0 {
                    assert(keys[at].unwrap() < keys[j0].unwrap());
                }
            } else if j == at {
                if i0 < at - 1 {
                    assert(keys[i0].unwrap() < keys[at - 1].unwrap());
                }
            } else {
                assert(keys[i0].unwrap() < keys[j0].unwrap());
            }
        } else {
            assert(keys[i].unwrap() < keys[j].unwrap());
        }
    }
    assert forall|i: int, j: int| after.head < i < j < n + 1 implies (#[trigger] ks[i]).unwrap() < (
    #[trigger] ks[j]).unwrap() by {
        let i0 = if i < at { i } else { i - 1 };
        let j0 = if j < at { j } else { j - 1 };
        if at > h {
            if i == at {
                if at < j0 {
                    assert(keys[at].unwrap() < keys[j0].unwrap());
                }
            } else if j == at {
                if i0 < at - 1 {
                    assert(keys[i0].unwrap() < keys[at - 1].unwrap());
                }
            } else {
                assert(keys[i0].unwrap() < keys[j0].unwrap());
            }
        } else {
            assert(keys[i - 1].unwrap() < keys[j - 1].unwrap());
        }
    }
    assert forall|i: int, j: int| 0 <= i < j < n + 1 implies (#[trigger] ks[i]) != (
    #[trigger] ks[j]) by {
        let i0 = if i < at { i } else { i - 1 };
        let j0 = if j < at { j } else { j - 1 };
        if i == at {
            assert(keys[j0] != key);
        } else if j == at {
            assert(keys[i0] != key);
        } else {
            assert(keys[i0] != keys[j0]);
        }
    }
    assert forall|i: int| 0 <= i < n + 1 && i != after.head implies (#[trigger] ks[i]) is Some by {
        let i0 = if i < at { i } else { i - 1 };
        if i != at {
            assert(keys[i0] is Some);
        }
    }
}

/// After a new level was linked in, the nodes under the old keys are as they
/// were, but for the links of the two neighbours.
proof fn lemma_linked_in_nodes(
    nodes: Map<Option<u64>, LinkedItemView>,
    ring: Ring,
    at: int,
    price: u64,
    node: LinkedItemView,
)
    requires
        ring_shape(ring),
        ring_linked(nodes, ring),
        !nodes.contains_key(Some(price)),
        0 < at < ring.keys.len(),
    ensures
        ({
            let m = linked_in(nodes, ring.keys[at - 1], ring.keys[at], price, node);
            &&& m.contains_key(Some(price))
            &&& m[Some(price)] == node
            &&& forall|k: Option<u64>| #[trigger]
                m.contains_key(k) <==> k == Some(price) || nodes.contains_key(k)
            &&& forall|i: int|
                0 <= i < ring.keys.len() ==> m[#[trigger] ring.keys[i]] == (if i == at - 1 {
                    LinkedItemView { next: Some(price), ..nodes[ring.keys[i]] }
                } else if i == at {
                    LinkedItemView { prev: Some(price), ..nodes[ring.keys[i]] }
                } else {
                    nodes[ring.keys[i]]
                })
        }),
{
    let keys = ring.keys;
    let n = keys.len() as int;
    let key = Some(price);
    let m = linked_in(nodes, keys[at - 1], keys[at], price, node);
    assert(keys[at - 1] != keys[at]);
    assert(nodes.contains_key(keys[at - 1]));
    assert(nodes.contains_key(keys[at]));
    assert forall|i: int| 0 <= i < n implies m[#[trigger] keys[i]] == (if i == at - 1 {
        LinkedItemView { next: key, ..nodes[keys[i]] }
    } else if i == at {
        LinkedItemView { prev: key, ..nodes[keys[i]] }
    } else {
        nodes[keys[i]]
    }) by {
        assert(nodes.contains_key(keys[i]));
        if i < at - 1 {
            assert(keys[i] != keys[at - 1]);
            assert(keys[i] != keys[at]);
        } else if i > at {
            assert(keys[at - 1] != keys[i]);
            assert(keys[at] != keys[i]);
        }
    }
}

/// Linking a new level in at the place where it fits keeps the nodes those
/// of the ring.
proof fn lemma_ring_insert(
    nodes: Map<Option<u64>, LinkedItemView>,
    ring: Ring,
    otype: OrderType,
    at: int,
    price: u64,
    node: LinkedItemView,
)
    requires
        ring_shape(ring),
        ring_linked(nodes, ring),
        0 < price < u64::MAX,
        !nodes.contains_key(Some(price)),
        fits_at(ring, otype, price, at),
        node.price == Some(price),
        node.prev == ring.keys[at - 1],
        node.next == ring.keys[at],
        node.orders.len() > 0,
    ensures
        ring_shape(ring_insert(ring, at, Some(price))),
        ring_linked(
            linked_in(nodes, ring.keys[at - 1], ring.keys[at], price, node),
            ring_insert(ring, at, Some(price)),
        ),
{
    let keys = ring.keys;
    let n = keys.len() as int;
    let key = Some(price);
    let after = ring_insert(ring, at, key);
    let ks = after.keys;
    let m = linked_in(nodes, keys[at - 1], keys[at], price, node);
    assert forall|i: int| 0 <= i < n implies #[trigger] keys[i] != key by {
        assert(nodes.contains_key(keys[i]));
    }
    lemma_ring_insert_shape(ring, otype, at, price);
    lemma_linked_in_nodes(nodes, ring, at, price, node);
    assert(ks.len() == n + 1);
    assert forall|i: int| 0 <= i < n + 1 implies m.contains_key(#[trigger] ks[i]) by {
        let i0 = if i < at { i } else { i - 1 };
        if i != at {
            assert(nodes.contains_key(keys[i0]));
        }
    }
    assert forall|k: Option<u64>| #[trigger] m.contains_key(k) implies exists|i: int|
        0 <= i < n + 1 && #[trigger] ks[i] == k by {
        if k == key {
            assert(ks[at] == k);
        } else {
            assert(nodes.contains_key(k));
            let j = choose|j: int| 0 <= j < n && #[trigger] keys[j] == k;
            let i = if j < at { j } else { j + 1 };
            assert(ks[i] == k);
        }
    }
    assert forall|i: int| 0 <= i < n + 1 implies m[#[trigger] ks[i]].price == ks[i] by {
        let i0 = if i < at { i } else { i - 1 };
        if i != at {
            assert(nodes[keys[i0]].price == keys[i0]);
        }
    }
    assert forall|i: int, j: int| 0 <= i && j == i + 1 && j < n + 1 implies m[#[trigger] ks[i]].next
        == #[trigger] ks[j] && m[ks[j]].prev == ks[i] by {
        let i0 = if i < at { i } else { i - 1 };
        let j0 = if j < at { j } else { j - 1 };
        if i != at && j != at {
            assert(nodes[keys[i0]].next == keys[j0] && nodes[keys[j0]].prev == keys[i0]);
        }
    }
    assert(m[ks[n]].next == ks[0] && m[ks[0]].prev == ks[n]) by {
        assert(ks[n] == keys[n - 1]);
        assert(ks[0] == keys[0]);
    }
    assert forall|i: int| 0 < i < n && i != after.head implies m[#[trigger] ks[i]].orders.len()
        > 0 by {
        let i0 = if i < at { i } else { i - 1 };
        if i != at {
            assert(nodes[keys[i0]].orders.len() > 0);
        }
    }
}

/// The nodes of all pairs after a new level was linked in between two nodes
/// of the pair `key1`.
pub open spec fn spliced(
    nodes: Map<(Did, Option<u64>), LinkedItemView>,
    key1: Did,
    prev: Option<u64>,
    next: Option<u64>,
    price: u64,
    node: LinkedItemView,
) -> Map<(Did, Option<u64>), LinkedItemView> {
    nodes.insert((key1, prev), LinkedItemView { next: Some(price), ..nodes[(key1, prev)] }).insert(
        (key1, next),
        LinkedItemView { prev: Some(price), ..nodes[(key1, next)] },
    ).insert((key1, Some(price)), node)
}

/// What `append` does to the lists.
pub open spec fn append_post(
    before: LinkedList,
    after: LinkedList,
    key1: Did,
    key2: u64,
    value: Did,
    sell_amount: u64,
    buy_amount: u64,
    otype: OrderType,
    r: Result<(), Error>,
) -> bool {
    let key = (key1, Some(key2));
    if before.nodes().contains_key(key) {
        let level = before.nodes()[key];
        if level.buy_amount + buy_amount > u64::MAX || level.sell_amount + sell_amount > u64::MAX {
            &&& r == Err::<(), Error>(Error::AmountOverflow)
            &&& after.nodes() == before.nodes()
            &&& after.rings() == before.rings()
        } else {
            &&& r == Ok::<(), Error>(())
            &&& after.rings() == before.rings()
            &&& after.nodes() == before.nodes().insert(
                key,
                LinkedItemView {
                    buy_amount: (level.buy_amount + buy_amount) as u64,
                    sell_amount: (level.sell_amount + sell_amount) as u64,
                    orders: level.orders.push(value),
                    ..level
                },
            )
        }
    } else if before.initialized(key1) {
        r == Ok::<(), Error>(()) && level_linked_in(
            before.nodes(),
            before.ring(key1),
            before.rings(),
            after,
            key1,
            key2,
            value,
            sell_amount,
            buy_amount,
            otype,
        )
    } else {
        r == Ok::<(), Error>(()) && level_linked_in(
            with_empty_list(before.nodes(), key1),
            empty_ring(),
            before.rings(),
            after,
            key1,
            key2,
            value,
            sell_amount,
            buy_amount,
            otype,
        )
    }
}

/// The lists `after` are the nodes `nodes` and the rings `rings` with a new
/// level linked into the list of the pair `key1`, whose ring was `ring`, at
/// the place where the price `key2` fits on the side `otype`.
pub open spec fn level_linked_in(
    nodes: Map<(Did, Option<u64>), LinkedItemView>,
    ring: Ring,
    rings: Map<Did, Ring>,
    after: LinkedList,
    key1: Did,
    key2: u64,
    value: Did,
    sell_amount: u64,
    buy_amount: u64,
    otype: OrderType,
) -> bool {
    exists|at: int|
        {
            &&& #[trigger] fits_at(ring, otype, key2, at)
            &&& after.rings() == rings.insert(key1, ring_insert(ring, at, Some(key2)))
            &&& after.nodes() == spliced(
                nodes,
                key1,
                ring.keys[at - 1],
                ring.keys[at],
                key2,
                LinkedItemView {
                    prev: ring.keys[at - 1],
                    next: ring.keys[at],
                    price: Some(key2),
                    buy_amount,
                    sell_amount,
                    orders: seq![value],
                },
            )
        }
}

/// The place of `key` in the ring. Meant for a key of the ring.
pub open spec fn position_of(ring: Ring, key: Option<u64>) -> int {
    choose|i: int| 0 <= i < ring.keys.len() && ring.keys[i] == key
}

/// In a ring of the right shape each key has one place, and the place of a
/// price level is neither the first, nor the last, nor the head's.
proof fn lemma_position(ring: Ring, at: int)
    requires
        ring_shape(ring),
        exists|i: int| 0 <= i < ring.keys.len() && ring.keys[i] == ring.keys[at],
        at == position_of(ring, ring.keys[at]) || (0 <= at < ring.keys.len()),
    ensures
        0 <= at < ring.keys.len(),
        forall|i: int|
            0 <= i < ring.keys.len() && #[trigger] ring.keys[i] == ring.keys[at] ==> i == at,
        position_of(ring, ring.keys[at]) == at,
        ring.keys[at] is Some && 0 < ring.keys[at].unwrap() < u64::MAX ==> 0 < at
            < ring.keys.len() - 1 && at != ring.head,
{
    let n = ring.keys.len() as int;
    let p = position_of(ring, ring.keys[at]);
    assert(0 <= p < n && ring.keys[p] == ring.keys[at]);
    if !(0 <= at < n) {
        assert(at == p);
    }
    assert forall|i: int| 0 <= i < n && #[trigger] ring.keys[i] == ring.keys[at] implies i
        == at by {
        if i < at {
            assert(ring.keys[i] != ring.keys[at]);
        } else if at < i {
            assert(ring.keys[at] != ring.keys[i]);
        }
    }
}

/// The nodes of one pair after the node under `key` was taken out and its
/// neighbours, under `prev` and `next`, were linked to each other.
pub open spec fn linked_out(
    nodes: Map<Option<u64>, LinkedItemView>,
    prev: Option<u64>,
    key: Option<u64>,
    next: Option<u64>,
) -> Map<Option<u64>, LinkedItemView> {
    nodes.remove(key).insert(prev, LinkedItemView { next, ..nodes[prev] }).insert(
        next,
        LinkedItemView { prev, ..nodes[next] },
    )
}

/// Taking a price level out keeps the nodes those of the ring.
proof fn lemma_ring_remove(nodes: Map<Option<u64>, LinkedItemView>, ring: Ring, at: int)
    requires
        ring_shape(ring),
        ring_linked(nodes, ring),
        0 < at < ring.keys.len() - 1,
        at != ring.head,
    ensures
        ring_shape(ring_remove(ring, at)),
        ring_linked(
            linked_out(nodes, ring.keys[at - 1], ring.keys[at], ring.keys[at + 1]),
            ring_remove(ring, at),
        ),
{
    let keys = ring.keys;
    let n = keys.len() as int;
    let after = ring_remove(ring, at);
    let ks = after.keys;
    let m = linked_out(nodes, keys[at - 1], keys[at], keys[at + 1]);
    assert(ks.len() == n - 1);
    assert forall|i: int, j: int| 0 <= i < j < after.head implies (#[trigger] ks[i]).unwrap() < (
    #[trigger] ks[j]).unwrap() by {
        let i0 = if i < at { i } else { i + 1 };
        let j0 = if j < at { j } else { j + 1 };
        assert(keys[i0].unwrap() < keys[j0].unwrap());
    }
    assert forall|i: int, j: int| after.head < i < j < n - 1 implies (#[trigger] ks[i]).unwrap() < (
    #[trigger] ks[j]).unwrap() by {
        let i0 = if i < at { i } else { i + 1 };
        let j0 = if j < at { j } else { j + 1 };
        assert(keys[i0].unwrap() < keys[j0].unwrap());
    }
    assert forall|i: int, j: int| 0 <= i < j < n - 1 implies (#[trigger] ks[i]) != (
    #[trigger] ks[j]) by {
        let i0 = if i < at { i } else { i + 1 };
        let j0 = if j < at { j } else { j + 1 };
        assert(keys[i0] != keys[j0]);
    }
    assert forall|i: int| 0 <= i < n - 1 && i != after.head implies (#[trigger] ks[i]) is Some by {
        let i0 = if i < at { i } else { i + 1 };
        assert(keys[i0] is Some);
    }
    assert(ring_shape(after));
    assert(keys[at - 1] != keys[at]);
    assert(keys[at] != keys[at + 1]);
    assert(keys[at - 1] != keys[at + 1]);
    assert(nodes.contains_key(keys[at - 1]));
    assert(nodes.contains_key(keys[at + 1]));
    assert forall|i: int| 0 <= i < n && i != at implies m.contains_key(#[trigger] keys[i]) && m[keys[i]]
        == (if i == at - 1 {
        LinkedItemView { next: keys[at + 1], ..nodes[keys[i]] }
    } else if i == at + 1 {
        LinkedItemView { prev: keys[at - 1], ..nodes[keys[i]] }
    } else {
        nodes[keys[i]]
    }) by {
        assert(nodes.contains_key(keys[i]));
        if i < at {
            assert(keys[i] != keys[at]);
            assert(keys[i] != keys[at + 1]);
            if i < at - 1 {
                assert(keys[i] != keys[at - 1]);
            }
        } else {
            assert(keys[at] != keys[i]);
            assert(keys[at - 1] != keys[i]);
            if i > at + 1 {
                assert(keys[at + 1] != keys[i]);
            }
        }
    }
    assert forall|i: int| 0 <= i < n - 1 implies m.contains_key(#[trigger] ks[i]) by {
        let i0 = if i < at { i } else { i + 1 };
        assert(m.contains_key(keys[i0]));
    }
    assert forall|k: Option<u64>| #[trigger] m.contains_key(k) implies exists|i: int|
        0 <= i < n - 1 && #[trigger] ks[i] == k by {
        assert(nodes.contains_key(k));
        assert(k != keys[at]);
        let j = choose|j: int| 0 <= j < n && #[trigger] keys[j] == k;
        let i = if j < at { j } else { j - 1 };
        assert(ks[i] == k);
    }
    assert forall|i: int| 0 <= i < n - 1 implies m[#[trigger] ks[i]].price == ks[i] by {
        let i0 = if i < at { i } else { i + 1 };
        assert(nodes[keys[i0]].price == keys[i0]);
        assert(m.contains_key(keys[i0]));
    }
    assert forall|i: int, j: int| 0 <= i && j == i + 1 && j < n - 1 implies m[#[trigger] ks[i]].next
        == #[trigger] ks[j] && m[ks[j]].prev == ks[i] by {
        let i0 = if i < at { i } else { i + 1 };
        let j0 = if j < at { j } else { j + 1 };
        assert(m.contains_key(keys[i0]));
        assert(m.contains_key(keys[j0]));
        if j0 == i0 + 1 {
            assert(nodes[keys[i0]].next == keys[j0] && nodes[keys[j0]].prev == keys[i0]);
        }
    }
    assert(m[ks[n - 2]].next == ks[0] && m[ks[0]].prev == ks[n - 2]) by {
        assert(ks[n - 2] == keys[n - 1]);
        assert(ks[0] == keys[0]);
        assert(m.contains_key(keys[n - 1]));
        assert(m.contains_key(keys[0]));
    }
    assert forall|i: int| 0 < i < n - 2 && i != after.head implies m[#[trigger] ks[i]].orders.len()
        > 0 by {
        let i0 = if i < at { i } else { i + 1 };
        assert(nodes[keys[i0]].orders.len() > 0);
        assert(m.contains_key(keys[i0]));
    }
}

/// The nodes of all pairs after the level at `price` was taken out of the
/// list of the pair `key1` and its neighbours were linked to each other.
pub open spec fn unspliced(
    nodes: Map<(Did, Option<u64>), LinkedItemView>,
    key1: Did,
    price: u64,
) -> Map<(Did, Option<u64>), LinkedItemView> {
    let level = nodes[(key1, Some(price))];
    nodes.remove((key1, Some(price))).insert(
        (key1, level.prev),
        LinkedItemView { next: level.next, ..nodes[(key1, level.prev)] },
    ).insert((key1, level.next), LinkedItemView { prev: level.prev, ..nodes[(key1, level.next)] })
}

/// After the level at `price` was taken out of the list of the pair `key1`,
/// the two nodes that stood around it are there and linked to each other:
/// the one before it leads on to the one after it, and that one back.
pub open spec fn relinked(
    before: Map<(Did, Option<u64>), LinkedItemView>,
    after: Map<(Did, Option<u64>), LinkedItemView>,
    key1: Did,
    price: u64,
) -> bool {
    let level = before[(key1, Some(price))];
    &&& after.contains_key((key1, level.prev))
    &&& after.contains_key((key1, level.next))
    &&& after[(key1, level.prev)].next == level.next
    &&& after[(key1, level.next)].prev == level.prev
}

/// The level at `price` in the list of the pair `key1` is there, and the
/// order `order_id` is the only order it has.
pub open spec fn only_order(
    nodes: Map<(Did, Option<u64>), LinkedItemView>,
    key1: Did,
    price: u64,
    order_id: Did,
) -> bool {
    let orders = nodes[(key1, Some(price))].orders;
    &&& nodes.contains_key((key1, Some(price)))
    &&& orders.len() > 0
    &&& forall|i: int| 0 <= i < orders.len() ==> #[trigger] orders[i] == order_id
}

/// What `remove_item` does to the lists.
pub open spec fn remove_item_post(before: LinkedList, after: LinkedList, key1: Did, key2: u64) -> bool {
    if before.nodes().contains_key((key1, Some(key2))) {
        &&& after.nodes() == unspliced(before.nodes(), key1, key2)
        &&& after.rings() == before.rings().insert(
            key1,
            ring_remove(before.ring(key1), position_of(before.ring(key1), Some(key2))),
        )
    } else {
        &&& after.nodes() == before.nodes()
        &&& after.rings() == before.rings()
    }
}

/// What `remove_order` does to the lists.
pub open spec fn remove_order_post(
    before: LinkedList,
    after: LinkedList,
    key1: Did,
    key2: u64,
    order_id: Did,
    sell_amount: u64,
    buy_amount: u64,
    r: Result<(), Error>,
) -> bool {
    let key = (key1, Some(key2));
    let level = before.nodes()[key];
    if !before.nodes().contains_key(key) {
        &&& r == Ok::<(), Error>(())
        &&& after.nodes() == before.nodes()
        &&& after.rings() == before.rings()
    } else if !level.orders.contains(order_id) {
        &&& r == Err::<(), Error>(Error::OrderNotInList)
        &&& after.nodes() == before.nodes()
        &&& after.rings() == before.rings()
    } else if without(level.orders, order_id).len() == 0 {
        &&& r == Ok::<(), Error>(())
        &&& remove_item_post(before, after, key1, key2)
        &&& !after.nodes().contains_key(key)
        &&& relinked(before.nodes(), after.nodes(), key1, key2)
    } else if level.buy_amount < buy_amount || level.sell_amount < sell_amount {
        &&& r == Err::<(), Error>(Error::AmountUnderflow)
        &&& after.nodes() == before.nodes()
        &&& after.rings() == before.rings()
    } else {
        &&& r == Ok::<(), Error>(())
        &&& after.rings() == before.rings()
        &&& after.nodes() == before.nodes().insert(
            key,
            LinkedItemView {
                buy_amount: (level.buy_amount - buy_amount) as u64,
                sell_amount: (level.sell_amount - sell_amount) as u64,
                orders: without(level.orders, order_id),
                ..level
            },
        )
    }
}

/// What `update_amount` does to the nodes.
pub open spec fn update_amount_post(
    before: Map<(Did, Option<u64>), LinkedItemView>,
    after: Map<(Did, Option<u64>), LinkedItemView>,
    key1: Did,
    key2: u64,
    sell_amount: u64,
    buy_amount: u64,
    r: Result<(), Error>,
) -> bool {
    let key = (key1, Some(key2));
    let level = before[key];
    if !before.contains_key(key) {
        r == Err::<(), Error>(Error::LevelNotFound) && after == before
    } else if level.buy_amount < buy_amount || level.sell_amount < sell_amount {
        r == Err::<(), Error>(Error::AmountUnderflow) && after == before
    } else {
        r == Ok::<(), Error>(()) && after == before.insert(
            key,
            LinkedItemView {
                buy_amount: (level.buy_amount - buy_amount) as u64,
                sell_amount: (level.sell_amount - sell_amount) as u64,
                ..level
            },
        )
    }
}

/// Writing a node that differs from the one under its key only in its
/// amounts and orders, and has an order if that one had, keeps the nodes
/// those of the ring.
proof fn lemma_ring_payload(
    nodes: Map<Option<u64>, LinkedItemView>,
    ring: Ring,
    key: Option<u64>,
    item: LinkedItemView,
)
    requires
        ring_linked(nodes, ring),
        nodes.contains_key(key),
        item.prev == nodes[key].prev,
        item.next == nodes[key].next,
        item.price == nodes[key].price,
        nodes[key].orders.len() > 0 ==> item.orders.len() > 0,
    ensures
        ring_linked(nodes.insert(key, item), ring),
{
    let keys = ring.keys;
    let n = keys.len() as int;
    let m = nodes.insert(key, item);
    assert forall|i: int| 0 <= i < n implies m.contains_key(#[trigger] keys[i]) && m[keys[i]].prev
        == nodes[keys[i]].prev && m[keys[i]].next == nodes[keys[i]].next && m[keys[i]].price
        == nodes[keys[i]].price && (nodes[keys[i]].orders.len() > 0 ==> m[keys[i]].orders.len()
        > 0) by {
        assert(nodes.contains_key(keys[i]));
    }
    assert forall|k: Option<u64>| #[trigger] m.contains_key(k) implies exists|i: int|
        0 <= i < n && #[trigger] keys[i] == k by {
        assert(nodes.contains_key(k));
    }
    assert forall|i: int| 0 <= i < n implies m[#[trigger] keys[i]].price == keys[i] by {
        assert(nodes[keys[i]].price == keys[i]);
    }
    assert forall|i: int, j: int| 0 <= i && j == i + 1 && j < n implies m[#[trigger] keys[i]].next
        == #[trigger] keys[j] && m[keys[j]].prev == keys[i] by {
        assert(nodes[keys[i]].next == keys[j] && nodes[keys[j]].prev == keys[i]);
    }
    assert forall|i: int| 0 < i < n - 1 && i != ring.head implies m[#[trigger] keys[i]].orders.len()
        > 0 by {
        assert(nodes[keys[i]].orders.len() > 0);
    }
    if n > 0 {
        assert(m.contains_key(keys[n - 1]));
        assert(m.contains_key(keys[0]));
    }
}

/// The path starts at the bottom, ends at the top, and each of its nodes is
/// linked to the one after it.
pub open spec fn is_walk(nodes: Map<Option<u64>, LinkedItemView>, path: Seq<Option<u64>>) -> bool {
    &&& path.len() >= 2
    &&& path[0] == Some(0u64)
    &&& path[path.len() - 1] == Some(u64::MAX)
    &&& forall|i: int| 0 <= i < path.len() ==> nodes.contains_key(#[trigger] path[i])
    &&& forall|i: int, j: int|
        0 <= i && j == i + 1 && j < path.len() ==> nodes[#[trigger] path[i]].next
            == #[trigger] path[j]
}

/// The prices on the path rise strictly.
pub open spec fn rising(path: Seq<Option<u64>>) -> bool {
    forall|i: int, j: int|
        0 <= i < j < path.len() && (#[trigger] path[i]) is Some && (#[trigger] path[j]) is Some
            ==> path[i].unwrap() < path[j].unwrap()
}

/// Every node on the path but the first, the last and the head has an order.
pub open spec fn levels_have_orders(
    nodes: Map<Option<u64>, LinkedItemView>,
    path: Seq<Option<u64>>,
) -> bool {
    forall|i: int|
        0 < i < path.len() - 1 && (#[trigger] path[i]) is Some ==> nodes[path[i]].orders.len() > 0
}

/// Whether a new order at the price `key2` on the side `otype` leaves the
/// buy prices of the list below its sell prices: the price has a level
/// already, or it lies on its own side of the levels next to the head.
pub open spec fn keeps_uncrossed(before: LinkedList, key1: Did, key2: u64, otype: OrderType) -> bool {
    let head = before.nodes()[(key1, None)];
    ||| !before.initialized(key1)
    ||| before.nodes().contains_key((key1, Some(key2)))
    ||| otype == OrderType::Buy && key2 < head.next.unwrap()
    ||| otype == OrderType::Sell && head.prev.unwrap() < key2
}

/// A new price that lies on its own side of the levels next to the head
/// leaves the buy prices below the sell prices.
proof fn lemma_insert_uncrossed(ring: Ring, otype: OrderType, at: int, price: u64)
    requires
        ring_shape(ring),
        ring_uncrossed(ring),
        fits_at(ring, otype, price, at),
        otype == OrderType::Buy ==> price < ring.keys[ring.head + 1].unwrap(),
        otype == OrderType::Sell ==> ring.keys[ring.head - 1].unwrap() < price,
    ensures
        ring_uncrossed(ring_insert(ring, at, Some(price))),
{
    let keys = ring.keys;
    let after = ring_insert(ring, at, Some(price));
    let ks = after.keys;
    let h = ring.head;
    assert forall|i: int, j: int| 0 <= i < after.head < j < ks.len() implies (#[trigger] ks[i]).unwrap() < (
    #[trigger] ks[j]).unwrap() by {
        let i0 = if i < at { i } else { i - 1 };
        let j0 = if j < at { j } else { j - 1 };
        if i == at {
            if h + 1 < j0 {
                assert(keys[h + 1].unwrap() < keys[j0].unwrap());
            }
        } else if j == at {
            if i0 < h - 1 {
                assert(keys[i0].unwrap() < keys[h - 1].unwrap());
            }
        } else {
            assert(keys[i0].unwrap() < keys[j0].unwrap());
        }
    }
}

/// Taking a level out leaves the buy prices below the sell prices.
proof fn lemma_remove_uncrossed(ring: Ring, at: int)
    requires
        ring_shape(ring),
        ring_uncrossed(ring),
        0 < at < ring.keys.len() - 1,
        at != ring.head,
    ensures
        ring_uncrossed(ring_remove(ring, at)),
{
    let keys = ring.keys;
    let after = ring_remove(ring, at);
    let ks = after.keys;
    assert forall|i: int, j: int| 0 <= i < after.head < j < ks.len() implies (#[trigger] ks[i]).unwrap() < (
    #[trigger] ks[j]).unwrap() by {
        let i0 = if i < at { i } else { i + 1 };
        let j0 = if j < at { j } else { j + 1 };
        assert(keys[i0].unwrap() < keys[j0].unwrap());
    }
}

/// Why the level with these orders may not be taken out as finished: the
/// error for the first of its orders that is unknown to the order book or
/// not finished, if there is one.
pub open spec fn first_unfinished(level: Seq<Did>, orders: Map<Did, LimitOrder>) -> Option<Error>
    decreases level.len(),
{
    if level.len() == 0 {
        None
    } else if !orders.contains_key(level[0]) {
        Some(Error::OrderNotFound)
    } else if !spec_is_limit_order_finished(orders[level[0]]) {
        Some(Error::OrderNotFinished)
    } else {
        first_unfinished(level.skip(1), orders)
    }
}

/// What `remove_orders_in_one_item` does to the lists.
pub open spec fn remove_orders_post(
    before: LinkedList,
    after: LinkedList,
    orders: Map<Did, LimitOrder>,
    key1: Did,
    key2: u64,
    r: Result<(), Error>,
) -> bool {
    let key = (key1, Some(key2));
    if !before.nodes().contains_key(key) {
        &&& r == Ok::<(), Error>(())
        &&& after.nodes() == before.nodes()
        &&& after.rings() == before.rings()
    } else if first_unfinished(before.nodes()[key].orders, orders) is Some {
        &&& r == Err::<(), Error>(first_unfinished(before.nodes()[key].orders, orders).unwrap())
        &&& after.nodes() == before.nodes()
        &&& after.rings() == before.rings()
    } else {
        &&& r == Ok::<(), Error>(())
        &&& remove_item_post(before, after, key1, key2)
    }
}

/// How many orders at the front of the level are known to the order book
/// and finished.
pub open spec fn finished_prefix(level: Seq<Did>, orders: Map<Did, LimitOrder>) -> nat
    decreases level.len(),
{
    if level.len() == 0 || !orders.contains_key(level[0]) || !spec_is_limit_order_finished(
        orders[level[0]],
    ) {
        0
    } else {
        1 + finished_prefix(level.skip(1), orders)
    }
}

/// The finished orders at the front of a level are all its orders exactly
/// when nothing stands against taking the level out.
pub proof fn lemma_finished_prefix(level: Seq<Did>, orders: Map<Did, LimitOrder>)
    ensures
        finished_prefix(level, orders) <= level.len(),
        first_unfinished(level, orders) is Some <==> finished_prefix(level, orders) < level.len(),
    decreases level.len(),
{
    if level.len() > 0 {
        lemma_finished_prefix(level.skip(1), orders);
    }
}

/// The level without the finished orders at its front.
pub open spec fn trimmed(level: LinkedItemView, orders: Map<Did, LimitOrder>) -> LinkedItemView {
    LinkedItemView {
        orders: level.orders.skip(finished_prefix(level.orders, orders) as int),
        ..level
    }
}

/// The nodes and the ring of one pair after the side `otype` was cleared of
/// finished orders from the level next to the head outwards: the levels
/// whose orders are all finished are taken out one after the other, and the
/// first level with an order that is unknown or not finished loses the
/// finished orders at its front.
pub open spec fn drain(
    nodes: Map<Option<u64>, LinkedItemView>,
    ring: Ring,
    otype: OrderType,
    orders: Map<Did, LimitOrder>,
) -> (Map<Option<u64>, LinkedItemView>, Ring)
    decreases ring.keys.len(),
{
    let at = if otype == OrderType::Buy {
        ring.head - 1
    } else {
        ring.head + 1
    };
    if at <= 0 || at >= ring.keys.len() - 1 {
        (nodes, ring)
    } else if first_unfinished(nodes[ring.keys[at]].orders, orders) is Some {
        (nodes.insert(ring.keys[at], trimmed(nodes[ring.keys[at]], orders)), ring)
    } else {
        drain(
            linked_out(nodes, ring.keys[at - 1], ring.keys[at], ring.keys[at + 1]),
            ring_remove(ring, at),
            otype,
            orders,
        )
    }
}

/// What `remove_all` does to the lists: the list of the pair `key1` is set
/// up if it was not, and cleared of finished orders on the side `otype`; the
/// lists of the other pairs stay as they are.
pub open spec fn remove_all_post(
    before: LinkedList,
    after: LinkedList,
    orders: Map<Did, LimitOrder>,
    key1: Did,
    otype: OrderType,
) -> bool {
    let nodes = if before.initialized(key1) {
        pair_nodes(before.nodes(), key1)
    } else {
        pair_nodes(with_empty_list(before.nodes(), key1), key1)
    };
    let ring = if before.initialized(key1) {
        before.ring(key1)
    } else {
        empty_ring()
    };
    &&& after.initialized(key1)
    &&& pair_nodes(after.nodes(), key1) == drain(nodes, ring, otype, orders).0
    &&& after.ring(key1) == drain(nodes, ring, otype, orders).1
    &&& after.rings().remove(key1) == before.rings().remove(key1)
    &&& other_pairs(after.nodes(), key1) == other_pairs(before.nodes(), key1)
}

} // verus!
