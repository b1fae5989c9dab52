use swap_engine::linked_list::{Error, LinkedItem, LinkedList};
use swap_engine::swap_orderbook;
use swap_engine::token;
use swap_engine::trade_pair;
use swap_engine::utilities::{Did, OrderType, TradeMethod};

const SEED: [u8; 32] = [6u8; 32];
const TOP: u64 = u64::MAX;

fn did(byte: u8) -> Did {
    Did { did: [byte; 32] }
}

fn node(
    prev: Option<u64>,
    next: Option<u64>,
    price: Option<u64>,
    buy_amount: u64,
    sell_amount: u64,
    orders: Vec<Did>,
) -> LinkedItem {
    LinkedItem { prev, next, price, buy_amount, sell_amount, orders }
}

/// The prices met on the way from the bottom to the top along the `next`
/// links, the head as `None`.
fn walk(list: &mut LinkedList, pair: Did) -> Vec<Option<u64>> {
    let mut path = vec![Some(0)];
    let mut item = list.read_bottom(pair);
    let mut steps = 0;
    while item.price != Some(TOP) {
        steps += 1;
        assert!(steps < 1000, "the walk does not end");
        path.push(item.next);
        let here = item.next;
        item = list.read(pair, here);
        assert_eq!(item.price, here);
    }
    path
}

#[test]
fn first_read_sets_the_list_up() {
    let mut list = LinkedList::new();
    let pair = did(1);
    let head = list.read_head(pair);
    assert_eq!(head, node(Some(0), Some(TOP), None, 0, 0, vec![]));
    assert_eq!(list.read_bottom(pair), node(Some(TOP), None, Some(0), 0, 0, vec![]));
    assert_eq!(list.read_top(pair), node(None, Some(0), Some(TOP), 0, 0, vec![]));
    assert_eq!(list.read(pair, None), head);
    assert_eq!(head.clone(), head);
    assert_eq!(walk(&mut list, pair), vec![Some(0), None, Some(TOP)]);
}

#[test]
fn first_read_of_any_node_returns_the_head() {
    let mut list = LinkedList::new();
    let head = node(Some(0), Some(TOP), None, 0, 0, vec![]);
    assert_eq!(list.read_bottom(did(1)), head);
    assert_eq!(list.read_top(did(2)), head);
    assert_eq!(list.read(did(3), Some(5)), head);
    assert_eq!(list.read_bottom(did(3)), node(Some(TOP), None, Some(0), 0, 0, vec![]));
}

#[test]
fn write_replaces_one_node() {
    let mut list = LinkedList::new();
    let pair = did(1);
    list.write(pair, Some(5), node(Some(1), Some(2), Some(5), 3, 4, vec![did(9)]));
    assert_eq!(list.read(pair, Some(5)), node(Some(1), Some(2), Some(5), 3, 4, vec![did(9)]));
}

#[test]
fn buy_levels_stand_between_bottom_and_head() {
    let mut list = LinkedList::new();
    let pair = did(1);
    assert_eq!(list.append(pair, 8, did(10), 0, 5, OrderType::Buy), Ok(()));
    assert_eq!(list.append(pair, 3, did(11), 0, 6, OrderType::Buy), Ok(()));
    assert_eq!(list.append(pair, 5, did(12), 0, 7, OrderType::Buy), Ok(()));
    assert_eq!(walk(&mut list, pair), vec![Some(0), Some(3), Some(5), Some(8), None, Some(TOP)]);
    assert_eq!(list.read_bottom(pair), node(Some(TOP), Some(3), Some(0), 0, 0, vec![]));
    assert_eq!(list.read(pair, Some(3)), node(Some(0), Some(5), Some(3), 6, 0, vec![did(11)]));
    assert_eq!(list.read(pair, Some(5)), node(Some(3), Some(8), Some(5), 7, 0, vec![did(12)]));
    assert_eq!(list.read(pair, Some(8)), node(Some(5), None, Some(8), 5, 0, vec![did(10)]));
    assert_eq!(list.read_head(pair), node(Some(8), Some(TOP), None, 0, 0, vec![]));
    assert_eq!(list.read_top(pair), node(None, Some(0), Some(TOP), 0, 0, vec![]));
}

#[test]
fn sell_levels_stand_between_head_and_top() {
    let mut list = LinkedList::new();
    let pair = did(1);
    assert_eq!(list.append(pair, 20, did(10), 5, 0, OrderType::Sell), Ok(()));
    assert_eq!(list.append(pair, 30, did(11), 6, 0, OrderType::Sell), Ok(()));
    assert_eq!(list.append(pair, 10, did(12), 7, 0, OrderType::Sell), Ok(()));
    assert_eq!(list.append(pair, 8, did(13), 0, 1, OrderType::Buy), Ok(()));
    assert_eq!(
        walk(&mut list, pair),
        vec![Some(0), Some(8), None, Some(10), Some(20), Some(30), Some(TOP)]
    );
    assert_eq!(list.read_head(pair), node(Some(8), Some(10), None, 0, 0, vec![]));
    assert_eq!(list.read(pair, Some(10)), node(None, Some(20), Some(10), 0, 7, vec![did(12)]));
    assert_eq!(list.read(pair, Some(30)), node(Some(20), Some(TOP), Some(30), 0, 6, vec![did(11)]));
    assert_eq!(list.read_top(pair), node(Some(30), Some(0), Some(TOP), 0, 0, vec![]));
}

#[test]
fn orders_at_one_price_keep_their_order() {
    let mut list = LinkedList::new();
    let pair = did(1);
    let (o1, o2) = (did(101), did(102));
    assert_eq!(list.append(pair, 10, o1, 100, 0, OrderType::Sell), Ok(()));
    assert_eq!(list.append(pair, 10, o2, 50, 0, OrderType::Sell), Ok(()));
    let level = list.read(pair, Some(10));
    assert_eq!(level.orders, vec![o1, o2]);
    assert_eq!(level.sell_amount, 150);
    assert_eq!(level.buy_amount, 0);
    assert_eq!(walk(&mut list, pair), vec![Some(0), None, Some(10), Some(TOP)]);
    assert_eq!(list.append(pair, 10, did(103), 0, 9, OrderType::Buy), Ok(()));
    let level = list.read(pair, Some(10));
    assert_eq!(level.orders, vec![o1, o2, did(103)]);
    assert_eq!((level.buy_amount, level.sell_amount), (9, 150));
    assert_eq!(walk(&mut list, pair), vec![Some(0), None, Some(10), Some(TOP)]);
}

#[test]
fn lists_of_different_pairs_do_not_mix() {
    let mut list = LinkedList::new();
    assert_eq!(list.append(did(1), 10, did(50), 1, 0, OrderType::Sell), Ok(()));
    assert_eq!(list.append(did(2), 7, did(51), 0, 1, OrderType::Buy), Ok(()));
    assert_eq!(walk(&mut list, did(1)), vec![Some(0), None, Some(10), Some(TOP)]);
    assert_eq!(walk(&mut list, did(2)), vec![Some(0), Some(7), None, Some(TOP)]);
}

#[test]
fn append_refuses_amounts_that_overflow() {
    let mut list = LinkedList::new();
    let pair = did(1);
    assert_eq!(list.append(pair, 10, did(50), u64::MAX, 1, OrderType::Sell), Ok(()));
    assert_eq!(list.append(pair, 10, did(51), 1, 0, OrderType::Sell), Err(Error::AmountOverflow));
    assert_eq!(list.append(pair, 10, did(51), 0, u64::MAX, OrderType::Sell), Err(Error::AmountOverflow));
    assert_eq!(list.read(pair, Some(10)).orders, vec![did(50)]);
    assert_eq!(list.append(pair, 10, did(51), 0, u64::MAX - 1, OrderType::Sell), Ok(()));
    assert_eq!(list.read(pair, Some(10)).buy_amount, u64::MAX);
}

#[test]
fn remove_order_takes_the_order_out() {
    let mut list = LinkedList::new();
    let pair = did(1);
    assert_eq!(list.append(pair, 8, did(50), 0, 5, OrderType::Buy), Ok(()));
    assert_eq!(list.append(pair, 8, did(51), 0, 6, OrderType::Buy), Ok(()));
    assert_eq!(list.append(pair, 8, did(52), 0, 7, OrderType::Buy), Ok(()));
    assert_eq!(list.remove_order(pair, 8, did(50), 0, 5), Ok(()));
    let level = list.read(pair, Some(8));
    assert_eq!(level.orders, vec![did(51), did(52)]);
    assert_eq!(level.buy_amount, 13);
    assert_eq!(list.remove_order(pair, 8, did(50), 0, 0), Err(Error::OrderNotInList));
    assert_eq!(list.remove_order(pair, 8, did(51), 0, 14), Err(Error::AmountUnderflow));
    assert_eq!(list.remove_order(pair, 8, did(51), 1, 0), Err(Error::AmountUnderflow));
    assert_eq!(list.read(pair, Some(8)), level);
    assert_eq!(list.remove_order(pair, 9, did(51), 0, 0), Ok(()));
    assert_eq!(walk(&mut list, pair), vec![Some(0), Some(8), None, Some(TOP)]);
}

#[test]
fn a_level_without_orders_leaves_the_list() {
    let mut list = LinkedList::new();
    let pair = did(1);
    assert_eq!(list.append(pair, 3, did(50), 0, 5, OrderType::Buy), Ok(()));
    assert_eq!(list.append(pair, 5, did(51), 0, 6, OrderType::Buy), Ok(()));
    assert_eq!(list.append(pair, 8, did(52), 0, 7, OrderType::Buy), Ok(()));
    assert_eq!(list.append(pair, 20, did(53), 1, 0, OrderType::Sell), Ok(()));
    assert_eq!(list.remove_order(pair, 5, did(51), 0, 6), Ok(()));
    assert_eq!(walk(&mut list, pair), vec![Some(0), Some(3), Some(8), None, Some(20), Some(TOP)]);
    assert_eq!(list.read(pair, Some(3)).next, Some(8));
    assert_eq!(list.read(pair, Some(8)).prev, Some(3));
    assert_eq!(list.remove_order(pair, 20, did(53), 0, 0), Ok(()));
    assert_eq!(list.remove_order(pair, 8, did(52), 0, 0), Ok(()));
    assert_eq!(list.remove_order(pair, 3, did(50), 0, 0), Ok(()));
    assert_eq!(walk(&mut list, pair), vec![Some(0), None, Some(TOP)]);
    assert_eq!(list.read_head(pair), node(Some(0), Some(TOP), None, 0, 0, vec![]));
    assert_eq!(list.read_bottom(pair), node(Some(TOP), None, Some(0), 0, 0, vec![]));
    assert_eq!(list.read_top(pair), node(None, Some(0), Some(TOP), 0, 0, vec![]));
}

#[test]
fn remove_order_takes_every_occurrence() {
    let mut list = LinkedList::new();
    let pair = did(1);
    assert_eq!(list.append(pair, 8, did(50), 0, 1, OrderType::Buy), Ok(()));
    assert_eq!(list.append(pair, 8, did(51), 0, 1, OrderType::Buy), Ok(()));
    assert_eq!(list.append(pair, 8, did(50), 0, 1, OrderType::Buy), Ok(()));
    assert_eq!(list.remove_order(pair, 8, did(50), 0, 2), Ok(()));
    assert_eq!(list.read(pair, Some(8)).orders, vec![did(51)]);
    assert_eq!(list.read(pair, Some(8)).buy_amount, 1);
}

#[test]
fn remove_item_relinks_the_neighbours() {
    let mut list = LinkedList::new();
    let pair = did(1);
    assert_eq!(list.append(pair, 10, did(50), 1, 0, OrderType::Sell), Ok(()));
    assert_eq!(list.append(pair, 20, did(51), 1, 0, OrderType::Sell), Ok(()));
    list.remove_item(pair, 15);
    assert_eq!(walk(&mut list, pair), vec![Some(0), None, Some(10), Some(20), Some(TOP)]);
    list.remove_item(pair, 10);
    assert_eq!(walk(&mut list, pair), vec![Some(0), None, Some(20), Some(TOP)]);
    assert_eq!(list.read_head(pair).next, Some(20));
    assert_eq!(list.read(pair, Some(20)).prev, None);
}

#[test]
fn update_amount_takes_the_amounts_off() {
    let mut list = LinkedList::new();
    let pair = did(1);
    assert_eq!(list.append(pair, 10, did(50), 30, 20, OrderType::Sell), Ok(()));
    assert_eq!(list.update_amount(pair, 10, 5, 7), Ok(()));
    let level = list.read(pair, Some(10));
    assert_eq!((level.sell_amount, level.buy_amount), (25, 13));
    assert_eq!(level.orders, vec![did(50)]);
    assert_eq!(list.update_amount(pair, 10, 26, 0), Err(Error::AmountUnderflow));
    assert_eq!(list.update_amount(pair, 10, 0, 14), Err(Error::AmountUnderflow));
    assert_eq!(list.update_amount(pair, 11, 0, 0), Err(Error::LevelNotFound));
    assert_eq!(list.read(pair, Some(10)), level);
    assert_eq!(walk(&mut list, pair), vec![Some(0), None, Some(10), Some(TOP)]);
}

#[test]
fn next_match_price_follows_the_side() {
    let item = node(Some(3), Some(9), Some(5), 0, 0, vec![]);
    assert_eq!(LinkedList::next_match_price(&item, OrderType::Buy), Some(3));
    assert_eq!(LinkedList::next_match_price(&item, OrderType::Sell), Some(9));
    let head = node(Some(0), None, None, 0, 0, vec![]);
    assert_eq!(LinkedList::next_match_price(&head, OrderType::Sell), None);
}

struct World {
    ledger: token::Module,
    registry: trade_pair::Module,
    book: swap_orderbook::Module,
    tpid: Did,
}

fn world() -> World {
    let mut ledger = token::Module::new();
    let base = match ledger.issue(&SEED, 1, 1000, b"B".to_vec()) {
        Ok(token::Event::Issued(_, tid, _)) => tid,
        other => panic!("issue failed: {:?}", other),
    };
    let quote = match ledger.issue(&SEED, 1, 1000, b"Q".to_vec()) {
        Ok(token::Event::Issued(_, tid, _)) => tid,
        other => panic!("issue failed: {:?}", other),
    };
    let mut registry = trade_pair::Module::new();
    let (tpid, _) = registry
        .create_trade_pair(&ledger, &SEED, 1, base, quote, TradeMethod::OrderBook, None)
        .unwrap();
    World { ledger, registry, book: swap_orderbook::Module::new(), tpid }
}

fn placed(w: &mut World, otype: OrderType, price: u64) -> Did {
    w.book
        .create_limit_order(&w.registry, &mut w.ledger, &SEED, 0, 1, w.tpid, otype, price, 1)
        .unwrap()
        .0
}

fn canceled(w: &mut World, otype: OrderType, price: u64) -> Did {
    let id = placed(w, otype, price);
    assert!(w.book.cancel_limit_order(&w.registry, &mut w.ledger, 1, id).is_ok());
    id
}

#[test]
fn a_level_of_finished_orders_is_taken_out() {
    let mut w = world();
    let mut list = LinkedList::new();
    let pair = w.tpid;
    let (a, b) = (canceled(&mut w, OrderType::Buy, 8), canceled(&mut w, OrderType::Buy, 8));
    assert_eq!(list.append(pair, 8, a, 0, 1, OrderType::Buy), Ok(()));
    assert_eq!(list.append(pair, 8, b, 0, 1, OrderType::Buy), Ok(()));
    assert_eq!(list.append(pair, 5, did(77), 0, 1, OrderType::Buy), Ok(()));
    assert_eq!(list.remove_orders_in_one_item(&w.book, pair, 9), Ok(()));
    assert_eq!(list.remove_orders_in_one_item(&w.book, pair, 8), Ok(()));
    assert_eq!(walk(&mut list, pair), vec![Some(0), Some(5), None, Some(TOP)]);
    assert_eq!(list.read_head(pair).prev, Some(5));
}

#[test]
fn a_level_with_an_open_or_unknown_order_stays() {
    let mut w = world();
    let mut list = LinkedList::new();
    let pair = w.tpid;
    let done = canceled(&mut w, OrderType::Sell, 10);
    let open = placed(&mut w, OrderType::Sell, 10);
    assert_eq!(list.append(pair, 10, done, 1, 0, OrderType::Sell), Ok(()));
    assert_eq!(list.append(pair, 10, open, 1, 0, OrderType::Sell), Ok(()));
    assert_eq!(list.append(pair, 12, done, 1, 0, OrderType::Sell), Ok(()));
    assert_eq!(list.append(pair, 12, did(99), 1, 0, OrderType::Sell), Ok(()));
    assert_eq!(list.append(pair, 14, did(99), 1, 0, OrderType::Sell), Ok(()));
    assert_eq!(list.append(pair, 14, open, 1, 0, OrderType::Sell), Ok(()));
    assert_eq!(list.remove_orders_in_one_item(&w.book, pair, 10), Err(Error::OrderNotFinished));
    assert_eq!(list.remove_orders_in_one_item(&w.book, pair, 12), Err(Error::OrderNotFound));
    assert_eq!(list.remove_orders_in_one_item(&w.book, pair, 14), Err(Error::OrderNotFound));
    assert_eq!(list.read(pair, Some(10)).orders, vec![done, open]);
    assert_eq!(list.read(pair, Some(12)).orders, vec![done, did(99)]);
    assert_eq!(
        walk(&mut list, pair),
        vec![Some(0), None, Some(10), Some(12), Some(14), Some(TOP)]
    );
}

#[test]
fn remove_all_drains_from_the_head_outwards() {
    let mut w = world();
    let mut list = LinkedList::new();
    let pair = w.tpid;
    let done = canceled(&mut w, OrderType::Buy, 1);
    let open = placed(&mut w, OrderType::Buy, 1);
    assert_eq!(list.append(pair, 2, done, 0, 1, OrderType::Buy), Ok(()));
    assert_eq!(list.append(pair, 4, open, 0, 1, OrderType::Buy), Ok(()));
    assert_eq!(list.append(pair, 6, done, 0, 1, OrderType::Buy), Ok(()));
    assert_eq!(list.append(pair, 8, done, 0, 1, OrderType::Buy), Ok(()));
    assert_eq!(list.append(pair, 10, done, 1, 0, OrderType::Sell), Ok(()));
    assert_eq!(list.append(pair, 12, done, 1, 0, OrderType::Sell), Ok(()));
    assert_eq!(list.append(pair, 14, open, 1, 0, OrderType::Sell), Ok(()));
    assert_eq!(list.append(pair, 16, done, 1, 0, OrderType::Sell), Ok(()));
    list.remove_all(&w.book, pair, OrderType::Buy);
    assert_eq!(
        walk(&mut list, pair),
        vec![Some(0), Some(2), Some(4), None, Some(10), Some(12), Some(14), Some(16), Some(TOP)]
    );
    list.remove_all(&w.book, pair, OrderType::Sell);
    assert_eq!(
        walk(&mut list, pair),
        vec![Some(0), Some(2), Some(4), None, Some(14), Some(16), Some(TOP)]
    );
    list.remove_all(&w.book, pair, OrderType::Sell);
    assert_eq!(list.read_head(pair), node(Some(4), Some(14), None, 0, 0, vec![]));
    assert!(w.book.cancel_limit_order(&w.registry, &mut w.ledger, 1, open).is_ok());
    list.remove_all(&w.book, pair, OrderType::Buy);
    list.remove_all(&w.book, pair, OrderType::Sell);
    assert_eq!(walk(&mut list, pair), vec![Some(0), None, Some(TOP)]);
}

#[test]
fn remove_all_sets_an_untouched_list_up() {
    let w = world();
    let mut list = LinkedList::new();
    list.remove_all(&w.book, did(1), OrderType::Buy);
    assert_eq!(walk(&mut list, did(1)), vec![Some(0), None, Some(TOP)]);
}

#[test]
fn walk_visits_rising_prices_and_levels_with_orders() {
    let mut list = LinkedList::new();
    let pair = did(1);
    let buys = [40u64, 10, 30, 20, 35];
    let sells = [90u64, 50, 70, 60, TOP - 1];
    for (i, price) in buys.iter().enumerate() {
        assert_eq!(list.append(pair, *price, did(i as u8), 0, 1, OrderType::Buy), Ok(()));
    }
    for (i, price) in sells.iter().enumerate() {
        assert_eq!(list.append(pair, *price, did(100 + i as u8), 1, 0, OrderType::Sell), Ok(()));
    }
    assert_eq!(list.remove_order(pair, 30, did(2), 0, 1), Ok(()));
    assert_eq!(list.remove_order(pair, 70, did(102), 1, 0), Ok(()));
    let path = walk(&mut list, pair);
    assert_eq!(
        path,
        vec![
            Some(0),
            Some(10),
            Some(20),
            Some(35),
            Some(40),
            None,
            Some(50),
            Some(60),
            Some(90),
            Some(TOP - 1),
            Some(TOP)
        ]
    );
    let prices: Vec<u64> = path.iter().filter_map(|p| *p).collect();
    assert!(prices.windows(2).all(|w| w[0] < w[1]));
    for price in &prices[1..prices.len() - 1] {
        assert!(!list.read(pair, Some(*price)).orders.is_empty());
    }
}

#[test]
fn a_sell_below_a_buy_stands_on_its_own_side() {
    let mut list = LinkedList::new();
    let pair = did(1);
    assert_eq!(list.append(pair, 10, did(50), 0, 1, OrderType::Buy), Ok(()));
    assert_eq!(list.append(pair, 5, did(51), 1, 0, OrderType::Sell), Ok(()));
    assert_eq!(walk(&mut list, pair), vec![Some(0), Some(10), None, Some(5), Some(TOP)]);
    assert_eq!(list.read_head(pair), node(Some(10), Some(5), None, 0, 0, vec![]));
    assert_eq!(list.remove_order(pair, 5, did(51), 1, 0), Ok(()));
    assert_eq!(walk(&mut list, pair), vec![Some(0), Some(10), None, Some(TOP)]);
}

#[test]
fn get_reads_without_writing() {
    let mut list = LinkedList::new();
    let pair = did(1);
    assert_eq!(list.get(pair, None), None);
    assert_eq!(list.get(pair, Some(0)), None);
    assert_eq!(list.get(pair, Some(10)), None);
    assert_eq!(list.get(pair, None), None);
    assert_eq!(list.append(pair, 10, did(50), 3, 0, OrderType::Sell), Ok(()));
    assert_eq!(list.get(pair, Some(10)), Some(node(None, Some(TOP), Some(10), 0, 3, vec![did(50)])));
    assert_eq!(list.get(pair, None), Some(node(Some(0), Some(10), None, 0, 0, vec![])));
    assert_eq!(list.get(pair, Some(11)), None);
    assert_eq!(list.get(did(2), None), None);
    assert_eq!(walk(&mut list, pair), vec![Some(0), None, Some(10), Some(TOP)]);
}

#[test]
fn the_last_order_takes_its_level_along_whatever_the_amounts() {
    let mut list = LinkedList::new();
    let pair = did(1);
    assert_eq!(list.append(pair, 5, did(49), 0, 1, OrderType::Buy), Ok(()));
    assert_eq!(list.append(pair, 8, did(50), 0, 1, OrderType::Buy), Ok(()));
    assert_eq!(list.append(pair, 20, did(51), 1, 0, OrderType::Sell), Ok(()));
    assert_eq!(list.remove_order(pair, 8, did(50), 7, 9), Ok(()));
    assert_eq!(list.get(pair, Some(8)), None);
    assert_eq!(list.get(pair, Some(5)).unwrap().next, None);
    assert_eq!(list.get(pair, None).unwrap().prev, Some(5));
    assert_eq!(walk(&mut list, pair), vec![Some(0), Some(5), None, Some(20), Some(TOP)]);
}

#[test]
fn a_read_never_writes_to_a_list_that_is_set_up() {
    let mut list = LinkedList::new();
    let pair = did(1);
    assert_eq!(list.append(pair, 10, did(50), 0, 1, OrderType::Buy), Ok(()));
    let head = node(Some(10), Some(TOP), None, 0, 0, vec![]);
    assert_eq!(list.read(pair, Some(5)), head);
    assert_eq!(list.read(pair, Some(TOP - 1)), head);
    assert_eq!(list.get(pair, Some(5)), None);
    assert_eq!(list.read_bottom(pair), node(Some(TOP), Some(10), Some(0), 0, 0, vec![]));
    assert_eq!(list.read(pair, Some(10)), node(Some(0), None, Some(10), 1, 0, vec![did(50)]));
    assert_eq!(list.read_head(pair), head);
    assert_eq!(walk(&mut list, pair), vec![Some(0), Some(10), None, Some(TOP)]);
    assert_eq!(list.append(pair, 5, did(51), 0, 1, OrderType::Buy), Ok(()));
    assert_eq!(list.remove_order(pair, 10, did(50), 0, 1), Ok(()));
    assert_eq!(walk(&mut list, pair), vec![Some(0), Some(5), None, Some(TOP)]);
}

#[test]
fn remove_all_takes_the_finished_orders_in_front_of_an_open_one() {
    let mut w = world();
    let mut list = LinkedList::new();
    let pair = w.tpid;
    let done = canceled(&mut w, OrderType::Sell, 1);
    let also_done = canceled(&mut w, OrderType::Sell, 1);
    let open = placed(&mut w, OrderType::Sell, 1);
    assert_eq!(list.append(pair, 10, done, 1, 0, OrderType::Sell), Ok(()));
    assert_eq!(list.append(pair, 12, done, 2, 0, OrderType::Sell), Ok(()));
    assert_eq!(list.append(pair, 12, also_done, 3, 0, OrderType::Sell), Ok(()));
    assert_eq!(list.append(pair, 12, open, 4, 0, OrderType::Sell), Ok(()));
    assert_eq!(list.append(pair, 12, did(99), 5, 0, OrderType::Sell), Ok(()));
    assert_eq!(list.append(pair, 14, done, 6, 0, OrderType::Sell), Ok(()));
    assert_eq!(list.append(pair, 8, did(98), 0, 1, OrderType::Buy), Ok(()));
    assert_eq!(list.append(pair, 8, done, 0, 1, OrderType::Buy), Ok(()));
    list.remove_all(&w.book, pair, OrderType::Sell);
    assert_eq!(walk(&mut list, pair), vec![Some(0), Some(8), None, Some(12), Some(14), Some(TOP)]);
    assert_eq!(
        list.get(pair, Some(12)),
        Some(node(None, Some(14), Some(12), 0, 14, vec![open, did(99)]))
    );
    assert_eq!(list.get(pair, Some(14)).unwrap().orders, vec![done]);
    list.remove_all(&w.book, pair, OrderType::Sell);
    assert_eq!(list.get(pair, Some(12)).unwrap().orders, vec![open, did(99)]);
    list.remove_all(&w.book, pair, OrderType::Buy);
    assert_eq!(list.get(pair, Some(8)).unwrap().orders, vec![did(98), done]);
    assert_eq!(list.remove_orders_in_one_item(&w.book, pair, 12), Err(Error::OrderNotFinished));
    assert_eq!(list.get(pair, Some(12)).unwrap().orders, vec![open, did(99)]);
}
