use vstd::prelude::*;

use crate::aggregator::models::{
    first_price, MarketDataType, NormalizedData, NormalizedValue, OrderBookData,
};
use crate::error::OrchestratorError;
use crate::table::{MarketKey, Table, TableKey};

verus! {

/// A pair of markets of one symbol where buying at the ask of one exchange
/// and selling at the bid of another may pay.
#[derive(Debug, Clone, PartialEq)]
pub struct ArbitrageQuote<P> {
    pub symbol: String,
    pub buy_exchange: String,
    pub ask: P,
    pub sell_exchange: String,
    pub bid: P,
}

/// The bid and ask of a ticker, whose spread may pay.
#[derive(Debug, Clone, PartialEq)]
pub struct SpreadQuote<P> {
    pub exchange: String,
    pub symbol: String,
    pub bid: P,
    pub ask: P,
}

/// What a market update gives to look at for opportunities.
#[derive(Debug, Clone, PartialEq)]
pub enum Detection<P> {
    /// Every pair of distinct exchanges quoting the updated symbol, the
    /// first with a best ask, the second with a best bid.
    Arbitrage(Vec<ArbitrageQuote<P>>),
    /// The bid and ask of an updated ticker.
    Spread(SpreadQuote<P>),
    /// Nothing to look at.
    Nothing,
}

/// The best bid of normalized data: the first bid of its order book.
pub open spec fn best_bid<P>(data: NormalizedData<P>) -> Option<P> {
    match data.normalized_value {
        NormalizedValue::OrderBook(b) => first_price(b.bids@),
        _ => None,
    }
}

/// The best ask of normalized data: the first ask of its order book.
pub open spec fn best_ask<P>(data: NormalizedData<P>) -> Option<P> {
    match data.normalized_value {
        NormalizedValue::OrderBook(b) => first_price(b.asks@),
        _ => None,
    }
}

/// A quote as (buy exchange, ask, sell exchange, bid).
pub open spec fn quote_view<P>(q: ArbitrageQuote<P>) -> (Seq<char>, P, Seq<char>, P) {
    (q.buy_exchange@, q.ask, q.sell_exchange@, q.bid)
}

/// `q` buys `symbol` at the best ask of one exchange and sells it at the best
/// bid of another, both as held in `latest`.
pub open spec fn is_arbitrage_quote<P>(
    latest: Map<(Seq<char>, Seq<char>), NormalizedData<P>>,
    symbol: Seq<char>,
    q: (Seq<char>, P, Seq<char>, P),
) -> bool {
    &&& q.0 != q.2
    &&& latest.contains_key((q.0, symbol))
    &&& best_ask(latest[(q.0, symbol)]) == Some(q.1)
    &&& latest.contains_key((q.2, symbol))
    &&& best_bid(latest[(q.2, symbol)]) == Some(q.3)
}

/// Arbitrage needs two exchanges: where at most one exchange has data for a
/// symbol, no quote of that symbol is an arbitrage quote.
pub proof fn lemma_one_exchange_no_arbitrage<P>(
    latest: Map<(Seq<char>, Seq<char>), NormalizedData<P>>,
    symbol: Seq<char>,
    exchange: Seq<char>,
    q: (Seq<char>, P, Seq<char>, P),
)
    requires
        forall|e: Seq<char>| #[trigger] latest.contains_key((e, symbol)) ==> e == exchange,
    ensures
        !is_arbitrage_quote(latest, symbol, q),
{
}

/// An arbitrage quote buys at the price of the first ask level of the buying
/// exchange's latest order book, and sells at the price of the first bid
/// level of the selling exchange's latest order book.
pub proof fn lemma_quote_at_top_of_books<P>(
    latest: Map<(Seq<char>, Seq<char>), NormalizedData<P>>,
    symbol: Seq<char>,
    q: (Seq<char>, P, Seq<char>, P),
)
    requires
        is_arbitrage_quote(latest, symbol, q),
    ensures
        latest[(q.0, symbol)].normalized_value is OrderBook,
        latest[(q.0, symbol)].normalized_value->OrderBook_0.asks@.len() > 0,
        latest[(q.0, symbol)].normalized_value->OrderBook_0.asks@[0].price == q.1,
        latest[(q.2, symbol)].normalized_value is OrderBook,
        latest[(q.2, symbol)].normalized_value->OrderBook_0.bids@.len() > 0,
        latest[(q.2, symbol)].normalized_value->OrderBook_0.bids@[0].price == q.3,
{
}

/// For two distinct exchanges whose latest data for a symbol are order books,
/// the first ask of the one and the first bid of the other form an
/// arbitrage quote.
pub proof fn lemma_top_of_books_quoted<P>(
    latest: Map<(Seq<char>, Seq<char>), NormalizedData<P>>,
    symbol: Seq<char>,
    buy: Seq<char>,
    sell: Seq<char>,
    ask_book: OrderBookData<P>,
    bid_book: OrderBookData<P>,
)
    requires
        buy != sell,
        latest.contains_key((buy, symbol)),
        latest[(buy, symbol)].normalized_value == NormalizedValue::OrderBook(ask_book),
        ask_book.asks@.len() > 0,
        latest.contains_key((sell, symbol)),
        latest[(sell, symbol)].normalized_value == NormalizedValue::OrderBook(bid_book),
        bid_book.bids@.len() > 0,
    ensures
        is_arbitrage_quote(latest, symbol, (buy, ask_book.asks@[0].price, sell, bid_book.bids@[0].price)),
{
}

/// The ticker bid and ask of normalized data, if it holds a ticker.
pub open spec fn ticker_quote<P>(data: NormalizedData<P>) -> Option<(P, P)> {
    match data.normalized_value {
        NormalizedValue::Ticker(t) => Some((t.bid, t.ask)),
        _ => None,
    }
}

/// `detection` is what an update with `data` gives to look at, once
/// `latest` holds the latest data of each market: after an order book
/// update, every arbitrage quote of its symbol, each once; after a ticker
/// update, the ticker's bid and ask; otherwise nothing.
pub open spec fn detected<P>(
    latest: Map<(Seq<char>, Seq<char>), NormalizedData<P>>,
    data: NormalizedData<P>,
    detection: Detection<P>,
) -> bool {
    match data.data_type {
        MarketDataType::OrderBook => detection matches Detection::Arbitrage(quotes) && {
            &&& quotes@.map_values(|q: ArbitrageQuote<P>| quote_view(q)).no_duplicates()
            &&& forall|i: int| 0 <= i < quotes@.len() ==> (#[trigger] quotes@[i]).symbol@ == data.symbol@
            &&& forall|v: (Seq<char>, P, Seq<char>, P)|
                quotes@.map_values(|q: ArbitrageQuote<P>| quote_view(q)).contains(v)
                    <==> #[trigger] is_arbitrage_quote(latest, data.symbol@, v)
        },
        MarketDataType::Ticker => match ticker_quote(data) {
            Some((bid, ask)) => detection matches Detection::Spread(q) && q.exchange@ == data.exchange@
                && q.symbol@ == data.symbol@ && q.bid == bid && q.ask == ask,
            None => detection is Nothing,
        },
        _ => detection is Nothing,
    }
}

/// Keeps the latest normalized data of each market and finds what may be
/// traded on.
pub struct OpportunityDetector<P> {
    latest_data: Table<MarketKey, NormalizedData<P>>,
    initialized: bool,
}

impl<P: Copy> OpportunityDetector<P> {
    pub closed spec fn wf(&self) -> bool {
        self.latest_data.wf()
    }

    /// The latest data of each (exchange, symbol).
    pub closed spec fn latest(&self) -> Map<(Seq<char>, Seq<char>), NormalizedData<P>> {
        self.latest_data@
    }

    pub closed spec fn is_initialized(&self) -> bool {
        self.initialized
    }

    pub fn new() -> (detector: Self)
        ensures
            detector.wf(),
            detector.latest() == Map::<(Seq<char>, Seq<char>), NormalizedData<P>>::empty(),
            !detector.is_initialized(),
    {
        OpportunityDetector { latest_data: Table::new(), initialized: false }
    }

    pub fn initialize(&mut self) -> (result: Result<(), OrchestratorError>)
        requires
            old(self).wf(),
        ensures
            final(self).wf(),
            result is Ok,
            final(self).is_initialized(),
            final(self).latest() == old(self).latest(),
    {
        self.initialized = true;
        Ok(())
    }

    pub fn shutdown(&mut self) -> (result: Result<(), OrchestratorError>)
        requires
            old(self).wf(),
        ensures
            final(self).wf(),
            result is Ok,
            !final(self).is_initialized(),
            final(self).latest() == old(self).latest(),
    {
        self.initialized = false;
        Ok(())
    }

    /// Records `normalized_data` as the latest of its market and says what
    /// to look at: after an order book update, the arbitrage quotes of its
    /// symbol; after a ticker update, the ticker's spread.
    pub fn detect(&mut self, normalized_data: NormalizedData<P>) -> (result: Result<
        Detection<P>,
        OrchestratorError,
    >)
        requires
            old(self).wf(),
        ensures
            final(self).wf(),
            final(self).is_initialized() == old(self).is_initialized(),
            !old(self).is_initialized() ==> result == Err::<Detection<P>, OrchestratorError>(
                OrchestratorError::NotInitialized("OpportunityDetector"),
            ) && final(self).latest() == old(self).latest(),
            old(self).is_initialized() ==> result is Ok && final(self).latest() == old(self).latest().insert((normalized_data.exchange@, normalized_data.symbol@), normalized_data),
            result matches Ok(detection) ==> detected(final(self).latest(), normalized_data, detection),
    {
        if !self.initialized {
            return Err(OrchestratorError::NotInitialized("OpportunityDetector"));
        }
        let data_type = normalized_data.data_type;
        let symbol = normalized_data.symbol.clone();
        let spread = match &normalized_data.normalized_value {
            NormalizedValue::Ticker(t) => Some(
                SpreadQuote {
                    exchange: normalized_data.exchange.clone(),
                    symbol: normalized_data.symbol.clone(),
                    bid: t.bid,
                    ask: t.ask,
                },
            ),
            _ => None,
        };
        let key = MarketKey {
            exchange: normalized_data.exchange.clone(),
            symbol: normalized_data.symbol.clone(),
        };
        self.latest_data.insert(key, normalized_data);
        match data_type {
            MarketDataType::OrderBook => Ok(Detection::Arbitrage(self.arbitrage_quotes(&symbol))),
            MarketDataType::Ticker => match spread {
                Some(q) => Ok(Detection::Spread(q)),
                None => Ok(Detection::Nothing),
            },
            _ => Ok(Detection::Nothing),
        }
    }

    /// The best bid and best ask of each exchange quoting `symbol`.
    fn market_sides(&self, symbol: &String) -> (sides: Vec<(String, Option<P>, Option<P>)>)
        requires
            self.wf(),
        ensures
            forall|a: int, b: int|
                0 <= a < sides@.len() && 0 <= b < sides@.len() && a != b ==> #[trigger] sides@[a].0@
                    != #[trigger] sides@[b].0@,
            forall|a: int|
                0 <= a < sides@.len() ==> {
                    &&& self.latest().contains_key((#[trigger] sides@[a].0@, symbol@))
                    &&& sides@[a].1 == best_bid(self.latest()[(sides@[a].0@, symbol@)])
                    &&& sides@[a].2 == best_ask(self.latest()[(sides@[a].0@, symbol@)])
                },
            forall|e: Seq<char>| #[trigger]
                self.latest().contains_key((e, symbol@)) ==> exists|a: int|
                    0 <= a < sides@.len() && #[trigger] sides@[a].0@ == e,
    {
        proof {
            self.latest_data.lemma_entries_are_view();
        }
        let entries = self.latest_data.entries();
        let mut sides: Vec<(String, Option<P>, Option<P>)> = Vec::new();
        let ghost mut origin: Seq<int> = Seq::empty();
        let mut i: usize = 0;
        while i < entries.len()
            invariant
                i <= entries@.len(),
                entries@ == self.latest_data.spec_entries(),
                self.latest_data@ == self.latest(),
                crate::table::keys_distinct(entries@),
                forall|j: int|
                    0 <= j < entries@.len() ==> self.latest().contains_key(
                        #[trigger] entries@[j].0.key_view(),
                    ) && self.latest()[entries@[j].0.key_view()] == entries@[j].1,
                origin.len() == sides@.len(),
                forall|a: int|
                    0 <= a < sides@.len() ==> 0 <= #[trigger] origin[a] < i && entries@[origin[a]].0.key_view()
                        == (sides@[a].0@, symbol@) && sides@[a].1 == best_bid(entries@[origin[a]].1)
                        && sides@[a].2 == best_ask(entries@[origin[a]].1),
                forall|a: int, b: int|
                    0 <= a < sides@.len() && 0 <= b < sides@.len() && a != b ==> #[trigger] origin[a]
                        != #[trigger] origin[b],
                forall|j: int|
                    0 <= j < i && #[trigger] entries@[j].0.symbol@ == symbol@ ==> exists|a: int|
                        0 <= a < sides@.len() && origin[a] == j,
            decreases entries@.len() - i,
        {
            if entries[i].0.symbol == *symbol {
                let data = &entries[i].1;
                let (bid, ask) = match &data.normalized_value {
                    NormalizedValue::OrderBook(book) => {
                        let bid = if book.bids.len() > 0 {
                            Some(book.bids[0].price)
                        } else {
                            None
                        };
                        let ask = if book.asks.len() > 0 {
                            Some(book.asks[0].price)
                        } else {
                            None
                        };
                        (bid, ask)
                    },
                    _ => (None, None),
                };
                let ghost old_origin = origin;
                let ghost old_sides = sides@;
                sides.push((entries[i].0.exchange.clone(), bid, ask));
                proof {
                    origin = origin.push(i as int);
                    assert forall|j: int|
                        0 <= j < i + 1 && #[trigger] entries@[j].0.symbol@ == symbol@ implies exists|a: int|
                        0 <= a < sides@.len() && origin[a] == j by {
                        if j < i {
                            let a = choose|a: int| 0 <= a < old_sides.len() && old_origin[a] == j;
                            assert(origin[a] == j);
                        } else {
                            assert(origin[sides@.len() - 1] == j);
                        }
                    }
                    assert forall|a: int|
                        0 <= a < sides@.len() implies 0 <= #[trigger] origin[a] < i + 1
                        && entries@[origin[a]].0.key_view() == (sides@[a].0@, symbol@)
                        && sides@[a].1 == best_bid(entries@[origin[a]].1) && sides@[a].2 == best_ask(
                        entries@[origin[a]].1,
                    ) by {
                        if a < old_sides.len() {
                            assert(sides@[a] == old_sides[a]);
                            assert(origin[a] == old_origin[a]);
                        }
                    }
                }
            }
            i = i + 1;
        }
        proof {
            assert forall|a: int, b: int|
                0 <= a < sides@.len() && 0 <= b < sides@.len() && a != b implies #[trigger] sides@[a].0@
                != #[trigger] sides@[b].0@ by {
                assert(entries@[origin[a]].0.key_view() == (sides@[a].0@, symbol@));
                assert(entries@[origin[b]].0.key_view() == (sides@[b].0@, symbol@));
                assert(origin[a] != origin[b]);
            }
            assert forall|a: int| 0 <= a < sides@.len() implies {
                &&& self.latest().contains_key((#[trigger] sides@[a].0@, symbol@))
                &&& sides@[a].1 == best_bid(self.latest()[(sides@[a].0@, symbol@)])
                &&& sides@[a].2 == best_ask(self.latest()[(sides@[a].0@, symbol@)])
            } by {
                assert(entries@[origin[a]].0.key_view() == (sides@[a].0@, symbol@));
            }
            assert forall|e: Seq<char>| #[trigger]
                self.latest().contains_key((e, symbol@)) implies exists|a: int|
                0 <= a < sides@.len() && #[trigger] sides@[a].0@ == e by {
                let j = choose|j: int|
                    0 <= j < entries@.len() && #[trigger] entries@[j].0.key_view() == (e, symbol@);
                assert(entries@[j].0.symbol@ == symbol@);
                let a = choose|a: int| 0 <= a < sides@.len() && origin[a] == j;
                assert(sides@[a].0@ == e);
            }
        }
        sides
    }

    /// Every quote that buys `symbol` at one exchange's best ask and sells
    /// it at another's best bid, each pair once.
    #[verifier::rlimit(30)]
    fn arbitrage_quotes(&self, symbol: &String) -> (quotes: Vec<ArbitrageQuote<P>>)
        requires
            self.wf(),
        ensures
            quotes@.map_values(|q: ArbitrageQuote<P>| quote_view(q)).no_duplicates(),
            forall|i: int| 0 <= i < quotes@.len() ==> (#[trigger] quotes@[i]).symbol@ == symbol@,
            forall|v: (Seq<char>, P, Seq<char>, P)|
                quotes@.map_values(|q: ArbitrageQuote<P>| quote_view(q)).contains(v)
                    <==> #[trigger] is_arbitrage_quote(self.latest(), symbol@, v),
    {
        let sides = self.market_sides(symbol);
        let mut quotes: Vec<ArbitrageQuote<P>> = Vec::new();
        if sides.len() <= 1 {
            proof {
                assert forall|v: (Seq<char>, P, Seq<char>, P)|
                    quotes@.map_values(|q: ArbitrageQuote<P>| quote_view(q)).contains(v)
                        <==> #[trigger] is_arbitrage_quote(self.latest(), symbol@, v) by {
                    if is_arbitrage_quote(self.latest(), symbol@, v) {
                        let a = choose|a: int| 0 <= a < sides@.len() && #[trigger] sides@[a].0@ == v.0;
                        let b = choose|b: int| 0 <= b < sides@.len() && #[trigger] sides@[b].0@ == v.2;
                        assert(a == b);
                    }
                }
                assert(quotes@.map_values(|q: ArbitrageQuote<P>| quote_view(q)) =~= Seq::empty());
            }
            return quotes;
        }
        let ghost mut pairs: Seq<(int, int)> = Seq::empty();
        let mut a: usize = 0;
        while a < sides.len()
            invariant
                a <= sides@.len(),
                sides_distinct(sides@),
                pairs.len() == quotes@.len(),
                forall|k: int|
                    0 <= k < quotes@.len() ==> quote_matches(sides@, symbol@, #[trigger] pairs[k], quotes@[k])
                        && pairs[k].0 < a,
                forall|k: int, l: int|
                    0 <= k < l < quotes@.len() ==> #[trigger] pairs[k] != #[trigger] pairs[l],
                forall|x: int, y: int|
                    0 <= x < a && 0 <= y < sides@.len() && pair_quotable(sides@, x, y) ==> exists|k: int|
                        0 <= k < pairs.len() && #[trigger] pairs[k] == (x, y),
            decreases sides@.len() - a,
        {
            if let Some(ask) = sides[a].2 {
                let mut b: usize = 0;
                while b < sides.len()
                    invariant
                        a < sides@.len(),
                        b <= sides@.len(),
                        sides@[a as int].2 == Some(ask),
                        sides_distinct(sides@),
                        pairs.len() == quotes@.len(),
                        forall|k: int|
                            0 <= k < quotes@.len() ==> quote_matches(sides@, symbol@, #[trigger] pairs[k], quotes@[k])
                                && pairs[k].0 <= a && (pairs[k].0 == a ==> pairs[k].1 < b),
                        forall|k: int, l: int|
                            0 <= k < l < quotes@.len() ==> #[trigger] pairs[k] != #[trigger] pairs[l],
                        forall|x: int, y: int|
                            0 <= x <= a && 0 <= y < sides@.len() && (x == a ==> y < b) && pair_quotable(sides@, x, y)
                                ==> exists|k: int| 0 <= k < pairs.len() && #[trigger] pairs[k] == (x, y),
                    decreases sides@.len() - b,
                {
                    if sides[a].0 != sides[b].0 {
                        if let Some(bid) = sides[b].1 {
                            let ghost old_pairs = pairs;
                            let ghost old_quotes = quotes@;
                            let quote = ArbitrageQuote {
                                symbol: symbol.clone(),
                                buy_exchange: sides[a].0.clone(),
                                ask,
                                sell_exchange: sides[b].0.clone(),
                                bid,
                            };
                            assert(quote_matches(sides@, symbol@, (a as int, b as int), quote));
                            quotes.push(quote);
                            proof {
                                pairs = pairs.push((a as int, b as int));
                                lemma_pairs_extended(
                                    sides@, symbol@, old_pairs, old_quotes, pairs, quotes@, a as int, b as int,
                                );
                            }
                        }
                    } else {
                        assert(a == b) by {
                            if a != b {
                                assert(sides@[a as int].0@ != sides@[b as int].0@);
                            }
                        }
                    }
                    b = b + 1;
                }
            }
            a = a + 1;
        }
        proof {
            let views = quotes@.map_values(|q: ArbitrageQuote<P>| quote_view(q));
            assert forall|i: int| 0 <= i < quotes@.len() implies (#[trigger] quotes@[i]).symbol@
                == symbol@ by {
                assert(quote_matches(sides@, symbol@, pairs[i], quotes@[i]));
            }
            assert forall|k: int, l: int|
                0 <= k < views.len() && 0 <= l < views.len() && k != l implies views[k] != views[l] by {
                assert(quote_matches(sides@, symbol@, pairs[k], quotes@[k]));
                assert(quote_matches(sides@, symbol@, pairs[l], quotes@[l]));
                let (xk, yk) = pairs[k];
                let (xl, yl) = pairs[l];
                if k < l {
                    assert(pairs[k] != pairs[l]);
                } else {
                    assert(pairs[l] != pairs[k]);
                }
                if xk != xl {
                    assert(sides@[xk].0@ != sides@[xl].0@);
                } else {
                    assert(sides@[yk].0@ != sides@[yl].0@);
                }
            }
            assert forall|v: (Seq<char>, P, Seq<char>, P)|
                views.contains(v) <==> #[trigger] is_arbitrage_quote(self.latest(), symbol@, v) by {
                if views.contains(v) {
                    let k = choose|k: int| 0 <= k < views.len() && views[k] == v;
                    assert(quote_matches(sides@, symbol@, pairs[k], quotes@[k]));
                    let (x, y) = pairs[k];
                    assert(sides@[x].0@ != sides@[y].0@);
                }
                if is_arbitrage_quote(self.latest(), symbol@, v) {
                    let x = choose|x: int| 0 <= x < sides@.len() && #[trigger] sides@[x].0@ == v.0;
                    let y = choose|y: int| 0 <= y < sides@.len() && #[trigger] sides@[y].0@ == v.2;
                    assert(x != y);
                    assert(pair_quotable(sides@, x, y));
                    let k = choose|k: int| 0 <= k < pairs.len() && #[trigger] pairs[k] == (x, y);
                    assert(quote_matches(sides@, symbol@, pairs[k], quotes@[k]));
                    assert(views[k] == v);
                }
            }
        }
        quotes
    }
}

impl<P: Copy> Default for OpportunityDetector<P> {
    fn default() -> (detector: Self)
        ensures
            detector.wf(),
            detector.latest() == Map::<(Seq<char>, Seq<char>), NormalizedData<P>>::empty(),
            !detector.is_initialized(),
    {
        Self::new()
    }
}

/// No two sides are of the same exchange.
spec fn sides_distinct<P>(sides: Seq<(String, Option<P>, Option<P>)>) -> bool {
    forall|x: int, y: int|
        0 <= x < sides.len() && 0 <= y < sides.len() && x != y ==> #[trigger] sides[x].0@
            != #[trigger] sides[y].0@
}

/// Side `x` has an ask and side `y`, another one, has a bid.
spec fn pair_quotable<P>(sides: Seq<(String, Option<P>, Option<P>)>, x: int, y: int) -> bool {
    &&& 0 <= x < sides.len()
    &&& 0 <= y < sides.len()
    &&& x != y
    &&& sides[x].2 is Some
    &&& sides[y].1 is Some
}

/// `q` buys at the ask of side `pair.0` and sells at the bid of side `pair.1`.
spec fn quote_matches<P>(
    sides: Seq<(String, Option<P>, Option<P>)>,
    symbol: Seq<char>,
    pair: (int, int),
    q: ArbitrageQuote<P>,
) -> bool {
    &&& 0 <= pair.0 < sides.len()
    &&& 0 <= pair.1 < sides.len()
    &&& pair.0 != pair.1
    &&& q.symbol@ == symbol
    &&& q.buy_exchange@ == sides[pair.0].0@
    &&& sides[pair.0].2 == Some(q.ask)
    &&& q.sell_exchange@ == sides[pair.1].0@
    &&& sides[pair.1].1 == Some(q.bid)
}

proof fn lemma_pairs_extended<P>(
    sides: Seq<(String, Option<P>, Option<P>)>,
    symbol: Seq<char>,
    old_pairs: Seq<(int, int)>,
    old_quotes: Seq<ArbitrageQuote<P>>,
    pairs: Seq<(int, int)>,
    quotes: Seq<ArbitrageQuote<P>>,
    a: int,
    b: int,
)
    requires
        old_pairs.len() == old_quotes.len(),
        pairs == old_pairs.push((a, b)),
        quotes.len() == old_quotes.len() + 1,
        forall|k: int| 0 <= k < old_quotes.len() ==> quotes[k] == old_quotes[k],
        quote_matches(sides, symbol, (a, b), quotes[old_quotes.len() as int]),
        forall|k: int|
            0 <= k < old_quotes.len() ==> quote_matches(sides, symbol, #[trigger] old_pairs[k], old_quotes[k])
                && old_pairs[k].0 <= a && (old_pairs[k].0 == a ==> old_pairs[k].1 < b),
        forall|k: int, l: int|
            0 <= k < l < old_quotes.len() ==> #[trigger] old_pairs[k] != #[trigger] old_pairs[l],
        forall|x: int, y: int|
            0 <= x <= a && 0 <= y < sides.len() && (x == a ==> y < b) && pair_quotable(sides, x, y)
                ==> exists|k: int| 0 <= k < old_pairs.len() && #[trigger] old_pairs[k] == (x, y),
    ensures
        forall|k: int|
            0 <= k < quotes.len() ==> quote_matches(sides, symbol, #[trigger] pairs[k], quotes[k])
                && pairs[k].0 <= a && (pairs[k].0 == a ==> pairs[k].1 < b + 1),
        forall|k: int, l: int| 0 <= k < l < quotes.len() ==> #[trigger] pairs[k] != #[trigger] pairs[l],
        forall|x: int, y: int|
            0 <= x <= a && 0 <= y < sides.len() && (x == a ==> y < b + 1) && pair_quotable(sides, x, y)
                ==> exists|k: int| 0 <= k < pairs.len() && #[trigger] pairs[k] == (x, y),
{
    assert forall|k: int| 0 <= k < quotes.len() implies quote_matches(
        sides,
        symbol,
        #[trigger] pairs[k],
        quotes[k],
    ) && pairs[k].0 <= a && (pairs[k].0 == a ==> pairs[k].1 < b + 1) by {
        if k < old_quotes.len() {
            assert(pairs[k] == old_pairs[k]);
        }
    }
    assert forall|k: int, l: int| 0 <= k < l < quotes.len() implies #[trigger] pairs[k]
        != #[trigger] pairs[l] by {
        assert(pairs[k] == old_pairs[k]);
        if l < old_quotes.len() {
            assert(pairs[l] == old_pairs[l]);
        }
    }
    assert forall|x: int, y: int|
        0 <= x <= a && 0 <= y < sides.len() && (x == a ==> y < b + 1) && pair_quotable(
            sides,
            x,
            y,
        ) implies exists|k: int| 0 <= k < pairs.len() && #[trigger] pairs[k] == (x, y) by {
        if x == a && y == b {
            assert(pairs[pairs.len() - 1] == (x, y));
        } else {
            let k = choose|k: int| 0 <= k < old_pairs.len() && #[trigger] old_pairs[k] == (x, y);
            assert(pairs[k] == old_pairs[k]);
        }
    }
}

} // verus!
