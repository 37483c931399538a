use vstd::prelude::*;

use crate::aggregator::models::{
    MarketData, MarketDataType, MarketDataValue, MarketSnapshot, OrderBookData, TickerData,
};
use crate::error::OrchestratorError;
use crate::table::{entries_map, keys_distinct, MarketKey, Table, TableKey};

verus! {

/// Two books with the same levels and sequence number.
pub open spec fn same_book<P>(a: OrderBookData<P>, b: OrderBookData<P>) -> bool {
    &&& a.bids@ == b.bids@
    &&& a.asks@ == b.asks@
    &&& a.sequence == b.sequence
}

/// A book that is the same as another has, side by side, the same bids, the
/// same asks and the same sequence number.
pub proof fn lemma_same_book_sides<P>(a: OrderBookData<P>, b: OrderBookData<P>)
    requires
        same_book(a, b),
    ensures
        a.bids@ == b.bids@,
        a.asks@ == b.asks@,
        a.sequence == b.sequence,
{
}

/// The books once `market_data` is recorded: an order book replaces the
/// book of its market; other data leaves the books as they are.
pub open spec fn books_after_update<P>(
    books: Map<(Seq<char>, Seq<char>), OrderBookData<P>>,
    market_data: MarketData<P>,
) -> Map<(Seq<char>, Seq<char>), OrderBookData<P>> {
    if market_data.data_type == MarketDataType::OrderBook && market_data.data is OrderBook {
        books.insert((market_data.exchange@, market_data.symbol@), market_data.data->OrderBook_0)
    } else {
        books
    }
}

/// After an order book update, the book of its market is the one received,
/// and every other market keeps its book.
pub proof fn lemma_update_then_lookup<P>(
    books: Map<(Seq<char>, Seq<char>), OrderBookData<P>>,
    market_data: MarketData<P>,
    other: (Seq<char>, Seq<char>),
)
    requires
        market_data.data_type == MarketDataType::OrderBook,
        market_data.data is OrderBook,
        other != (market_data.exchange@, market_data.symbol@),
    ensures
        books_after_update(books, market_data).contains_key((market_data.exchange@, market_data.symbol@)),
        books_after_update(books, market_data)[(market_data.exchange@, market_data.symbol@)]
            == market_data.data->OrderBook_0,
        books_after_update(books, market_data).contains_key(other) == books.contains_key(other),
        books.contains_key(other) ==> books_after_update(books, market_data)[other] == books[other],
{
}

/// Data other than order books leaves the books as they are.
pub proof fn lemma_other_data_ignored<P>(
    books: Map<(Seq<char>, Seq<char>), OrderBookData<P>>,
    market_data: MarketData<P>,
)
    requires
        market_data.data_type != MarketDataType::OrderBook || !(market_data.data is OrderBook),
    ensures
        books_after_update(books, market_data) == books,
{
}

/// Keeps the latest order book of each (exchange, symbol).
pub struct OrderBookManager<P> {
    orderbooks: Table<MarketKey, OrderBookData<P>>,
    initialized: bool,
}

impl<P: Copy> OrderBookManager<P> {
    pub closed spec fn wf(&self) -> bool {
        self.orderbooks.wf()
    }

    /// The latest book of each (exchange, symbol).
    pub closed spec fn books(&self) -> Map<(Seq<char>, Seq<char>), OrderBookData<P>> {
        self.orderbooks@
    }

    pub closed spec fn is_initialized(&self) -> bool {
        self.initialized
    }

    pub fn new() -> (manager: Self)
        ensures
            manager.wf(),
            manager.books() == Map::<(Seq<char>, Seq<char>), OrderBookData<P>>::empty(),
            !manager.is_initialized(),
    {
        OrderBookManager { orderbooks: Table::new(), initialized: false }
    }

    pub fn initialize(&mut self) -> (result: Result<(), OrchestratorError>)
        requires
            old(self).wf(),
        ensures
            final(self).wf(),
            result is Ok,
            final(self).is_initialized(),
            final(self).books() == old(self).books(),
    {
        self.initialized = true;
        Ok(())
    }

    pub fn shutdown(&mut self) -> (result: Result<(), OrchestratorError>)
        requires
            old(self).wf(),
        ensures
            final(self).wf(),
            result is Ok,
            !final(self).is_initialized(),
            final(self).books() == old(self).books(),
    {
        self.initialized = false;
        Ok(())
    }

    /// Records an order book update; data of other kinds is ignored.
    pub fn update(&mut self, market_data: MarketData<P>) -> (result: Result<(), OrchestratorError>)
        requires
            old(self).wf(),
        ensures
            final(self).wf(),
            final(self).is_initialized() == old(self).is_initialized(),
            !old(self).is_initialized() ==> result == Err::<(), OrchestratorError>(
                OrchestratorError::NotInitialized("OrderBookManager"),
            ) && final(self).books() == old(self).books(),
            old(self).is_initialized() ==> result is Ok && final(self).books() == books_after_update(
                old(self).books(),
                market_data,
            ),
    {
        if !self.initialized {
            return Err(OrchestratorError::NotInitialized("OrderBookManager"));
        }
        if market_data.data_type != MarketDataType::OrderBook {
            return Ok(());
        }
        match market_data.data {
            MarketDataValue::OrderBook(orderbook_data) => {
                let key = MarketKey { exchange: market_data.exchange, symbol: market_data.symbol };
                self.orderbooks.insert(key, orderbook_data);
                Ok(())
            },
            _ => Ok(()),
        }
    }

    /// The latest book of `symbol` on `exchange`.
    pub fn get_orderbook(&self, exchange: &str, symbol: &str) -> (book: Option<&OrderBookData<P>>)
        requires
            self.wf(),
        ensures
            match book {
                Some(b) => self.books().contains_key((exchange@, symbol@)) && *b == self.books()[(
                    exchange@,
                    symbol@,
                )],
                None => !self.books().contains_key((exchange@, symbol@)),
            },
    {
        let key = MarketKey { exchange: exchange.to_owned(), symbol: symbol.to_owned() };
        self.orderbooks.get(&key)
    }

    /// A copy of every latest book, taken at `timestamp`; no tickers.
    pub fn create_snapshot(&self, timestamp: u64) -> (result: Result<
        MarketSnapshot<P>,
        OrchestratorError,
    >)
        requires
            self.wf(),
        ensures
            !self.is_initialized() ==> result == Err::<MarketSnapshot<P>, OrchestratorError>(
                OrchestratorError::NotInitialized("OrderBookManager"),
            ),
            self.is_initialized() ==> result is Ok,
            result matches Ok(snapshot) ==> {
                &&& snapshot.timestamp == timestamp
                &&& snapshot.tickers@.len() == 0
                &&& keys_distinct(snapshot.orderbooks@)
                &&& forall|k: (Seq<char>, Seq<char>)|
                    entries_map(snapshot.orderbooks@).contains_key(k)
                        == #[trigger] self.books().contains_key(k)
                &&& forall|k: (Seq<char>, Seq<char>)| #[trigger]
                    self.books().contains_key(k) ==> same_book(
                        entries_map(snapshot.orderbooks@)[k],
                        self.books()[k],
                    )
            },
    {
        if !self.initialized {
            return Err(OrchestratorError::NotInitialized("OrderBookManager"));
        }
        let entries = self.orderbooks.entries();
        let mut orderbooks: Vec<(MarketKey, OrderBookData<P>)> = Vec::new();
        let mut i: usize = 0;
        while i < entries.len()
            invariant
                i <= entries@.len(),
                entries@ == self.orderbooks.spec_entries(),
                orderbooks@.len() == i,
                forall|j: int|
                    0 <= j < i ==> (#[trigger] orderbooks@[j]).0.key_view() == entries@[j].0.key_view()
                        && same_book(orderbooks@[j].1, entries@[j].1),
            decreases entries@.len() - i,
        {
            let key = MarketKey {
                exchange: entries[i].0.exchange.clone(),
                symbol: entries[i].0.symbol.clone(),
            };
            let book = entries[i].1.duplicate();
            orderbooks.push((key, book));
            i = i + 1;
        }
        proof {
            self.orderbooks.lemma_entries_are_view();
            lemma_copied_entries(orderbooks@, entries@);
        }
        let tickers: Vec<(MarketKey, TickerData<P>)> = Vec::new();
        Ok(MarketSnapshot { timestamp, orderbooks, tickers })
    }
}

impl<P: Copy> Default for OrderBookManager<P> {
    fn default() -> (manager: Self)
        ensures
            manager.wf(),
            manager.books() == Map::<(Seq<char>, Seq<char>), OrderBookData<P>>::empty(),
            !manager.is_initialized(),
    {
        Self::new()
    }
}

/// Entries copied one by one stand for the same books under the same keys.
proof fn lemma_copied_entries<P>(
    copy: Seq<(MarketKey, OrderBookData<P>)>,
    original: Seq<(MarketKey, OrderBookData<P>)>,
)
    requires
        keys_distinct(original),
        copy.len() == original.len(),
        forall|j: int|
            0 <= j < copy.len() ==> (#[trigger] copy[j]).0.key_view() == original[j].0.key_view()
                && same_book(copy[j].1, original[j].1),
    ensures
        keys_distinct(copy),
        forall|k: (Seq<char>, Seq<char>)|
            entries_map(copy).contains_key(k) == #[trigger] entries_map(original).contains_key(k),
        forall|k: (Seq<char>, Seq<char>)| #[trigger]
            entries_map(original).contains_key(k) ==> same_book(
                entries_map(copy)[k],
                entries_map(original)[k],
            ),
    decreases copy.len(),
{
    assert(keys_distinct(copy)) by {
        assert forall|a: int, b: int|
            0 <= a < copy.len() && 0 <= b < copy.len() && a != b implies #[trigger] copy[a].0.key_view()
            != #[trigger] copy[b].0.key_view() by {
            assert(copy[a].0.key_view() == original[a].0.key_view());
            assert(copy[b].0.key_view() == original[b].0.key_view());
        }
    }
    if copy.len() > 0 {
        let c = copy.drop_last();
        let o = original.drop_last();
        assert(keys_distinct(o)) by {
            assert forall|a: int, b: int|
                0 <= a < o.len() && 0 <= b < o.len() && a != b implies #[trigger] o[a].0.key_view()
                != #[trigger] o[b].0.key_view() by {
                assert(o[a] == original[a] && o[b] == original[b]);
            }
        }
        assert forall|j: int| 0 <= j < c.len() implies (#[trigger] c[j]).0.key_view()
            == o[j].0.key_view() && same_book(c[j].1, o[j].1) by {
            assert(c[j] == copy[j] && o[j] == original[j]);
        }
        lemma_copied_entries(c, o);
        let kc = copy.last().0.key_view();
        assert(kc == original.last().0.key_view());
        assert(same_book(copy.last().1, original.last().1));
        assert(entries_map(copy) == entries_map(c).insert(kc, copy.last().1));
        assert(entries_map(original) == entries_map(o).insert(kc, original.last().1));
        assert forall|k: (Seq<char>, Seq<char>)|
            entries_map(copy).contains_key(k) == #[trigger] entries_map(original).contains_key(k) by {
            if k != kc {
                assert(entries_map(c).contains_key(k) == entries_map(o).contains_key(k));
            }
        }
        assert forall|k: (Seq<char>, Seq<char>)| #[trigger]
            entries_map(original).contains_key(k) implies same_book(
                entries_map(copy)[k],
                entries_map(original)[k],
            ) by {
            if k != kc {
                assert(entries_map(o).contains_key(k));
            }
        }
    }
}

} // verus!
