use vstd::prelude::*;

use crate::table::MarketKey;

verus! {

// The market data models are generic over the type `P` of prices and
// amounts, so that the logic over them holds whatever number type the
// feeds deliver.

/// Market data received from connectors.
#[derive(Debug, Clone, PartialEq)]
pub struct MarketData<P> {
    pub exchange: String,
    pub symbol: String,
    pub timestamp: u64,
    pub data_type: MarketDataType,
    pub data: MarketDataValue<P>,
}

#[derive(Debug, Clone, Copy, PartialEq, Eq, Structural)]
pub enum MarketDataType {
    OrderBook,
    Trade,
    Ticker,
    Candle,
}

#[derive(Debug, Clone, PartialEq)]
pub enum MarketDataValue<P> {
    OrderBook(OrderBookData<P>),
    Trade(TradeData<P>),
    Ticker(TickerData<P>),
    Candle(CandleData<P>),
}

/// Order book data; the best bid and the best ask come first.
#[derive(Debug, Clone, PartialEq)]
pub struct OrderBookData<P> {
    pub bids: Vec<PriceLevel<P>>,
    pub asks: Vec<PriceLevel<P>>,
    pub sequence: Option<u64>,
}

#[derive(Debug, Clone, Copy, PartialEq)]
pub struct PriceLevel<P> {
    pub price: P,
    pub amount: P,
}

#[derive(Debug, Clone, PartialEq)]
pub struct TradeData<P> {
    pub id: String,
    pub price: P,
    pub amount: P,
    pub side: TradeSide,
}

#[derive(Debug, Clone, Copy, PartialEq, Eq, Structural)]
pub enum TradeSide {
    Buy,
    Sell,
}

#[derive(Debug, Clone, Copy, PartialEq)]
pub struct TickerData<P> {
    pub bid: P,
    pub ask: P,
    pub last: P,
    pub volume: P,
}

#[derive(Debug, Clone, PartialEq)]
pub struct CandleData<P> {
    pub open: P,
    pub high: P,
    pub low: P,
    pub close: P,
    pub volume: P,
    pub interval: String,
}

/// Market data after its prices were normalized.
#[derive(Debug, Clone, PartialEq)]
pub struct NormalizedData<P> {
    pub exchange: String,
    pub symbol: String,
    pub timestamp: u64,
    pub data_type: MarketDataType,
    pub normalized_value: NormalizedValue<P>,
}

#[derive(Debug, Clone, PartialEq)]
pub enum NormalizedValue<P> {
    OrderBook(OrderBookData<P>),
    Trade(TradeData<P>),
    Ticker(TickerData<P>),
    Candle(CandleData<P>),
}

/// A trading opportunity.
#[derive(Debug, Clone, PartialEq)]
pub struct Opportunity<P> {
    pub opportunity_type: OpportunityType,
    pub timestamp: u64,
    pub symbols: Vec<String>,
    pub exchanges: Vec<String>,
    pub potential_profit: P,
    pub details: String,
}

#[derive(Debug, Clone, PartialEq, Eq)]
pub enum OpportunityType {
    Arbitrage,
    Spread,
    Trend,
    Other(String),
}

/// The state of the markets at one moment: the latest order book and
/// ticker of each (exchange, symbol).
#[derive(Debug, Clone, PartialEq)]
pub struct MarketSnapshot<P> {
    pub timestamp: u64,
    pub orderbooks: Vec<(MarketKey, OrderBookData<P>)>,
    pub tickers: Vec<(MarketKey, TickerData<P>)>,
}

impl<P: Copy> OrderBookData<P> {
    /// A copy of the book.
    pub fn duplicate(&self) -> (copy: Self)
        ensures
            copy.bids@ == self.bids@,
            copy.asks@ == self.asks@,
            copy.sequence == self.sequence,
    {
        OrderBookData {
            bids: copy_levels(&self.bids),
            asks: copy_levels(&self.asks),
            sequence: self.sequence,
        }
    }
}

/// Two market values that are the same, their level lists compared by
/// their contents.
pub open spec fn same_value<P>(a: MarketDataValue<P>, b: MarketDataValue<P>) -> bool {
    match (a, b) {
        (MarketDataValue::OrderBook(x), MarketDataValue::OrderBook(y)) => x.bids@ == y.bids@
            && x.asks@ == y.asks@ && x.sequence == y.sequence,
        (MarketDataValue::Trade(x), MarketDataValue::Trade(y)) => x == y,
        (MarketDataValue::Ticker(x), MarketDataValue::Ticker(y)) => x == y,
        (MarketDataValue::Candle(x), MarketDataValue::Candle(y)) => x == y,
        _ => false,
    }
}

/// Two pieces of market data that are the same.
pub open spec fn same_market_data<P>(a: MarketData<P>, b: MarketData<P>) -> bool {
    &&& a.exchange == b.exchange
    &&& a.symbol == b.symbol
    &&& a.timestamp == b.timestamp
    &&& a.data_type == b.data_type
    &&& same_value(a.data, b.data)
}

impl<P: Copy> MarketData<P> {
    /// A copy of the data.
    pub fn duplicate(&self) -> (copy: Self)
        ensures
            same_market_data(copy, *self),
    {
        let data = match &self.data {
            MarketDataValue::OrderBook(b) => MarketDataValue::OrderBook(b.duplicate()),
            MarketDataValue::Trade(t) => MarketDataValue::Trade(
                TradeData { id: t.id.clone(), price: t.price, amount: t.amount, side: t.side },
            ),
            MarketDataValue::Ticker(t) => MarketDataValue::Ticker(
                TickerData { bid: t.bid, ask: t.ask, last: t.last, volume: t.volume },
            ),
            MarketDataValue::Candle(c) => MarketDataValue::Candle(
                CandleData {
                    open: c.open,
                    high: c.high,
                    low: c.low,
                    close: c.close,
                    volume: c.volume,
                    interval: c.interval.clone(),
                },
            ),
        };
        MarketData {
            exchange: self.exchange.clone(),
            symbol: self.symbol.clone(),
            timestamp: self.timestamp,
            data_type: self.data_type,
            data,
        }
    }
}

/// A copy of a list of price levels.
pub fn copy_levels<P: Copy>(levels: &Vec<PriceLevel<P>>) -> (copy: Vec<PriceLevel<P>>)
    ensures
        copy@ == levels@,
{
    let mut copy: Vec<PriceLevel<P>> = Vec::new();
    let mut i: usize = 0;
    while i < levels.len()
        invariant
            i <= levels@.len(),
            copy@ == levels@.subrange(0, i as int),
        decreases levels@.len() - i,
    {
        let level = PriceLevel { price: levels[i].price, amount: levels[i].amount };
        copy.push(level);
        i = i + 1;
        assert(copy@ =~= levels@.subrange(0, i as int));
    }
    assert(levels@.subrange(0, i as int) =~= levels@);
    copy
}

/// The price of the first level, if there is one.
pub open spec fn first_price<P>(levels: Seq<PriceLevel<P>>) -> Option<P> {
    if levels.len() > 0 {
        Some(levels[0].price)
    } else {
        None
    }
}

/// The first price of a list of levels is the price of its level at
/// position zero; an empty list has none.
pub proof fn lemma_first_price<P>(levels: Seq<PriceLevel<P>>)
    ensures
        levels.len() > 0 ==> first_price(levels) == Some(levels[0].price),
        levels.len() == 0 ==> first_price(levels) is None,
{
}

} // verus!
