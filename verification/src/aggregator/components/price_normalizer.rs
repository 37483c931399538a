use vstd::prelude::*;
use vstd::string::*;

use crate::aggregator::models::{
    CandleData, MarketData, MarketDataValue, NormalizedData, NormalizedValue, OrderBookData,
    PriceLevel, TickerData, TradeData,
};
use crate::error::OrchestratorError;
use crate::table::Table;

verus! {

/// What `str::to_lowercase` makes of a string.
pub uninterp spec fn lowercase(s: Seq<char>) -> Seq<char>;

/// Whether every character of a string is ASCII.
pub open spec fn is_ascii_text(s: Seq<char>) -> bool {
    forall|i: int| 0 <= i < s.len() ==> (#[trigger] s[i]) as u32 <= 0x7f
}

/// The ASCII lower case of a character: `A` to `Z` become `a` to `z`, every
/// other character stays.
pub open spec fn ascii_lower_char(c: char) -> char {
    if 'A' <= c <= 'Z' {
        ((c as u32) + 32) as char
    } else {
        c
    }
}

/// A string with each character in ASCII lower case.
pub open spec fn ascii_lowercase(s: Seq<char>) -> Seq<char> {
    s.map_values(|c: char| ascii_lower_char(c))
}

/// Calls `str::to_lowercase` of std; its result is named `lowercase`, a
/// function of the string alone (Unicode lower-casing, independent of locale).
/// On ASCII text, Unicode lower-casing maps `A` to `Z` to `a` to `z` and
/// keeps every other character, as the documentation's example shows; of
/// other text only the name is stated.
#[verifier::external_body]
fn to_lowercase(s: &str) -> (lower: String)
    ensures
        lower@ == lowercase(s@),
        is_ascii_text(s@) ==> lower@ == ascii_lowercase(s@),
{
    s.to_lowercase()
}

/// The number of decimals used for a symbol that its exchange does not list.
pub const DEFAULT_PRECISION: usize = 2;

/// `y` is what `round` gives for `x` at `precision` decimals.
pub open spec fn rounded<P, F: Fn(P, usize) -> P>(round: F, precision: usize, x: P, y: P) -> bool {
    call_ensures(round, (x, precision), y)
}

/// The levels keep their amounts and have their prices rounded.
pub open spec fn levels_rounded<P, F: Fn(P, usize) -> P>(
    round: F,
    precision: usize,
    levels: Seq<PriceLevel<P>>,
    out: Seq<PriceLevel<P>>,
) -> bool {
    &&& out.len() == levels.len()
    &&& forall|i: int|
        0 <= i < levels.len() ==> (#[trigger] out[i]).amount == levels[i].amount && rounded(
            round,
            precision,
            levels[i].price,
            out[i].price,
        )
}

/// The normalized value is the market value with its prices rounded: the
/// prices of the order book levels; the trade price; the bid, ask and last
/// price of a ticker; the open, high, low and close of a candle. Amounts,
/// volumes and every other field are kept.
pub open spec fn value_normalized<P, F: Fn(P, usize) -> P>(
    round: F,
    precision: usize,
    value: MarketDataValue<P>,
    out: NormalizedValue<P>,
) -> bool {
    match value {
        MarketDataValue::OrderBook(b) => match out {
            NormalizedValue::OrderBook(n) => levels_rounded(round, precision, b.bids@, n.bids@)
                && levels_rounded(round, precision, b.asks@, n.asks@) && n.sequence == b.sequence,
            _ => false,
        },
        MarketDataValue::Trade(t) => match out {
            NormalizedValue::Trade(n) => n.id == t.id && n.amount == t.amount && n.side == t.side
                && rounded(round, precision, t.price, n.price),
            _ => false,
        },
        MarketDataValue::Ticker(t) => match out {
            NormalizedValue::Ticker(n) => rounded(round, precision, t.bid, n.bid) && rounded(
                round,
                precision,
                t.ask,
                n.ask,
            ) && rounded(round, precision, t.last, n.last) && n.volume == t.volume,
            _ => false,
        },
        MarketDataValue::Candle(c) => match out {
            NormalizedValue::Candle(n) => rounded(round, precision, c.open, n.open) && rounded(
                round,
                precision,
                c.high,
                n.high,
            ) && rounded(round, precision, c.low, n.low) && rounded(round, precision, c.close, n.close)
                && n.volume == c.volume && n.interval == c.interval,
            _ => false,
        },
    }
}

/// `out` is `data` normalized at `precision` decimals.
pub open spec fn normalized<P, F: Fn(P, usize) -> P>(
    round: F,
    precision: usize,
    data: MarketData<P>,
    out: NormalizedData<P>,
) -> bool {
    &&& out.exchange == data.exchange
    &&& out.symbol == data.symbol
    &&& out.timestamp == data.timestamp
    &&& out.data_type == data.data_type
    &&& value_normalized(round, precision, data.data, out.normalized_value)
}

/// The precisions an exchange's prices are given in, per symbol.
pub struct ExchangeConfig {
    precision: Table<String, usize>,
}

impl ExchangeConfig {
    pub closed spec fn wf(&self) -> bool {
        self.precision.wf()
    }

    pub closed spec fn precisions(&self) -> Map<Seq<char>, usize> {
        self.precision@
    }
}

/// The precisions that the built-in exchange configurations give: two
/// decimals for BTC-USD and for ETH-USD.
pub open spec fn default_precisions() -> Map<Seq<char>, usize> {
    Map::empty().insert("BTC-USD"@, 2usize).insert("ETH-USD"@, 2usize)
}

/// The precision used for `symbol` under a configuration's precisions.
pub open spec fn precision_in(precisions: Map<Seq<char>, usize>, symbol: Seq<char>) -> usize {
    if precisions.contains_key(symbol) {
        precisions[symbol]
    } else {
        DEFAULT_PRECISION
    }
}

/// Normalizing an order book keeps its depth: the normalized book has as
/// many bids and as many asks as the original, each level at the same
/// position keeps its amount, and its price is what `round` gives for the
/// original price; the sequence number is kept.
pub proof fn lemma_order_book_depth_kept<P, F: Fn(P, usize) -> P>(
    round: F,
    precision: usize,
    data: MarketData<P>,
    book: OrderBookData<P>,
    out: NormalizedData<P>,
)
    requires
        data.data == MarketDataValue::OrderBook(book),
        normalized(round, precision, data, out),
    ensures
        out.normalized_value is OrderBook,
        out.normalized_value->OrderBook_0.bids@.len() == book.bids@.len(),
        out.normalized_value->OrderBook_0.asks@.len() == book.asks@.len(),
        out.normalized_value->OrderBook_0.sequence == book.sequence,
        forall|i: int|
            0 <= i < book.bids@.len() ==> (#[trigger] out.normalized_value->OrderBook_0.bids@[i]).amount
                == book.bids@[i].amount && call_ensures(
                round,
                (book.bids@[i].price, precision),
                out.normalized_value->OrderBook_0.bids@[i].price,
            ),
        forall|i: int|
            0 <= i < book.asks@.len() ==> (#[trigger] out.normalized_value->OrderBook_0.asks@[i]).amount
                == book.asks@[i].amount && call_ensures(
                round,
                (book.asks@[i].price, precision),
                out.normalized_value->OrderBook_0.asks@[i].price,
            ),
{
}

/// The configurations with those of binance and coinbase installed.
pub open spec fn with_built_in_exchanges(
    configs: Map<Seq<char>, Map<Seq<char>, usize>>,
) -> Map<Seq<char>, Map<Seq<char>, usize>> {
    configs.insert("binance"@, default_precisions()).insert("coinbase"@, default_precisions())
}

/// Installing the built-in exchanges twice is installing them once; from
/// no configuration, or from what an earlier installation left, exactly
/// binance and coinbase are configured, and each symbol of theirs is given
/// two decimals.
pub proof fn lemma_built_in_exchanges(configs: Map<Seq<char>, Map<Seq<char>, usize>>)
    ensures
        with_built_in_exchanges(with_built_in_exchanges(configs)) == with_built_in_exchanges(configs),
        configs.dom().subset_of(set!["binance"@, "coinbase"@]) ==> with_built_in_exchanges(configs).dom()
            == set!["binance"@, "coinbase"@],
        forall|exchange: Seq<char>, symbol: Seq<char>|
            #![trigger with_built_in_exchanges(configs)[exchange], precision_in(default_precisions(), symbol)]
            exchange == "binance"@ || exchange == "coinbase"@ ==> with_built_in_exchanges(configs)[exchange]
                == default_precisions() && precision_in(default_precisions(), symbol) == DEFAULT_PRECISION,
{
    assert(with_built_in_exchanges(with_built_in_exchanges(configs)) =~= with_built_in_exchanges(configs));
    if configs.dom().subset_of(set!["binance"@, "coinbase"@]) {
        assert(with_built_in_exchanges(configs).dom() =~= set!["binance"@, "coinbase"@]);
    }
}

/// Rounds market prices to each exchange's precision.
pub struct PriceNormalizer {
    exchange_configs: Table<String, ExchangeConfig>,
    initialized: bool,
}

impl PriceNormalizer {
    pub closed spec fn wf(&self) -> bool {
        &&& self.exchange_configs.wf()
        &&& forall|k: Seq<char>| #[trigger]
            self.exchange_configs@.contains_key(k) ==> self.exchange_configs@[k].wf()
    }

    /// The precisions configured for each exchange, by its lower-case name.
    pub closed spec fn configs(&self) -> Map<Seq<char>, Map<Seq<char>, usize>> {
        self.exchange_configs@.map_values(|c: ExchangeConfig| c.precisions())
    }

    pub closed spec fn is_initialized(&self) -> bool {
        self.initialized
    }

    pub fn new() -> (normalizer: Self)
        ensures
            normalizer.wf(),
            normalizer.configs() == Map::<Seq<char>, Map<Seq<char>, usize>>::empty(),
            !normalizer.is_initialized(),
    {
        let normalizer = PriceNormalizer { exchange_configs: Table::new(), initialized: false };
        assert(normalizer.configs() =~= Map::<Seq<char>, Map<Seq<char>, usize>>::empty());
        normalizer
    }

    fn default_config() -> (config: ExchangeConfig)
        ensures
            config.wf(),
            config.precisions() == default_precisions(),
    {
        let mut precision: Table<String, usize> = Table::new();
        precision.insert("BTC-USD".to_owned(), 2);
        precision.insert("ETH-USD".to_owned(), 2);
        ExchangeConfig { precision }
    }

    /// Installs the configurations of binance and coinbase.
    pub fn initialize(&mut self) -> (result: Result<(), OrchestratorError>)
        requires
            old(self).wf(),
        ensures
            final(self).wf(),
            result is Ok,
            final(self).is_initialized(),
            final(self).configs() == with_built_in_exchanges(old(self).configs()),
    {
        let ghost before = self.configs();
        let binance = Self::default_config();
        self.exchange_configs.insert("binance".to_owned(), binance);
        let coinbase = Self::default_config();
        self.exchange_configs.insert("coinbase".to_owned(), coinbase);
        self.initialized = true;
        assert(self.configs() =~= before.insert("binance"@, default_precisions()).insert(
            "coinbase"@,
            default_precisions(),
        ));
        Ok(())
    }

    pub fn shutdown(&mut self) -> (result: Result<(), OrchestratorError>)
        requires
            old(self).wf(),
        ensures
            final(self).wf(),
            result is Ok,
            !final(self).is_initialized(),
            final(self).configs() == old(self).configs(),
    {
        self.initialized = false;
        Ok(())
    }

    /// Normalizes `market_data` under the configuration stored for
    /// `exchange_key`, which is the lower-case name of its exchange.
    pub fn normalize_with_key<P: Copy, F: Fn(P, usize) -> P>(
        &self,
        exchange_key: &String,
        market_data: MarketData<P>,
        round: F,
    ) -> (result: Result<NormalizedData<P>, OrchestratorError>)
        requires
            self.wf(),
            forall|x: P, n: usize| round.requires((x, n)),
        ensures
            !self.is_initialized() ==> result == Err::<NormalizedData<P>, OrchestratorError>(
                OrchestratorError::NotInitialized("PriceNormalizer"),
            ),
            self.is_initialized() && !self.configs().contains_key(exchange_key@) ==> (result matches Err(
                OrchestratorError::InvalidConfiguration(message),
            ) && message@ == "No configuration for exchange: "@ + market_data.exchange@),
            self.is_initialized() && self.configs().contains_key(exchange_key@) ==> (result matches Ok(
                out,
            ) && normalized(
                round,
                precision_in(self.configs()[exchange_key@], market_data.symbol@),
                market_data,
                out,
            )),
    {
        if !self.initialized {
            return Err(OrchestratorError::NotInitialized("PriceNormalizer"));
        }
        let exchange_config = match self.exchange_configs.get(exchange_key) {
            Some(c) => c,
            None => {
                let mut message = "No configuration for exchange: ".to_owned();
                message.append(market_data.exchange.as_str());
                return Err(OrchestratorError::InvalidConfiguration(message));
            },
        };
        let precision = match exchange_config.precision.get(&market_data.symbol) {
            Some(p) => *p,
            None => DEFAULT_PRECISION,
        };
        assert(precision == precision_in(self.configs()[exchange_key@], market_data.symbol@));
        let normalized_value = match market_data.data {
            MarketDataValue::OrderBook(orderbook) => NormalizedValue::OrderBook(
                normalize_orderbook(&orderbook, precision, &round),
            ),
            MarketDataValue::Trade(trade) => NormalizedValue::Trade(
                normalize_trade(trade, precision, &round),
            ),
            MarketDataValue::Ticker(ticker) => NormalizedValue::Ticker(
                normalize_ticker(&ticker, precision, &round),
            ),
            MarketDataValue::Candle(candle) => NormalizedValue::Candle(
                normalize_candle(candle, precision, &round),
            ),
        };
        Ok(
            NormalizedData {
                exchange: market_data.exchange,
                symbol: market_data.symbol,
                timestamp: market_data.timestamp,
                data_type: market_data.data_type,
                normalized_value,
            },
        )
    }

    /// Rounds the prices of `market_data` to the precision that its
    /// exchange (by lower-case name) configures for its symbol.
    pub fn normalize<P: Copy, F: Fn(P, usize) -> P>(
        &self,
        market_data: MarketData<P>,
        round: F,
    ) -> (result: Result<NormalizedData<P>, OrchestratorError>)
        requires
            self.wf(),
            forall|x: P, n: usize| round.requires((x, n)),
        ensures
            !self.is_initialized() ==> result == Err::<NormalizedData<P>, OrchestratorError>(
                OrchestratorError::NotInitialized("PriceNormalizer"),
            ),
            self.is_initialized() && !self.configs().contains_key(lowercase(market_data.exchange@))
                ==> (result matches Err(OrchestratorError::InvalidConfiguration(message))
                && message@ == "No configuration for exchange: "@ + market_data.exchange@),
            self.is_initialized() && self.configs().contains_key(lowercase(market_data.exchange@))
                ==> (result matches Ok(out) && normalized(
                round,
                precision_in(
                    self.configs()[lowercase(market_data.exchange@)],
                    market_data.symbol@,
                ),
                market_data,
                out,
            )),
            is_ascii_text(market_data.exchange@) ==> lowercase(market_data.exchange@) == ascii_lowercase(
                market_data.exchange@,
            ),
    {
        let key = to_lowercase(market_data.exchange.as_str());
        self.normalize_with_key(&key, market_data, round)
    }
}

impl Default for PriceNormalizer {
    fn default() -> (normalizer: Self)
        ensures
            normalizer.wf(),
            normalizer.configs() == Map::<Seq<char>, Map<Seq<char>, usize>>::empty(),
            !normalizer.is_initialized(),
    {
        Self::new()
    }
}

fn round_levels<P: Copy, F: Fn(P, usize) -> P>(
    levels: &Vec<PriceLevel<P>>,
    precision: usize,
    round: &F,
) -> (out: Vec<PriceLevel<P>>)
    requires
        forall|x: P, n: usize| round.requires((x, n)),
    ensures
        levels_rounded(*round, precision, levels@, out@),
{
    let mut out: Vec<PriceLevel<P>> = Vec::new();
    let mut i: usize = 0;
    while i < levels.len()
        invariant
            i <= levels@.len(),
            forall|x: P, n: usize| round.requires((x, n)),
            out@.len() == i,
            forall|j: int|
                0 <= j < i ==> (#[trigger] out@[j]).amount == levels@[j].amount && rounded(
                    *round,
                    precision,
                    levels@[j].price,
                    out@[j].price,
                ),
        decreases levels@.len() - i,
    {
        let price = round(levels[i].price, precision);
        out.push(PriceLevel { price, amount: levels[i].amount });
        i = i + 1;
    }
    out
}

fn normalize_orderbook<P: Copy, F: Fn(P, usize) -> P>(
    orderbook: &OrderBookData<P>,
    precision: usize,
    round: &F,
) -> (out: OrderBookData<P>)
    requires
        forall|x: P, n: usize| round.requires((x, n)),
    ensures
        levels_rounded(*round, precision, orderbook.bids@, out.bids@),
        levels_rounded(*round, precision, orderbook.asks@, out.asks@),
        out.sequence == orderbook.sequence,
{
    OrderBookData {
        bids: round_levels(&orderbook.bids, precision, round),
        asks: round_levels(&orderbook.asks, precision, round),
        sequence: orderbook.sequence,
    }
}

fn normalize_trade<P: Copy, F: Fn(P, usize) -> P>(trade: TradeData<P>, precision: usize, round: &F) -> (out:
    TradeData<P>)
    requires
        forall|x: P, n: usize| round.requires((x, n)),
    ensures
        out.id == trade.id,
        out.amount == trade.amount,
        out.side == trade.side,
        rounded(*round, precision, trade.price, out.price),
{
    let price = round(trade.price, precision);
    TradeData { id: trade.id, price, amount: trade.amount, side: trade.side }
}

fn normalize_ticker<P: Copy, F: Fn(P, usize) -> P>(
    ticker: &TickerData<P>,
    precision: usize,
    round: &F,
) -> (out: TickerData<P>)
    requires
        forall|x: P, n: usize| round.requires((x, n)),
    ensures
        rounded(*round, precision, ticker.bid, out.bid),
        rounded(*round, precision, ticker.ask, out.ask),
        rounded(*round, precision, ticker.last, out.last),
        out.volume == ticker.volume,
{
    TickerData {
        bid: round(ticker.bid, precision),
        ask: round(ticker.ask, precision),
        last: round(ticker.last, precision),
        volume: ticker.volume,
    }
}

fn normalize_candle<P: Copy, F: Fn(P, usize) -> P>(candle: CandleData<P>, precision: usize, round: &F) -> (out:
    CandleData<P>)
    requires
        forall|x: P, n: usize| round.requires((x, n)),
    ensures
        rounded(*round, precision, candle.open, out.open),
        rounded(*round, precision, candle.high, out.high),
        rounded(*round, precision, candle.low, out.low),
        rounded(*round, precision, candle.close, out.close),
        out.volume == candle.volume,
        out.interval == candle.interval,
{
    let open = round(candle.open, precision);
    let high = round(candle.high, precision);
    let low = round(candle.low, precision);
    let close = round(candle.close, precision);
    CandleData { open, high, low, close, volume: candle.volume, interval: candle.interval }
}

} // verus!
