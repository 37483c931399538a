use kimiha::aggregator::components::opportunity_detector::{Detection, OpportunityDetector};
use kimiha::aggregator::components::orderbook_manager::OrderBookManager;
use kimiha::aggregator::components::price_normalizer::PriceNormalizer;
use kimiha::aggregator::models::{
    CandleData, MarketData, MarketDataType, MarketDataValue, NormalizedData, NormalizedValue,
    OrderBookData, PriceLevel, TickerData, TradeData, TradeSide,
};
use kimiha::aggregator::{snapshot_due, AggregatorCore, Execution};
use kimiha::error::OrchestratorError;

fn round(value: f64, precision: usize) -> f64 {
    let factor = 10.0_f64.powi(precision as i32);
    (value * factor).round() / factor
}

fn book(bids: &[(f64, f64)], asks: &[(f64, f64)]) -> OrderBookData<f64> {
    OrderBookData {
        bids: bids.iter().map(|&(price, amount)| PriceLevel { price, amount }).collect(),
        asks: asks.iter().map(|&(price, amount)| PriceLevel { price, amount }).collect(),
        sequence: Some(1),
    }
}

fn book_data(exchange: &str, symbol: &str, bids: &[(f64, f64)], asks: &[(f64, f64)]) -> MarketData<f64> {
    MarketData {
        exchange: exchange.to_string(),
        symbol: symbol.to_string(),
        timestamp: 5,
        data_type: MarketDataType::OrderBook,
        data: MarketDataValue::OrderBook(book(bids, asks)),
    }
}

fn normalized_book(exchange: &str, symbol: &str, bid: f64, ask: f64) -> NormalizedData<f64> {
    NormalizedData {
        exchange: exchange.to_string(),
        symbol: symbol.to_string(),
        timestamp: 5,
        data_type: MarketDataType::OrderBook,
        normalized_value: NormalizedValue::OrderBook(book(&[(bid, 1.0)], &[(ask, 1.0)])),
    }
}

#[test]
fn orderbook_manager_requires_initialization() {
    let mut manager: OrderBookManager<f64> = OrderBookManager::new();
    assert_eq!(
        manager.update(book_data("binance", "BTC-USD", &[(1.0, 1.0)], &[])),
        Err(OrchestratorError::NotInitialized("OrderBookManager"))
    );
    assert_eq!(manager.create_snapshot(3), Err(OrchestratorError::NotInitialized("OrderBookManager")));
}

#[test]
fn orderbook_manager_keeps_latest_book() {
    let mut manager: OrderBookManager<f64> = OrderBookManager::new();
    manager.initialize().unwrap();
    manager.update(book_data("binance", "BTC-USD", &[(1.0, 1.0)], &[])).unwrap();
    manager.update(book_data("binance", "BTC-USD", &[(2.0, 1.0)], &[])).unwrap();
    manager.update(book_data("coinbase", "BTC-USD", &[(3.0, 1.0)], &[])).unwrap();
    assert_eq!(manager.get_orderbook("binance", "BTC-USD").unwrap().bids[0].price, 2.0);
    assert_eq!(manager.get_orderbook("coinbase", "BTC-USD").unwrap().bids[0].price, 3.0);
    assert!(manager.get_orderbook("binance", "ETH-USD").is_none());

    let snapshot = manager.create_snapshot(99).unwrap();
    assert_eq!(snapshot.timestamp, 99);
    assert_eq!(snapshot.orderbooks.len(), 2);
    assert!(snapshot.tickers.is_empty());
}

#[test]
fn orderbook_manager_ignores_other_data() {
    let mut manager: OrderBookManager<f64> = OrderBookManager::new();
    manager.initialize().unwrap();
    let ticker = MarketData {
        exchange: "binance".to_string(),
        symbol: "BTC-USD".to_string(),
        timestamp: 1,
        data_type: MarketDataType::Ticker,
        data: MarketDataValue::Ticker(TickerData { bid: 1.0, ask: 2.0, last: 1.5, volume: 9.0 }),
    };
    assert_eq!(manager.update(ticker), Ok(()));
    assert!(manager.get_orderbook("binance", "BTC-USD").is_none());
    let mut mislabeled = book_data("binance", "BTC-USD", &[(1.0, 1.0)], &[]);
    mislabeled.data_type = MarketDataType::Trade;
    assert_eq!(manager.update(mislabeled), Ok(()));
    assert!(manager.get_orderbook("binance", "BTC-USD").is_none());
}

#[test]
fn normalizer_requires_initialization_and_configuration() {
    let mut normalizer = PriceNormalizer::new();
    assert_eq!(
        normalizer.normalize(book_data("binance", "BTC-USD", &[], &[]), round),
        Err(OrchestratorError::NotInitialized("PriceNormalizer"))
    );
    normalizer.initialize().unwrap();
    assert_eq!(
        normalizer.normalize(book_data("kraken", "BTC-USD", &[], &[]), round),
        Err(OrchestratorError::InvalidConfiguration(
            "No configuration for exchange: kraken".to_string()
        ))
    );
}

#[test]
fn normalizer_matches_exchange_names_in_lower_case() {
    let mut normalizer = PriceNormalizer::new();
    normalizer.initialize().unwrap();
    let out = normalizer
        .normalize(book_data("Binance", "BTC-USD", &[(100.126, 0.123456)], &[(100.2, 2.0)]), round)
        .unwrap();
    assert_eq!(out.exchange, "Binance");
    match out.normalized_value {
        NormalizedValue::OrderBook(b) => {
            assert_eq!(b.bids[0].price, 100.13);
            assert_eq!(b.bids[0].amount, 0.123456);
            assert_eq!(b.asks[0].price, 100.2);
            assert_eq!(b.sequence, Some(1));
        }
        _ => panic!("expected an order book"),
    }
}

#[test]
fn normalizer_rounds_only_prices() {
    let mut normalizer = PriceNormalizer::new();
    normalizer.initialize().unwrap();
    let ticker = MarketData {
        exchange: "coinbase".to_string(),
        symbol: "DOGE-USD".to_string(),
        timestamp: 1,
        data_type: MarketDataType::Ticker,
        data: MarketDataValue::Ticker(TickerData { bid: 1.234, ask: 1.236, last: 1.2349, volume: 7.777 }),
    };
    match normalizer.normalize(ticker, round).unwrap().normalized_value {
        NormalizedValue::Ticker(t) => {
            assert_eq!(t.bid, 1.23);
            assert_eq!(t.ask, 1.24);
            assert_eq!(t.last, 1.23);
            assert_eq!(t.volume, 7.777);
        }
        _ => panic!("expected a ticker"),
    }
    let trade = MarketData {
        exchange: "binance".to_string(),
        symbol: "ETH-USD".to_string(),
        timestamp: 1,
        data_type: MarketDataType::Trade,
        data: MarketDataValue::Trade(TradeData {
            id: "t1".to_string(),
            price: 3000.555,
            amount: 0.555,
            side: TradeSide::Sell,
        }),
    };
    match normalizer.normalize(trade, round).unwrap().normalized_value {
        NormalizedValue::Trade(t) => {
            assert_eq!(t.price, 3000.56);
            assert_eq!(t.amount, 0.555);
            assert_eq!(t.id, "t1");
            assert_eq!(t.side, TradeSide::Sell);
        }
        _ => panic!("expected a trade"),
    }
    let candle = MarketData {
        exchange: "binance".to_string(),
        symbol: "ETH-USD".to_string(),
        timestamp: 1,
        data_type: MarketDataType::Candle,
        data: MarketDataValue::Candle(CandleData {
            open: 1.111,
            high: 2.226,
            low: 0.994,
            close: 1.5,
            volume: 10.123,
            interval: "1m".to_string(),
        }),
    };
    match normalizer.normalize(candle, round).unwrap().normalized_value {
        NormalizedValue::Candle(c) => {
            assert_eq!((c.open, c.high, c.low, c.close), (1.11, 2.23, 0.99, 1.5));
            assert_eq!(c.volume, 10.123);
            assert_eq!(c.interval, "1m");
        }
        _ => panic!("expected a candle"),
    }
}

#[test]
fn detector_requires_initialization() {
    let mut detector: OpportunityDetector<f64> = OpportunityDetector::new();
    assert_eq!(
        detector.detect(normalized_book("binance", "BTC-USD", 1.0, 2.0)),
        Err(OrchestratorError::NotInitialized("OpportunityDetector"))
    );
}

#[test]
fn detector_pairs_asks_and_bids_of_distinct_exchanges() {
    let mut detector: OpportunityDetector<f64> = OpportunityDetector::new();
    detector.initialize().unwrap();
    match detector.detect(normalized_book("binance", "BTC-USD", 99.0, 100.0)).unwrap() {
        Detection::Arbitrage(quotes) => assert!(quotes.is_empty()),
        _ => panic!("expected arbitrage quotes"),
    }
    detector.detect(normalized_book("coinbase", "ETH-USD", 1.0, 2.0)).unwrap();
    match detector.detect(normalized_book("coinbase", "BTC-USD", 102.0, 103.0)).unwrap() {
        Detection::Arbitrage(quotes) => {
            assert_eq!(quotes.len(), 2);
            let buy_binance = quotes.iter().find(|q| q.buy_exchange == "binance").unwrap();
            assert_eq!(buy_binance.sell_exchange, "coinbase");
            assert_eq!((buy_binance.ask, buy_binance.bid), (100.0, 102.0));
            assert_eq!(buy_binance.symbol, "BTC-USD");
            let buy_coinbase = quotes.iter().find(|q| q.buy_exchange == "coinbase").unwrap();
            assert_eq!(buy_coinbase.sell_exchange, "binance");
            assert_eq!((buy_coinbase.ask, buy_coinbase.bid), (103.0, 99.0));
        }
        _ => panic!("expected arbitrage quotes"),
    }
}

#[test]
fn detector_reports_ticker_spreads() {
    let mut detector: OpportunityDetector<f64> = OpportunityDetector::new();
    detector.initialize().unwrap();
    let ticker = NormalizedData {
        exchange: "binance".to_string(),
        symbol: "BTC-USD".to_string(),
        timestamp: 1,
        data_type: MarketDataType::Ticker,
        normalized_value: NormalizedValue::Ticker(TickerData { bid: 10.0, ask: 11.0, last: 10.5, volume: 1.0 }),
    };
    match detector.detect(ticker).unwrap() {
        Detection::Spread(q) => {
            assert_eq!((q.bid, q.ask), (10.0, 11.0));
            assert_eq!(q.exchange, "binance");
        }
        _ => panic!("expected a spread"),
    }
    let mut trade = normalized_book("binance", "BTC-USD", 1.0, 2.0);
    trade.data_type = MarketDataType::Trade;
    assert_eq!(detector.detect(trade).unwrap(), Detection::Nothing);
}

#[test]
fn aggregator_core_runs_the_pipeline() {
    let mut core: AggregatorCore<f64> = AggregatorCore::new();
    assert!(!core.running());
    assert_eq!(
        core.process_market_data(book_data("binance", "BTC-USD", &[(1.0, 1.0)], &[]), round),
        Err(OrchestratorError::NotInitialized("OrderBookManager"))
    );
    core.initialize().unwrap();
    assert!(core.running());
    core.process_market_data(book_data("binance", "BTC-USD", &[(99.004, 1.0)], &[(100.0, 1.0)]), round)
        .unwrap();
    let detection = core
        .process_market_data(book_data("Coinbase", "BTC-USD", &[(102.0, 1.0)], &[(103.0, 1.0)]), round)
        .unwrap();
    match detection {
        Detection::Arbitrage(quotes) => assert_eq!(quotes.len(), 2),
        _ => panic!("expected arbitrage quotes"),
    }
    assert_eq!(
        core.orderbook_manager().get_orderbook("binance", "BTC-USD").unwrap().bids[0].price,
        99.004
    );
    assert_eq!(
        core.process_market_data(book_data("kraken", "BTC-USD", &[], &[]), round),
        Err(OrchestratorError::InvalidConfiguration(
            "No configuration for exchange: kraken".to_string()
        ))
    );
    assert!(core.orderbook_manager().get_orderbook("kraken", "BTC-USD").is_some());
    core.shutdown().unwrap();
    assert!(!core.running());
}

#[test]
fn snapshot_is_due_every_hundred_executions() {
    let due: Vec<usize> = (1..=250).filter(|&n| snapshot_due(n)).collect();
    assert_eq!(due, vec![100, 200]);
    assert!(snapshot_due(0));
}

#[test]
fn idle_aggregator_does_nothing() {
    let mut core: AggregatorCore<f64> = AggregatorCore::new();
    let step = core.execute_step(Some(book_data("binance", "BTC-USD", &[(1.0, 1.0)], &[])), 100, 7, round);
    assert!(matches!(step, Ok(Execution::Idle)));
    core.initialize().unwrap();
    assert!(core.orderbook_manager().get_orderbook("binance", "BTC-USD").is_none());
}

#[test]
fn execution_processes_data_and_takes_due_snapshots() {
    let mut core: AggregatorCore<f64> = AggregatorCore::new();
    core.initialize().unwrap();
    match core.execute_step(Some(book_data("binance", "BTC-USD", &[(99.0, 1.0)], &[(100.0, 1.0)])), 1, 7, round) {
        Ok(Execution::Executed(Detection::Arbitrage(quotes), None)) => assert_eq!(quotes.len(), 0),
        _ => panic!("expected a finding and no snapshot"),
    }
    match core.execute_step(None, 200, 7, round) {
        Ok(Execution::Executed(Detection::Nothing, Some(snapshot))) => {
            assert_eq!(snapshot.timestamp, 7);
            assert_eq!(snapshot.orderbooks.len(), 1);
            assert_eq!(snapshot.tickers.len(), 0);
        }
        _ => panic!("expected a snapshot"),
    }
    assert!(matches!(
        core.execute_step(None, 201, 7, round),
        Ok(Execution::Executed(Detection::Nothing, None))
    ));
    match core.execute_step(Some(book_data("kraken", "BTC-USD", &[], &[])), 300, 7, round) {
        Err(OrchestratorError::InvalidConfiguration(message)) => {
            assert_eq!(message, "No configuration for exchange: kraken")
        }
        _ => panic!("expected the processing error"),
    }
}

#[test]
fn normalizer_accepts_upper_case_exchange_names() {
    let mut normalizer = PriceNormalizer::new();
    normalizer.initialize().unwrap();
    let out = normalizer
        .normalize(book_data("BINANCE", "SOL-USD", &[(1.239, 1.0)], &[]), round)
        .unwrap();
    assert_eq!(out.exchange, "BINANCE");
    match out.normalized_value {
        NormalizedValue::OrderBook(b) => assert_eq!(b.bids[0].price, 1.24),
        _ => panic!("expected an order book"),
    }
}

#[test]
fn initializing_twice_is_initializing_once() {
    let mut normalizer = PriceNormalizer::new();
    normalizer.initialize().unwrap();
    normalizer.initialize().unwrap();
    assert!(normalizer.normalize(book_data("coinbase", "BTC-USD", &[], &[]), round).is_ok());
    normalizer.shutdown().unwrap();
    assert_eq!(
        normalizer.normalize(book_data("coinbase", "BTC-USD", &[], &[]), round),
        Err(OrchestratorError::NotInitialized("PriceNormalizer"))
    );
    normalizer.initialize().unwrap();
    assert!(normalizer.normalize(book_data("Coinbase", "BTC-USD", &[], &[]), round).is_ok());
}
