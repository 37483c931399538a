use kimiha::aggregator::models::{
    MarketData, MarketDataType, MarketDataValue, OrderBookData, PriceLevel, TradeData, TradeSide,
};
use kimiha::aggregator::AggregatorCore;
use kimiha::table::{MarketKey, Table, TableKey};
use kimiha::task_id::TaskId;

#[test]
fn table_insert_replaces_existing_key() {
    let mut table: Table<String, u32> = Table::new();
    assert_eq!(table.len(), 0);
    table.insert("a".to_string(), 1);
    table.insert("b".to_string(), 2);
    table.insert("a".to_string(), 3);
    assert_eq!(table.len(), 2);
    assert_eq!(table.get(&"a".to_string()), Some(&3));
    assert_eq!(table.get(&"b".to_string()), Some(&2));
    assert!(table.get(&"c".to_string()).is_none());
    assert!(table.contains_key(&"b".to_string()));
    assert!(!table.contains_key(&"c".to_string()));
    assert_eq!(table.entries()[0], ("a".to_string(), 3));
}

#[test]
fn market_keys_compare_both_parts() {
    let k = |e: &str, s: &str| MarketKey { exchange: e.to_string(), symbol: s.to_string() };
    assert!(k("x", "y").same_key(&k("x", "y")));
    assert!(!k("x", "y").same_key(&k("x", "z")));
    assert!(!k("x", "y").same_key(&k("w", "y")));
    let mut table: Table<MarketKey, u8> = Table::new();
    table.insert(k("x", "y"), 1);
    table.insert(k("x", "z"), 2);
    assert_eq!(table.len(), 2);
    assert_eq!(table.get(&k("x", "z")), Some(&2));
}

#[test]
fn task_id_keeps_its_value() {
    assert_eq!(TaskId::from_value(12).value(), 12);
    assert_eq!(TaskId::from_value(3), TaskId::from_value(3));
}

#[test]
fn market_data_copy_is_equal() {
    let data = MarketData {
        exchange: "binance".to_string(),
        symbol: "BTC-USD".to_string(),
        timestamp: 4,
        data_type: MarketDataType::Trade,
        data: MarketDataValue::Trade(TradeData {
            id: "t".to_string(),
            price: 1.5,
            amount: 2.5,
            side: TradeSide::Buy,
        }),
    };
    assert_eq!(data.duplicate(), data);
    let book = OrderBookData {
        bids: vec![PriceLevel { price: 1.0, amount: 2.0 }],
        asks: vec![PriceLevel { price: 3.0, amount: 4.0 }],
        sequence: None,
    };
    assert_eq!(book.duplicate(), book);
}

#[test]
fn aggregator_core_snapshot_holds_the_books() {
    let mut core: AggregatorCore<f64> = AggregatorCore::new();
    assert!(core.create_snapshot(1).is_err());
    core.initialize().unwrap();
    let data = MarketData {
        exchange: "coinbase".to_string(),
        symbol: "ETH-USD".to_string(),
        timestamp: 4,
        data_type: MarketDataType::OrderBook,
        data: MarketDataValue::OrderBook(OrderBookData {
            bids: vec![PriceLevel { price: 10.0, amount: 1.0 }],
            asks: vec![],
            sequence: Some(9),
        }),
    };
    core.process_market_data(data, |v: f64, _p: usize| v).unwrap();
    let snapshot = core.create_snapshot(77).unwrap();
    assert_eq!(snapshot.timestamp, 77);
    assert_eq!(snapshot.orderbooks.len(), 1);
    assert_eq!(snapshot.orderbooks[0].0.exchange, "coinbase");
    assert_eq!(snapshot.orderbooks[0].1.sequence, Some(9));
}
