pub mod opportunity_detector;
pub mod orderbook_manager;
pub mod price_normalizer;
