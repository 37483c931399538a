pub mod components;
pub mod models;

use vstd::prelude::*;

use self::components::opportunity_detector::{detected, Detection, OpportunityDetector};
use self::components::orderbook_manager::{books_after_update, same_book, OrderBookManager};
use self::components::price_normalizer::{
    lowercase, normalized, precision_in, with_built_in_exchanges, PriceNormalizer,
};
use self::models::{same_market_data, MarketData, MarketDataValue, MarketSnapshot, NormalizedData};
use crate::error::OrchestratorError;
use crate::table::{entries_map, keys_distinct};

verus! {

/// A snapshot of the markets is taken once every this many executions.
pub const SNAPSHOT_INTERVAL: usize = 100;

/// Whether a snapshot is due at the given execution count, counted over
/// every aggregator of the process: exactly on the multiples of the interval.
pub fn snapshot_due(executions: usize) -> (due: bool)
    ensures
        due == (executions % SNAPSHOT_INTERVAL == 0),
{
    executions % SNAPSHOT_INTERVAL == 0
}

/// What one execution of an aggregator did.
pub enum Execution<P> {
    /// The aggregator does not run, and did nothing.
    Idle,
    /// The market data that came, if any, was processed with this finding,
    /// and the snapshot that was due, if one was, was taken.
    Executed(Detection<P>, Option<MarketSnapshot<P>>),
}

/// The finding of an execution as a processing result: an execution that
/// processed nothing found nothing.
pub open spec fn finding<P>(result: Result<Execution<P>, OrchestratorError>) -> Result<
    Detection<P>,
    OrchestratorError,
> {
    match result {
        Ok(Execution::Executed(detection, _)) => Ok(detection),
        Ok(Execution::Idle) => Ok(Detection::Nothing),
        Err(e) => Err(e),
    }
}

/// The state of an aggregator: its order books, its price normalizer and
/// its opportunity detector, and whether it runs.
pub struct AggregatorCore<P> {
    orderbook_manager: OrderBookManager<P>,
    price_normalizer: PriceNormalizer,
    opportunity_detector: OpportunityDetector<P>,
    running: bool,
}

impl<P: Copy> AggregatorCore<P> {
    /// The components are well formed, and all are initialized while the
    /// aggregator runs.
    pub closed spec fn wf(&self) -> bool {
        &&& self.orderbook_manager.wf()
        &&& self.price_normalizer.wf()
        &&& self.opportunity_detector.wf()
        &&& self.running ==> self.orderbook_manager.is_initialized() && self.price_normalizer.is_initialized()
            && self.opportunity_detector.is_initialized()
    }

    pub closed spec fn orderbooks(&self) -> OrderBookManager<P> {
        self.orderbook_manager
    }

    pub closed spec fn normalizer(&self) -> PriceNormalizer {
        self.price_normalizer
    }

    pub closed spec fn detector(&self) -> OpportunityDetector<P> {
        self.opportunity_detector
    }

    pub closed spec fn is_running(&self) -> bool {
        self.running
    }

    pub fn new() -> (core: Self)
        ensures
            core.wf(),
            !core.is_running(),
            core.orderbooks().books().len() == 0,
            !core.orderbooks().is_initialized(),
            core.normalizer().configs().len() == 0,
            !core.normalizer().is_initialized(),
            core.detector().latest().len() == 0,
            !core.detector().is_initialized(),
    {
        AggregatorCore {
            orderbook_manager: OrderBookManager::new(),
            price_normalizer: PriceNormalizer::new(),
            opportunity_detector: OpportunityDetector::new(),
            running: false,
        }
    }

    /// Initializes the components, then runs.
    pub fn initialize(&mut self) -> (result: Result<(), OrchestratorError>)
        requires
            old(self).wf(),
        ensures
            final(self).wf(),
            result is Ok,
            final(self).is_running(),
            final(self).orderbooks().is_initialized(),
            final(self).normalizer().is_initialized(),
            final(self).detector().is_initialized(),
            final(self).orderbooks().books() == old(self).orderbooks().books(),
            final(self).normalizer().configs() == with_built_in_exchanges(old(self).normalizer().configs()),
            final(self).detector().latest() == old(self).detector().latest(),
    {
        self.orderbook_manager.initialize()?;
        self.price_normalizer.initialize()?;
        self.opportunity_detector.initialize()?;
        self.running = true;
        Ok(())
    }

    /// Stops running, then shuts the components down.
    pub fn shutdown(&mut self) -> (result: Result<(), OrchestratorError>)
        requires
            old(self).wf(),
        ensures
            final(self).wf(),
            result is Ok,
            !final(self).is_running(),
            !final(self).orderbooks().is_initialized(),
            !final(self).normalizer().is_initialized(),
            !final(self).detector().is_initialized(),
            final(self).orderbooks().books() == old(self).orderbooks().books(),
            final(self).normalizer().configs() == old(self).normalizer().configs(),
            final(self).detector().latest() == old(self).detector().latest(),
    {
        self.running = false;
        self.orderbook_manager.shutdown()?;
        self.price_normalizer.shutdown()?;
        self.opportunity_detector.shutdown()?;
        Ok(())
    }

    pub fn running(&self) -> (running: bool)
        ensures
            running == self.is_running(),
    {
        self.running
    }

    /// What processing `market_data` with `round` does to an aggregator in
    /// this state, leaving it `after` and returning `result`: the order books
    /// take the data (failing when not initialized), the normalizer rounds
    /// its prices under its exchange's configuration (failing when not
    /// initialized or when the exchange has none), and the detector records
    /// the normalized data and reports what it finds (failing when not
    /// initialized); the first failure ends it. Whether it runs, the
    /// normalizer and which components are initialized stay as they were.
    pub open spec fn processed<F: Fn(P, usize) -> P>(
        self,
        after: Self,
        market_data: MarketData<P>,
        round: F,
        result: Result<Detection<P>, OrchestratorError>,
    ) -> bool {
        let books = self.orderbooks();
        let normalizer = self.normalizer();
        let key = lowercase(market_data.exchange@);
        &&& after.wf()
        &&& after.is_running() == self.is_running()
        &&& after.normalizer() == normalizer
        &&& after.orderbooks().is_initialized() == books.is_initialized()
        &&& after.detector().is_initialized() == self.detector().is_initialized()
        &&& !books.is_initialized() ==> result == Err::<Detection<P>, OrchestratorError>(
            OrchestratorError::NotInitialized("OrderBookManager"),
        ) && after.orderbooks().books() == books.books() && after.detector().latest()
            == self.detector().latest()
        &&& books.is_initialized() ==> after.orderbooks().books() == books_after_update(
            books.books(),
            market_data,
        )
        &&& books.is_initialized() && !normalizer.is_initialized() ==> result == Err::<
            Detection<P>,
            OrchestratorError,
        >(OrchestratorError::NotInitialized("PriceNormalizer")) && after.detector().latest()
            == self.detector().latest()
        &&& books.is_initialized() && normalizer.is_initialized() && !normalizer.configs().contains_key(key)
            ==> (result matches Err(OrchestratorError::InvalidConfiguration(message)) && message@
            == "No configuration for exchange: "@ + market_data.exchange@) && after.detector().latest()
            == self.detector().latest()
        &&& books.is_initialized() && normalizer.is_initialized() && normalizer.configs().contains_key(key)
            && !self.detector().is_initialized() ==> result == Err::<Detection<P>, OrchestratorError>(
            OrchestratorError::NotInitialized("OpportunityDetector"),
        ) && after.detector().latest() == self.detector().latest()
        &&& books.is_initialized() && normalizer.is_initialized() && normalizer.configs().contains_key(key)
            && self.detector().is_initialized() ==> (result matches Ok(detection) && exists|
            out: NormalizedData<P>,
        |
            {
                &&& #[trigger] normalized(
                    round,
                    precision_in(normalizer.configs()[key], market_data.symbol@),
                    market_data,
                    out,
                )
                &&& after.detector().latest() == self.detector().latest().insert(
                    (out.exchange@, out.symbol@),
                    out,
                )
                &&& detected(after.detector().latest(), out, detection)
            })
    }

    /// `snapshot` is a snapshot of the order books taken at `timestamp`:
    /// every book, under its key, and no ticker.
    pub open spec fn snapshot_of(self, timestamp: u64, snapshot: MarketSnapshot<P>) -> bool {
        &&& snapshot.timestamp == timestamp
        &&& snapshot.tickers@.len() == 0
        &&& keys_distinct(snapshot.orderbooks@)
        &&& forall|k: (Seq<char>, Seq<char>)|
            entries_map(snapshot.orderbooks@).contains_key(k) == #[trigger] self.orderbooks().books().contains_key(k)
        &&& forall|k: (Seq<char>, Seq<char>)| #[trigger]
            self.orderbooks().books().contains_key(k) ==> same_book(
                entries_map(snapshot.orderbooks@)[k],
                self.orderbooks().books()[k],
            )
    }

    /// Records market data: updates the order books, normalizes the data's
    /// prices with `round` and hands the normalized data to the opportunity
    /// detector, whose finding is returned. The first component that fails
    /// ends it with its error.
    pub fn process_market_data<F: Fn(P, usize) -> P>(
        &mut self,
        market_data: MarketData<P>,
        round: F,
    ) -> (result: Result<Detection<P>, OrchestratorError>)
        requires
            old(self).wf(),
            forall|x: P, n: usize| round.requires((x, n)),
        ensures
            old(self).processed(*final(self), market_data, round, result),
    {
        let copy = market_data.duplicate();
        let ghost data = market_data;
        self.orderbook_manager.update(market_data)?;
        let normalized_data = self.price_normalizer.normalize(copy, round)?;
        proof {
            lemma_normalized_same_data(
                round,
                precision_in(self.price_normalizer.configs()[lowercase(data.exchange@)], data.symbol@),
                copy,
                data,
                normalized_data,
            );
        }
        let ghost out = normalized_data;
        let detection = self.opportunity_detector.detect(normalized_data);
        proof {
            if detection is Ok {
                assert(normalized(
                    round,
                    precision_in(old(self).normalizer().configs()[lowercase(data.exchange@)], data.symbol@),
                    data,
                    out,
                ));
                assert(self.opportunity_detector.latest() == old(self).detector().latest().insert(
                    (out.exchange@, out.symbol@),
                    out,
                ));
                assert(detected(self.opportunity_detector.latest(), out, detection->Ok_0));
            }
        }
        detection
    }

    /// One execution of the aggregator. When it does not run, nothing is
    /// done. Otherwise the market data that came, if any, is processed with
    /// `round`, whose failure ends the execution; then, when `executions`
    /// (the count of executions that this one completes, over every
    /// aggregator of the process) is a multiple of the snapshot interval, a
    /// snapshot of the order books is taken at `timestamp`.
    pub fn execute_step<F: Fn(P, usize) -> P>(
        &mut self,
        market_data: Option<MarketData<P>>,
        executions: usize,
        timestamp: u64,
        round: F,
    ) -> (result: Result<Execution<P>, OrchestratorError>)
        requires
            old(self).wf(),
            forall|x: P, n: usize| round.requires((x, n)),
        ensures
            final(self).wf(),
            !old(self).is_running() ==> (result matches Ok(Execution::Idle)) && *final(self) == *old(self),
            old(self).is_running() && market_data is None ==> *final(self) == *old(self),
            old(self).is_running() ==> match market_data {
                Some(data) => old(self).processed(*final(self), data, round, finding(result)),
                None => finding(result) == Ok::<Detection<P>, OrchestratorError>(Detection::Nothing),
            },
            old(self).is_running() && finding(result) is Ok ==> (result matches Ok(
                Execution::Executed(_, snapshot),
            ) && (snapshot is Some <==> executions % SNAPSHOT_INTERVAL == 0) && (snapshot matches Some(s)
                ==> final(self).snapshot_of(timestamp, s))),
    {
        if !self.running {
            return Ok(Execution::Idle);
        }
        let detection = match market_data {
            Some(data) => self.process_market_data(data, round)?,
            None => Detection::Nothing,
        };
        if snapshot_due(executions) {
            let snapshot = self.orderbook_manager.create_snapshot(timestamp)?;
            Ok(Execution::Executed(detection, Some(snapshot)))
        } else {
            Ok(Execution::Executed(detection, None))
        }
    }

    /// A snapshot of the order books, taken at `timestamp`.
    pub fn create_snapshot(&self, timestamp: u64) -> (result: Result<
        MarketSnapshot<P>,
        OrchestratorError,
    >)
        requires
            self.wf(),
        ensures
            !self.orderbooks().is_initialized() ==> result == Err::<MarketSnapshot<P>, OrchestratorError>(
                OrchestratorError::NotInitialized("OrderBookManager"),
            ),
            self.orderbooks().is_initialized() ==> result is Ok,
            result matches Ok(snapshot) ==> self.snapshot_of(timestamp, snapshot),
    {
        self.orderbook_manager.create_snapshot(timestamp)
    }

    pub fn orderbook_manager(&self) -> (manager: &OrderBookManager<P>)
        ensures
            *manager == self.orderbooks(),
    {
        &self.orderbook_manager
    }

    pub fn price_normalizer(&self) -> (normalizer: &PriceNormalizer)
        ensures
            *normalizer == self.normalizer(),
    {
        &self.price_normalizer
    }

    pub fn opportunity_detector(&self) -> (detector: &OpportunityDetector<P>)
        ensures
            *detector == self.detector(),
    {
        &self.opportunity_detector
    }
}

/// Normalizing the same data gives the same normalized data.
proof fn lemma_normalized_same_data<P, F: Fn(P, usize) -> P>(
    round: F,
    precision: usize,
    a: MarketData<P>,
    b: MarketData<P>,
    out: NormalizedData<P>,
)
    requires
        same_market_data(a, b),
        normalized(round, precision, a, out),
    ensures
        normalized(round, precision, b, out),
{
    match (a.data, b.data) {
        (MarketDataValue::OrderBook(x), MarketDataValue::OrderBook(y)) => {},
        _ => {},
    }
}

} // verus!
