//! The processor: it takes input rows one at a time, under the configured
//! policy for rows that cannot be used, and hands events to the engine.

use crate::config::ProcessorConfig;
use crate::domain::transaction::{RawTrxRecord, Trx};
use crate::domain::user_account::UserAccount;
use crate::services::account_store::lists_accounts;
use crate::services::ledger::{Ledger, TrxOutcome};
use crate::services::payment_engine::PaymentsEngine;
use vstd::prelude::*;

verus! {

/// What became of an input row.
#[derive(Debug, Clone, Copy, PartialEq, Eq, Structural)]
pub enum RowOutcome {
    /// The row was an event; the engine's verdict on it.
    Processed(TrxOutcome),
    /// A deposit or withdrawal without an amount was dropped; `warn` says
    /// whether the configuration asks for a warning.
    SkippedMissingAmount { warn: bool },
    /// A row that could not be read was dropped; `warn` says whether the
    /// configuration asks for a warning.
    SkippedMalformed { warn: bool },
    /// A row that could not be read ends the run: the configuration does not
    /// allow skipping it.
    Aborted,
}

/// What a row does to a ledger under a configuration: the ledger afterwards
/// and the row's outcome. `None` stands for a row that could not be read.
pub open spec fn row_step(ledger: Ledger, config: ProcessorConfig, row: Option<RawTrxRecord>) -> (
    Ledger,
    RowOutcome,
) {
    match row {
        Some(raw) => match Trx::spec_from_raw(raw) {
            Some(trx) => (ledger.apply(trx).0, RowOutcome::Processed(ledger.apply(trx).1)),
            None => (ledger, RowOutcome::SkippedMissingAmount { warn: config.log_warnings }),
        },
        None => if config.skip_malformed {
            (ledger, RowOutcome::SkippedMalformed { warn: config.log_warnings })
        } else {
            (ledger, RowOutcome::Aborted)
        },
    }
}

/// Handles one input row on an engine: an event goes to the engine, a row
/// without its amount is dropped, and a row that could not be read (`None`)
/// is dropped or ends the run, as the configuration says.
pub fn process_row(engine: &mut PaymentsEngine, config: &ProcessorConfig, row: Option<
    RawTrxRecord,
>) -> (outcome: RowOutcome)
    ensures
        (final(engine)@, outcome) == row_step(old(engine)@, *config, row),
        final(engine)@.wf(),
{
    proof {
        use_type_invariant(&*engine);
    }
    match row {
        Some(raw) => match Trx::from_raw(raw) {
            Some(trx) => RowOutcome::Processed(engine.process(trx)),
            None => RowOutcome::SkippedMissingAmount { warn: config.log_warnings },
        },
        None => if config.skip_malformed {
            RowOutcome::SkippedMalformed { warn: config.log_warnings }
        } else {
            RowOutcome::Aborted
        },
    }
}

/// An engine together with the configuration it was built from.
pub struct TrxProcessor {
    engine: PaymentsEngine,
    config: ProcessorConfig,
}

impl TrxProcessor {
    /// The ledger the processor's engine has reached.
    pub closed spec fn ledger(&self) -> Ledger {
        self.engine@
    }

    /// The configuration the processor was built from.
    pub closed spec fn spec_config(&self) -> ProcessorConfig {
        self.config
    }

    /// A processor with the default configuration and an empty ledger.
    pub fn new() -> (processor: Self)
        ensures
            processor.spec_config() == ProcessorConfig::spec_default(),
            processor.ledger() == Ledger::empty(None),
    {
        TrxProcessor::with_config(ProcessorConfig::new())
    }

    /// A processor with the given configuration and an empty ledger whose
    /// log has the configured capacity.
    pub fn with_config(config: ProcessorConfig) -> (processor: Self)
        ensures
            processor.spec_config() == config,
            processor.ledger() == Ledger::empty(config.max_tx_history),
    {
        TrxProcessor { engine: PaymentsEngine::with_max_history(config.max_tx_history), config }
    }

    /// The processor's engine, to look at.
    pub fn engine(&self) -> (engine: &PaymentsEngine)
        ensures
            engine@ == self.ledger(),
    {
        &self.engine
    }

    /// The configuration the processor was built from.
    pub fn config(&self) -> (config: ProcessorConfig)
        ensures
            config == self.spec_config(),
    {
        self.config
    }

    /// Handles one input row; see [`process_row`].
    pub fn process_row(&mut self, row: Option<RawTrxRecord>) -> (outcome: RowOutcome)
        ensures
            (final(self).ledger(), outcome) == row_step(
                old(self).ledger(),
                old(self).spec_config(),
                row,
            ),
            final(self).spec_config() == old(self).spec_config(),
            final(self).ledger().wf(),
    {
        process_row(&mut self.engine, &self.config, row)
    }

    /// All accounts, in strictly ascending order of client id: the rows of
    /// the result.
    pub fn accounts(&self) -> (accounts: Vec<UserAccount>)
        ensures
            lists_accounts(accounts@, self.ledger().accounts),
    {
        self.engine.get_accounts()
    }
}

impl Default for TrxProcessor {
    fn default() -> (processor: Self)
        ensures
            processor.spec_config() == ProcessorConfig::spec_default(),
            processor.ledger() == Ledger::empty(None),
    {
        TrxProcessor::new()
    }
}

} // verus!
