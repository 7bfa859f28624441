//! Options read once when a processor or an engine is built.

use vstd::prelude::*;

verus! {

/// Processing options.
///
/// * `skip_malformed`: drop a row that cannot be read, rather than stop.
/// * `log_warnings`: warn about rows that are dropped.
/// * `decimal_precision`: the number of fractional digits shown.
/// * `max_tx_history`: the capacity of the transaction log; `None` leaves
///   the log unbounded.
#[derive(Debug, Clone, Copy)]
pub struct ProcessorConfig {
    pub skip_malformed: bool,
    pub log_warnings: bool,
    pub decimal_precision: u32,
    pub max_tx_history: Option<usize>,
}

impl ProcessorConfig {
    /// The permissive defaults: malformed rows are dropped with a warning,
    /// four fractional digits, no bound on the transaction log.
    pub open spec fn spec_default() -> ProcessorConfig {
        ProcessorConfig {
            skip_malformed: true,
            log_warnings: true,
            decimal_precision: 4,
            max_tx_history: None,
        }
    }

    /// The same as [`Default::default`].
    pub fn new() -> (config: Self)
        ensures
            config == Self::spec_default(),
    {
        ProcessorConfig {
            skip_malformed: true,
            log_warnings: true,
            decimal_precision: 4,
            max_tx_history: None,
        }
    }

    /// The defaults with the transaction log bounded to ten million entries.
    pub fn production() -> (config: Self)
        ensures
            config == (ProcessorConfig {
                max_tx_history: Some(10_000_000usize),
                ..Self::spec_default()
            }),
    {
        ProcessorConfig {
            skip_malformed: true,
            log_warnings: true,
            decimal_precision: 4,
            max_tx_history: Some(10_000_000),
        }
    }

    /// Malformed rows are fatal and nothing is logged; the log is unbounded.
    pub fn strict() -> (config: Self)
        ensures
            config == (ProcessorConfig {
                skip_malformed: false,
                log_warnings: false,
                ..Self::spec_default()
            }),
    {
        ProcessorConfig {
            skip_malformed: false,
            log_warnings: false,
            decimal_precision: 4,
            max_tx_history: None,
        }
    }

    /// The same options, but for whether a malformed row is dropped.
    pub fn with_skip_malformed(self, skip: bool) -> (config: Self)
        ensures
            config == (ProcessorConfig { skip_malformed: skip, ..self }),
    {
        let mut config = self;
        config.skip_malformed = skip;
        config
    }

    /// The same options, but for whether dropped rows are warned about.
    pub fn with_log_warnings(self, log: bool) -> (config: Self)
        ensures
            config == (ProcessorConfig { log_warnings: log, ..self }),
    {
        let mut config = self;
        config.log_warnings = log;
        config
    }

    /// The same options, but for the display precision.
    pub fn with_precision(self, precision: u32) -> (config: Self)
        ensures
            config == (ProcessorConfig { decimal_precision: precision, ..self }),
    {
        let mut config = self;
        config.decimal_precision = precision;
        config
    }

    /// The same options, but for the capacity of the transaction log.
    pub fn with_max_tx_history(self, max: Option<usize>) -> (config: Self)
        ensures
            config == (ProcessorConfig { max_tx_history: max, ..self }),
    {
        let mut config = self;
        config.max_tx_history = max;
        config
    }
}

impl Default for ProcessorConfig {
    fn default() -> (config: Self)
        ensures
            config == Self::spec_default(),
    {
        ProcessorConfig::new()
    }
}

} // verus!
