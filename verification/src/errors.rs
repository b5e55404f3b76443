use vstd::prelude::*;

verus! {

/// A fatal configuration fault: malformed chart or variable specifications,
/// bad bounds, unknown enumeration values, or a bad tick line.  These are
/// never retried; the caller aborts the whole run.
#[derive(Clone, Copy, Debug, PartialEq, Eq, Structural)]
pub enum ConfigError {
    /// A definition has too few (or too many) comma/pipe separated fields.
    MissingField,
    /// A numeric field is not a well-formed number, or is out of range.
    BadNumber,
    /// A name is empty or holds a character outside `[A-Za-z0-9_-]`.
    BadName,
    /// The chart type is not one the engine knows.
    UnknownChartType,
    /// The chart period is not one of the fixed enumeration.
    UnknownPeriod,
    /// The indicator type is not one the engine knows.
    UnknownIndicatorType,
    /// The variable type is not `bool`, `float` or `int`.
    UnknownVariableType,
    /// A chart's candle count is not positive or too large.
    BadCandleCount,
    /// An indicator lookback is not positive or exceeds the chart's candle count.
    BadLookback,
    /// A randomizable variable's lower bound is not below its upper bound.
    BadBounds,
    /// A variable of this name and kind already exists.
    DuplicateName,
    /// The variable was not found under this name and kind.
    UnknownName,
    /// A window length is not of the form `"<N> week(s)"` with N >= 1.
    BadTimeSpan,
    /// The configured step count is below one.
    BadStepCount,
    /// A calendar field is outside its valid range.
    BadDate,
    /// The first line of the data does not end in 3 or 5 decimal places.
    BadDecimalPlaces,
}

/// A violation of the trade-bookkeeping contract: these indicate a caller
/// bug and are never expected in correct operation.
#[derive(Clone, Copy, Debug, PartialEq, Eq, Structural)]
pub enum TradeError {
    /// A trade that is already closed was asked to close again.
    DoubleClose,
    /// The pip expectancy was requested while trades are still open.
    OpenTradesRemain,
}

/// A failure of one whole walk-forward run.
#[derive(Clone, Copy, Debug, PartialEq, Eq, Structural)]
pub enum RunError {
    /// The tick stream ended before a Sunday following a day change was seen.
    NoSundayFound,
    /// A sample window came out empty.
    EmptyWindow,
    /// The optimizer found no viable trial for this step.
    OptimizeFailed,
    /// The out-of-sample pass for this step breached the drawdown limit.
    ExecuteFailed,
}

impl ConfigError {
    /// A short stable description, for operator-facing logs.
    pub fn describe(&self) -> (r: &'static str) {
        match self {
            ConfigError::MissingField => "definition has a wrong number of fields",
            ConfigError::BadNumber => "malformed or out-of-range number",
            ConfigError::BadName => "empty name or invalid character in name",
            ConfigError::UnknownChartType => "unknown chart type",
            ConfigError::UnknownPeriod => "unknown chart period",
            ConfigError::UnknownIndicatorType => "unknown indicator type",
            ConfigError::UnknownVariableType => "unknown variable type",
            ConfigError::BadCandleCount => "chart candle count out of range",
            ConfigError::BadLookback => "indicator lookback out of range",
            ConfigError::BadBounds => "lower bound must be below upper bound",
            ConfigError::DuplicateName => "a variable with this name already exists",
            ConfigError::UnknownName => "no variable with this name",
            ConfigError::BadTimeSpan => "window length must be like \"2 weeks\"",
            ConfigError::BadStepCount => "step count must be positive",
            ConfigError::BadDate => "calendar field out of range",
            ConfigError::BadDecimalPlaces => "expected 3 or 5 decimal places",
        }
    }
}

} // verus!
