//! Backtest settings.

use vstd::prelude::*;
use vstd::string::StringExecFns;
use crate::errors::CzscError;

verus! {

/// How the symbols' daily returns combine into the portfolio's.
#[derive(Debug, Clone, Copy, PartialEq, Eq, Structural)]
pub enum WeightType {
    /// Time-series weighting: the mean over the symbols.
    TimeSeries,
    /// Cross-sectional weighting: the sum over the symbols.
    CrossSection,
}

/// The settings of one backtest, but for the fee rate, which is not an
/// integer and stays with the caller.
#[derive(Debug, Clone, Copy, PartialEq, Eq, Structural)]
pub struct BacktestConfig {
    /// Decimal digits kept of a weight; a lot is `10^-digits` of weight.
    pub digits: usize,
    pub weight_type: WeightType,
    /// Trading days per year, for annualising.
    pub yearly_days: usize,
    /// Worker count.
    pub n_jobs: usize,
}

/// The lower-case form of a text, as `str::to_lowercase` gives it.
pub uninterp spec fn lowercase(text: Seq<char>) -> Seq<char>;

/// The text that `{:?}` prints for a string: quoted and escaped.
pub uninterp spec fn debug_text(text: Seq<char>) -> Seq<char>;

/// Calls `str::to_lowercase`, whose result depends on the text alone.
#[verifier::external_body]
fn to_lowercase(text: &str) -> (lowered: String)
    ensures
        lowered@ == lowercase(text@),
{
    text.to_lowercase()
}

/// Formats a string with `{:?}`, that is through `<str as Debug>::fmt`,
/// whose output depends on the text alone.
#[verifier::external_body]
fn debug_string(text: &str) -> (quoted: String)
    ensures
        quoted@ == debug_text(text@),
{
    format!("{:?}", text)
}

/// The weighting that a lower-case name stands for.
pub open spec fn weight_type_named(lowered: Seq<char>) -> Option<WeightType> {
    if lowered == "ts"@ {
        Some(WeightType::TimeSeries)
    } else if lowered == "cs"@ {
        Some(WeightType::CrossSection)
    } else {
        None
    }
}

/// The message for a weighting name that is neither `ts` nor `cs`.
pub open spec fn invalid_weight_type_message(weight_type: Seq<char>) -> Seq<char> {
    "Invalid weight_type "@ + debug_text(weight_type) + ", must be 'ts' or 'cs'"@
}

/// Reads a weighting from its lower-case name: `ts` or `cs`.
pub fn parse_weight_type(lowered: &String) -> (parsed: Option<WeightType>)
    ensures
        parsed == weight_type_named(lowered@),
{
    let ts = String::from_str("ts");
    let cs = String::from_str("cs");
    if *lowered == ts {
        Some(WeightType::TimeSeries)
    } else if *lowered == cs {
        Some(WeightType::CrossSection)
    } else {
        None
    }
}

impl BacktestConfig {
    /// Builds the settings. The weighting is named `ts` or `cs`, in any
    /// mix of cases; any other name is invalid and refused as a validation
    /// error, before anything is computed.
    pub fn new(digits: usize, weight_type: String, yearly_days: usize, n_jobs: usize) -> (made:
        Result<BacktestConfig, CzscError>)
        ensures
            match weight_type_named(lowercase(weight_type@)) {
                Some(parsed) => made == Ok::<BacktestConfig, CzscError>(
                    BacktestConfig { digits, weight_type: parsed, yearly_days, n_jobs },
                ),
                None => made matches Err(CzscError::Validation(message)) && message@
                    == invalid_weight_type_message(weight_type@),
            },
    {
        let lowered = to_lowercase(weight_type.as_str());
        match parse_weight_type(&lowered) {
            Some(parsed) => Ok(BacktestConfig { digits, weight_type: parsed, yearly_days, n_jobs }),
            None => {
                let mut message = String::from_str("Invalid weight_type ");
                let quoted = debug_string(weight_type.as_str());
                message.append(quoted.as_str());
                message.append(", must be 'ts' or 'cs'");
                Err(CzscError::Validation(message))
            },
        }
    }

    /// Whether the symbols are to be worked on by more than one worker.
    pub fn is_parallel(&self) -> (parallel: bool)
        ensures
            parallel == (self.n_jobs > 1),
    {
        self.n_jobs > 1
    }
}

} // verus!
