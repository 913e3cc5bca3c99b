//! User arguments and node fee rates: which fee rate and minimum coin count
//! a consolidation request resolves to, and the startup check of the options.

use vstd::prelude::*;

verus! {

/// The confirmation target, in blocks, whose estimate stands in for a fee
/// rate that the user did not give.
pub const FEE_BLOCKCOUNT: u32 = 6;

/// The minimum number of coins to consolidate when the user gives none.
pub const DEFAULT_MIN_UTXOS: usize = 10;

/// The node's fee rate estimate for one confirmation target, per kilobyte.
#[derive(Clone, Copy, Debug, PartialEq, Eq, Structural)]
pub struct FeeEstimate {
    pub blockcount: u32,
    pub feerate: u32,
}

/// The node's per-kilobyte fee rates: the range it accepts, and its estimates
/// where it reported any.
#[derive(Clone, Debug)]
pub struct Feerates {
    pub min_acceptable: u32,
    pub max_acceptable: u32,
    pub estimates: Option<Vec<FeeEstimate>>,
}

/// One argument as the caller gave it: a non-negative integer, or anything else.
#[derive(Clone, Copy, Debug, PartialEq, Eq, Structural)]
pub enum ArgValue {
    Number(u64),
    NotNumber,
}

/// The arguments of a consolidation request, in either calling convention.
#[derive(Clone, Debug)]
pub enum ConsolidateArgs {
    /// A list: fee rate first, then minimum coin count, both optional.
    Positional(Vec<ArgValue>),
    /// An object with the optional fields `feerate` and `min_utxos`.
    Named { feerate: Option<ArgValue>, min_utxos: Option<ArgValue> },
    /// Neither a list nor an object.
    Unsupported,
}

/// Why no estimate could be read from the node's fee rates.
#[derive(Clone, Copy, Debug, PartialEq, Eq, Structural)]
pub enum EstimateError {
    /// The fee rates came without estimates.
    NoEstimates,
    /// No estimate is given for this confirmation target.
    NoBlockcount { blockcount: u32 },
}

/// Why a consolidation request's arguments were refused.
#[derive(Clone, Copy, Debug, PartialEq, Eq, Structural)]
pub enum ArgError {
    TooManyArguments,
    UnsupportedArguments,
    InvalidFeerate,
    FeerateTooLarge { value: u64 },
    /// No fee rate was given and the node gave no estimate to use instead.
    NoFeerate { cause: EstimateError },
    InvalidMinUtxos,
    MinUtxosTooLarge { value: u64 },
    BelowMinAcceptable { feerate: u32, min_acceptable: u32 },
    AboveMaxAcceptable { feerate: u32, max_acceptable: u32 },
}

/// The first estimate in `es` for `blockcount`.
pub open spec fn estimate_for(es: Seq<FeeEstimate>, blockcount: u32) -> Option<u32>
    decreases es.len(),
{
    if es.len() == 0 {
        None
    } else if es[0].blockcount == blockcount {
        Some(es[0].feerate)
    } else {
        estimate_for(es.drop_first(), blockcount)
    }
}

pub open spec fn blockcount_feerate(f: Feerates, blockcount: u32) -> Result<u32, EstimateError> {
    match f.estimates {
        None => Err(EstimateError::NoEstimates),
        Some(es) => match estimate_for(es@, blockcount) {
            Some(r) => Ok(r),
            None => Err(EstimateError::NoBlockcount { blockcount }),
        },
    }
}

/// The node's fee rate estimate for confirmation within `blockcount` blocks.
pub fn get_blockcount_feerate(feerates: &Feerates, blockcount: u32) -> (r: Result<u32, EstimateError>)
    ensures
        r == blockcount_feerate(*feerates, blockcount),
{
    let estimates = match &feerates.estimates {
        Some(est) => est,
        None => {
            return Err(EstimateError::NoEstimates);
        },
    };
    let mut i: usize = 0;
    assert(estimates@.subrange(0, estimates.len() as int) =~= estimates@);
    while i < estimates.len()
        invariant
            i <= estimates.len(),
            feerates.estimates == Some(*estimates),
            estimate_for(estimates@, blockcount) == estimate_for(
                estimates@.subrange(i as int, estimates.len() as int),
                blockcount,
            ),
        decreases estimates.len() - i,
    {
        let ghost rest = estimates@.subrange(i as int, estimates.len() as int);
        assert(rest.drop_first() =~= estimates@.subrange(i + 1, estimates.len() as int));
        assert(rest[0] == estimates@[i as int]);
        if estimates[i].blockcount == blockcount {
            return Ok(estimates[i].feerate);
        }
        i += 1;
    }
    assert(estimates@.subrange(i as int, estimates.len() as int).len() == 0);
    Err(EstimateError::NoBlockcount { blockcount })
}

/// The fee rate and minimum count fields of a request, before they are read.
pub open spec fn requested_fields(args: ConsolidateArgs) -> Result<(Option<ArgValue>, Option<ArgValue>), ArgError> {
    match args {
        ConsolidateArgs::Positional(v) => if v@.len() > 2 {
            Err(ArgError::TooManyArguments)
        } else {
            Ok(
                (
                    if v@.len() > 0 { Some(v@[0]) } else { None },
                    if v@.len() > 1 { Some(v@[1]) } else { None },
                ),
            )
        },
        ConsolidateArgs::Named { feerate, min_utxos } => Ok((feerate, min_utxos)),
        ConsolidateArgs::Unsupported => Err(ArgError::UnsupportedArguments),
    }
}

/// A given fee rate must fit in 32 bits; a missing one is the node's estimate
/// for `FEE_BLOCKCOUNT` blocks.
pub open spec fn resolve_feerate(field: Option<ArgValue>, f: Feerates) -> Result<u32, ArgError> {
    match field {
        Some(ArgValue::Number(n)) => if n <= u32::MAX {
            Ok(n as u32)
        } else {
            Err(ArgError::FeerateTooLarge { value: n })
        },
        Some(ArgValue::NotNumber) => Err(ArgError::InvalidFeerate),
        None => match blockcount_feerate(f, FEE_BLOCKCOUNT) {
            Ok(r) => Ok(r),
            Err(cause) => Err(ArgError::NoFeerate { cause }),
        },
    }
}

/// A given minimum count must fit in `usize`; a missing one is
/// `DEFAULT_MIN_UTXOS`.
pub open spec fn resolve_min_utxos(field: Option<ArgValue>) -> Result<usize, ArgError> {
    match field {
        Some(ArgValue::Number(n)) => if n <= usize::MAX {
            Ok(n as usize)
        } else {
            Err(ArgError::MinUtxosTooLarge { value: n })
        },
        Some(ArgValue::NotNumber) => Err(ArgError::InvalidMinUtxos),
        None => Ok(DEFAULT_MIN_UTXOS),
    }
}

/// What a request resolves to: its fields are read fee rate first, and the
/// fee rate must then lie within the node's acceptable range.
pub open spec fn consolidate_args(args: ConsolidateArgs, f: Feerates) -> Result<(u32, usize), ArgError> {
    match requested_fields(args) {
        Err(e) => Err(e),
        Ok((fr_field, count_field)) => match resolve_feerate(fr_field, f) {
            Err(e) => Err(e),
            Ok(feerate) => match resolve_min_utxos(count_field) {
                Err(e) => Err(e),
                Ok(count) => if feerate < f.min_acceptable {
                    Err(ArgError::BelowMinAcceptable { feerate, min_acceptable: f.min_acceptable })
                } else if feerate > f.max_acceptable {
                    Err(ArgError::AboveMaxAcceptable { feerate, max_acceptable: f.max_acceptable })
                } else {
                    Ok((feerate, count))
                },
            },
        },
    }
}

fn feerate_of(field: Option<ArgValue>, feerates: &Feerates) -> (r: Result<u32, ArgError>)
    ensures
        r == resolve_feerate(field, *feerates),
{
    match field {
        Some(ArgValue::Number(n)) => if n <= u32::MAX as u64 {
            Ok(n as u32)
        } else {
            Err(ArgError::FeerateTooLarge { value: n })
        },
        Some(ArgValue::NotNumber) => Err(ArgError::InvalidFeerate),
        None => match get_blockcount_feerate(feerates, FEE_BLOCKCOUNT) {
            Ok(r) => Ok(r),
            Err(cause) => Err(ArgError::NoFeerate { cause }),
        },
    }
}

fn min_utxos_of(field: Option<ArgValue>) -> (r: Result<usize, ArgError>)
    ensures
        r == resolve_min_utxos(field),
{
    match field {
        Some(ArgValue::Number(n)) => if n <= usize::MAX as u64 {
            Ok(n as usize)
        } else {
            Err(ArgError::MinUtxosTooLarge { value: n })
        },
        Some(ArgValue::NotNumber) => Err(ArgError::InvalidMinUtxos),
        None => Ok(DEFAULT_MIN_UTXOS),
    }
}

/// The fee rate (per kilobyte) and minimum coin count that a consolidation
/// request asks for, checked against the node's acceptable fee rate range.
pub fn parse_consolidate_args(args: &ConsolidateArgs, feerates: &Feerates) -> (r: Result<(u32, usize), ArgError>)
    ensures
        r == consolidate_args(*args, *feerates),
{
    let (fr_field, count_field) = match args {
        ConsolidateArgs::Positional(v) => {
            if v.len() > 2 {
                return Err(ArgError::TooManyArguments);
            }
            let first = if v.len() > 0 { Some(v[0]) } else { None };
            let second = if v.len() > 1 { Some(v[1]) } else { None };
            (first, second)
        },
        ConsolidateArgs::Named { feerate, min_utxos } => (*feerate, *min_utxos),
        ConsolidateArgs::Unsupported => {
            return Err(ArgError::UnsupportedArguments);
        },
    };
    let feerate = match feerate_of(fr_field, feerates) {
        Ok(f) => f,
        Err(e) => {
            return Err(e);
        },
    };
    let count = match min_utxos_of(count_field) {
        Ok(c) => c,
        Err(e) => {
            return Err(e);
        },
    };
    if feerate < feerates.min_acceptable {
        return Err(ArgError::BelowMinAcceptable { feerate, min_acceptable: feerates.min_acceptable });
    }
    if feerate > feerates.max_acceptable {
        return Err(ArgError::AboveMaxAcceptable { feerate, max_acceptable: feerates.max_acceptable });
    }
    Ok((feerate, count))
}

/// How the fee multiplier option reads as a decimal number.
#[derive(Clone, Copy, Debug, PartialEq, Eq, Structural)]
pub enum FeeMultiplier {
    Unparsable,
    /// A number outside [0.3, 3.0].
    OutOfRange,
    /// A number within [0.3, 3.0].
    InRange,
}

/// A startup option that disables the plugin.
#[derive(Clone, Copy, Debug, PartialEq, Eq, Structural)]
pub enum OptionError {
    FeeMultiplierUnparsable,
    FeeMultiplierOutOfRange,
    IntervalOutOfRange { interval: i64 },
}

/// The startup check of the options: the fee multiplier must be a number in
/// [0.3, 3.0] and the check interval at least one second.
pub fn check_options(fee_multi: FeeMultiplier, interval: i64) -> (r: Result<(), OptionError>)
    ensures
        fee_multi == FeeMultiplier::Unparsable ==> r == Err::<(), OptionError>(
            OptionError::FeeMultiplierUnparsable,
        ),
        fee_multi == FeeMultiplier::OutOfRange ==> r == Err::<(), OptionError>(
            OptionError::FeeMultiplierOutOfRange,
        ),
        fee_multi == FeeMultiplier::InRange ==> r == if interval < 1 {
            Err(OptionError::IntervalOutOfRange { interval })
        } else {
            Ok(())
        },
{
    match fee_multi {
        FeeMultiplier::Unparsable => Err(OptionError::FeeMultiplierUnparsable),
        FeeMultiplier::OutOfRange => Err(OptionError::FeeMultiplierOutOfRange),
        FeeMultiplier::InRange => if interval < 1 {
            Err(OptionError::IntervalOutOfRange { interval })
        } else {
            Ok(())
        },
    }
}

} // verus!
