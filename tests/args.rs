use consolidator::parse::{
    check_options, get_blockcount_feerate, parse_consolidate_args, ArgError, ArgValue,
    ConsolidateArgs, EstimateError, FeeEstimate, FeeMultiplier, Feerates, OptionError,
};

fn feerates() -> Feerates {
    Feerates {
        min_acceptable: 5,
        max_acceptable: 40,
        estimates: Some(vec![
            FeeEstimate { blockcount: 2, feerate: 30 },
            FeeEstimate { blockcount: 6, feerate: 12 },
            FeeEstimate { blockcount: 6, feerate: 99 },
            FeeEstimate { blockcount: 12, feerate: 8 },
        ]),
    }
}

#[test]
fn explicit_feerate_above_max_acceptable() {
    let args = ConsolidateArgs::Named { feerate: Some(ArgValue::Number(50)), min_utxos: None };
    assert_eq!(
        parse_consolidate_args(&args, &feerates()),
        Err(ArgError::AboveMaxAcceptable { feerate: 50, max_acceptable: 40 })
    );
}

#[test]
fn explicit_feerate_below_min_acceptable() {
    let args = ConsolidateArgs::Positional(vec![ArgValue::Number(4)]);
    assert_eq!(
        parse_consolidate_args(&args, &feerates()),
        Err(ArgError::BelowMinAcceptable { feerate: 4, min_acceptable: 5 })
    );
}

#[test]
fn defaults_use_six_block_estimate_and_ten_coins() {
    let named = ConsolidateArgs::Named { feerate: None, min_utxos: None };
    assert_eq!(parse_consolidate_args(&named, &feerates()), Ok((12, 10)));
    let positional = ConsolidateArgs::Positional(Vec::new());
    assert_eq!(parse_consolidate_args(&positional, &feerates()), Ok((12, 10)));
}

#[test]
fn both_fields_given() {
    let positional = ConsolidateArgs::Positional(vec![ArgValue::Number(40), ArgValue::Number(3)]);
    assert_eq!(parse_consolidate_args(&positional, &feerates()), Ok((40, 3)));
    let named = ConsolidateArgs::Named {
        feerate: Some(ArgValue::Number(5)),
        min_utxos: Some(ArgValue::Number(0)),
    };
    assert_eq!(parse_consolidate_args(&named, &feerates()), Ok((5, 0)));
}

#[test]
fn too_many_positional_arguments() {
    let args = ConsolidateArgs::Positional(vec![ArgValue::Number(10); 3]);
    assert_eq!(parse_consolidate_args(&args, &feerates()), Err(ArgError::TooManyArguments));
}

#[test]
fn unsupported_argument_shape() {
    assert_eq!(
        parse_consolidate_args(&ConsolidateArgs::Unsupported, &feerates()),
        Err(ArgError::UnsupportedArguments)
    );
}

#[test]
fn invalid_and_oversized_fields() {
    let f = feerates();
    let bad_rate = ConsolidateArgs::Positional(vec![ArgValue::NotNumber, ArgValue::NotNumber]);
    assert_eq!(parse_consolidate_args(&bad_rate, &f), Err(ArgError::InvalidFeerate));
    let big_rate = ConsolidateArgs::Positional(vec![ArgValue::Number(1 << 32)]);
    assert_eq!(
        parse_consolidate_args(&big_rate, &f),
        Err(ArgError::FeerateTooLarge { value: 1 << 32 })
    );
    let bad_count = ConsolidateArgs::Named { feerate: None, min_utxos: Some(ArgValue::NotNumber) };
    assert_eq!(parse_consolidate_args(&bad_count, &f), Err(ArgError::InvalidMinUtxos));
}

#[test]
fn missing_estimate_when_no_feerate_given() {
    let args = ConsolidateArgs::Named { feerate: None, min_utxos: None };
    let none = Feerates { min_acceptable: 1, max_acceptable: 100, estimates: None };
    assert_eq!(
        parse_consolidate_args(&args, &none),
        Err(ArgError::NoFeerate { cause: EstimateError::NoEstimates })
    );
    let other = Feerates {
        min_acceptable: 1,
        max_acceptable: 100,
        estimates: Some(vec![FeeEstimate { blockcount: 2, feerate: 30 }]),
    };
    assert_eq!(
        parse_consolidate_args(&args, &other),
        Err(ArgError::NoFeerate { cause: EstimateError::NoBlockcount { blockcount: 6 } })
    );
}

#[test]
fn first_matching_estimate_is_used() {
    let f = feerates();
    assert_eq!(get_blockcount_feerate(&f, 6), Ok(12));
    assert_eq!(get_blockcount_feerate(&f, 12), Ok(8));
    assert_eq!(get_blockcount_feerate(&f, 3), Err(EstimateError::NoBlockcount { blockcount: 3 }));
}

#[test]
fn option_checks() {
    assert_eq!(check_options(FeeMultiplier::InRange, 3600), Ok(()));
    assert_eq!(check_options(FeeMultiplier::InRange, 1), Ok(()));
    assert_eq!(
        check_options(FeeMultiplier::InRange, 0),
        Err(OptionError::IntervalOutOfRange { interval: 0 })
    );
    assert_eq!(
        check_options(FeeMultiplier::OutOfRange, 3600),
        Err(OptionError::FeeMultiplierOutOfRange)
    );
    assert_eq!(
        check_options(FeeMultiplier::Unparsable, -1),
        Err(OptionError::FeeMultiplierUnparsable)
    );
}
