use nlopt::{to_res, NLError, NLResult};

#[test]
fn every_success_code_is_typed() {
    assert_eq!(to_res(1), Ok(NLResult::Success));
    assert_eq!(to_res(2), Ok(NLResult::StopvalReached));
    assert_eq!(to_res(3), Ok(NLResult::FTolReached));
    assert_eq!(to_res(4), Ok(NLResult::XTolReached));
    assert_eq!(to_res(5), Ok(NLResult::MaxEvalReached));
    assert_eq!(to_res(6), Ok(NLResult::MaxTimeReached));
}

#[test]
fn every_failure_code_is_typed() {
    assert_eq!(to_res(-1), Err(NLError::Failure));
    assert_eq!(to_res(-2), Err(NLError::InvalidArgs));
    assert_eq!(to_res(-3), Err(NLError::OutOfMemory));
    assert_eq!(to_res(-4), Err(NLError::RoundoffLimited));
    assert_eq!(to_res(-5), Err(NLError::ForcedStop));
}

#[test]
fn zero_is_unknown() {
    assert_eq!(to_res(0), Err(NLError::Unknown));
}

#[test]
fn codes_out_of_range_are_unknown() {
    assert_eq!(to_res(7), Err(NLError::Unknown));
    assert_eq!(to_res(-6), Err(NLError::Unknown));
    assert_eq!(to_res(100), Err(NLError::Unknown));
    assert_eq!(to_res(i32::MAX), Err(NLError::Unknown));
    assert_eq!(to_res(i32::MIN), Err(NLError::Unknown));
}

#[test]
fn recognized_codes_have_distinct_meanings() {
    let codes = [-5, -4, -3, -2, -1, 1, 2, 3, 4, 5, 6];
    for a in codes {
        for b in codes {
            if a != b {
                assert_ne!(to_res(a), to_res(b));
            }
        }
        assert_ne!(to_res(a), Err(NLError::Unknown));
    }
}

#[test]
fn success_from_i32() {
    assert_eq!(NLResult::from_i32(1), Some(NLResult::Success));
    assert_eq!(NLResult::from_i32(4), Some(NLResult::XTolReached));
    assert_eq!(NLResult::from_i32(6), Some(NLResult::MaxTimeReached));
    assert_eq!(NLResult::from_i32(0), None);
    assert_eq!(NLResult::from_i32(7), None);
    assert_eq!(NLResult::from_i32(-1), None);
}

#[test]
fn failure_from_i32() {
    assert_eq!(NLError::from_i32(-5), Some(NLError::ForcedStop));
    assert_eq!(NLError::from_i32(-2), Some(NLError::InvalidArgs));
    assert_eq!(NLError::from_i32(-1), Some(NLError::Failure));
    assert_eq!(NLError::from_i32(0), Some(NLError::Unknown));
    assert_eq!(NLError::from_i32(1), None);
    assert_eq!(NLError::from_i32(-6), None);
}

#[test]
fn codes_round_trip() {
    let successes = [
        NLResult::Success,
        NLResult::StopvalReached,
        NLResult::FTolReached,
        NLResult::XTolReached,
        NLResult::MaxEvalReached,
        NLResult::MaxTimeReached,
    ];
    for (i, r) in successes.iter().enumerate() {
        assert_eq!(r.code(), i as i32 + 1);
        assert_eq!(to_res(r.code()), Ok(*r));
        assert_eq!(NLResult::from_i32(r.code()), Some(*r));
    }
    let failures = [
        NLError::ForcedStop,
        NLError::RoundoffLimited,
        NLError::OutOfMemory,
        NLError::InvalidArgs,
        NLError::Failure,
        NLError::Unknown,
    ];
    for (i, e) in failures.iter().enumerate() {
        assert_eq!(e.code(), i as i32 - 5);
        assert_eq!(to_res(e.code()), Err(*e));
        assert_eq!(NLError::from_i32(e.code()), Some(*e));
    }
}
