use deep_causality::fixtures::{get_test_inf_coll, get_test_inferable, get_test_obs_coll, get_test_observation};
use deep_causality::inference::{all_inferable, all_inverse_inferable, Inference};
use deep_causality::numeric::NumericalValue;
use deep_causality::observation::{number_observation, percent_observation, Observation};

fn frac(n: u64, d: u64) -> NumericalValue {
    NumericalValue::Finite { negative: false, numerator: n, denominator: d }
}

fn same_value(a: &NumericalValue, b: &NumericalValue) -> bool {
    a.ge(b) && b.ge(a)
}

#[test]
fn percent_observation_positive_framing() {
    let all_obs = get_test_obs_coll();
    let p = percent_observation(&all_obs, &NumericalValue::from_integer(10), true);
    // all five samples reach 10, three of them show the effect
    assert_eq!(p, frac(3, 5));
    assert_eq!(number_observation(&all_obs, &NumericalValue::from_integer(10), true), 3);
}

#[test]
fn percent_observation_inverse_framing() {
    let all_obs = get_test_obs_coll();
    let p = percent_observation(&all_obs, &NumericalValue::from_integer(11), false);
    assert!(same_value(&p, &NumericalValue::from_integer(1)));
    assert_eq!(number_observation(&all_obs, &NumericalValue::from_integer(11), false), 2);
}

#[test]
fn percent_observation_nothing_crosses() {
    let all_obs = get_test_obs_coll();
    let p = percent_observation(&all_obs, &NumericalValue::from_integer(100), true);
    assert!(p.is_nan());
    let empty: Vec<Observation> = Vec::new();
    assert!(percent_observation(&empty, &NumericalValue::from_integer(0), true).is_nan());
}

#[test]
fn effect_observed_needs_both() {
    let o = get_test_observation();
    assert!(o.effect_observed(&NumericalValue::from_integer(14), true));
    assert!(!o.effect_observed(&NumericalValue::from_integer(15), true));
    assert!(!o.effect_observed(&NumericalValue::from_integer(10), false));
}

#[test]
fn numeric_comparisons() {
    let t = NumericalValue::ratio(55, 100);
    assert!(NumericalValue::ratio(55, 100).ge(&t));
    assert!(NumericalValue::ratio(11, 20).ge(&t));
    assert!(!NumericalValue::ratio(549, 1000).ge(&t));
    assert!(!NumericalValue::NotANumber.ge(&t));
    assert!(!t.ge(&NumericalValue::NotANumber));
    assert!(NumericalValue::Infinite { negative: false }.ge(&t));
    assert!(!NumericalValue::Infinite { negative: true }.ge(&t));
    let neg = NumericalValue::Finite { negative: true, numerator: 1, denominator: 1 };
    assert!(t.ge(&neg));
    assert!(!neg.ge(&t));
    let neg_zero = NumericalValue::Finite { negative: true, numerator: 0, denominator: 1 };
    assert!(neg_zero.ge(&NumericalValue::from_integer(0)));
    assert!(neg_zero.is_sign_negative());
    let neg_half = NumericalValue::Finite { negative: true, numerator: 1, denominator: 2 };
    assert!(neg_half.ge(&neg));
    assert!(!neg.ge(&neg_half));
}

#[test]
fn ratio_by_zero() {
    assert!(NumericalValue::ratio(0, 0).is_nan());
    assert!(NumericalValue::ratio(3, 0).is_infinite());
    assert!(!NumericalValue::ratio(3, 0).is_sign_negative());
}

#[test]
fn inference_framings() {
    let pos = get_test_inferable(0, false);
    let inv = get_test_inferable(1, true);
    assert!(pos.is_inferable());
    assert!(!pos.is_inverse_inferable());
    assert!(inv.is_inverse_inferable());
    assert!(!inv.is_inferable());
    let weak = Inference::new(2, String::new(), NumericalValue::ratio(1, 2), NumericalValue::ratio(55, 100), true, true);
    assert!(!weak.is_inferable());
    let coll = get_test_inf_coll();
    assert!(!all_inferable(&coll));
    assert!(!all_inverse_inferable(&coll));
    assert!(all_inferable(&vec![pos]));
    assert!(all_inverse_inferable(&vec![inv]));
}

#[test]
fn test_inference_collection_order() {
    let coll = get_test_inf_coll();
    assert_eq!(coll.len(), 2);
    assert_eq!(coll[0].id, 0);
    assert!(!coll[0].effect && !coll[0].target);
    assert!(coll[0].is_inverse_inferable());
    assert_eq!(coll[1].id, 1);
    assert!(coll[1].effect && coll[1].target);
    assert!(coll[1].is_inferable());
}
