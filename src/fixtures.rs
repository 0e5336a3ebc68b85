use std::collections::HashMap;
use vstd::prelude::*;

use crate::assumption::{Assumption, HasData};
use crate::causaloid::{build_causaloid, spec_validated, Causaloid, CausaloidKind, ThresholdFn};
use crate::inference::{all_inferences_wf, Inference};
use crate::numeric::NumericalValue;
use crate::observation::{
    all_wf, count_crossing, count_effect, percent_observation, spec_percent_observation,
    Observation,
};

verus! {

broadcast use vstd::std_specs::hash::group_hash_axioms;

/// A finite, non-negative ratio.
pub open spec fn frac(numerator: u64, denominator: u64) -> NumericalValue {
    NumericalValue::Finite { negative: false, numerator, denominator }
}

pub open spec fn obs(id: u64, value: u64, effect: bool) -> Observation {
    Observation { id, observation: frac(value, 1), observed_effect: effect }
}

/// The sample observations: three of value 10 with the effect, then 12 and
/// 14 without it.
pub open spec fn sample_observations() -> Seq<Observation> {
    seq![
        obs(0, 10, true),
        obs(1, 10, true),
        obs(2, 10, true),
        obs(3, 12, false),
        obs(4, 14, false),
    ]
}

/// The acceptance threshold of the sample inferences, 0.55.
pub open spec fn acceptance_threshold() -> NumericalValue {
    frac(55, 100)
}

/// Target threshold and effect of the positive (10, effect) or the inverse
/// (11, no effect) framing.
pub open spec fn framing(inverse: bool) -> (NumericalValue, bool) {
    if inverse {
        (frac(11, 1), false)
    } else {
        (frac(10, 1), true)
    }
}

/// The observed probability under each framing: 3 of 5 crossing samples show
/// the effect at 10; 2 of 2 lack it at 11.
pub proof fn lemma_sample_shares()
    ensures
        count_effect(sample_observations(), frac(10, 1), true) == 3,
        count_crossing(sample_observations(), frac(10, 1)) == 5,
        count_effect(sample_observations(), frac(11, 1), false) == 2,
        count_crossing(sample_observations(), frac(11, 1)) == 2,
        spec_percent_observation(sample_observations(), frac(10, 1), true) == frac(3, 5),
        spec_percent_observation(sample_observations(), frac(11, 1), false) == frac(2, 2),
{
    let s = sample_observations();
    let s4 = seq![obs(0, 10, true), obs(1, 10, true), obs(2, 10, true), obs(3, 12, false)];
    let s3 = seq![obs(0, 10, true), obs(1, 10, true), obs(2, 10, true)];
    let s2 = seq![obs(0, 10, true), obs(1, 10, true)];
    let s1 = seq![obs(0, 10, true)];
    let s0 = Seq::<Observation>::empty();
    assert(s.drop_last() =~= s4);
    assert(s4.drop_last() =~= s3);
    assert(s3.drop_last() =~= s2);
    assert(s2.drop_last() =~= s1);
    assert(s1.drop_last() =~= s0);
    reveal_with_fuel(count_effect, 6);
    reveal_with_fuel(count_crossing, 6);
}

/// Two finite non-negative ratios compare by their cross products.
pub proof fn lemma_finite_ge(an: u64, ad: u64, bn: u64, bd: u64)
    requires
        ad > 0,
        bd > 0,
    ensures
        frac(an, ad).spec_ge(frac(bn, bd)) == ((an as int) * (bd as int) >= (bn as int) * (ad as int)),
{
    assert(frac(an, ad).signed_numerator() == an as int);
    assert(frac(bn, bd).signed_numerator() == bn as int);
    assert(frac(an, ad).spec_denominator() == ad as int);
    assert(frac(bn, bd).spec_denominator() == bd as int);
}

pub fn get_test_obs_coll() -> (r: Vec<Observation>)
    ensures
        r@ == sample_observations(),
{
    let mut v: Vec<Observation> = Vec::new();
    v.push(Observation::new(0, NumericalValue::from_integer(10), true));
    v.push(Observation::new(1, NumericalValue::from_integer(10), true));
    v.push(Observation::new(2, NumericalValue::from_integer(10), true));
    v.push(Observation::new(3, NumericalValue::from_integer(12), false));
    v.push(Observation::new(4, NumericalValue::from_integer(14), false));
    assert(v@ =~= sample_observations());
    v
}

/// An inference over the sample observations under the positive framing, or
/// under the inverse one.
pub fn get_test_inferable(id: u64, inverse: bool) -> (r: Inference)
    ensures
        r.id == id,
        r.question@ == Seq::<char>::empty(),
        r.observation == spec_percent_observation(sample_observations(), framing(inverse).0, framing(inverse).1),
        r.observation == (if inverse { frac(2, 2) } else { frac(3, 5) }),
        r.threshold == acceptance_threshold(),
        r.effect == !inverse,
        r.target == !inverse,
        r.wf(),
{
    proof {
        lemma_sample_shares();
    }
    let question = String::new();
    let all_obs = get_test_obs_coll();
    assert(all_wf(all_obs@));
    if inverse {
        let target_threshold = NumericalValue::from_integer(11);
        let observation = percent_observation(&all_obs, &target_threshold, false);
        let threshold = NumericalValue::ratio(55, 100);
        Inference::new(id, question, observation, threshold, false, false)
    } else {
        let target_threshold = NumericalValue::from_integer(10);
        let observation = percent_observation(&all_obs, &target_threshold, true);
        let threshold = NumericalValue::ratio(55, 100);
        Inference::new(id, question, observation, threshold, true, true)
    }
}

/// Three sample inferences, with ids 0, 1, 1, all under one framing.
pub fn get_inferable_coll(inverse: bool) -> (r: Vec<Inference>)
    ensures
        r@.len() == 3,
        r@[0].id == 0 && r@[1].id == 1 && r@[2].id == 1,
        forall|i: int|
            0 <= i < 3 ==> (#[trigger] r@[i]).observation == (if inverse {
                frac(2, 2)
            } else {
                frac(3, 5)
            }) && r@[i].threshold == acceptance_threshold() && r@[i].effect == !inverse
                && r@[i].target == !inverse && r@[i].question@ == Seq::<char>::empty(),
        all_inferences_wf(r@),
{
    let mut v: Vec<Inference> = Vec::new();
    v.push(get_test_inferable(0, inverse));
    v.push(get_test_inferable(1, inverse));
    v.push(get_test_inferable(1, inverse));
    v
}

/// Two sample inferences: id 0 under the inverse framing, id 1 under the
/// positive one.
pub fn get_test_inf_coll() -> (r: Vec<Inference>)
    ensures
        r@.len() == 2,
        r@[0].id == 0 && !r@[0].effect && !r@[0].target && r@[0].observation == frac(2, 2),
        r@[1].id == 1 && r@[1].effect && r@[1].target && r@[1].observation == frac(3, 5),
        forall|i: int| 0 <= i < 2 ==> (#[trigger] r@[i]).threshold == acceptance_threshold()
            && r@[i].question@ == Seq::<char>::empty(),
        all_inferences_wf(r@),
{
    let mut v: Vec<Inference> = Vec::new();
    v.push(get_test_inferable(0, true));
    v.push(get_test_inferable(1, false));
    v
}

/// The sample causaloid: id 1, the threshold function at 0.55, built on the
/// sample inferences.
pub fn get_test_causaloid() -> (r: Causaloid<ThresholdFn>)
    ensures
        r.wf(),
        r.spec_id() == 1,
        r.spec_description() == "tests whether data exceeds threshold of 0.55"@,
        r.spec_data_set_id() == "Test data"@,
        r.spec_active(),
        r.spec_kind() == CausaloidKind::Singleton(ThresholdFn { threshold: acceptance_threshold() }),
{
    let id: u64 = 1;
    let description = "tests whether data exceeds threshold of 0.55".to_string();
    let data_set_id = "Test data".to_string();
    let inferable_coll = get_inferable_coll(false);
    let inverse_inferable_coll = get_inferable_coll(true);
    let causal_fn = ThresholdFn { threshold: NumericalValue::ratio(55, 100) };
    proof {
        lemma_finite_ge(3, 5, 55, 100);
        lemma_finite_ge(2, 2, 55, 100);
        assert(spec_validated(inferable_coll@, inverse_inferable_coll@));
    }
    let built = build_causaloid(id, causal_fn, description, data_set_id, &inferable_coll, &inverse_inferable_coll);
    built.unwrap()
}

pub fn get_test_observation() -> (r: Observation)
    ensures
        r == obs(0, 14, true),
{
    Observation::new(0, NumericalValue::from_integer(14), true)
}

/// The sample assumption: id 1, that there is data at all.
pub fn get_test_assumption() -> (r: Assumption<HasData>)
    ensures
        r.id == 1,
        r.description@ == "Test assumption that data are there"@,
        r.assumption_fn == HasData,
{
    let id: u64 = 1;
    let description = "Test assumption that data are there".to_string();
    Assumption::new(id, description, HasData)
}

pub fn get_test_assumption_coll() -> (r: Vec<Assumption<HasData>>)
    ensures
        r@.len() == 3,
        forall|i: int|
            0 <= i < 3 ==> (#[trigger] r@[i]).id == 1 && r@[i].assumption_fn == HasData
                && r@[i].description@ == "Test assumption that data are there"@,
{
    let mut v: Vec<Assumption<HasData>> = Vec::new();
    v.push(get_test_assumption());
    v.push(get_test_assumption());
    v.push(get_test_assumption());
    v
}

pub fn get_test_assumption_map() -> (r: HashMap<i8, Assumption<HasData>>)
    ensures
        r@.dom() == set![1i8, 2i8, 3i8],
        forall|k: i8|
            #[trigger] r@.contains_key(k) ==> r@[k].id == 1 && r@[k].assumption_fn == HasData
                && r@[k].description@ == "Test assumption that data are there"@,
{
    let mut m: HashMap<i8, Assumption<HasData>> = HashMap::new();
    m.insert(1, get_test_assumption());
    m.insert(2, get_test_assumption());
    m.insert(3, get_test_assumption());
    assert(m@.dom() =~= set![1i8, 2i8, 3i8]);
    m
}

pub open spec fn is_test_causaloid(c: Causaloid<ThresholdFn>) -> bool {
    &&& c.wf()
    &&& c.spec_id() == 1
    &&& c.spec_description() == "tests whether data exceeds threshold of 0.55"@
    &&& c.spec_data_set_id() == "Test data"@
    &&& c.spec_active()
    &&& c.spec_kind() == CausaloidKind::Singleton(ThresholdFn { threshold: acceptance_threshold() })
}

pub fn get_test_causality_array() -> (r: [Causaloid<ThresholdFn>; 10])
    ensures
        forall|i: int| 0 <= i < 10 ==> is_test_causaloid(#[trigger] r@[i]),
{
    [
        get_test_causaloid(),
        get_test_causaloid(),
        get_test_causaloid(),
        get_test_causaloid(),
        get_test_causaloid(),
        get_test_causaloid(),
        get_test_causaloid(),
        get_test_causaloid(),
        get_test_causaloid(),
        get_test_causaloid(),
    ]
}

pub fn get_test_causality_coll() -> (r: Vec<Causaloid<ThresholdFn>>)
    ensures
        r@.len() == 3,
        forall|i: int| 0 <= i < 3 ==> is_test_causaloid(#[trigger] r@[i]),
{
    let mut v: Vec<Causaloid<ThresholdFn>> = Vec::new();
    v.push(get_test_causaloid());
    v.push(get_test_causaloid());
    v.push(get_test_causaloid());
    v
}

pub fn get_test_causality_map() -> (r: HashMap<i8, Causaloid<ThresholdFn>>)
    ensures
        r@.dom() == set![1i8, 2i8, 3i8],
        forall|k: i8| #[trigger] r@.contains_key(k) ==> is_test_causaloid(r@[k]),
{
    let mut m: HashMap<i8, Causaloid<ThresholdFn>> = HashMap::new();
    m.insert(1, get_test_causaloid());
    m.insert(2, get_test_causaloid());
    m.insert(3, get_test_causaloid());
    assert(m@.dom() =~= set![1i8, 2i8, 3i8]);
    m
}

/// Ten sample values between 8.4 and 9.9, in tenths.
pub fn get_test_num_array() -> (r: [NumericalValue; 10])
    ensures
        r@ == seq![
            frac(84, 10),
            frac(85, 10),
            frac(91, 10),
            frac(93, 10),
            frac(94, 10),
            frac(95, 10),
            frac(97, 10),
            frac(97, 10),
            frac(99, 10),
            frac(99, 10),
        ],
{
    let r = [
        NumericalValue::ratio(84, 10),
        NumericalValue::ratio(85, 10),
        NumericalValue::ratio(91, 10),
        NumericalValue::ratio(93, 10),
        NumericalValue::ratio(94, 10),
        NumericalValue::ratio(95, 10),
        NumericalValue::ratio(97, 10),
        NumericalValue::ratio(97, 10),
        NumericalValue::ratio(99, 10),
        NumericalValue::ratio(99, 10),
    ];
    assert(r@ =~= seq![
        frac(84, 10),
        frac(85, 10),
        frac(91, 10),
        frac(93, 10),
        frac(94, 10),
        frac(95, 10),
        frac(97, 10),
        frac(97, 10),
        frac(99, 10),
        frac(99, 10),
    ]);
    r
}

} // verus!
