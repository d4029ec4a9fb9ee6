use bullet_lib::shogi_halfkp::{HalfKPError, ShogiHalfKPInputs, ShogiHalfKPSample};

struct Sample {
    stm: Vec<u32>,
    ntm: Vec<u32>,
}

impl ShogiHalfKPSample for Sample {
    fn stm_features(&self) -> &[u32] {
        &self.stm
    }

    fn ntm_features(&self) -> &[u32] {
        &self.ntm
    }
}

fn inputs(mirrored: bool) -> ShogiHalfKPInputs<Sample> {
    ShogiHalfKPInputs::new(1548, 81, 40, mirrored)
}

#[test]
fn dimensions_are_kept() {
    let inputs = inputs(true);
    assert_eq!(inputs.plane_count(), 1548);
    assert_eq!(inputs.king_square_count(), 81);
    assert_eq!(inputs.max_active(), 40);
    assert!(inputs.horizontally_mirrored());
    assert_eq!(inputs.num_inputs(), 125_388);
    let copy = inputs.clone();
    assert_eq!(copy.shorthand(), inputs.shorthand());
    assert_eq!(copy.max_active(), 40);
}

#[test]
fn names_show_the_dimensions() {
    assert_eq!(inputs(false).shorthand(), "1548x81");
    assert_eq!(inputs(true).shorthand(), "1548x81hm");
    assert_eq!(
        inputs(false).description(),
        "Shogi HalfKP inputs (plane_count=1548, king_squares=81, hm=false)"
    );
    assert_eq!(
        inputs(true).description(),
        "Shogi HalfKP inputs (plane_count=1548, king_squares=81, hm=true)"
    );
}

#[test]
fn features_are_mapped_in_order() {
    let sample = Sample { stm: vec![5, 1, 125_387], ntm: vec![0, 9, 3] };
    let inputs = inputs(false);
    let mut seen = Vec::new();
    assert_eq!(inputs.map_features(&sample, |stm, ntm| seen.push((stm, ntm))), Ok(()));
    assert_eq!(seen, vec![(5, 0), (1, 9), (125_387, 3)]);
    assert_eq!(inputs.pair_features(&sample.stm, &sample.ntm), Ok(seen));
}

#[test]
fn misfitting_samples_are_mapped_up_to_the_first_bad_index() {
    let inputs = inputs(false);
    let mut seen = Vec::new();
    let long = Sample { stm: vec![1, 2], ntm: vec![1] };
    assert_eq!(inputs.map_features(&long, |s, n| seen.push((s, n))), Err(HalfKPError::LengthMismatch));
    let many = Sample { stm: vec![1; 41], ntm: vec![1; 41] };
    assert_eq!(inputs.map_features(&many, |s, n| seen.push((s, n))), Err(HalfKPError::TooManyActive));
    let huge = ShogiHalfKPInputs::<Sample>::new(usize::MAX, 2, 4, false);
    let fine = Sample { stm: vec![1], ntm: vec![2] };
    assert_eq!(huge.map_features(&fine, |s, n| seen.push((s, n))), Err(HalfKPError::DimensionOverflow));
    assert!(seen.is_empty());

    let high = Sample { stm: vec![1, 7, 4, 125_388, 5], ntm: vec![3, 2, 125_388, 1, 6] };
    assert_eq!(inputs.map_features(&high, |s, n| seen.push((s, n))), Err(HalfKPError::IndexOutOfRange));
    assert_eq!(seen, vec![(1, 3), (7, 2)]);
    assert_eq!(
        inputs.hand_out(&high.stm, &high.ntm),
        (vec![(1, 3), (7, 2)], Err(HalfKPError::IndexOutOfRange))
    );
    assert_eq!(inputs.pair_features(&high.stm, &high.ntm), Err(HalfKPError::IndexOutOfRange));
}

#[test]
fn pairs_stay_in_range() {
    let inputs = ShogiHalfKPInputs::<Sample>::new(3, 2, 4, false);
    let pairs = inputs.pair_features(&[0, 5, 2], &[5, 0, 1]).unwrap();
    assert!(pairs.len() <= inputs.max_active());
    assert!(pairs.iter().all(|&(stm, ntm)| stm < inputs.num_inputs() && ntm < inputs.num_inputs()));
}

#[test]
fn names_tell_inputs_apart() {
    let a = ShogiHalfKPInputs::<Sample>::new(1, 23, 4, false);
    let b = ShogiHalfKPInputs::<Sample>::new(12, 3, 4, false);
    assert_ne!(a.shorthand(), b.shorthand());
    assert_ne!(a.description(), b.description());
    let c = ShogiHalfKPInputs::<Sample>::new(1, 23, 4, true);
    assert_ne!(a.shorthand(), c.shorthand());
    assert_ne!(a.description(), c.description());
}

#[test]
fn misfits_are_named() {
    let inputs = inputs(false);
    assert_eq!(inputs.check_features(&[1], &[1, 2]), Err(HalfKPError::LengthMismatch));
    assert_eq!(inputs.check_features(&[1; 41], &[1; 41]), Err(HalfKPError::TooManyActive));
    assert_eq!(inputs.check_features(&[1; 40], &[1; 40]), Ok(()));
    assert_eq!(inputs.check_features(&[125_388], &[1]), Err(HalfKPError::IndexOutOfRange));
    assert_eq!(inputs.check_features(&[1], &[125_388]), Err(HalfKPError::IndexOutOfRange));
    assert_eq!(inputs.check_features(&[], &[]), Ok(()));

    let huge = ShogiHalfKPInputs::<Sample>::new(usize::MAX, 2, 4, false);
    assert_eq!(huge.check_features(&[], &[]), Err(HalfKPError::DimensionOverflow));
}

#[test]
fn misfits_have_messages() {
    assert_eq!(HalfKPError::LengthMismatch.message(), "HalfKP feature lengths must match");
    assert_eq!(HalfKPError::TooManyActive.message(), "HalfKP feature count exceeded max_active");
    assert_eq!(HalfKPError::DimensionOverflow.message(), "HalfKP input dimension overflow");
    assert_eq!(HalfKPError::IndexOutOfRange.message(), "HalfKP index out of range");
}
