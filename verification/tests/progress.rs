use artifact_fetch::progress::Ratio;

#[test]
fn ratio_is_held_down_to_one() {
    assert_eq!(Ratio::of(0, 4), Ratio { num: 0, den: 4 });
    assert_eq!(Ratio::of(3, 4), Ratio { num: 3, den: 4 });
    assert_eq!(Ratio::of(4, 4), Ratio { num: 4, den: 4 });
    assert_eq!(Ratio::of(9, 4), Ratio { num: 4, den: 4 });
    assert_eq!(Ratio::of(u64::MAX, 1), Ratio { num: 1, den: 1 });
}

#[test]
fn ratio_of_an_unknown_total_is_unknown() {
    let r = Ratio::of(7, 0);
    assert_eq!(r, Ratio { num: 0, den: 0 });
    assert!(!r.known());
    assert!(!r.complete());
}

#[test]
fn zero_and_one() {
    assert_eq!(Ratio::zero(), Ratio { num: 0, den: 1 });
    assert_eq!(Ratio::one(), Ratio { num: 1, den: 1 });
    assert!(Ratio::zero().known());
    assert!(!Ratio::zero().complete());
    assert!(Ratio::one().complete());
    assert!(Ratio::of(250, 1000).known());
    assert!(!Ratio::of(250, 1000).complete());
    assert!(Ratio::of(1000, 1000).complete());
}
