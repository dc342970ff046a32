use dice::dice::{sort_ascending, Dice, DiceRoller, Endpoint, Interval, StdDice, ToUniform, UniformRange};
use rand::rngs::StdRng;
use rand::SeedableRng;

#[test]
fn dice_new() {
    let dice = Dice::new(2, 1..=20, 1, 0, 0);

    assert_eq!(2, dice.count);
    assert_eq!(1, dice.multiplier);
    assert_eq!(0, dice.modifier);
    assert_eq!(0, dice.drop);
}

#[test]
fn dice_default() {
    let dice_0 = StdDice::default();

    assert_eq!(1, dice_0.count);
    assert_eq!(1..=6, dice_0.range);
    assert_eq!(1, dice_0.multiplier);
    assert_eq!(0, dice_0.modifier);
    assert_eq!(0, dice_0.drop);

    let dice_1 = Dice {
        count: 3,
        range: 1..=20,
        multiplier: 2,
        modifier: 1,
        ..Default::default()
    };

    assert_eq!(3, dice_1.count);
    assert_eq!(1..=20, dice_1.range);
    assert_eq!(2, dice_1.multiplier);
    assert_eq!(1, dice_1.modifier);
    assert_eq!(0, dice_1.drop);
}

#[test]
fn dice_roll_with_rng() {
    let dice = Dice {
        count: 2,
        range: 1..=20,
        modifier: 2,
        ..Default::default()
    };
    let mut rng = StdRng::from_entropy();

    for _ in 0..100 {
        assert!(4 <= dice.roll_with_rng(&mut rng));
        assert!(42 >= dice.roll_with_rng(&mut rng));
    }
}

#[test]
fn dice_roller_from_rng() {
    let _dice_roller_0 = DiceRoller::from_rng(StdRng::from_entropy());
    let _dice_roller_1 = DiceRoller::from_seed(42);
}

#[test]
fn dice_roller_default() {
    let _dice_roller = DiceRoller::new().unwrap();
}

#[test]
fn dice_roller_roll_dice() {
    let mut dice_roller = DiceRoller::new().unwrap();
    let dice = Dice {
        count: 3,
        range: 1..=6,
        modifier: 4,
        ..Default::default()
    };

    for _ in 0..100 {
        assert!(7 <= dice_roller.roll_dice(&dice));
        assert!(22 >= dice_roller.roll_dice(&dice));
    }
}

#[test]
fn dice_drop_exceeds_count() {
    let mut dice_roller = DiceRoller::new().unwrap();
    let dice = Dice {
        count: 3,
        range: 1..=6,
        modifier: 4,
        ..Default::default()
    };

    for _ in 0..100 {
        assert!(7 <= dice_roller.roll_dice(&dice));
        assert!(22 >= dice_roller.roll_dice(&dice));
    }

    let clamped = Dice::new(3, 1..=6, 1, 4, 5);
    assert_eq!(3, clamped.drop);
    for _ in 0..100 {
        assert_eq!(4, dice_roller.roll_dice(&clamped));
    }
}

#[test]
fn dice_roller_roll_dice_times() {
    let mut dice_roller = DiceRoller::new().unwrap();
    let dice = Dice {
        count: 3,
        range: 1..=6,
        modifier: 4,
        ..Default::default()
    };

    let rolls = dice_roller.roll_dice_times(&dice, 10);
    assert_eq!(10, rolls.len());
    for roll in rolls {
        assert!(7 <= roll);
        assert!(22 >= roll);
    }
}

#[test]
fn roll_times_counts() {
    let mut roller = DiceRoller::from_seed(3);
    assert_eq!(0, roller.roll_times(1, 1..=6, 1, 0, 0, 0).len());
    assert_eq!(0, roller.roll_times(1, 1..=6, 1, 0, 0, -4).len());
    let rolls = roller.roll_times(2, 1..=4, 3, -1, 1, 25);
    assert_eq!(25, rolls.len());
    for r in rolls {
        assert!((2..=11).contains(&r));
    }
    let v = roller.roll(4, 1..=6, -2, 0, 0);
    assert!((-48..=-8).contains(&v));
}

#[test]
fn seeded_rollers_repeat() {
    let dice = Dice::new(5, 1..=100, 1, 0, 0);
    let mut a = DiceRoller::from_seed(99);
    let mut b = DiceRoller::from_seed(99);
    assert_eq!(a.roll_dice_times(&dice, 20), b.roll_dice_times(&dice, 20));
}

#[test]
fn roll_samples_exact() {
    let dice = Dice::new(3, 1..=6, 2, 1, 1);
    assert_eq!(17, dice.roll_samples(&vec![5, 1, 3]));
    let all = Dice::new(3, 1..=6, 2, 7, 3);
    assert_eq!(7, all.roll_samples(&vec![6, 6, 6]));
    let none = Dice::new(0, 1..=6, 2, 7, 0);
    assert_eq!(7, none.roll_samples(&vec![]));
    let negative = Dice::new(4, 1..=6, -3, 2, 2);
    assert_eq!(-3 * (4 + 6) + 2, negative.roll_samples(&vec![6, 1, 4, 2]));
}

#[test]
fn sort_ascending_sorts() {
    assert_eq!(vec![-3, 1, 1, 2, 9], sort_ascending(&vec![9, 1, -3, 2, 1]));
    assert_eq!(Vec::<i64>::new(), sort_ascending(&vec![]));
}

#[test]
fn ranges_to_uniform() {
    assert_eq!(UniformRange { low: 2, high: 9, high_inclusive: true }, (2..=9).to_uniform());
    assert_eq!(UniformRange { low: 2, high: 9, high_inclusive: false }, (2..9).to_uniform());
    let from = Interval { start: Endpoint::Excluded(3), end: Endpoint::Unbounded };
    assert_eq!(UniformRange { low: 3, high: 0, high_inclusive: true }, from.to_uniform());
    let to = Interval { start: Endpoint::Unbounded, end: Endpoint::Excluded(5) };
    assert_eq!(UniformRange { low: 0, high: 5, high_inclusive: false }, to.to_uniform());
    assert!((5..5).to_uniform().is_empty());
    assert!(!(5..=5).to_uniform().is_empty());
}

#[test]
fn half_open_dice_roll() {
    let dice = Dice::new(10, 3..5, 1, 0, 0);
    let mut roller = DiceRoller::from_seed(1);
    for _ in 0..100 {
        let v = roller.roll_dice(&dice);
        assert!((30..=40).contains(&v));
    }
    let fixed = Dice::new(4, 7..8, 1, 0, 0);
    assert_eq!(28, roller.roll_dice(&fixed));
    let single = Dice::new(3, 9..=9, 2, 1, 1);
    assert_eq!(37, roller.roll_dice(&single));
}

#[test]
fn can_roll_limits() {
    assert!(Dice::new(3, 1..=6, 1, 0, 0).can_roll());
    assert!(Dice::new(0, 1..=0, 1, 0, 0).can_roll());
    assert!(!Dice::new(3, 1..=0, 1, 0, 0).can_roll());
    assert!(!Dice::new(3, 4..4, 1, 0, 0).can_roll());
    assert!(!Dice::new(3, 1..=6, 1, 0, -1).can_roll());
    assert!(!Dice::new(2, 1..=i64::MAX, 1, 0, 0).can_roll());
    assert!(Dice::new(1, 1..=i64::MAX, 1, 0, 0).can_roll());
    assert!(!Dice::new(1, 1..=i64::MAX, 1, 1, 0).can_roll());
    assert!(!Dice::new(1000, 1..=1000, i64::MAX, 0, 0).can_roll());
}

#[test]
fn can_roll_counts_kept_dice_and_signs() {
    let all_dropped = Dice::new(2, 1..=i64::MAX, 1, 7, 3);
    assert_eq!(2, all_dropped.drop);
    assert!(all_dropped.can_roll());
    let mut roller = DiceRoller::from_seed(5);
    assert_eq!(7, roller.roll_dice(&all_dropped));

    let (_, balanced) = dice::parse::parse_str("1d4611686018427387904-4611686018427387904").unwrap();
    assert!(balanced.can_roll());
    let v = roller.roll_dice(&balanced);
    assert!(v <= 0 && v >= 1 - 4611686018427387904);

    assert!(!Dice::new(1, 1..=i64::MAX, 2, 0, 0).can_roll());
    assert!(Dice::new(1, 1..=i64::MAX, -1, 0, 0).can_roll());
    assert!(!Dice::new(1, 1..=i64::MAX, -1, -2, 0).can_roll());
    assert!(Dice::new(2, -5..=-1, 3, 0, 1).can_roll());
}

#[test]
fn exhausted_range_has_exclusive_end() {
    let mut r = 1..=3;
    assert_eq!(Some(1), r.next());
    assert_eq!(Some(2), r.next());
    assert_eq!(Some(3), r.next());
    let u = r.to_uniform();
    assert!(!u.high_inclusive);
    assert!(u.is_empty());
    assert!(!Dice::new(1, r, 1, 0, 0).can_roll());
    assert_eq!(UniformRange { low: 5, high: 2, high_inclusive: true }, (5..=2).to_uniform());
}
