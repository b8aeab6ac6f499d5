use star_turns::fleet::turns_between;
use star_turns::galaxy::Position;
use star_turns::math::kth_root;
use star_turns::rng::rand_range;

fn pos(x: i64, y: i64) -> Position {
    Position { x, y }
}

#[test]
fn travel_time_zero_distance_is_one_turn() {
    assert_eq!(turns_between(pos(0, 0), pos(0, 0)), 1);
    assert_eq!(turns_between(pos(42, -17), pos(42, -17)), 1);
}

#[test]
fn travel_time_exact_values() {
    // Distance 10 is still one turn; 90 units take four turns; 200 take 15.
    assert_eq!(turns_between(pos(0, 0), pos(10, 0)), 1);
    assert_eq!(turns_between(pos(0, 0), pos(90, 0)), 4);
    assert_eq!(turns_between(pos(0, 0), pos(0, 200)), 15);
}

#[test]
fn travel_time_is_symmetric() {
    let a = pos(13, -40);
    let b = pos(-25, 161);
    assert_eq!(turns_between(a, b), turns_between(b, a));
    let c = pos(0, 0);
    let d = pos(300, 300);
    assert_eq!(turns_between(c, d), turns_between(d, c));
}

#[test]
fn travel_time_is_at_least_one() {
    for d in [0i64, 1, 5, 50, 500, 5000] {
        assert!(turns_between(pos(0, 0), pos(d, 0)) >= 1);
    }
}

#[test]
fn travel_time_is_monotone_in_distance() {
    let mut last = 0u32;
    for d in 0..400i64 {
        let t = turns_between(pos(0, 0), pos(d, 0));
        assert!(t >= last);
        last = t;
    }
}

#[test]
fn kth_root_exact_values() {
    assert_eq!(kth_root(0, 2), 0);
    assert_eq!(kth_root(8, 3), 2);
    assert_eq!(kth_root(7, 3), 1);
    assert_eq!(kth_root(100_000_000_000_000, 5), 630);
    assert_eq!(kth_root(630u128.pow(5), 5), 630);
    assert_eq!(kth_root(631u128.pow(5) - 1, 5), 630);
}

#[test]
fn random_range_stays_in_range() {
    // A one-element range has only one possible answer, so this fails if
    // the generator ever hands back anything but a value below the bound.
    for _ in 0..100 {
        assert_eq!(rand_range(7, 8), 7);
    }
    for _ in 0..100 {
        let r = rand_range(3, 10);
        assert!((3..10).contains(&r));
    }
}
