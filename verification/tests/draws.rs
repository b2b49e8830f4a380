use tacos::chance::{
    arrival_from_draws, cloud_return, cloud_start, draw_arrival, spin_from_draws, taco_spin, Arrival,
};

#[test]
fn spin_follows_the_power_of_minus_one() {
    assert_eq!(spin_from_draws(12, 1), -12);
    assert_eq!(spin_from_draws(12, 2), 12);
    assert_eq!(spin_from_draws(10, 3), -10);
    assert_eq!(spin_from_draws(14, 0), 14);
}

#[test]
fn arrival_side_follows_the_direction_draw() {
    assert_eq!(arrival_from_draws(45, 1), Some(Arrival { from_left: true, speed: 45 }));
    assert_eq!(arrival_from_draws(45, 2), Some(Arrival { from_left: false, speed: -45 }));
    assert_eq!(arrival_from_draws(45, 3), None);
    assert_eq!(arrival_from_draws(45, 0), None);
}

#[test]
fn clouds_appear_in_the_sky() {
    for _ in 0..500 {
        let c = cloud_start();
        assert!(c.x < 400);
        assert!((40..450).contains(&c.y));
        assert!((10..40).contains(&c.speed));
        let r = cloud_return();
        assert!((40..450).contains(&r.y));
        assert!((20..50).contains(&r.speed));
    }
}

#[test]
fn tacos_spin_both_ways() {
    let spins: Vec<i32> = (0..400).map(|_| taco_spin()).collect();
    assert!(spins.iter().all(|w| (10..15).contains(w) || (-14..=-10).contains(w)));
    assert!(spins.iter().any(|w| *w > 0));
    assert!(spins.iter().any(|w| *w < 0));
    // The magnitude is drawn too, not fixed at the low end.
    assert!(spins.iter().any(|w| w.abs() > 10));
}

#[test]
fn passers_by_walk_in_from_both_sides() {
    let mut left = false;
    let mut right = false;
    for _ in 0..400 {
        let a = draw_arrival().expect("a side is always drawn");
        if a.from_left {
            assert!((30..70).contains(&a.speed));
            left = true;
        } else {
            assert!((-69..=-30).contains(&a.speed));
            right = true;
        }
    }
    assert!(left && right);
}
