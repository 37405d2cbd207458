use tccd::collision::{earliest, Collision, Toi};
use tccd::detector::{CellListDetector, ParticleScan, SweptAabbDetector, TccdDetector};
use tccd::solver::{FrameLoop, Wall, MAX_ITER};

fn bits(t: f32) -> u32 {
    t.to_bits()
}

#[test]
fn time_bits_order_as_times() {
    assert!(bits(0.45) < bits(0.794));
    assert!(bits(0.0) < bits(1e-30));
    assert!(bits(1.0 / 30.0) > bits(0.0333));
}

#[test]
fn earliest_takes_the_smallest_time() {
    let c = vec![
        None,
        Some(Toi::new(bits(0.794), Collision::Wall(1))),
        Some(Toi::new(bits(0.45), Collision::Pair(0, 2))),
        None,
    ];
    assert_eq!(earliest(&c), Some(Toi::new(bits(0.45), Collision::Pair(0, 2))));
}

#[test]
fn earliest_breaks_ties_by_position() {
    let c = vec![
        Some(Toi::new(bits(0.5), Collision::Pair(0, 1))),
        Some(Toi::new(bits(0.5), Collision::Pair(1, 2))),
    ];
    assert_eq!(earliest(&c), Some(Toi::new(bits(0.5), Collision::Pair(0, 1))));
}

#[test]
fn earliest_of_nothing_is_none() {
    assert_eq!(earliest(&Vec::new()), None);
    assert_eq!(earliest(&vec![None, None]), None);
}

#[test]
fn scan_keeps_the_earliest_pair_and_shrinks_the_window() {
    let mut s = ParticleScan::new(1, bits(1.0 / 30.0));
    assert!(!s.wants(1));
    assert!(!s.wants(0));
    assert!(s.wants(2));
    s.offer_pair(2, Some(bits(0.02)));
    assert_eq!(s.window, bits(0.02));
    s.offer_pair(3, Some(bits(0.025)));
    assert_eq!(s.best, Some(Toi::new(bits(0.02), Collision::Pair(1, 2))));
    s.offer_pair(4, Some(bits(0.01)));
    assert_eq!(s.best, Some(Toi::new(bits(0.01), Collision::Pair(1, 4))));
    s.offer_pair(5, None);
    assert_eq!(s.window, bits(0.01));
}

#[test]
fn scan_wall_beats_later_pair_without_shrinking() {
    let mut s = ParticleScan::new(0, bits(0.1));
    s.offer_pair(3, Some(bits(0.08)));
    s.offer_wall(Some(bits(0.03)));
    assert_eq!(s.best, Some(Toi::new(bits(0.03), Collision::Wall(0))));
    assert_eq!(s.window, bits(0.08));
    let mut t = ParticleScan::new(0, bits(0.1));
    t.offer_wall(Some(bits(0.2)));
    assert_eq!(t.best, None);
}

#[test]
fn tccd_skips_the_wall_once_the_window_is_closed() {
    let mut s = ParticleScan::new(0, bits(0.1));
    s.offer_pair(1, Some(0.0f32.to_bits()));
    assert!(!TccdDetector.checks_wall(&s));
    assert!(CellListDetector.checks_wall(&s));
    assert!(SweptAabbDetector.checks_wall(&s));
    assert!(TccdDetector.checks_wall(&ParticleScan::new(0, bits(0.1))));
}

#[test]
fn frame_loop_resolves_one_event_per_sub_iteration() {
    let mut l = FrameLoop::new();
    let mut resolved = 0;
    while l.running() {
        assert!(l.start(false));
        let found = if resolved < 2 { Some(Toi::new(bits(0.01), Collision::Pair(0, 1))) } else { None };
        if l.settle(found).is_some() {
            resolved += 1;
        }
        assert_eq!(l.iterations, resolved);
    }
    assert_eq!(resolved, 2);
    assert!(l.finished);
}

#[test]
fn frame_loop_stops_at_the_cap() {
    let mut l = FrameLoop::new();
    let mut n = 0;
    while l.running() {
        l.start(false);
        l.settle(Some(Toi::new(bits(0.0), Collision::Wall(0))));
        n += 1;
    }
    assert_eq!(n, MAX_ITER);
    assert_eq!(MAX_ITER, 100);
    assert!(!l.finished);
}

#[test]
fn frame_loop_ends_when_the_rest_is_spent() {
    let mut l = FrameLoop::new();
    assert!(!l.start(true));
    assert!(l.finished);
    assert!(!l.running());
}

#[test]
fn wall_follows_the_reached_edge() {
    assert_eq!(Wall::reached(false, true, false), Wall::Right);
    assert_eq!(Wall::reached(true, false, true), Wall::Left);
    assert_eq!(Wall::reached(false, false, true), Wall::Bottom);
    assert_eq!(Wall::reached(false, false, false), Wall::Top);
    assert_eq!(Wall::Right.tag(), "right");
    assert_eq!(Wall::Right.normal(), (1, 0));
    assert_eq!(Wall::Bottom.normal(), (0, -1));
    assert_eq!(Wall::Top.tag(), "top");
}

#[test]
fn collision_involves_its_particles() {
    assert!(Collision::Pair(2, 5).involves(5));
    assert!(!Collision::Pair(2, 5).involves(3));
    assert!(Collision::Wall(4).involves(4));
}
