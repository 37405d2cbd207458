use tccd::frames::FrameCursor;
use tccd::trace::{flush_due, DetectionType, RecorderType};
use tccd::validate::{missed_collisions, pair_reported};
use tccd::SimulationConfig;

#[test]
fn detection_tags() {
    assert_eq!(DetectionType::CellList.tag(), "cell_list");
    assert_eq!(DetectionType::Tccd.tag(), "tccd");
    assert_eq!(DetectionType::SweptAabb.tag(), "swept_aabb");
}

#[test]
fn trace_file_names() {
    assert_eq!(DetectionType::Tccd.trace_file_name("particles", 500), "particles_tccd_500.csv");
    assert_eq!(DetectionType::SweptAabb.trace_file_name("events", 0), "events_swept_aabb_0.csv");
    assert_eq!(
        DetectionType::CellList.trace_file_name("checks", u64::MAX),
        "checks_cell_list_18446744073709551615.csv"
    );
}

#[test]
fn recorder_kinds() {
    assert!(RecorderType::All.records_snapshots());
    assert!(RecorderType::All.records_events());
    assert!(RecorderType::All.records_checks());
    assert!(RecorderType::Events.records_events());
    assert!(!RecorderType::Events.records_snapshots());
    assert!(!RecorderType::Snapshots.records_checks());
}

#[test]
fn flush_every_sixty_frames() {
    assert!(flush_due(0));
    assert!(flush_due(120));
    assert!(!flush_due(61));
}

#[test]
fn pair_reported_in_either_order() {
    let rep = vec![(3, 7), (1, 2)];
    assert!(pair_reported(&rep, 7, 3));
    assert!(pair_reported(&rep, 1, 2));
    assert!(!pair_reported(&rep, 1, 3));
    assert!(!pair_reported(&Vec::new(), 0, 1));
}

#[test]
fn missed_collisions_are_the_unreported_hits() {
    let hits = vec![(0, 1), (2, 3), (4, 5)];
    let rep = vec![(3, 2)];
    assert_eq!(missed_collisions(&hits, &rep), vec![0, 2]);
}

#[test]
fn no_miss_when_every_hit_is_reported() {
    let hits = vec![(0, 1), (2, 3)];
    let rep = vec![(1, 0), (2, 3), (8, 9)];
    assert_eq!(missed_collisions(&hits, &rep), Vec::<usize>::new());
}

#[test]
fn cursor_groups_rows_by_frame() {
    let rows: Vec<(u64, char)> = vec![(1, 'a'), (1, 'b'), (2, 'c'), (4, 'd'), (4, 'e')];
    let mut cur = FrameCursor::new();
    let mut it = rows.into_iter();
    let mut read = |frame: u64, cur: &mut FrameCursor<char>| {
        let mut out = Vec::new();
        let (first, mut go) = cur.begin(frame);
        out.extend(first);
        while go {
            match it.next() {
                None => break,
                Some((f, r)) => {
                    let (taken, more) = cur.offer(frame, f, r);
                    out.extend(taken);
                    go = more;
                }
            }
        }
        out
    };
    assert_eq!(read(1, &mut cur), vec!['a', 'b']);
    assert_eq!(read(2, &mut cur), vec!['c']);
    assert_eq!(read(3, &mut cur), Vec::<char>::new());
    assert_eq!(read(4, &mut cur), vec!['d', 'e']);
    assert_eq!(read(5, &mut cur), Vec::<char>::new());
}

#[test]
fn cursor_drops_rows_of_passed_frames() {
    let mut cur = FrameCursor::new();
    assert_eq!(cur.offer(3, 2, 'x'), (None, true));
    assert_eq!(cur.offer(3, 5, 'y'), (None, false));
    assert_eq!(cur.begin(6), (None, true));
    assert_eq!(cur.begin(6), (None, true));
}

#[test]
fn config_holds_its_fields() {
    let c = SimulationConfig { fullscreen: true, fps: 30 };
    assert!(c.fullscreen);
    assert_eq!(c.fps, 30);
}
