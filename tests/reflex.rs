use latencyflex2_core::{ReflexId, ReflexMappingTracker};

#[test]
fn external_id_binding() {
    let mut t: ReflexMappingTracker<&'static str> = ReflexMappingTracker::new();
    t.add_frame("A");
    t.add_frame("B");
    t.mark_simulation_begin(ReflexId(42));
    t.present(ReflexId(41));
    assert_eq!(t.get(ReflexId(41)), None);
    assert_eq!(t.get(ReflexId(42)), Some("B"));
}

#[test]
fn presented_ids_are_gone() {
    let mut t: ReflexMappingTracker<u32> = ReflexMappingTracker::new();
    t.add_frame(1);
    t.mark_simulation_begin(ReflexId(5));
    t.present(ReflexId(5));
    assert_eq!(t.get(ReflexId(5)), None);
    assert_eq!(t.get(ReflexId(3)), None);
}

#[test]
fn queued_frame_binds_to_simulation_start() {
    let mut t: ReflexMappingTracker<u32> = ReflexMappingTracker::new();
    t.add_frame(7);
    t.mark_simulation_begin(ReflexId(10));
    assert_eq!(t.get(ReflexId(10)), Some(7));
    // a second lookup keeps the binding
    assert_eq!(t.get(ReflexId(10)), Some(7));
}

#[test]
fn untracked_id_yields_nothing() {
    let mut t: ReflexMappingTracker<u32> = ReflexMappingTracker::new();
    t.mark_simulation_begin(ReflexId(3));
    t.add_frame(9);
    // 3 was bound to nothing before 9 arrived
    assert_eq!(t.get(ReflexId(3)), None);
    // 4 takes the waiting handle
    assert_eq!(t.get(ReflexId(4)), Some(9));
}

#[test]
fn get_without_handle_asks_for_recalibration() {
    let mut t: ReflexMappingTracker<u32> = ReflexMappingTracker::new();
    assert_eq!(t.get(ReflexId(1)), None);
    t.add_frame(2);
    // recalibration drops the waiting handle
    t.recalibrate();
    assert_eq!(t.get(ReflexId(1)), None);
}

#[test]
fn render_begin_changes_nothing() {
    let mut t: ReflexMappingTracker<u32> = ReflexMappingTracker::new();
    t.add_frame(4);
    t.mark_render_begin(ReflexId(1));
    assert_eq!(t.get(ReflexId(1)), Some(4));
}

#[test]
fn eight_waiting_frames_are_tolerated() {
    let mut t: ReflexMappingTracker<u32> = ReflexMappingTracker::new();
    for f in 1..=8 {
        t.add_frame(f);
    }
    t.recalibrate();
    assert_eq!(t.get(ReflexId(1)), Some(8));
}

#[test]
fn queue_overflow_triggers_recalibration() {
    let mut t: ReflexMappingTracker<u32> = ReflexMappingTracker::new();
    for f in 1..=9 {
        t.add_frame(f);
    }
    t.recalibrate();
    assert_eq!(t.get(ReflexId(1)), None);
    t.add_frame(10);
    assert_eq!(t.get(ReflexId(2)), Some(10));
}
