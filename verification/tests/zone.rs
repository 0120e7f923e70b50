use black_hole::AnimationState;
use black_hole::Animator;
use black_hole::BlackHole;
use black_hole::BoundaryAction;
use black_hole::FrameScale;
use black_hole::ScaleTargets;
use black_hole::DURATION_MS;
use black_hole::scale_targets;

#[test]
fn fresh_zone_is_open_and_idle() {
    let z = BlackHole::new();
    assert!(z.open());
    assert!(!z.in_transition());
    assert_eq!(z.candidate_count(), 0);
    assert_eq!(z.captured_count(), 0);
}

#[test]
fn closing_captures_candidates() {
    // Zone starts open and idle with an empty registry; one object enters,
    // the zone is toggled shut, and after a full duration of updates the
    // object is captured and the contraction begins.
    let mut z = BlackHole::new();
    z.enter(1);
    assert!(z.is_candidate(1));
    z.toggle();
    assert!(!z.open());
    assert!(z.is_expanding());
    let action = z.update(DURATION_MS);
    assert!(z.is_contracting());
    assert!(z.is_captured(1));
    assert!(!z.is_candidate(1));
    assert_eq!(z.captured_count(), 1);
    assert_eq!(z.candidate_count(), 0);
    match action.boundary {
        BoundaryAction::Capture(ids) => assert_eq!(ids, vec![1]),
        other => panic!("expected a capture boundary, got {:?}", other),
    }
    let action = z.update(DURATION_MS);
    assert!(!z.in_transition());
    assert!(z.is_captured(1));
    assert_eq!(action.boundary, BoundaryAction::Keep);
}

#[test]
fn reopening_releases_captured() {
    let mut z = BlackHole::new();
    z.enter(1);
    z.toggle();
    z.update(DURATION_MS);
    z.update(DURATION_MS);
    assert!(z.is_captured(1));
    z.toggle();
    assert!(z.open());
    assert!(z.is_expanding());
    let action = z.update(DURATION_MS);
    assert!(z.is_contracting());
    assert!(!z.is_captured(1));
    assert!(z.is_candidate(1));
    assert_eq!(z.captured_count(), 0);
    match action.boundary {
        BoundaryAction::Release(ids) => assert_eq!(ids, vec![1]),
        other => panic!("expected a release boundary, got {:?}", other),
    }
    z.update(DURATION_MS);
    assert!(!z.in_transition());
}

#[test]
fn rapid_toggle_discards_in_flight_phase() {
    let mut z = BlackHole::new();
    z.enter(1);
    z.toggle();
    let action = z.update(100);
    assert_eq!(action.boundary, BoundaryAction::Keep);
    z.toggle();
    // Two flips: open is back where it started, and the animation restarted
    // from a fresh expansion, so 200 ms later it is still expanding.
    assert!(z.open());
    let action = z.update(200);
    assert!(z.is_expanding());
    assert_eq!(action.boundary, BoundaryAction::Keep);
    // No completion action of the discarded phase ever ran: the object was
    // never captured.
    assert!(z.is_candidate(1));
    assert_eq!(z.captured_count(), 0);
    // The restarted cycle completes as a release of the (empty) captured
    // set, leaving the candidate in place.
    let action = z.update(50);
    match action.boundary {
        BoundaryAction::Release(ids) => assert!(ids.is_empty()),
        other => panic!("expected a release boundary, got {:?}", other),
    }
    assert!(z.is_candidate(1));
    assert_eq!(z.captured_count(), 0);
}

#[test]
fn in_transition_spans_both_phases() {
    let mut z = BlackHole::new();
    assert!(!z.in_transition());
    z.toggle();
    assert!(z.in_transition());
    z.update(100);
    assert!(z.in_transition());
    z.update(150);
    assert!(z.in_transition());
    assert!(z.is_contracting());
    z.update(249);
    assert!(z.in_transition());
    z.update(1);
    assert!(!z.in_transition());
}

#[test]
fn update_never_flips_open() {
    let mut z = BlackHole::new();
    z.toggle();
    assert!(!z.open());
    for _ in 0..20 {
        z.update(37);
        assert!(!z.open());
    }
    z.toggle();
    assert!(z.open());
    for _ in 0..20 {
        z.update(37);
        assert!(z.open());
    }
}

#[test]
fn update_while_idle_is_a_noop() {
    let mut z = BlackHole::new();
    z.enter(8);
    let action = z.update(1000);
    assert!(!z.in_transition());
    assert_eq!(action.scale, FrameScale::Inactive);
    assert_eq!(action.targets, ScaleTargets { field: false, zone: false });
    assert_eq!(action.boundary, BoundaryAction::Keep);
    assert!(z.is_candidate(8));
}

#[test]
fn fragmented_time_reaches_the_same_state() {
    let mut big = BlackHole::new();
    let mut small = BlackHole::new();
    for z in [&mut big, &mut small] {
        z.enter(1);
        z.enter(2);
        z.toggle();
    }
    big.update(DURATION_MS);
    big.update(DURATION_MS);
    for _ in 0..5 {
        small.update(50);
    }
    for _ in 0..5 {
        small.update(50);
    }
    for z in [&big, &small] {
        assert!(!z.open());
        assert!(!z.in_transition());
        assert!(z.is_captured(1));
        assert!(z.is_captured(2));
        assert_eq!(z.candidate_count(), 0);
        assert_eq!(z.captured_count(), 2);
    }
}

#[test]
fn oversized_delta_saturates() {
    let mut z = BlackHole::new();
    z.toggle();
    let action = z.update(u64::MAX);
    assert!(z.is_contracting());
    assert_eq!(
        action.scale,
        FrameScale::Expanding { elapsed_ms: DURATION_MS }
    );
    z.update(u64::MAX);
    assert!(!z.in_transition());
}

#[test]
fn frame_scale_reports_clamped_elapsed() {
    let mut z = BlackHole::new();
    z.toggle();
    let a = z.update(100);
    assert_eq!(a.scale, FrameScale::Expanding { elapsed_ms: 100 });
    let a = z.update(100);
    assert_eq!(a.scale, FrameScale::Expanding { elapsed_ms: 200 });
    let a = z.update(100);
    assert_eq!(a.scale, FrameScale::Expanding { elapsed_ms: 250 });
    let a = z.update(100);
    assert_eq!(a.scale, FrameScale::Contracting { elapsed_ms: 100 });
    let a = z.update(1000);
    assert_eq!(a.scale, FrameScale::Contracting { elapsed_ms: 250 });
    assert!(!z.in_transition());
}

#[test]
fn scale_target_table() {
    let idle = AnimationState::Idle;
    let expand = AnimationState::Expand(Animator::begin());
    let contract = AnimationState::Contract(Animator::begin());
    assert_eq!(scale_targets(&idle, true), ScaleTargets { field: false, zone: false });
    assert_eq!(scale_targets(&idle, false), ScaleTargets { field: false, zone: false });
    // Opening: the interactive volume follows the animation.
    assert_eq!(scale_targets(&expand, true), ScaleTargets { field: true, zone: true });
    assert_eq!(scale_targets(&contract, true), ScaleTargets { field: true, zone: false });
    // Closing: the interactive volume must not re-expand, only the
    // invisible collision field keeps tracking the full animated scale.
    assert_eq!(scale_targets(&expand, false), ScaleTargets { field: true, zone: false });
    assert_eq!(scale_targets(&contract, false), ScaleTargets { field: true, zone: true });
}

#[test]
fn closing_update_gates_zone_scale() {
    let mut z = BlackHole::new();
    z.toggle();
    // Closing, expanding: field only.
    let a = z.update(10);
    assert_eq!(a.targets, ScaleTargets { field: true, zone: false });
    let a = z.update(240);
    assert_eq!(a.targets, ScaleTargets { field: true, zone: false });
    // Closing, contracting: the volume shrinks to swallow its contents.
    let a = z.update(10);
    assert_eq!(a.targets, ScaleTargets { field: true, zone: true });
}

#[test]
fn stale_callbacks_race_harmlessly() {
    let mut z = BlackHole::new();
    z.enter(1);
    z.toggle();
    z.update(DURATION_MS);
    assert!(z.is_captured(1));
    // A leave notification that raced with the promotion is a no-op.
    z.leave(1);
    assert!(z.is_captured(1));
    assert_eq!(z.captured_count(), 1);
    // An out-of-band release drops ownership without touching candidates.
    z.release(1);
    assert!(!z.is_captured(1));
    assert!(!z.is_candidate(1));
    // A second release of the same identifier stays a no-op.
    z.release(1);
    assert_eq!(z.captured_count(), 0);
}

#[test]
fn out_of_band_capture_is_exclusive() {
    let mut z = BlackHole::new();
    z.enter(6);
    z.capture(6);
    assert!(z.is_captured(6));
    assert!(!z.is_candidate(6));
    assert_eq!(z.candidate_count(), 0);
    assert_eq!(z.captured_count(), 1);
}
