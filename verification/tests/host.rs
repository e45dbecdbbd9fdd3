use ash_renderer::frames::{FrameCursor, MAX_FRAMES_IN_FLIGHT};
use ash_renderer::host::{GateStep, ResizeGate, DRAG_QUIET_NS};

#[test]
fn quiet_window_draws() {
    let mut gate = ResizeGate::new();
    assert_eq!(gate.step(0), (GateStep::Draw, false));
    assert_eq!(gate.step(1_000_000_000), (GateStep::Draw, false));
}

#[test]
fn minimized_window_skips_until_restored() {
    let mut gate = ResizeGate::new();
    gate.on_resized(true, 10);
    assert_eq!(gate.step(20), (GateStep::Minimized { first: true }, false));
    assert_eq!(gate.step(30), (GateStep::Minimized { first: false }, false));
    gate.on_resized(false, 40);
    // restored: wait for the drag to settle, then rebuild once
    assert_eq!(gate.step(50), (GateStep::Settling, true));
    assert_eq!(gate.step(40 + DRAG_QUIET_NS - 1), (GateStep::Settling, false));
    assert_eq!(gate.step(40 + DRAG_QUIET_NS), (GateStep::Rebuild, false));
    assert_eq!(gate.step(40 + DRAG_QUIET_NS + 1), (GateStep::Draw, false));
}

#[test]
fn every_resize_restarts_the_quiet_period() {
    let mut gate = ResizeGate::new();
    gate.on_resized(false, 0);
    gate.on_resized(false, 100_000_000);
    assert_eq!(gate.step(200_000_000), (GateStep::Settling, false));
    assert_eq!(gate.step(250_000_000), (GateStep::Rebuild, false));
}

#[test]
fn rebuild_requests_wait_for_quiet() {
    let mut gate = ResizeGate::new();
    gate.request_rebuild();
    // no resize message yet: already quiet
    assert_eq!(gate.step(5), (GateStep::Rebuild, false));
    gate.on_resized(false, 1_000);
    assert_eq!(gate.step(1_000 + DRAG_QUIET_NS), (GateStep::Rebuild, false));
    gate.request_rebuild();
    assert_eq!(gate.step(1_000 + DRAG_QUIET_NS + 1), (GateStep::Rebuild, false));
}

#[test]
fn frame_slots_cycle() {
    let mut cursor = FrameCursor::new(MAX_FRAMES_IN_FLIGHT);
    assert_eq!(cursor.current(), 0);
    cursor.advance();
    assert_eq!(cursor.current(), 1);
    cursor.advance();
    assert_eq!(cursor.current(), 0);
}
