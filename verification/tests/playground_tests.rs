use engine_core::{PlaygroundError, PlaygroundState, StepRequest, WireInputEdge};

fn edge(button: &str, kind: &str) -> WireInputEdge {
    WireInputEdge { button: button.to_owned(), kind: kind.to_owned() }
}

#[test]
fn hard_drop_advances_the_authoritative_session() {
    let mut state = PlaygroundState::new(7).ok().expect("valid playground");
    let view = state.step(StepRequest { edges: vec![edge("hard_drop", "press")] }).ok().expect("hard drop");

    assert_eq!(view.frame, 1);
    assert_eq!(view.pieces_placed, 1);
    assert!(view.last_event.contains("고정"));
}

#[test]
fn view_exposes_only_the_twenty_visible_rows() {
    let state = PlaygroundState::new(11).ok().expect("valid playground");
    let view = state.view();
    assert_eq!(view.board_rows.len(), 20);
    assert_eq!(view.garbage_rows.len(), 20);
    assert!(view.active.is_some());
}

#[test]
fn invalid_wire_input_is_rejected() {
    let mut state = PlaygroundState::new(13).ok().expect("valid playground");
    assert!(state.step(StepRequest { edges: vec![edge("teleport", "press")] }).is_err());
}

#[test]
fn invalid_edge_kind_names_the_kind_and_leaves_the_session() {
    let mut state = PlaygroundState::new(13).ok().expect("valid playground");
    let before = state.view();
    match state.step(StepRequest { edges: vec![edge("left", "tap")] }) {
        Err(error @ PlaygroundError::Input(_)) => {
            assert_eq!(error.message(), "input error: unknown edge kind");
        }
        _ => panic!("expected an input error"),
    }
    match state.step(StepRequest { edges: vec![edge("teleport", "press")] }) {
        Err(PlaygroundError::Input(message)) => assert_eq!(message, "unknown button"),
        _ => panic!("expected an input error"),
    }
    assert_eq!(state.view().frame, before.frame);
}

#[test]
fn fresh_view_reports_ready_and_a_five_piece_preview() {
    let mut state = PlaygroundState::new(3).ok().expect("valid playground");
    let view = state.view();
    assert_eq!(view.frame, 0);
    assert_eq!(view.last_event, "준비 완료");
    assert_eq!(view.preview.len(), 5);
    assert!(view.hold.is_none());
    let timing = view.timing.clone().expect("a piece is falling");
    assert_eq!(timing.last_action, "none");
    let active_kind = view.active.as_ref().map(|a| a.kind);
    assert_eq!(view.active.as_ref().expect("active piece").cells.len(), 4);

    let held = state.step(StepRequest { edges: vec![edge("hold", "press")] }).ok().expect("hold");
    assert_eq!(held.last_event, "HOLD");
    assert_eq!(held.hold, active_kind);

    let reset = state.reset(3).ok().expect("reset");
    assert_eq!(reset.frame, 0);
    assert_eq!(reset.preview, view.preview);
}

#[test]
fn rotation_reports_direction_and_kick_in_the_timing_view() {
    let mut state = PlaygroundState::new(5).ok().expect("valid playground");
    let view = state.step(StepRequest { edges: vec![edge("rotate_clockwise", "press")] }).ok().expect("rotate");
    let timing = view.timing.expect("piece still falling");
    assert!(timing.last_action.starts_with("rotation:cw:kick"), "{}", timing.last_action);
}
