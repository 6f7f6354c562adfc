use vstd::prelude::*;
use crate::board::{HEIGHT, WIDTH};
use crate::rotation::RotationDirection;
use crate::timing::FrameInput;

verus! {

#[derive(Clone, Copy, Debug, PartialEq, Eq, Structural)]
pub enum InputButton {
    Left,
    Right,
    SoftDrop,
    HardDrop,
    RotateClockwise,
    RotateCounterclockwise,
    RotateHalf,
    Hold,
}

#[derive(Clone, Copy, Debug, PartialEq, Eq, Structural)]
pub enum InputEdgeKind {
    Press,
    Release,
}

#[derive(Clone, Copy, Debug, PartialEq, Eq, Structural)]
pub struct InputEdge {
    pub button: InputButton,
    pub kind: InputEdgeKind,
}

impl InputEdge {
    pub fn press(button: InputButton) -> (r: Self)
        ensures
            r == (InputEdge { button, kind: InputEdgeKind::Press }),
    {
        InputEdge { button, kind: InputEdgeKind::Press }
    }

    pub fn release(button: InputButton) -> (r: Self)
        ensures
            r == (InputEdge { button, kind: InputEdgeKind::Release }),
    {
        InputEdge { button, kind: InputEdgeKind::Release }
    }
}

#[derive(Clone, Copy, Debug, PartialEq, Eq, Structural)]
pub enum SoftDropMode {
    Disabled,
    CellsPerFrame(u16),
    Sonic,
}

#[derive(Clone, Copy, Debug, PartialEq, Eq, Structural)]
pub struct HandlingRules {
    pub das_frames: u16,
    pub arr_frames: u16,
    pub dcd_frames: u16,
    pub soft_drop: SoftDropMode,
}

impl HandlingRules {
    pub fn new(das_frames: u16, arr_frames: u16, dcd_frames: u16, soft_drop: SoftDropMode) -> (r: Self)
        ensures
            r == (HandlingRules { das_frames, arr_frames, dcd_frames, soft_drop }),
    {
        HandlingRules { das_frames, arr_frames, dcd_frames, soft_drop }
    }
}

#[derive(Clone, Copy, Debug, PartialEq, Eq, Structural)]
pub enum HorizontalDirection {
    Left,
    Right,
}

pub open spec fn direction_action(d: HorizontalDirection) -> FrameInput {
    match d {
        HorizontalDirection::Left => FrameInput::MoveLeft,
        HorizontalDirection::Right => FrameInput::MoveRight,
    }
}

/// Initial hold and rotation requested by keys held when a piece spawns.
#[derive(Clone, Copy, Debug, PartialEq, Eq, Structural)]
pub struct InitialActions {
    pub hold_requested: bool,
    pub rotation: Option<RotationDirection>,
}

impl InitialActions {
    pub fn new(hold_requested: bool, rotation: Option<RotationDirection>) -> (r: Self)
        ensures
            r == (InitialActions { hold_requested, rotation }),
    {
        InitialActions { hold_requested, rotation }
    }
}

#[derive(Clone, Copy, Debug, PartialEq, Eq, Structural)]
pub struct HandlingState {
    left_held: bool,
    right_held: bool,
    soft_drop_held: bool,
    hold_held: bool,
    rotation_held: Option<RotationDirection>,
    active_horizontal: Option<HorizontalDirection>,
    das_elapsed: u16,
    arr_elapsed: u16,
    dcd_remaining: u16,
}

#[derive(Clone, Debug, PartialEq, Eq)]
pub struct NormalizedFrame {
    pub actions: Vec<FrameInput>,
    pub hold_requested: bool,
    pub hold_action_index: Option<usize>,
}

impl HandlingState {
    pub closed spec fn das_spec(self) -> u16 {
        self.das_elapsed
    }

    pub closed spec fn dcd_spec(self) -> u16 {
        self.dcd_remaining
    }

    pub closed spec fn held_spec(self) -> (bool, bool, bool, bool, Option<RotationDirection>) {
        (self.left_held, self.right_held, self.soft_drop_held, self.hold_held, self.rotation_held)
    }

    pub closed spec fn active_spec(self) -> Option<HorizontalDirection> {
        self.active_horizontal
    }

    pub closed spec fn arr_spec(self) -> u16 {
        self.arr_elapsed
    }

    pub fn new() -> (r: Self)
        ensures
            r == HandlingState::new_spec(),
            r.das_spec() == 0 && r.dcd_spec() == 0 && r.arr_spec() == 0,
            r.held_spec() == (false, false, false, false, None::<RotationDirection>),
            r.active_spec() is None,
    {
        HandlingState {
            left_held: false,
            right_held: false,
            soft_drop_held: false,
            hold_held: false,
            rotation_held: None,
            active_horizontal: None,
            das_elapsed: 0,
            arr_elapsed: 0,
            dcd_remaining: 0,
        }
    }

    pub fn dcd_remaining(self) -> (r: u16)
        ensures
            r == self.dcd_spec(),
    {
        self.dcd_remaining
    }

    pub fn das_elapsed(self) -> (r: u16)
        ensures
            r == self.das_spec(),
    {
        self.das_elapsed
    }
}

impl Default for HandlingState {
    fn default() -> (r: Self)
        ensures
            r == HandlingState::new_spec(),
    {
        HandlingState::new()
    }
}

impl HandlingState {
    pub closed spec fn new_spec() -> HandlingState {
        HandlingState {
            left_held: false,
            right_held: false,
            soft_drop_held: false,
            hold_held: false,
            rotation_held: None,
            active_horizontal: None,
            das_elapsed: 0,
            arr_elapsed: 0,
            dcd_remaining: 0,
        }
    }
}

// ---------------------------------------------------------------------------
// Transition model.
// ---------------------------------------------------------------------------

pub closed spec fn activate_spec(s: HandlingState, d: HorizontalDirection) -> HandlingState {
    HandlingState { active_horizontal: Some(d), das_elapsed: 0, arr_elapsed: 0, ..s }
}

pub closed spec fn release_spec(s: HandlingState, d: HorizontalDirection) -> HandlingState {
    if s.active_horizontal != Some(d) {
        s
    } else {
        let next = match d {
            HorizontalDirection::Left => if s.right_held { Some(HorizontalDirection::Right) } else { None },
            HorizontalDirection::Right => if s.left_held { Some(HorizontalDirection::Left) } else { None },
        };
        HandlingState { active_horizontal: next, das_elapsed: 0, arr_elapsed: 0, ..s }
    }
}

/// Accumulated frame being normalized: actions, horizontal press seen, hold
/// requested and where in the action list the hold was requested.
pub struct EdgeAcc {
    pub actions: Seq<FrameInput>,
    pub horizontal_pressed: bool,
    pub hold_requested: bool,
    pub hold_index: Option<usize>,
}

pub closed spec fn rotation_press(s: HandlingState, rules: HandlingRules, acc: EdgeAcc, input: FrameInput, d: RotationDirection) -> (HandlingState, EdgeAcc) {
    (
        HandlingState { dcd_remaining: rules.dcd_frames, rotation_held: Some(d), ..s },
        EdgeAcc { actions: acc.actions.push(input), ..acc },
    )
}

pub closed spec fn edge_spec(s: HandlingState, rules: HandlingRules, e: InputEdge, acc: EdgeAcc) -> (HandlingState, EdgeAcc) {
    match (e.button, e.kind) {
        (InputButton::Left, InputEdgeKind::Press) => (
            activate_spec(HandlingState { left_held: true, ..s }, HorizontalDirection::Left),
            EdgeAcc { actions: acc.actions.push(FrameInput::MoveLeft), horizontal_pressed: true, ..acc },
        ),
        (InputButton::Right, InputEdgeKind::Press) => (
            activate_spec(HandlingState { right_held: true, ..s }, HorizontalDirection::Right),
            EdgeAcc { actions: acc.actions.push(FrameInput::MoveRight), horizontal_pressed: true, ..acc },
        ),
        (InputButton::Left, InputEdgeKind::Release) => (
            release_spec(HandlingState { left_held: false, ..s }, HorizontalDirection::Left),
            acc,
        ),
        (InputButton::Right, InputEdgeKind::Release) => (
            release_spec(HandlingState { right_held: false, ..s }, HorizontalDirection::Right),
            acc,
        ),
        (InputButton::SoftDrop, InputEdgeKind::Press) => (HandlingState { soft_drop_held: true, ..s }, acc),
        (InputButton::SoftDrop, InputEdgeKind::Release) => (HandlingState { soft_drop_held: false, ..s }, acc),
        (InputButton::HardDrop, InputEdgeKind::Press) => (
            s,
            EdgeAcc { actions: acc.actions.push(FrameInput::HardDrop), ..acc },
        ),
        (InputButton::RotateClockwise, InputEdgeKind::Press) => rotation_press(
            s,
            rules,
            acc,
            FrameInput::RotateClockwise,
            RotationDirection::Clockwise,
        ),
        (InputButton::RotateCounterclockwise, InputEdgeKind::Press) => rotation_press(
            s,
            rules,
            acc,
            FrameInput::RotateCounterclockwise,
            RotationDirection::Counterclockwise,
        ),
        (InputButton::RotateHalf, InputEdgeKind::Press) => rotation_press(
            s,
            rules,
            acc,
            FrameInput::RotateHalf,
            RotationDirection::Half,
        ),
        (InputButton::Hold, InputEdgeKind::Press) => (
            HandlingState { hold_held: true, ..s },
            EdgeAcc {
                hold_requested: true,
                hold_index: if acc.hold_requested { acc.hold_index } else { Some(acc.actions.len() as usize) },
                ..acc
            },
        ),
        (InputButton::Hold, InputEdgeKind::Release) => (HandlingState { hold_held: false, ..s }, acc),
        (InputButton::RotateClockwise, InputEdgeKind::Release) => (
            if s.rotation_held == Some(RotationDirection::Clockwise) { HandlingState { rotation_held: None, ..s } } else { s },
            acc,
        ),
        (InputButton::RotateCounterclockwise, InputEdgeKind::Release) => (
            if s.rotation_held == Some(RotationDirection::Counterclockwise) {
                HandlingState { rotation_held: None, ..s }
            } else {
                s
            },
            acc,
        ),
        (InputButton::RotateHalf, InputEdgeKind::Release) => (
            if s.rotation_held == Some(RotationDirection::Half) { HandlingState { rotation_held: None, ..s } } else { s },
            acc,
        ),
        (InputButton::HardDrop, InputEdgeKind::Release) => (s, acc),
    }
}

pub closed spec fn edges_spec(s: HandlingState, rules: HandlingRules, edges: Seq<InputEdge>, i: int, acc: EdgeAcc) -> (HandlingState, EdgeAcc)
    decreases edges.len() - i,
{
    if i < 0 || i >= edges.len() {
        (s, acc)
    } else {
        let t = edge_spec(s, rules, edges[i], acc);
        edges_spec(t.0, rules, edges, i + 1, t.1)
    }
}

pub open spec fn repeat_action(a: FrameInput, n: nat) -> Seq<FrameInput> {
    Seq::new(n, |i: int| a)
}

pub open spec fn repeat_count(arr_frames: u16) -> nat {
    if arr_frames == 0 { WIDTH as nat } else { 1 }
}

/// Auto-repeat after this frame's edges: DCD pause, DAS charge, ARR repeats.
pub closed spec fn horizontal_spec(s: HandlingState, rules: HandlingRules, pressed: bool, acts: Seq<FrameInput>) -> (HandlingState, Seq<FrameInput>) {
    match s.active_horizontal {
        None => (s, acts),
        Some(d) => if s.dcd_remaining > 0 {
            (HandlingState { dcd_remaining: (s.dcd_remaining - 1) as u16, ..s }, acts)
        } else {
            let das = s.das_elapsed.saturating_add(1);
            let s1 = HandlingState { das_elapsed: das, ..s };
            if das < rules.das_frames {
                (s1, acts)
            } else if das == rules.das_frames && !pressed {
                (s1, acts + repeat_action(direction_action(d), repeat_count(rules.arr_frames)))
            } else if rules.das_frames == 0 && pressed {
                (s1, acts + repeat_action(direction_action(d), repeat_count(rules.arr_frames)))
            } else if rules.arr_frames == 0 {
                (s1, acts + repeat_action(direction_action(d), WIDTH as nat))
            } else {
                let arr = s1.arr_elapsed.saturating_add(1);
                if arr >= rules.arr_frames {
                    (HandlingState { arr_elapsed: 0, ..s1 }, acts.push(direction_action(d)))
                } else {
                    (HandlingState { arr_elapsed: arr, ..s1 }, acts)
                }
            }
        },
    }
}

pub closed spec fn soft_drop_spec(s: HandlingState, rules: HandlingRules, acts: Seq<FrameInput>) -> Seq<FrameInput> {
    if !s.soft_drop_held {
        acts
    } else {
        match rules.soft_drop {
            SoftDropMode::Disabled => acts,
            SoftDropMode::CellsPerFrame(c) => acts + repeat_action(FrameInput::SoftDropCell, c as nat),
            SoftDropMode::Sonic => acts + repeat_action(FrameInput::SoftDropCell, HEIGHT as nat),
        }
    }
}

/// The whole frame normalization: (next state, actions, hold requested, hold index).
pub closed spec fn normalize_spec(s: HandlingState, rules: HandlingRules, edges: Seq<InputEdge>) -> (HandlingState, Seq<FrameInput>, bool, Option<usize>) {
    let e = edges_spec(
        s,
        rules,
        edges,
        0,
        EdgeAcc { actions: Seq::empty(), horizontal_pressed: false, hold_requested: false, hold_index: None },
    );
    let h = horizontal_spec(e.0, rules, e.1.horizontal_pressed, e.1.actions);
    (h.0, soft_drop_spec(h.0, rules, h.1), e.1.hold_requested, e.1.hold_index)
}

pub open spec fn no_soft_drop(acts: Seq<FrameInput>) -> bool {
    forall|i: int| 0 <= i < acts.len() ==> #[trigger] acts[i] != FrameInput::SoftDropCell
}

/// How many soft-drop cells a frame ends with: none unless soft drop is held
/// after the frame's edges, then the soft-drop factor, or the board height
/// for sonic drop.
pub open spec fn soft_drop_cells(held: bool, mode: SoftDropMode) -> nat {
    if !held {
        0
    } else {
        match mode {
            SoftDropMode::Disabled => 0,
            SoftDropMode::CellsPerFrame(c) => c as nat,
            SoftDropMode::Sonic => HEIGHT as nat,
        }
    }
}

proof fn lemma_edges_never_soft_drop(s: HandlingState, rules: HandlingRules, edges: Seq<InputEdge>, i: int, acc: EdgeAcc)
    requires
        no_soft_drop(acc.actions),
    ensures
        no_soft_drop(edges_spec(s, rules, edges, i, acc).1.actions),
    decreases edges.len() - i,
{
    if 0 <= i < edges.len() {
        let t = edge_spec(s, rules, edges[i], acc);
        assert(no_soft_drop(t.1.actions));
        lemma_edges_never_soft_drop(t.0, rules, edges, i + 1, t.1);
    }
}

/// A frame's soft-drop cells come last and number exactly the soft-drop
/// factor while soft drop is held (the board height for sonic drop); no
/// other action of the frame is a soft-drop cell, and a frame without soft
/// drop held has none.
pub proof fn lemma_soft_drop_emits_its_factor(s: HandlingState, rules: HandlingRules, edges: Seq<InputEdge>)
    ensures
        ({
            let n = normalize_spec(s, rules, edges);
            let k = soft_drop_cells(n.0.held_spec().2, rules.soft_drop);
            &&& n.1.len() >= k
            &&& forall|i: int| n.1.len() - k <= i < n.1.len() ==> #[trigger] n.1[i] == FrameInput::SoftDropCell
            &&& forall|i: int| 0 <= i < n.1.len() - k ==> #[trigger] n.1[i] != FrameInput::SoftDropCell
        }),
{
    let acc0 = EdgeAcc { actions: Seq::empty(), horizontal_pressed: false, hold_requested: false, hold_index: None };
    lemma_edges_never_soft_drop(s, rules, edges, 0, acc0);
    let e = edges_spec(s, rules, edges, 0, acc0);
    let h = horizontal_spec(e.0, rules, e.1.horizontal_pressed, e.1.actions);
    assert(no_soft_drop(h.1)) by {
        if let Some(d) = e.0.active_horizontal {
            assert(direction_action(d) != FrameInput::SoftDropCell);
        }
    }
    let n = normalize_spec(s, rules, edges);
    assert(n.1 == soft_drop_spec(h.0, rules, h.1));
    let k = soft_drop_cells(n.0.held_spec().2, rules.soft_drop);
    assert(n.1 =~= h.1 + repeat_action(FrameInput::SoftDropCell, k));
}

/// An edge-free frame with no held direction or soft drop emits nothing.
pub proof fn lemma_idle_frame_is_silent(s: HandlingState, rules: HandlingRules)
    requires
        s.active_spec() is None,
        !s.held_spec().2,
    ensures
        normalize_spec(s, rules, Seq::empty()).1 == Seq::<FrameInput>::empty(),
        normalize_spec(s, rules, Seq::empty()).0 == s,
{
}

/// Converts ordered input edges and held state into ordered discrete actions.
pub fn normalize_frame(state: &mut HandlingState, rules: HandlingRules, edges: &[InputEdge]) -> (r: NormalizedFrame)
    ensures
        (*final(state), r.actions@, r.hold_requested, r.hold_action_index) == normalize_spec(*old(state), rules, edges@),
{
    let mut actions: Vec<FrameInput> = Vec::new();
    let mut horizontal_pressed = false;
    let mut hold_requested = false;
    let mut hold_action_index: Option<usize> = None;
    let mut i: usize = 0;
    let ghost init = EdgeAcc { actions: Seq::empty(), horizontal_pressed: false, hold_requested: false, hold_index: None };
    while i < edges.len()
        invariant
            i <= edges@.len(),
            edges_spec(
                *state,
                rules,
                edges@,
                i as int,
                EdgeAcc { actions: actions@, horizontal_pressed, hold_requested, hold_index: hold_action_index },
            ) == edges_spec(*old(state), rules, edges@, 0, init),
        decreases edges.len() - i,
    {
        let edge = edges[i];
        match (edge.button, edge.kind) {
            (InputButton::Left, InputEdgeKind::Press) => {
                state.left_held = true;
                activate_horizontal(state, HorizontalDirection::Left);
                actions.push(FrameInput::MoveLeft);
                horizontal_pressed = true;
            },
            (InputButton::Right, InputEdgeKind::Press) => {
                state.right_held = true;
                activate_horizontal(state, HorizontalDirection::Right);
                actions.push(FrameInput::MoveRight);
                horizontal_pressed = true;
            },
            (InputButton::Left, InputEdgeKind::Release) => {
                state.left_held = false;
                release_horizontal(state, HorizontalDirection::Left);
            },
            (InputButton::Right, InputEdgeKind::Release) => {
                state.right_held = false;
                release_horizontal(state, HorizontalDirection::Right);
            },
            (InputButton::SoftDrop, InputEdgeKind::Press) => state.soft_drop_held = true,
            (InputButton::SoftDrop, InputEdgeKind::Release) => state.soft_drop_held = false,
            (InputButton::HardDrop, InputEdgeKind::Press) => actions.push(FrameInput::HardDrop),
            (InputButton::RotateClockwise, InputEdgeKind::Press) => {
                actions.push(FrameInput::RotateClockwise);
                state.dcd_remaining = rules.dcd_frames;
                state.rotation_held = Some(RotationDirection::Clockwise);
            },
            (InputButton::RotateCounterclockwise, InputEdgeKind::Press) => {
                actions.push(FrameInput::RotateCounterclockwise);
                state.dcd_remaining = rules.dcd_frames;
                state.rotation_held = Some(RotationDirection::Counterclockwise);
            },
            (InputButton::RotateHalf, InputEdgeKind::Press) => {
                actions.push(FrameInput::RotateHalf);
                state.dcd_remaining = rules.dcd_frames;
                state.rotation_held = Some(RotationDirection::Half);
            },
            (InputButton::Hold, InputEdgeKind::Press) => {
                state.hold_held = true;
                if !hold_requested {
                    hold_action_index = Some(actions.len());
                }
                hold_requested = true;
            },
            (InputButton::Hold, InputEdgeKind::Release) => state.hold_held = false,
            (InputButton::RotateClockwise, InputEdgeKind::Release) => {
                if state.rotation_held == Some(RotationDirection::Clockwise) {
                    state.rotation_held = None;
                }
            },
            (InputButton::RotateCounterclockwise, InputEdgeKind::Release) => {
                if state.rotation_held == Some(RotationDirection::Counterclockwise) {
                    state.rotation_held = None;
                }
            },
            (InputButton::RotateHalf, InputEdgeKind::Release) => {
                if state.rotation_held == Some(RotationDirection::Half) {
                    state.rotation_held = None;
                }
            },
            (InputButton::HardDrop, InputEdgeKind::Release) => {},
        }
        i += 1;
    }
    advance_horizontal(state, rules, horizontal_pressed, &mut actions);
    append_soft_drop(state, rules, &mut actions);
    NormalizedFrame { actions, hold_requested, hold_action_index }
}

/// Applies the DCD spawn pause while retaining held directions and their
/// accumulated DAS charge.
pub fn on_piece_spawn(state: &mut HandlingState, rules: HandlingRules)
    ensures
        *final(state) == on_spawn_spec(*old(state), rules),
        final(state).das_spec() == old(state).das_spec(),
        final(state).dcd_spec() == rules.dcd_frames,
{
    state.dcd_remaining = rules.dcd_frames;
}

pub closed spec fn on_spawn_spec(s: HandlingState, rules: HandlingRules) -> HandlingState {
    HandlingState { dcd_remaining: rules.dcd_frames, ..s }
}

/// IHS/IRS requests from the keys held when a piece spawns; also starts the
/// DCD spawn pause.
pub fn initial_actions_on_spawn(state: &mut HandlingState, rules: HandlingRules) -> (r: InitialActions)
    ensures
        *final(state) == on_spawn_spec(*old(state), rules),
        r == (InitialActions { hold_requested: old(state).held_spec().3, rotation: old(state).held_spec().4 }),
{
    let actions = InitialActions { hold_requested: state.hold_held, rotation: state.rotation_held };
    on_piece_spawn(state, rules);
    actions
}

fn activate_horizontal(state: &mut HandlingState, direction: HorizontalDirection)
    ensures
        *final(state) == activate_spec(*old(state), direction),
{
    state.active_horizontal = Some(direction);
    state.das_elapsed = 0;
    state.arr_elapsed = 0;
}

fn release_horizontal(state: &mut HandlingState, direction: HorizontalDirection)
    ensures
        *final(state) == release_spec(*old(state), direction),
{
    if state.active_horizontal != Some(direction) {
        return;
    }
    state.active_horizontal = match direction {
        HorizontalDirection::Left => if state.right_held {
            Some(HorizontalDirection::Right)
        } else {
            None
        },
        HorizontalDirection::Right => if state.left_held {
            Some(HorizontalDirection::Left)
        } else {
            None
        },
    };
    state.das_elapsed = 0;
    state.arr_elapsed = 0;
}

fn direction_action_exec(d: HorizontalDirection) -> (r: FrameInput)
    ensures
        r == direction_action(d),
{
    match d {
        HorizontalDirection::Left => FrameInput::MoveLeft,
        HorizontalDirection::Right => FrameInput::MoveRight,
    }
}

fn push_repeated(actions: &mut Vec<FrameInput>, a: FrameInput, n: usize)
    ensures
        final(actions)@ == old(actions)@ + repeat_action(a, n as nat),
{
    let mut k: usize = 0;
    while k < n
        invariant
            k <= n,
            actions@ == old(actions)@ + repeat_action(a, k as nat),
        decreases n - k,
    {
        actions.push(a);
        k += 1;
        assert(actions@ =~= old(actions)@ + repeat_action(a, k as nat));
    }
}

fn advance_horizontal(state: &mut HandlingState, rules: HandlingRules, horizontal_pressed: bool, actions: &mut Vec<FrameInput>)
    ensures
        (*final(state), final(actions)@) == horizontal_spec(*old(state), rules, horizontal_pressed, old(actions)@),
{
    let direction = match state.active_horizontal {
        Some(d) => d,
        None => {
            return;
        },
    };
    if state.dcd_remaining > 0 {
        state.dcd_remaining -= 1;
        return;
    }
    state.das_elapsed = state.das_elapsed.saturating_add(1);
    if state.das_elapsed < rules.das_frames {
        return;
    }
    let action = direction_action_exec(direction);
    if state.das_elapsed == rules.das_frames && !horizontal_pressed {
        push_repeated(actions, action, if rules.arr_frames == 0 { WIDTH } else { 1 });
        return;
    }
    if rules.das_frames == 0 && horizontal_pressed {
        push_repeated(actions, action, if rules.arr_frames == 0 { WIDTH } else { 1 });
        return;
    }
    if rules.arr_frames == 0 {
        push_repeated(actions, action, WIDTH);
        return;
    }
    state.arr_elapsed = state.arr_elapsed.saturating_add(1);
    if state.arr_elapsed >= rules.arr_frames {
        actions.push(action);
        state.arr_elapsed = 0;
    }
}

fn append_soft_drop(state: &HandlingState, rules: HandlingRules, actions: &mut Vec<FrameInput>)
    ensures
        final(actions)@ == soft_drop_spec(*state, rules, old(actions)@),
{
    if !state.soft_drop_held {
        return;
    }
    let cells: usize = match rules.soft_drop {
        SoftDropMode::Disabled => 0,
        SoftDropMode::CellsPerFrame(cells) => cells as usize,
        SoftDropMode::Sonic => HEIGHT,
    };
    if cells > 0 {
        push_repeated(actions, FrameInput::SoftDropCell, cells);
    }
}

} // verus!
