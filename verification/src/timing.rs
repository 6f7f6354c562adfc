use vstd::prelude::*;
use crate::board::{Board, hits, lemma_fits_bounds, HEIGHT};
use crate::piece::PieceState;
use crate::reachability::{
    Movement, drop_from, grounded, landing, hard_drop, try_movement, translation_spec,
};
use crate::rotation::{RotationDirection, lemma_first_fit, rotation_outcome, try_rotate};
use crate::spin::shifted;

verus! {

pub const FALL_MICROS_PER_CELL: u32 = 1_000_000;
pub const TETRIO_KICK_FALL_FRACTION_MICROS: u32 = 100_000;

#[derive(Clone, Copy, Debug, PartialEq, Eq, Structural)]
pub struct Gravity {
    numerator: u32,
    denominator: u32,
}

#[derive(Clone, Copy, Debug, PartialEq, Eq, Structural)]
pub enum TimingConfigError {
    ZeroGravityDenominator,
}

impl Gravity {
    pub closed spec fn num(self) -> u32 {
        self.numerator
    }

    pub closed spec fn den(self) -> u32 {
        self.denominator
    }

    pub open spec fn wf(self) -> bool {
        self.den() != 0
    }

    pub closed spec fn make(numerator: u32, denominator: u32) -> Gravity {
        Gravity { numerator, denominator }
    }

    pub broadcast proof fn lemma_make(numerator: u32, denominator: u32)
        ensures
            #[trigger] Gravity::make(numerator, denominator).num() == numerator,
            Gravity::make(numerator, denominator).den() == denominator,
    {
    }

    pub proof fn lemma_eq(a: Gravity, b: Gravity)
        ensures
            a.num() == b.num() && a.den() == b.den() ==> a == b,
    {
    }

    pub fn new(numerator: u32, denominator: u32) -> (r: Result<Self, TimingConfigError>)
        ensures
            denominator == 0 ==> r == Err::<Gravity, TimingConfigError>(TimingConfigError::ZeroGravityDenominator),
            denominator != 0 ==> (r matches Ok(g) && g.num() == numerator && g.den() == denominator && g.wf()),
    {
        if denominator == 0 {
            return Err(TimingConfigError::ZeroGravityDenominator);
        }
        Ok(Gravity { numerator, denominator })
    }

    pub fn numerator(self) -> (r: u32)
        ensures
            r == self.num(),
    {
        self.numerator
    }

    pub fn denominator(self) -> (r: u32)
        ensures
            r == self.den(),
    {
        self.denominator
    }
}

#[derive(Clone, Copy, Debug, PartialEq, Eq, Structural)]
pub struct TimingRules {
    pub gravity: Gravity,
    pub lock_delay_frames: u16,
    pub max_lock_resets: u16,
    pub reset_on_lateral_move: bool,
    pub reset_on_rotation: bool,
}

impl TimingRules {
    pub open spec fn wf(self) -> bool {
        self.gravity.wf()
    }

    pub fn new(
        gravity: Gravity,
        lock_delay_frames: u16,
        max_lock_resets: u16,
        reset_on_lateral_move: bool,
        reset_on_rotation: bool,
    ) -> (r: Self)
        ensures
            r == (TimingRules { gravity, lock_delay_frames, max_lock_resets, reset_on_lateral_move, reset_on_rotation }),
    {
        TimingRules { gravity, lock_delay_frames, max_lock_resets, reset_on_lateral_move, reset_on_rotation }
    }
}

/// Per-frame timing provider.
#[derive(Clone, Copy, Debug, PartialEq, Eq, Structural)]
pub enum TimingSchedule {
    Fixed(TimingRules),
    LinearGravity(LinearGravityTiming),
}

#[derive(Clone, Copy, Debug, PartialEq, Eq, Structural)]
pub struct LinearGravityTiming {
    pub base_rules: TimingRules,
    pub increase_per_second: Gravity,
    pub margin_frames: u64,
    pub tick_rate_hz: u32,
    pub cap: Gravity,
}

#[derive(Clone, Copy, Debug, PartialEq, Eq, Structural)]
pub enum TimingScheduleError {
    ZeroTickRate,
    ArithmeticOverflow,
    InvalidGravity(TimingConfigError),
}

pub open spec fn gcd(a: nat, b: nat) -> nat
    decreases b,
{
    if b == 0 {
        a
    } else {
        gcd(b, a % b)
    }
}

/// Exact scaled quantities of a linear gravity schedule over one common
/// denominator: (base, per-frame increase, denominator, cap).
pub open spec fn schedule_terms(base: Gravity, inc: Gravity, ticks: nat, cap: Gravity) -> (nat, nat, nat, nat) {
    let bn = base.num() as nat;
    let bd = base.den() as nat;
    let inn = inc.num() as nat;
    let ind = inc.den() as nat;
    let cn = cap.num() as nat;
    let cd = cap.den() as nat;
    (bn * ind * ticks * cd, inn * bd * cd, bd * ind * ticks * cd, cn * bd * ind * ticks)
}

pub open spec fn schedule_divisor(t: (nat, nat, nat, nat)) -> nat {
    gcd(gcd(t.0, t.1), gcd(t.2, t.3))
}

/// Outcome of the scaled-gravity computation: the reduced numerator before
/// the cap, the capped numerator and the reduced denominator.
pub open spec fn scaled_gravity(base: Gravity, inc: Gravity, elapsed: nat, ticks: nat, cap: Gravity) -> (int, int, int) {
    let t = schedule_terms(base, inc, ticks, cap);
    let g = schedule_divisor(t);
    let num = (t.0 / g) + (t.1 / g) * elapsed;
    let capped = if num < t.3 / g { num } else { t.3 / g };
    (num as int, capped as int, (t.2 / g) as int)
}

pub open spec fn u128_max() -> int {
    340282366920938463463374607431768211455int
}

/// Gravity `elapsed` frames into a linear schedule, or the reason it fails.
pub open spec fn linear_gravity_spec(base: Gravity, inc: Gravity, elapsed: nat, ticks: nat, cap: Gravity) -> Result<(u32, u32), TimingScheduleError> {
    let t = schedule_terms(base, inc, ticks, cap);
    let g = schedule_divisor(t);
    let s = scaled_gravity(base, inc, elapsed, ticks, cap);
    if ticks == 0 {
        Err(TimingScheduleError::ZeroTickRate)
    } else if (t.1 / g) * elapsed > u128_max() || s.0 > u128_max() {
        Err(TimingScheduleError::ArithmeticOverflow)
    } else if s.1 > u32::MAX || s.2 > u32::MAX {
        Err(TimingScheduleError::ArithmeticOverflow)
    } else if s.2 == 0 {
        Err(TimingScheduleError::InvalidGravity(TimingConfigError::ZeroGravityDenominator))
    } else {
        Ok((s.1 as u32, s.2 as u32))
    }
}

pub open spec fn linear_elapsed(elapsed_frames: u64, margin_frames: u64) -> nat {
    let m = if margin_frames == u64::MAX { u64::MAX as int } else { margin_frames + 1 };
    if elapsed_frames >= m { (elapsed_frames - m) as nat } else { 0 }
}

pub open spec fn linear_rules_spec(s: LinearGravityTiming, elapsed_frames: u64) -> Result<TimingRules, TimingScheduleError> {
    match linear_gravity_spec(
        s.base_rules.gravity,
        s.increase_per_second,
        linear_elapsed(elapsed_frames, s.margin_frames),
        s.tick_rate_hz as nat,
        s.cap,
    ) {
        Ok(g) => Ok(TimingRules { gravity: Gravity::make(g.0, g.1), ..s.base_rules }),
        Err(e) => Err(e),
    }
}

pub open spec fn schedule_rules_spec(s: TimingSchedule, elapsed_frames: u64) -> Result<TimingRules, TimingScheduleError> {
    match s {
        TimingSchedule::Fixed(rules) => Ok(rules),
        TimingSchedule::LinearGravity(l) => linear_rules_spec(l, elapsed_frames),
    }
}

impl LinearGravityTiming {
    pub open spec fn wf(self) -> bool {
        self.base_rules.wf() && self.increase_per_second.wf() && self.cap.wf() && self.tick_rate_hz != 0
    }

    pub fn new(
        base_rules: TimingRules,
        increase_per_second: Gravity,
        margin_frames: u64,
        tick_rate_hz: u32,
        cap: Gravity,
    ) -> (r: Result<Self, TimingScheduleError>)
        ensures
            tick_rate_hz == 0 ==> r == Err::<Self, TimingScheduleError>(TimingScheduleError::ZeroTickRate),
            tick_rate_hz != 0 ==> r == Ok::<Self, TimingScheduleError>(
                LinearGravityTiming { base_rules, increase_per_second, margin_frames, tick_rate_hz, cap },
            ),
    {
        if tick_rate_hz == 0 {
            return Err(TimingScheduleError::ZeroTickRate);
        }
        Ok(LinearGravityTiming { base_rules, increase_per_second, margin_frames, tick_rate_hz, cap })
    }

    pub fn rules_at_frame(self, elapsed_frames: u64) -> (r: Result<TimingRules, TimingScheduleError>)
        requires
            self.wf(),
        ensures
            r == linear_rules_spec(self, elapsed_frames),
            r matches Ok(rules) ==> rules.wf(),
    {
        let increase_frames = elapsed_frames.saturating_sub(self.margin_frames.saturating_add(1));
        let gravity = add_scaled_per_second(
            self.base_rules.gravity,
            self.increase_per_second,
            increase_frames,
            self.tick_rate_hz,
            self.cap,
        )?;
        Ok(TimingRules { gravity, ..self.base_rules })
    }
}

impl TimingSchedule {
    pub open spec fn wf(self) -> bool {
        match self {
            TimingSchedule::Fixed(r) => r.wf(),
            TimingSchedule::LinearGravity(l) => l.wf(),
        }
    }

    pub fn fixed(rules: TimingRules) -> (r: Self)
        ensures
            r == TimingSchedule::Fixed(rules),
    {
        TimingSchedule::Fixed(rules)
    }

    pub fn linear_gravity(schedule: LinearGravityTiming) -> (r: Self)
        ensures
            r == TimingSchedule::LinearGravity(schedule),
    {
        TimingSchedule::LinearGravity(schedule)
    }

    pub fn rules_at_frame(self, elapsed_frames: u64) -> (r: Result<TimingRules, TimingScheduleError>)
        requires
            self.wf(),
        ensures
            r == schedule_rules_spec(self, elapsed_frames),
            r matches Ok(rules) ==> rules.wf(),
    {
        match self {
            TimingSchedule::Fixed(rules) => Ok(rules),
            TimingSchedule::LinearGravity(schedule) => schedule.rules_at_frame(elapsed_frames),
        }
    }
}

fn gcd_u128(left: u128, right: u128) -> (r: u128)
    ensures
        r == gcd(left as nat, right as nat),
{
    let mut a = left;
    let mut b = right;
    while b != 0
        invariant
            gcd(a as nat, b as nat) == gcd(left as nat, right as nat),
        decreases b,
    {
        let remainder = a % b;
        a = b;
        b = remainder;
    }
    a
}

proof fn lemma_gcd_zero(a: nat, b: nat)
    ensures
        gcd(a, b) == 0 ==> a == 0 && b == 0,
        b > 0 ==> gcd(a, b) > 0,
        a > 0 ==> gcd(a, b) > 0,
    decreases b,
{
    if b > 0 {
        lemma_gcd_zero(b, a % b);
    }
}

proof fn lemma_product4(a: nat, b: nat, c: nat, d: nat)
    requires
        a < 0x1_0000_0000,
        b < 0x1_0000_0000,
        c < 0x1_0000_0000,
        d < 0x1_0000_0000,
    ensures
        a * b < 0x1_0000_0000_0000_0000,
        a * b * c < 0x1_0000_0000_0000_0000_0000_0000,
        a * b * c * d <= u128_max(),
{
    assert(a * b < 0x1_0000_0000_0000_0000) by (nonlinear_arith)
        requires a < 0x1_0000_0000, b < 0x1_0000_0000;
    assert(a * b * c < 0x1_0000_0000_0000_0000_0000_0000) by (nonlinear_arith)
        requires a * b < 0x1_0000_0000_0000_0000, c < 0x1_0000_0000;
    assert(a * b * c * d <= u128_max()) by (nonlinear_arith)
        requires a * b * c < 0x1_0000_0000_0000_0000_0000_0000, d < 0x1_0000_0000;
}

fn add_scaled_per_second(
    base: Gravity,
    increase_per_second: Gravity,
    elapsed_frames: u64,
    tick_rate_hz: u32,
    cap: Gravity,
) -> (r: Result<Gravity, TimingScheduleError>)
    requires
        base.wf(),
        increase_per_second.wf(),
        cap.wf(),
    ensures
        r == (match linear_gravity_spec(base, increase_per_second, elapsed_frames as nat, tick_rate_hz as nat, cap) {
            Ok(g) => Ok(Gravity::make(g.0, g.1)),
            Err(e) => Err(e),
        }),
        r matches Ok(g) ==> g.wf(),
{
    proof {
        broadcast use Gravity::lemma_make;
    }
    if tick_rate_hz == 0 {
        return Err(TimingScheduleError::ZeroTickRate);
    }
    let bn = base.numerator as u128;
    let bd = base.denominator as u128;
    let inn = increase_per_second.numerator as u128;
    let ind = increase_per_second.denominator as u128;
    let ticks = tick_rate_hz as u128;
    let cd = cap.denominator as u128;
    let cn = cap.numerator as u128;
    let elapsed = elapsed_frames as u128;
    proof {
        lemma_product4(bd as nat, ind as nat, ticks as nat, cd as nat);
        lemma_product4(bn as nat, ind as nat, ticks as nat, cd as nat);
        lemma_product4(inn as nat, bd as nat, cd as nat, 1);
        lemma_product4(cn as nat, bd as nat, ind as nat, ticks as nat);
        assert(bd * ind * ticks * cd > 0) by (nonlinear_arith)
            requires bd > 0, ind > 0, ticks > 0, cd > 0;
    }
    let common_denominator = bd * ind * ticks * cd;
    let base_scaled = bn * ind * ticks * cd;
    let increase_per_frame_scaled = inn * bd * cd;
    let cap_scaled = cn * bd * ind * ticks;
    let g1 = gcd_u128(base_scaled, increase_per_frame_scaled);
    let g2 = gcd_u128(common_denominator, cap_scaled);
    let schedule_divisor = gcd_u128(g1, g2);
    proof {
        lemma_gcd_zero(common_denominator as nat, cap_scaled as nat);
        lemma_gcd_zero(g1 as nat, g2 as nat);
        assert(schedule_divisor > 0);
    }
    let denominator = common_denominator / schedule_divisor;
    let inc_reduced = increase_per_frame_scaled / schedule_divisor;
    let stepped = match inc_reduced.checked_mul(elapsed) {
        Some(v) => v,
        None => {
            return Err(TimingScheduleError::ArithmeticOverflow);
        },
    };
    let summed = match (base_scaled / schedule_divisor).checked_add(stepped) {
        Some(v) => v,
        None => {
            return Err(TimingScheduleError::ArithmeticOverflow);
        },
    };
    let cap_reduced = cap_scaled / schedule_divisor;
    let numerator = if summed < cap_reduced {
        summed
    } else {
        cap_reduced
    };
    if numerator > u32::MAX as u128 || denominator > u32::MAX as u128 {
        return Err(TimingScheduleError::ArithmeticOverflow);
    }
    if denominator == 0 {
        return Err(TimingScheduleError::InvalidGravity(TimingConfigError::ZeroGravityDenominator));
    }
    Ok(Gravity { numerator: numerator as u32, denominator: denominator as u32 })
}

/// Discrete actions already normalized into their execution order for one frame.
#[derive(Clone, Copy, Debug, PartialEq, Eq, Structural)]
pub enum FrameInput {
    MoveLeft,
    MoveRight,
    SoftDropCell,
    RotateClockwise,
    RotateCounterclockwise,
    RotateHalf,
    HardDrop,
}

/// Last successful player action that can affect spin classification.
#[derive(Clone, Copy, Debug, PartialEq, Eq, Structural)]
pub enum LastAction {
    NoAction,
    Translation,
    SoftDrop,
    HardDrop,
    Rotation { direction: RotationDirection, kick_index: u8 },
}

#[derive(Clone, Copy, Debug, PartialEq, Eq, Structural)]
pub struct TimingState {
    pub piece: PieceState,
    /// Fractional downward phase in millionths of a cell.
    pub fall_fraction_micros: u32,
    pub lock_elapsed_frames: u16,
    pub lock_resets_used: u16,
    pub locked: bool,
    pub last_action: LastAction,
}

#[derive(Clone, Copy, Debug, PartialEq, Eq, Structural)]
pub struct FrameOutcome {
    pub piece: PieceState,
    pub locked: bool,
    pub grounded: bool,
    pub successful_inputs: u16,
    pub gravity_rows: u16,
    pub lock_elapsed_frames: u16,
    pub lock_resets_used: u16,
    pub last_action: LastAction,
}

#[derive(Clone, Copy, Debug, PartialEq, Eq, Structural)]
pub enum TimingStepError {
    AlreadyLocked,
    CollidingPiece,
    FallArithmeticOverflow,
    InvalidFallFraction,
}

impl TimingState {
    /// The active piece fits and its phase is below one cell.
    pub open spec fn fits(self, r: Seq<u16>) -> bool {
        !hits(r, self.piece) && self.fall_fraction_micros < FALL_MICROS_PER_CELL && self.piece.ok()
    }

    pub fn new(board: &Board, piece: PieceState) -> (r: Result<Self, TimingStepError>)
        requires
            board.wf(),
            piece.cells_fit(),
        ensures
            r == new_state_spec(board@.0, piece, LastAction::NoAction, 0),
            r matches Ok(s) ==> s.fits(board@.0),
    {
        Self::new_with_fall_fraction(board, piece, 0)
    }

    pub fn new_with_fall_fraction(board: &Board, piece: PieceState, fall_fraction_micros: u32) -> (r: Result<Self, TimingStepError>)
        requires
            board.wf(),
            piece.cells_fit(),
        ensures
            r == new_state_spec(board@.0, piece, LastAction::NoAction, fall_fraction_micros),
            r matches Ok(s) ==> s.fits(board@.0),
    {
        if board.collides(piece) {
            return Err(TimingStepError::CollidingPiece);
        }
        if fall_fraction_micros >= FALL_MICROS_PER_CELL {
            return Err(TimingStepError::InvalidFallFraction);
        }
        proof {
            lemma_fits_bounds(board@.0, piece);
        }
        Ok(TimingState {
            piece,
            fall_fraction_micros,
            lock_elapsed_frames: 0,
            lock_resets_used: 0,
            locked: false,
            last_action: LastAction::NoAction,
        })
    }

    pub fn with_last_action(board: &Board, piece: PieceState, last_action: LastAction) -> (r: Result<Self, TimingStepError>)
        requires
            board.wf(),
            piece.cells_fit(),
        ensures
            r == new_state_spec(board@.0, piece, last_action, 0),
            r matches Ok(s) ==> s.fits(board@.0),
    {
        Self::with_last_action_and_fall_fraction(board, piece, last_action, 0)
    }

    pub fn with_last_action_and_fall_fraction(
        board: &Board,
        piece: PieceState,
        last_action: LastAction,
        fall_fraction_micros: u32,
    ) -> (r: Result<Self, TimingStepError>)
        requires
            board.wf(),
            piece.cells_fit(),
        ensures
            r == new_state_spec(board@.0, piece, last_action, fall_fraction_micros),
            r matches Ok(s) ==> s.fits(board@.0),
    {
        let mut state = Self::new_with_fall_fraction(board, piece, fall_fraction_micros)?;
        state.last_action = last_action;
        Ok(state)
    }
}

pub open spec fn new_state_spec(r: Seq<u16>, piece: PieceState, last: LastAction, fall: u32) -> Result<TimingState, TimingStepError> {
    if hits(r, piece) {
        Err(TimingStepError::CollidingPiece)
    } else if fall >= FALL_MICROS_PER_CELL {
        Err(TimingStepError::InvalidFallFraction)
    } else {
        Ok(TimingState {
            piece,
            fall_fraction_micros: fall,
            lock_elapsed_frames: 0,
            lock_resets_used: 0,
            locked: false,
            last_action: last,
        })
    }
}

// ---------------------------------------------------------------------------
// The frame transition, stated as a function of board, state, rules, inputs.
// ---------------------------------------------------------------------------

pub open spec fn resets_lock(input: FrameInput, rules: TimingRules) -> bool {
    match input {
        FrameInput::MoveLeft | FrameInput::MoveRight => rules.reset_on_lateral_move,
        FrameInput::RotateClockwise | FrameInput::RotateCounterclockwise | FrameInput::RotateHalf => rules.reset_on_rotation,
        _ => false,
    }
}

pub open spec fn reset_lock_spec(s: TimingState, rules: TimingRules) -> TimingState {
    if s.lock_resets_used >= rules.max_lock_resets {
        s
    } else {
        let used = (s.lock_resets_used + 1) as u16;
        TimingState {
            lock_resets_used: used,
            lock_elapsed_frames: if used < rules.max_lock_resets { 0 } else { s.lock_elapsed_frames },
            ..s
        }
    }
}

/// Effect of one non-hard-drop input: new piece, action, and whether a fallback
/// kick moved the piece.
pub open spec fn applied_input(r: Seq<u16>, p: PieceState, input: FrameInput) -> Option<(PieceState, LastAction, bool)> {
    match input {
        FrameInput::MoveLeft => match translation_spec(r, p, -1, 0) {
            Some(q) => Some((q, LastAction::Translation, false)),
            None => None,
        },
        FrameInput::MoveRight => match translation_spec(r, p, 1, 0) {
            Some(q) => Some((q, LastAction::Translation, false)),
            None => None,
        },
        FrameInput::SoftDropCell => match translation_spec(r, p, 0, -1) {
            Some(q) => Some((q, LastAction::SoftDrop, false)),
            None => None,
        },
        _ => {
            let d = match input {
                FrameInput::RotateClockwise => RotationDirection::Clockwise,
                FrameInput::RotateCounterclockwise => RotationDirection::Counterclockwise,
                _ => RotationDirection::Half,
            };
            match rotation_outcome(r, p, d) {
                Some(res) => Some(
                    (
                        res.state,
                        LastAction::Rotation { direction: res.direction, kick_index: res.client_kick_index_spec() },
                        res.used_kick,
                    ),
                ),
                None => None,
            }
        },
    }
}

/// One input of the input phase: (state, successful count, locked).
pub open spec fn input_step(r: Seq<u16>, s: TimingState, rules: TimingRules, input: FrameInput, succ: u16) -> (TimingState, u16, bool) {
    if input == FrameInput::HardDrop {
        let dropped = landing(r, s.piece);
        let s1 = TimingState {
            piece: dropped,
            locked: true,
            last_action: if dropped != s.piece { LastAction::HardDrop } else { s.last_action },
            ..s
        };
        (s1, succ.saturating_add(1), true)
    } else {
        match applied_input(r, s.piece, input) {
            None => (s, succ, false),
            Some(a) => {
                let s1 = TimingState {
                    piece: a.0,
                    last_action: a.1,
                    fall_fraction_micros: if a.2 { TETRIO_KICK_FALL_FRACTION_MICROS } else { s.fall_fraction_micros },
                    ..s
                };
                let s2 = if grounded(r, s.piece) && resets_lock(input, rules) { reset_lock_spec(s1, rules) } else { s1 };
                (s2, succ.saturating_add(1), false)
            },
        }
    }
}

/// The input phase over `inputs[i..]`.
pub open spec fn input_phase(r: Seq<u16>, s: TimingState, rules: TimingRules, inputs: Seq<FrameInput>, i: int, succ: u16) -> (TimingState, u16, bool)
    decreases inputs.len() - i,
{
    if i >= inputs.len() || i < 0 {
        (s, succ, false)
    } else {
        let st = input_step(r, s, rules, inputs[i], succ);
        if st.2 {
            st
        } else {
            input_phase(r, st.0, rules, inputs, i + 1, st.1)
        }
    }
}

pub open spec fn micros_per_frame(g: Gravity) -> int {
    (g.num() * 1_000_000 + g.den() / 2) / (g.den() as int)
}

/// Whole cells of gravity this frame, capped at the board height.
pub open spec fn fall_limit(g: Gravity) -> int {
    let full = micros_per_frame(g) / 1_000_000;
    if full < HEIGHT { full } else { HEIGHT as int }
}

/// Falls up to `k` rows: (piece, rows fallen, blocked before `k` rows).
pub open spec fn fall_rows(r: Seq<u16>, p: PieceState, k: nat) -> (PieceState, int, bool)
    decreases k,
{
    if k == 0 {
        (p, 0, false)
    } else if grounded(r, p) {
        (p, 0, true)
    } else {
        let t = fall_rows(r, shifted(p, 0, -1), (k - 1) as nat);
        (t.0, t.1 + 1, t.2)
    }
}

/// Gravity for one frame: (state, rows, fall failed).
pub open spec fn gravity_spec(r: Seq<u16>, s: TimingState, g: Gravity) -> (TimingState, int, bool) {
    let gm = micros_per_frame(g);
    let rem = gm % 1_000_000;
    let k = fall_limit(g);
    let f = fall_rows(r, s.piece, k as nat);
    let s1 = TimingState { piece: f.0, ..s };
    if f.2 {
        (s1, f.1, true)
    } else if rem == 0 {
        (s1, f.1, false)
    } else if grounded(r, f.0) {
        (s1, f.1, true)
    } else {
        let phase = s.fall_fraction_micros + rem;
        let moved = phase >= 1_000_000;
        let p2 = if moved { shifted(f.0, 0, -1) } else { f.0 };
        let np = phase % 1_000_000;
        (TimingState { piece: p2, fall_fraction_micros: if np == 0 { 1 } else { np as u32 }, ..s }, f.1 + if moved {
            1int
        } else {
            0int
        }, false)
    }
}

/// Lock counters after gravity.
pub open spec fn after_gravity(r: Seq<u16>, s: TimingState, rules: TimingRules, rows: int, fall_failed: bool) -> TimingState {
    if fall_failed {
        let e = s.lock_elapsed_frames.saturating_add(1);
        TimingState {
            lock_elapsed_frames: e,
            locked: e > rules.lock_delay_frames || s.lock_resets_used >= rules.max_lock_resets,
            ..s
        }
    } else {
        TimingState {
            lock_elapsed_frames: if !grounded(r, s.piece) { 0 } else { s.lock_elapsed_frames },
            lock_resets_used: if rows > 0 { 0 } else { s.lock_resets_used },
            ..s
        }
    }
}

pub open spec fn outcome_spec(r: Seq<u16>, s: TimingState, succ: u16, rows: u16) -> FrameOutcome {
    FrameOutcome {
        piece: s.piece,
        locked: s.locked,
        grounded: grounded(r, s.piece),
        successful_inputs: succ,
        gravity_rows: rows,
        lock_elapsed_frames: s.lock_elapsed_frames,
        lock_resets_used: s.lock_resets_used,
        last_action: s.last_action,
    }
}

/// The whole frame: inputs in order, then gravity and lock counting.
pub open spec fn frame_spec(r: Seq<u16>, s: TimingState, rules: TimingRules, inputs: Seq<FrameInput>) -> Result<(TimingState, FrameOutcome), TimingStepError> {
    if s.locked {
        Err(TimingStepError::AlreadyLocked)
    } else if hits(r, s.piece) {
        Err(TimingStepError::CollidingPiece)
    } else {
        let ip = input_phase(r, s, rules, inputs, 0, 0);
        if ip.2 {
            Ok((ip.0, outcome_spec(r, ip.0, ip.1, 0)))
        } else {
            let gs = gravity_spec(r, ip.0, rules.gravity);
            let s2 = after_gravity(r, gs.0, rules, gs.1, gs.2);
            Ok((s2, outcome_spec(r, s2, ip.1, gs.1 as u16)))
        }
    }
}

proof fn lemma_fall_rows(r: Seq<u16>, p: PieceState, k: nat)
    requires
        !hits(r, p),
        p.ok(),
    ensures
        !hits(r, fall_rows(r, p, k).0),
        fall_rows(r, p, k).0.ok(),
        0 <= fall_rows(r, p, k).1 <= k,
    decreases k,
{
    if k > 0 && !grounded(r, p) {
        lemma_fits_bounds(r, shifted(p, 0, -1));
        lemma_fall_rows(r, shifted(p, 0, -1), (k - 1) as nat);
    }
}

proof fn lemma_rotation_outcome_fits(r: Seq<u16>, p: PieceState, d: RotationDirection)
    ensures
        rotation_outcome(r, p, d) matches Some(res) ==> !hits(r, res.state),
{
    lemma_first_fit(r, p, d, 0);
}

#[verifier::rlimit(40)]
proof fn lemma_input_step_fits(r: Seq<u16>, s: TimingState, rules: TimingRules, input: FrameInput, succ: u16)
    requires
        s.fits(r),
    ensures
        input_step(r, s, rules, input, succ).0.fits(r),
{
    if input == FrameInput::HardDrop {
        lemma_landing(r, s.piece);
    } else {
        lemma_rotation_outcome_fits(r, s.piece, RotationDirection::Clockwise);
        lemma_rotation_outcome_fits(r, s.piece, RotationDirection::Counterclockwise);
        lemma_rotation_outcome_fits(r, s.piece, RotationDirection::Half);
        let a = applied_input(r, s.piece, input);
        if a is Some {
            assert(!hits(r, a->Some_0.0));
            lemma_fits_bounds(r, a->Some_0.0);
            let s1 = TimingState {
                piece: a->Some_0.0,
                last_action: a->Some_0.1,
                fall_fraction_micros: if a->Some_0.2 { TETRIO_KICK_FALL_FRACTION_MICROS } else { s.fall_fraction_micros },
                ..s
            };
            assert(s1.fits(r));
            assert(reset_lock_spec(s1, rules).fits(r));
        }
    }
}

pub proof fn lemma_landing(r: Seq<u16>, p: PieceState)
    requires
        !hits(r, p),
        p.ok(),
    ensures
        !hits(r, landing(r, p)),
        grounded(r, landing(r, p)),
        landing(r, p).ok(),
{
    lemma_fits_bounds(r, p);
    lemma_drop_from(r, p, (p.y + 4) as nat);
}

proof fn lemma_drop_from(r: Seq<u16>, p: PieceState, fuel: nat)
    requires
        !hits(r, p),
        fuel == p.y + 4,
    ensures
        !hits(r, drop_from(r, p, fuel)),
        grounded(r, drop_from(r, p, fuel)),
        drop_from(r, p, fuel).ok(),
    decreases fuel,
{
    lemma_fits_bounds(r, p);
    if fuel > 0 && !grounded(r, p) {
        lemma_fits_bounds(r, shifted(p, 0, -1));
        lemma_drop_from(r, shifted(p, 0, -1), (fuel - 1) as nat);
    }
}

/// Runs one frame: ordered inputs, then gravity and the lock-delay counters.
pub fn step_frame(board: &Board, state: &mut TimingState, rules: TimingRules, inputs: &[FrameInput]) -> (r: Result<FrameOutcome, TimingStepError>)
    requires
        board.wf(),
        rules.wf(),
        old(state).piece.ok(),
        old(state).fall_fraction_micros < FALL_MICROS_PER_CELL,
    ensures
        match frame_spec(board@.0, *old(state), rules, inputs@) {
            Ok((s, o)) => r == Ok::<FrameOutcome, TimingStepError>(o) && *final(state) == s,
            Err(e) => r == Err::<FrameOutcome, TimingStepError>(e) && *final(state) == *old(state),
        },
        r is Ok ==> final(state).fits(board@.0),
{
    if state.locked {
        return Err(TimingStepError::AlreadyLocked);
    }
    if board.collides(state.piece) {
        return Err(TimingStepError::CollidingPiece);
    }
    let (successful_inputs, locked) = apply_input_phase(board, state, rules, inputs);
    if locked {
        return Ok(outcome(board, *state, successful_inputs, 0));
    }
    Ok(advance_after_inputs(board, state, rules, successful_inputs))
}

fn apply_input_phase(board: &Board, state: &mut TimingState, rules: TimingRules, inputs: &[FrameInput]) -> (r: (u16, bool))
    requires
        board.wf(),
        old(state).fits(board@.0),
    ensures
        (*final(state), r.0, r.1) == input_phase(board@.0, *old(state), rules, inputs@, 0, 0),
        final(state).fits(board@.0),
{
    let mut successful_inputs: u16 = 0;
    let mut i: usize = 0;
    while i < inputs.len()
        invariant
            board.wf(),
            state.fits(board@.0),
            i <= inputs@.len(),
            input_phase(board@.0, *state, rules, inputs@, i as int, successful_inputs)
                == input_phase(board@.0, *old(state), rules, inputs@, 0, 0),
        decreases inputs.len() - i,
    {
        let input = inputs[i];
        let ghost before = *state;
        proof {
            lemma_input_step_fits(board@.0, *state, rules, input, successful_inputs);
        }
        if input == FrameInput::HardDrop {
            let dropped = match hard_drop(board, state.piece) {
                Some(d) => d,
                None => {
                    proof {
                        assert(false);
                    }
                    state.piece
                },
            };
            if dropped != state.piece {
                state.last_action = LastAction::HardDrop;
            }
            state.piece = dropped;
            state.locked = true;
            successful_inputs = successful_inputs.saturating_add(1);
            return (successful_inputs, true);
        }
        let grounded_before = is_grounded(board, state.piece);
        match apply_input(board, state.piece, input) {
            Some((piece, last_action, used_kick)) => {
                state.piece = piece;
                state.last_action = last_action;
                if used_kick {
                    state.fall_fraction_micros = TETRIO_KICK_FALL_FRACTION_MICROS;
                }
                successful_inputs = successful_inputs.saturating_add(1);
                if grounded_before && resets_lock_exec(input, rules) {
                    try_reset_lock(state, rules);
                }
            },
            None => {},
        }
        i += 1;
    }
    (successful_inputs, false)
}

fn resets_lock_exec(input: FrameInput, rules: TimingRules) -> (r: bool)
    ensures
        r == resets_lock(input, rules),
{
    match input {
        FrameInput::MoveLeft | FrameInput::MoveRight => rules.reset_on_lateral_move,
        FrameInput::RotateClockwise | FrameInput::RotateCounterclockwise | FrameInput::RotateHalf => rules.reset_on_rotation,
        FrameInput::SoftDropCell | FrameInput::HardDrop => false,
    }
}

fn try_reset_lock(state: &mut TimingState, rules: TimingRules)
    ensures
        *final(state) == reset_lock_spec(*old(state), rules),
{
    if state.lock_resets_used >= rules.max_lock_resets {
        return;
    }
    state.lock_resets_used += 1;
    if state.lock_resets_used < rules.max_lock_resets {
        state.lock_elapsed_frames = 0;
    }
}

fn is_grounded(board: &Board, piece: PieceState) -> (r: bool)
    requires
        board.wf(),
        piece.ok(),
    ensures
        r == grounded(board@.0, piece),
{
    try_movement(board, piece, Movement::Down).is_none()
}

fn apply_input(board: &Board, piece: PieceState, input: FrameInput) -> (r: Option<(PieceState, LastAction, bool)>)
    requires
        board.wf(),
        piece.ok(),
        input != FrameInput::HardDrop,
    ensures
        r == applied_input(board@.0, piece, input),
{
    match input {
        FrameInput::MoveLeft => match try_movement(board, piece, Movement::Left) {
            Some(q) => Some((q, LastAction::Translation, false)),
            None => None,
        },
        FrameInput::MoveRight => match try_movement(board, piece, Movement::Right) {
            Some(q) => Some((q, LastAction::Translation, false)),
            None => None,
        },
        FrameInput::SoftDropCell => match try_movement(board, piece, Movement::Down) {
            Some(q) => Some((q, LastAction::SoftDrop, false)),
            None => None,
        },
        FrameInput::RotateClockwise => apply_rotation(board, piece, RotationDirection::Clockwise),
        FrameInput::RotateCounterclockwise => apply_rotation(board, piece, RotationDirection::Counterclockwise),
        _ => apply_rotation(board, piece, RotationDirection::Half),
    }
}

fn apply_rotation(board: &Board, piece: PieceState, direction: RotationDirection) -> (r: Option<(PieceState, LastAction, bool)>)
    requires
        board.wf(),
        piece.ok(),
    ensures
        r == (match rotation_outcome(board@.0, piece, direction) {
            Some(res) => Some(
                (
                    res.state,
                    LastAction::Rotation { direction: res.direction, kick_index: res.client_kick_index_spec() },
                    res.used_kick,
                ),
            ),
            None => None::<(PieceState, LastAction, bool)>,
        }),
{
    match try_rotate(board, piece, direction) {
        Some(result) => {
            let k = result.client_kick_index();
            Some((result.state, LastAction::Rotation { direction: result.direction, kick_index: k }, result.used_kick))
        },
        None => None,
    }
}

fn apply_gravity(board: &Board, state: &mut TimingState, gravity: Gravity) -> (r: (u16, bool))
    requires
        board.wf(),
        gravity.wf(),
        old(state).fits(board@.0),
    ensures
        (*final(state), r.0 as int, r.1) == gravity_spec(board@.0, *old(state), gravity),
        final(state).fits(board@.0),
        r.0 <= HEIGHT + 1,
{
    let ghost s0 = *state;
    let scaled = (gravity.numerator as u64) * (FALL_MICROS_PER_CELL as u64);
    let denominator = gravity.denominator as u64;
    let gravity_micros = (scaled + denominator / 2) / denominator;
    let full_cells = gravity_micros / (FALL_MICROS_PER_CELL as u64);
    let remainder = gravity_micros % (FALL_MICROS_PER_CELL as u64);
    let limit: u64 = if full_cells < HEIGHT as u64 {
        full_cells
    } else {
        HEIGHT as u64
    };
    let mut rows: u16 = 0;
    let mut done: u64 = 0;
    proof {
        assert(gravity_micros == micros_per_frame(gravity));
        assert(limit == fall_limit(gravity));
    }
    while done < limit
        invariant
            board.wf(),
            state.fits(board@.0),
            done <= limit <= HEIGHT,
            limit == fall_limit(gravity),
            s0 == *old(state),
            rows == done,
            state.fall_fraction_micros == s0.fall_fraction_micros,
            *state == (TimingState { piece: state.piece, ..s0 }),
            fall_rows(board@.0, s0.piece, limit as nat) == (
                fall_rows(board@.0, state.piece, (limit - done) as nat).0,
                fall_rows(board@.0, state.piece, (limit - done) as nat).1 + done,
                fall_rows(board@.0, state.piece, (limit - done) as nat).2,
            ),
        decreases limit - done,
    {
        match try_movement(board, state.piece, Movement::Down) {
            Some(next) => {
                state.piece = next;
                rows = rows + 1;
                done = done + 1;
            },
            None => {
                proof {
                    assert(fall_rows(board@.0, state.piece, (limit - done) as nat) == (state.piece, 0int, true));
                    let f = fall_rows(board@.0, s0.piece, fall_limit(gravity) as nat);
                    assert(f == (state.piece, done as int, true));
                    assert(*state == (TimingState { piece: f.0, ..s0 }));
                    assert(gravity_spec(board@.0, s0, gravity).0 == (TimingState { piece: f.0, ..s0 }));
                    assert(gravity_spec(board@.0, s0, gravity).2);
                    assert(gravity_spec(board@.0, s0, gravity).1 == done);
                }
                return (rows, true);
            },
        }
    }
    if remainder == 0 {
        return (rows, false);
    }
    if is_grounded(board, state.piece) {
        return (rows, true);
    }
    let phase = (state.fall_fraction_micros as u64) + remainder;
    if phase >= FALL_MICROS_PER_CELL as u64 {
        state.piece = match try_movement(board, state.piece, Movement::Down) {
            Some(next) => next,
            None => {
                proof {
                    assert(false);
                }
                state.piece
            },
        };
        rows = rows + 1;
    }
    let next_phase = phase % (FALL_MICROS_PER_CELL as u64);
    state.fall_fraction_micros = if next_phase == 0 {
        1
    } else {
        next_phase as u32
    };
    (rows, false)
}

fn advance_after_inputs(board: &Board, state: &mut TimingState, rules: TimingRules, successful_inputs: u16) -> (r: FrameOutcome)
    requires
        board.wf(),
        rules.wf(),
        old(state).fits(board@.0),
    ensures
        ({
            let gs = gravity_spec(board@.0, *old(state), rules.gravity);
            let s2 = after_gravity(board@.0, gs.0, rules, gs.1, gs.2);
            *final(state) == s2 && r == outcome_spec(board@.0, s2, successful_inputs, gs.1 as u16)
        }),
        final(state).fits(board@.0),
{
    let (gravity_rows, fall_failed) = apply_gravity(board, state, rules.gravity);
    let grounded = is_grounded(board, state.piece);
    if fall_failed {
        state.lock_elapsed_frames = state.lock_elapsed_frames.saturating_add(1);
        state.locked = state.lock_elapsed_frames > rules.lock_delay_frames || state.lock_resets_used
            >= rules.max_lock_resets;
    } else {
        if !grounded {
            state.lock_elapsed_frames = 0;
        }
        if gravity_rows > 0 {
            state.lock_resets_used = 0;
        }
    }
    outcome(board, *state, successful_inputs, gravity_rows)
}

fn outcome(board: &Board, state: TimingState, successful_inputs: u16, gravity_rows: u16) -> (r: FrameOutcome)
    requires
        board.wf(),
        state.piece.ok(),
    ensures
        r == outcome_spec(board@.0, state, successful_inputs, gravity_rows),
{
    FrameOutcome {
        piece: state.piece,
        locked: state.locked,
        grounded: is_grounded(board, state.piece),
        successful_inputs,
        gravity_rows,
        lock_elapsed_frames: state.lock_elapsed_frames,
        lock_resets_used: state.lock_resets_used,
        last_action: state.last_action,
    }
}

} // verus!
