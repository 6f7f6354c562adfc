use vstd::prelude::*;
use vstd::std_specs::convert::FromSpecImpl;
use crate::board::{Board, BoardError, HEIGHT, WIDTH, garbage_row};
use crate::clear::ClearEvent;
use crate::game::{GameConfig, PlacementOutcome};
use crate::handling::HandlingRules;
use crate::session::SessionStepError;
use crate::timing::{TimingRules, TimingSchedule, TimingScheduleError, schedule_rules_spec};
use crate::rng::{MinStd, MINSTD_MODULUS, minstd_next, minstd_seed};
use crate::spin::SpinClassification;

verus! {

pub const MAX_ATTACK_PACKETS: usize = 5;

#[derive(Clone, Copy, Debug, PartialEq, Eq)]
pub enum ComboRule {
    NoCombo,
    /// Multiplies nonzero attack by a rational linear combo factor. When the
    /// pre-combo attack is zero, `zero_base_min_combo_index[k - 1]` is the
    /// first combo index whose rounded-down logarithmic minimum sends `k`.
    Multiplier { increment_numerator: u32, increment_denominator: u32, zero_base_min_combo_index: &'static [u32] },
}

#[derive(Clone, Copy, Debug, PartialEq, Eq)]
pub struct AttackRules {
    pub normal_clear: [u16; 5],
    pub mini_spin: [u16; 5],
    pub full_spin: [u16; 5],
    pub combo: ComboRule,
    pub back_to_back_bonus: u16,
    pub back_to_back_charging: bool,
    pub back_to_back_charge_at: u32,
    pub back_to_back_charge_base: u32,
    pub perfect_clear_attack: u16,
    pub perfect_clear_back_to_back: u32,
    pub perfect_clear_back_to_back_sends: bool,
    pub perfect_clear_back_to_back_dupes: bool,
    pub perfect_clear_charges: bool,
    pub garbage_clear_special_bonus: u16,
}

/// Strictly increasing thresholds.
pub open spec fn increasing(s: Seq<u32>) -> bool {
    forall|i: int| 0 <= i < s.len() - 1 ==> #[trigger] s[i] < s[i + 1]
}

impl AttackRules {
    pub open spec fn config_error(self) -> Option<AttackConfigError> {
        match self.combo {
            ComboRule::Multiplier { increment_denominator, zero_base_min_combo_index, .. } => if increment_denominator
                == 0 {
                Some(AttackConfigError::ZeroComboDenominator)
            } else if !increasing(zero_base_min_combo_index@) {
                Some(AttackConfigError::NonIncreasingComboThresholds)
            } else {
                None
            },
            ComboRule::NoCombo => None,
        }
    }

    pub fn validate(self) -> (r: Result<(), AttackConfigError>)
        ensures
            match self.config_error() {
                Some(e) => r == Err::<(), AttackConfigError>(e),
                None => r is Ok,
            },
    {
        if let ComboRule::Multiplier { increment_denominator, zero_base_min_combo_index, .. } = self.combo {
            if increment_denominator == 0 {
                return Err(AttackConfigError::ZeroComboDenominator);
            }
            let mut i: usize = 1;
            while i < zero_base_min_combo_index.len()
                invariant
                    1 <= i,
                    i <= zero_base_min_combo_index@.len() || zero_base_min_combo_index@.len() == 0,
                    self.combo matches ComboRule::Multiplier { zero_base_min_combo_index: z, increment_denominator: d, .. }
                        && z == zero_base_min_combo_index && d != 0,
                    forall|k: int| 0 <= k < i - 1 ==> #[trigger] zero_base_min_combo_index@[k]
                        < zero_base_min_combo_index@[k + 1],
                decreases zero_base_min_combo_index@.len() - i,
            {
                if zero_base_min_combo_index[i - 1] >= zero_base_min_combo_index[i] {
                    proof {
                        let k = (i - 1) as int;
                        assert(!(zero_base_min_combo_index@[k] < zero_base_min_combo_index@[k + 1]));
                    }
                    return Err(AttackConfigError::NonIncreasingComboThresholds);
                }
                i += 1;
            }
        }
        Ok(())
    }
}

#[derive(Clone, Copy, Debug, Default, PartialEq, Eq, Structural)]
pub struct AttackState {
    pub combo: u32,
    pub back_to_back: u32,
}

/// Exact IEEE-754 payload of the garbage multiplier used by the pinned
/// JavaScript client.
#[derive(Clone, Copy, Debug, PartialEq, Eq, Structural)]
pub struct AttackMultiplier {
    value_bits: u64,
}

/// The payload encodes a finite number: its exponent field is not all ones.
pub open spec fn finite_bits(bits: u64) -> bool {
    (bits >> 52u64) & 0x7ffu64 != 0x7ffu64
}

impl AttackMultiplier {
    pub closed spec fn bits(self) -> u64 {
        self.value_bits
    }

    /// The multiplier one.
    pub closed spec fn unit() -> AttackMultiplier {
        AttackMultiplier { value_bits: 0x3ff0_0000_0000_0000u64 }
    }

    pub fn one() -> (r: Self)
        ensures
            r == Self::unit(),
            r.bits() == 0x3ff0_0000_0000_0000u64,
    {
        AttackMultiplier { value_bits: 0x3ff0_0000_0000_0000 }
    }

    /// Reconstructs the exact finite IEEE-754 payload emitted by a pinned
    /// reference client. This is intentionally narrower than accepting an
    /// arbitrary floating-point value through the rules API.
    pub fn from_ieee_bits(value_bits: u64) -> (r: Result<Self, AttackConfigError>)
        ensures
            finite_bits(value_bits) ==> (r matches Ok(m) && m.bits() == value_bits),
            !finite_bits(value_bits) ==> r == Err::<Self, AttackConfigError>(
                AttackConfigError::NonFiniteGarbageMultiplier,
            ),
    {
        if (value_bits >> 52u64) & 0x7ffu64 == 0x7ffu64 {
            return Err(AttackConfigError::NonFiniteGarbageMultiplier);
        }
        Ok(AttackMultiplier { value_bits })
    }

    /// Returns the exact payload used for deterministic trace interchange.
    pub fn ieee_bits(self) -> (r: u64)
        ensures
            r == self.bits(),
    {
        self.value_bits
    }
}

#[derive(Clone, Copy, Debug, PartialEq, Eq, Structural)]
pub struct AttackContext {
    /// True when at least one cleared row contained garbage cells.
    pub cleared_garbage: bool,
    /// Effective garbage multiplier before this frame's end-of-frame increase.
    pub multiplier: AttackMultiplier,
}

impl Default for AttackContext {
    fn default() -> (r: Self)
        ensures
            !r.cleared_garbage,
            r.multiplier == AttackMultiplier::unit(),
    {
        AttackContext { cleared_garbage: false, multiplier: AttackMultiplier::one() }
    }
}

impl From<PlacementOutcome> for AttackContext {
    fn from(outcome: PlacementOutcome) -> (r: Self) {
        AttackContext { cleared_garbage: outcome.cleared_garbage, multiplier: AttackMultiplier::one() }
    }
}

impl FromSpecImpl<PlacementOutcome> for AttackContext {
    open spec fn obeys_from_spec() -> bool {
        true
    }

    open spec fn from_spec(outcome: PlacementOutcome) -> AttackContext {
        AttackContext {
            cleared_garbage: outcome.cleared_garbage,
            multiplier: AttackMultiplier::unit(),
        }
    }
}

#[derive(Clone, Copy, Debug, PartialEq, Eq, Structural)]
pub enum AttackPacketKind {
    Surge,
    Clear,
    PerfectClear,
}

#[derive(Clone, Copy, Debug, PartialEq, Eq, Structural)]
pub struct AttackPacket {
    pub kind: AttackPacketKind,
    pub lines: u32,
}

/// The packets of a sequence that carry lines, in order.
pub open spec fn kept_packets(s: Seq<AttackPacket>) -> Seq<AttackPacket>
    decreases s.len(),
{
    if s.len() == 0 {
        Seq::empty()
    } else if s.last().lines > 0 {
        kept_packets(s.drop_last()).push(s.last())
    } else {
        kept_packets(s.drop_last())
    }
}

/// Total lines of a packet sequence.
pub open spec fn lines_total(s: Seq<AttackPacket>) -> int
    decreases s.len(),
{
    if s.len() == 0 {
        0
    } else {
        lines_total(s.drop_last()) + s.last().lines
    }
}

pub proof fn lemma_lines_total_bound(s: Seq<AttackPacket>)
    ensures
        0 <= lines_total(s) <= s.len() * 0xffff_ffff,
    decreases s.len(),
{
    if s.len() > 0 {
        lemma_lines_total_bound(s.drop_last());
    }
}

/// The filler held in the slots of a packet sequence past its length.
pub open spec fn unused_packet() -> AttackPacket {
    AttackPacket { kind: AttackPacketKind::Clear, lines: 0 }
}

/// Ordered attack packets of one placement, at most five, none empty.
#[derive(Clone, Copy, Debug, PartialEq, Eq)]
pub struct AttackPackets {
    values: [AttackPacket; MAX_ATTACK_PACKETS],
    len: u8,
}

impl View for AttackPackets {
    type V = Seq<AttackPacket>;

    closed spec fn view(&self) -> Seq<AttackPacket> {
        self.values@.take(self.len as int)
    }
}

impl AttackPackets {
    pub closed spec fn wf(&self) -> bool {
        &&& self.len <= 5
        &&& forall|i: int| 0 <= i < self.len ==> #[trigger] self.values@[i].lines > 0
        &&& forall|i: int| self.len <= i < 5 ==> #[trigger] self.values@[i] == unused_packet()
    }

    /// Two well-formed packet sequences with the same packets are the same
    /// value: the slots past the length always hold the same filler.
    pub proof fn lemma_view_determines(a: Self, b: Self)
        requires
            a.wf(),
            b.wf(),
            a@ == b@,
        ensures
            a == b,
    {
        assert(a.len == b.len) by {
            assert(a@.len() == a.len as nat);
            assert(b@.len() == b.len as nat);
        }
        assert forall|i: int| 0 <= i < 5 implies a.values@[i] == b.values@[i] by {
            if i < a.len {
                assert(a@[i] == a.values@[i]);
                assert(b@[i] == b.values@[i]);
            }
        }
        assert(a.values =~= b.values);
    }

    pub proof fn lemma_wf(&self)
        requires
            self.wf(),
        ensures
            self@.len() <= 5,
            forall|i: int| 0 <= i < self@.len() ==> #[trigger] self@[i].lines > 0,
    {
    }

    pub fn empty() -> (r: Self)
        ensures
            r.wf(),
            r@ == Seq::<AttackPacket>::empty(),
    {
        let r = AttackPackets { values: [AttackPacket { kind: AttackPacketKind::Clear, lines: 0 }; 5], len: 0 };
        assert(r@ =~= Seq::<AttackPacket>::empty());
        r
    }

    pub fn as_slice(&self) -> (r: &[AttackPacket])
        requires
            self.wf(),
        ensures
            r@ == self@,
    {
        vstd::slice::slice_subrange(self.values.as_slice(), 0, self.len as usize)
    }

    pub fn len(&self) -> (r: usize)
        requires
            self.wf(),
        ensures
            r == self@.len(),
    {
        self.len as usize
    }

    pub fn is_empty(&self) -> (r: bool)
        requires
            self.wf(),
        ensures
            r == (self@.len() == 0),
    {
        self.len == 0
    }

    pub fn total(&self) -> (r: u64)
        requires
            self.wf(),
        ensures
            r == lines_total(self@),
    {
        let mut sum: u64 = 0;
        let mut i: usize = 0;
        while i < self.len as usize
            invariant
                self.wf(),
                i <= self.len,
                sum == lines_total(self@.take(i as int)),
                sum <= i * 0xffff_ffff,
            decreases self.len - i,
        {
            proof {
                assert(self@.take(i + 1).drop_last() =~= self@.take(i as int));
            }
            sum = sum + self.values[i].lines as u64;
            i += 1;
        }
        assert(self@.take(self.len as int) =~= self@);
        sum
    }

    /// Same count and same stored packets, slot by slot.
    pub closed spec fn identical(self, other: Self) -> bool {
        self.len == other.len && self.values@ == other.values@
    }

    pub fn is_identical(&self, other: &Self) -> (r: bool)
        ensures
            r == self.identical(*other),
    {
        if self.len != other.len {
            return false;
        }
        let mut i: usize = 0;
        while i < MAX_ATTACK_PACKETS
            invariant
                i <= MAX_ATTACK_PACKETS,
                forall|j: int| 0 <= j < i ==> self.values@[j] == other.values@[j],
            decreases MAX_ATTACK_PACKETS - i,
        {
            if self.values[i] != other.values[i] {
                return false;
            }
            i += 1;
        }
        assert(self.values@ =~= other.values@);
        true
    }

    /// Appends a packet; zero-line packets are omitted.
    pub fn push(&mut self, kind: AttackPacketKind, lines: u32) -> (r: Result<(), AttackError>)
        requires
            old(self).wf(),
        ensures
            final(self).wf(),
            lines == 0 ==> r is Ok && final(self)@ == old(self)@,
            lines > 0 && old(self)@.len() < 5 ==> r is Ok && final(self)@ == old(self)@.push(
                AttackPacket { kind, lines },
            ),
            lines > 0 && old(self)@.len() >= 5 ==> r == Err::<(), AttackError>(AttackError::PacketCapacityExceeded)
                && final(self)@ == old(self)@,
    {
        if lines == 0 {
            return Ok(());
        }
        let index = self.len as usize;
        if index >= MAX_ATTACK_PACKETS {
            return Err(AttackError::PacketCapacityExceeded);
        }
        self.values[index] = AttackPacket { kind, lines };
        self.len = self.len + 1;
        assert(self@ =~= old(self)@.push(AttackPacket { kind, lines }));
        Ok(())
    }

    /// Builds an ordered packet sequence for reference-trace input while
    /// preserving the runtime rule that zero-sized packets are omitted.
    pub fn try_from_slice(packets: &[AttackPacket]) -> (r: Result<Self, AttackError>)
        ensures
            r is Ok <==> kept_packets(packets@).len() <= 5,
            r matches Ok(p) ==> p.wf() && p@ == kept_packets(packets@),
            r matches Err(e) ==> e == AttackError::PacketCapacityExceeded,
    {
        let mut result = Self::empty();
        let mut i: usize = 0;
        while i < packets.len()
            invariant
                i <= packets@.len(),
                result.wf(),
                result@ == kept_packets(packets@.take(i as int)),
            decreases packets@.len() - i,
        {
            proof {
                assert(packets@.take(i + 1).drop_last() =~= packets@.take(i as int));
                lemma_kept_grows(packets@, i as int);
            }
            let packet = packets[i];
            match result.push(packet.kind, packet.lines) {
                Ok(()) => {},
                Err(e) => {
                    proof {
                        lemma_kept_prefix_mono(packets@, i + 1, packets@.len() as int);
                        assert(packets@.take(packets@.len() as int) =~= packets@);
                    }
                    return Err(e);
                },
            }
            i += 1;
        }
        assert(packets@.take(packets@.len() as int) =~= packets@);
        Ok(result)
    }
}

proof fn lemma_kept_grows(s: Seq<AttackPacket>, i: int)
    requires
        0 <= i < s.len(),
    ensures
        kept_packets(s.take(i + 1)) == (if s[i].lines > 0 {
            kept_packets(s.take(i)).push(s[i])
        } else {
            kept_packets(s.take(i))
        }),
{
    assert(s.take(i + 1).drop_last() =~= s.take(i));
}

proof fn lemma_kept_prefix_mono(s: Seq<AttackPacket>, i: int, j: int)
    requires
        0 <= i <= j <= s.len(),
    ensures
        kept_packets(s.take(i)).len() <= kept_packets(s.take(j)).len(),
    decreases j - i,
{
    if i < j {
        lemma_kept_prefix_mono(s, i, j - 1);
        lemma_kept_grows(s, j - 1);
    }
}

impl Default for AttackPackets {
    fn default() -> (r: Self)
        ensures
            r.wf(),
            r@ == Seq::<AttackPacket>::empty(),
    {
        Self::empty()
    }
}

#[derive(Clone, Copy, Debug, PartialEq, Eq)]
pub struct AttackOutcome {
    pub state: AttackState,
    pub packets: AttackPackets,
    pub base_attack: u32,
    pub clear_attack: u32,
    pub back_to_back_bonus: u32,
    pub special_bonus: u32,
    pub surge_attack: u32,
    pub perfect_clear_attack: u32,
    pub difficult: bool,
    pub back_to_back: bool,
}

impl AttackOutcome {
    pub fn total_attack(self) -> (r: u64)
        requires
            self.packets.wf(),
        ensures
            r == lines_total(self.packets@),
    {
        self.packets.total()
    }
}

#[derive(Clone, Copy, Debug, PartialEq, Eq, Structural)]
pub struct GarbageMultiplierSchedule {
    pub initial_numerator: u64,
    pub initial_denominator: u64,
    pub increase_numerator_per_second: u64,
    pub increase_denominator_per_second: u64,
    pub margin_frames: u64,
    pub tick_rate_hz: u32,
}

impl GarbageMultiplierSchedule {
    pub fn tetra_league_observed() -> (r: Self)
        ensures
            r == (GarbageMultiplierSchedule {
                initial_numerator: 1,
                initial_denominator: 1,
                increase_numerator_per_second: 1,
                increase_denominator_per_second: 125,
                margin_frames: 10_800,
                tick_rate_hz: 60,
            }),
    {
        GarbageMultiplierSchedule {
            initial_numerator: 1,
            initial_denominator: 1,
            increase_numerator_per_second: 1,
            increase_denominator_per_second: 125,
            margin_frames: 10_800,
            tick_rate_hz: 60,
        }
    }

    pub open spec fn config_error(self) -> Option<GarbageConfigError> {
        if self.initial_denominator == 0 {
            Some(GarbageConfigError::ZeroInitialMultiplierDenominator)
        } else if self.increase_denominator_per_second == 0 {
            Some(GarbageConfigError::ZeroMultiplierIncreaseDenominator)
        } else if self.tick_rate_hz == 0 {
            Some(GarbageConfigError::ZeroTickRate)
        } else {
            None
        }
    }

    pub fn validate(self) -> (r: Result<(), GarbageConfigError>)
        ensures
            match self.config_error() {
                Some(e) => r == Err::<(), GarbageConfigError>(e),
                None => r is Ok,
            },
    {
        if self.initial_denominator == 0 {
            return Err(GarbageConfigError::ZeroInitialMultiplierDenominator);
        }
        if self.increase_denominator_per_second == 0 {
            return Err(GarbageConfigError::ZeroMultiplierIncreaseDenominator);
        }
        if self.tick_rate_hz == 0 {
            return Err(GarbageConfigError::ZeroTickRate);
        }
        Ok(())
    }
}

#[derive(Clone, Copy, Debug, PartialEq, Eq, Structural)]
pub struct GarbageMessinessRules {
    pub change_numerator: u32,
    pub change_denominator: u32,
    pub inner_numerator: u32,
    pub inner_denominator: u32,
    pub no_same: bool,
    pub center: bool,
}

/// Columns kept clear of holes on each side when holes are centered.
pub open spec fn edge_exclusion(rules: GarbageMessinessRules) -> int {
    if rules.center {
        2
    } else {
        0
    }
}

impl GarbageMessinessRules {
    /// Current TETRA LEAGUE change-on-attack behavior: a packet keeps one hole,
    /// then always rerolls when that packet is depleted or fully cancelled.
    pub fn tetra_league_observed() -> (r: Self)
        ensures
            r == (GarbageMessinessRules {
                change_numerator: 1,
                change_denominator: 1,
                inner_numerator: 0,
                inner_denominator: 1,
                no_same: false,
                center: false,
            }),
    {
        GarbageMessinessRules {
            change_numerator: 1,
            change_denominator: 1,
            inner_numerator: 0,
            inner_denominator: 1,
            no_same: false,
            center: false,
        }
    }

    pub open spec fn config_error(self) -> Option<GarbageConfigError> {
        if self.change_denominator == 0 {
            Some(GarbageConfigError::ZeroMessinessChangeDenominator)
        } else if self.inner_denominator == 0 {
            Some(GarbageConfigError::ZeroMessinessInnerDenominator)
        } else {
            None
        }
    }

    pub fn validate(self) -> (r: Result<(), GarbageConfigError>)
        ensures
            match self.config_error() {
                Some(e) => r == Err::<(), GarbageConfigError>(e),
                None => r is Ok,
            },
    {
        if self.change_denominator == 0 {
            return Err(GarbageConfigError::ZeroMessinessChangeDenominator);
        }
        if self.inner_denominator == 0 {
            return Err(GarbageConfigError::ZeroMessinessInnerDenominator);
        }
        let edge_exclusion: usize = if self.center { (WIDTH + 2) / 5 } else { 0 };
        let available = WIDTH - 2 * edge_exclusion;
        if available == 0 || (self.no_same && available < 2) {
            return Err(GarbageConfigError::NoAvailableGarbageHole);
        }
        Ok(())
    }
}

#[derive(Clone, Copy, Debug, PartialEq, Eq, Structural)]
pub struct GarbageRules {
    /// Frames between sending an attack and making it eligible to rise.
    pub travel_frames: u32,
    /// Maximum ready garbage lines that may rise after one tanking placement.
    pub garbage_cap: u8,
    /// Last placed-piece count eligible for opener double cancellation.
    pub opener_phase_pieces: u64,
    /// When true, any line clear blocks garbage insertion for that placement.
    pub combo_blocking: bool,
    /// Hole-change behavior and its exact RNG-consumption contract.
    pub messiness: GarbageMessinessRules,
    /// Frame-derived attack scaling used after the TL garbage margin.
    pub multiplier: GarbageMultiplierSchedule,
}

impl GarbageRules {
    pub open spec fn config_error(self) -> Option<GarbageConfigError> {
        if self.garbage_cap == 0 {
            Some(GarbageConfigError::ZeroGarbageCap)
        } else if self.messiness.config_error() is Some {
            self.messiness.config_error()
        } else {
            self.multiplier.config_error()
        }
    }

    pub fn validate(self) -> (r: Result<(), GarbageConfigError>)
        ensures
            match self.config_error() {
                Some(e) => r == Err::<(), GarbageConfigError>(e),
                None => r is Ok,
            },
    {
        if self.garbage_cap == 0 {
            return Err(GarbageConfigError::ZeroGarbageCap);
        }
        match self.messiness.validate() {
            Ok(()) => {},
            Err(e) => {
                return Err(e);
            },
        }
        self.multiplier.validate()
    }
}

#[derive(Clone, Copy, Debug, PartialEq, Eq, Structural)]
pub enum AttackConfigError {
    ZeroComboDenominator,
    NonIncreasingComboThresholds,
    ZeroGarbageMultiplierDenominator,
    NonFiniteGarbageMultiplier,
}

#[derive(Clone, Copy, Debug, PartialEq, Eq, Structural)]
pub enum GarbageConfigError {
    ZeroGarbageCap,
    ZeroMessinessChangeDenominator,
    ZeroMessinessInnerDenominator,
    NoAvailableGarbageHole,
    ZeroInitialMultiplierDenominator,
    ZeroMultiplierIncreaseDenominator,
    ZeroTickRate,
}

#[derive(Clone, Copy, Debug, PartialEq, Eq, Structural)]
pub enum AttackError {
    InvalidConfiguration(AttackConfigError),
    UnsupportedClearLines(u8),
    PerfectClearWithoutLineClear,
    CounterOverflow,
    PacketCapacityExceeded,
}

impl From<AttackConfigError> for AttackError {
    fn from(error: AttackConfigError) -> (r: Self) {
        AttackError::InvalidConfiguration(error)
    }
}

impl FromSpecImpl<AttackConfigError> for AttackError {
    open spec fn obeys_from_spec() -> bool {
        true
    }

    open spec fn from_spec(error: AttackConfigError) -> AttackError {
        AttackError::InvalidConfiguration(error)
    }
}

#[derive(Clone, Copy, Debug, PartialEq, Eq, Structural)]
pub enum GarbageError {
    InvalidConfiguration(GarbageConfigError),
    Attack(AttackError),
    Board(BoardError),
    ZeroLinePacket,
    HoleOutOfBounds(u8),
    MissingGeneratedHole,
    CounterOverflow,
}

impl From<GarbageConfigError> for GarbageError {
    fn from(error: GarbageConfigError) -> (r: Self) {
        GarbageError::InvalidConfiguration(error)
    }
}

impl FromSpecImpl<GarbageConfigError> for GarbageError {
    open spec fn obeys_from_spec() -> bool {
        true
    }

    open spec fn from_spec(error: GarbageConfigError) -> GarbageError {
        GarbageError::InvalidConfiguration(error)
    }
}

impl From<AttackError> for GarbageError {
    fn from(error: AttackError) -> (r: Self) {
        GarbageError::Attack(error)
    }
}

impl FromSpecImpl<AttackError> for GarbageError {
    open spec fn obeys_from_spec() -> bool {
        true
    }

    open spec fn from_spec(error: AttackError) -> GarbageError {
        GarbageError::Attack(error)
    }
}

impl From<BoardError> for GarbageError {
    fn from(error: BoardError) -> (r: Self) {
        GarbageError::Board(error)
    }
}

impl FromSpecImpl<BoardError> for GarbageError {
    open spec fn obeys_from_spec() -> bool {
        true
    }

    open spec fn from_spec(error: BoardError) -> GarbageError {
        GarbageError::Board(error)
    }
}

// ---------------------------------------------------------------------------
// Receiver-side garbage holes and the incoming garbage queue.
// ---------------------------------------------------------------------------

/// Hole generator state: generator state, last hole column, and whether the
/// column was changed since the last inserted line.
pub type HoleModel = (u32, Option<u8>, bool);

/// One Bernoulli draw with probability `num / den`.
#[verifier::opaque]
pub open spec fn chance_spec(state: u32, num: u32, den: u32) -> (u32, bool) {
    let next = minstd_next(state);
    (next, (next as int) * (den as int) < (num as int) * (MINSTD_MODULUS as int))
}

/// One index draw below `upper`.
pub open spec fn index_spec(state: u32, upper: int) -> (u32, int) {
    let next = minstd_next(state);
    (next, (next as int * upper) / (MINSTD_MODULUS as int))
}

/// Picks a new hole column, optionally avoiding the previous one.
#[verifier::opaque]
pub open spec fn reroll_spec(g: HoleModel, rules: GarbageMessinessRules) -> HoleModel {
    let edge = edge_exclusion(rules);
    let available = 10 - 2 * edge;
    let (st, candidate) = if rules.no_same && g.1 is Some {
        let (st, i) = index_spec(g.0, available - 1);
        (st, if edge + i >= g.1->Some_0 { edge + i + 1 } else { edge + i })
    } else {
        let (st, i) = index_spec(g.0, available);
        (st, edge + i)
    };
    (st, Some((if candidate > 9 { 9 } else { candidate }) as u8), g.2)
}

/// A packet was depleted: one change test, and a new hole when it passes.
pub open spec fn finished_spec(g: HoleModel, rules: GarbageMessinessRules) -> HoleModel {
    let (st, change) = chance_spec(g.0, rules.change_numerator, rules.change_denominator);
    if change {
        let r = reroll_spec((st, g.1, g.2), rules);
        (r.0, r.1, true)
    } else {
        (st, g.1, g.2)
    }
}

/// The generator state after choosing a generated hole: a change test unless
/// no hole exists yet, and a reroll at most once per line.
pub open spec fn generated_spec(g: HoleModel, rules: GarbageMessinessRules) -> HoleModel {
    let (st, should) = match g.1 {
        None => (g.0, true),
        Some(_) => chance_spec(g.0, rules.inner_numerator, rules.inner_denominator),
    };
    if should && !g.2 {
        let r = reroll_spec((st, g.1, g.2), rules);
        (r.0, r.1, true)
    } else {
        (st, g.1, g.2)
    }
}

/// The hole of the next inserted line: the packet's own column, or the
/// generated one.
pub open spec fn line_column_spec(g: HoleModel, explicit: Option<u8>, rules: GarbageMessinessRules) -> (HoleModel, u8) {
    match explicit {
        Some(c) => ((g.0, g.1, false), c),
        None => {
            let g1 = generated_spec(g, rules);
            ((g1.0, g1.1, false), g1.1->Some_0)
        },
    }
}

pub open spec fn hole_ok(g: HoleModel) -> bool {
    &&& 1 <= g.0 < MINSTD_MODULUS
    &&& (g.1 matches Some(c) ==> c < 10)
    &&& (g.2 ==> g.1 is Some)
}

/// Receiver-side hole state. TETR.IO initializes a second MINSTD stream with
/// the game seed; it is independent from the piece bag stream.
#[derive(Clone, Copy, Debug, PartialEq, Eq, Structural)]
pub struct GarbageHoleGenerator {
    rng: MinStd,
    last_column: Option<u8>,
    has_changed_column: bool,
}

impl GarbageHoleGenerator {
    pub closed spec fn model(&self) -> HoleModel {
        (self.rng.state_spec(), self.last_column, self.has_changed_column)
    }

    pub closed spec fn wf(&self) -> bool {
        self.rng.wf() && hole_ok(self.model())
    }

    pub proof fn lemma_wf(&self)
        requires
            self.wf(),
        ensures
            hole_ok(self.model()),
    {
    }

    pub fn new(seed: u64) -> (r: Self)
        ensures
            r.wf(),
            r.model() == (minstd_seed(seed), None::<u8>, false),
    {
        GarbageHoleGenerator { rng: MinStd::new(seed), last_column: None, has_changed_column: false }
    }

    pub fn rng_state(self) -> (r: u32)
        ensures
            r == self.model().0,
    {
        self.rng.state()
    }

    pub fn last_column(self) -> (r: Option<u8>)
        ensures
            r == self.model().1,
    {
        self.last_column
    }

    pub fn has_changed_column(self) -> (r: bool)
        ensures
            r == self.model().2,
    {
        self.has_changed_column
    }

    fn generated_column(&mut self, rules: GarbageMessinessRules)
        requires
            old(self).wf(),
            rules.config_error() is None,
        ensures
            final(self).rng.wf(),
            final(self).model() == generated_spec(old(self).model(), rules),
            hole_ok(final(self).model()),
    {
        proof {
            reveal(chance_spec);
            lemma_line_column_ok(self.model(), None, rules);
        }
        let should_change = match self.last_column {
            None => true,
            Some(_) => self.rng.chance(rules.inner_numerator, rules.inner_denominator),
        };
        if should_change && !self.has_changed_column {
            match self.reroll(rules) {
                Ok(_) => {},
                Err(_) => {},
            }
            self.has_changed_column = true;
        }
    }

    fn line_column(&mut self, explicit: Option<u8>, rules: GarbageMessinessRules) -> (r: Result<u8, GarbageError>)
        requires
            old(self).wf(),
            rules.config_error() is None,
        ensures
            final(self).wf(),
            r == Ok::<u8, GarbageError>(line_column_spec(old(self).model(), explicit, rules).1),
            final(self).model() == line_column_spec(old(self).model(), explicit, rules).0,
    {
        let column = if let Some(column) = explicit {
            column
        } else {
            self.generated_column(rules);
            match self.last_column {
                Some(c) => c,
                None => {
                    return Err(GarbageError::MissingGeneratedHole);
                },
            }
        };
        // TakeAllDamage resets this flag after every inserted line, including
        // packets carrying an explicit column.
        self.has_changed_column = false;
        Ok(column)
    }

    #[verifier::spinoff_prover]
    #[verifier::rlimit(60)]
    fn packet_finished(&mut self, rules: GarbageMessinessRules) -> (r: Result<(), GarbageError>)
        requires
            old(self).wf(),
            rules.config_error() is None,
        ensures
            final(self).wf(),
            r is Ok,
            final(self).model() == finished_spec(old(self).model(), rules),
    {
        proof {
            reveal(chance_spec);
            lemma_reroll_ok(self.model(), rules);
        }
        if self.rng.chance(rules.change_numerator, rules.change_denominator) {
            match self.reroll(rules) {
                Ok(_) => {},
                Err(e) => {
                    return Err(e);
                },
            }
            self.has_changed_column = true;
        }
        Ok(())
    }

    fn reroll(&mut self, rules: GarbageMessinessRules) -> (r: Result<u8, GarbageError>)
        requires
            old(self).wf(),
        ensures
            rules.config_error() matches Some(e) ==> r == Err::<u8, GarbageError>(GarbageError::InvalidConfiguration(e))
                && *final(self) == *old(self),
            rules.config_error() is None ==> r is Ok && final(self).model() == reroll_spec(old(self).model(), rules)
                && final(self).rng.wf() && r->Ok_0 < 10 && final(self).model().1 == Some(r->Ok_0),
    {
        proof {
            reveal(reroll_spec);
        }
        match rules.validate() {
            Ok(()) => {},
            Err(e) => {
                return Err(GarbageError::InvalidConfiguration(e));
            },
        }
        let edge_exclusion: usize = if rules.center { (WIDTH + 2) / 5 } else { 0 };
        let available = WIDTH - 2 * edge_exclusion;
        let mut column = if rules.no_same && self.last_column.is_some() {
            let mut candidate = edge_exclusion + self.rng.index(available - 1);
            let last = match self.last_column {
                Some(c) => c,
                None => 0,
            };
            if candidate >= last as usize {
                candidate += 1;
            }
            candidate
        } else {
            edge_exclusion + self.rng.index(available)
        };
        // The no-same branch skips the previous absolute column. With centered
        // ranges the previous value is guaranteed to be inside that range.
        if column > WIDTH - 1 {
            column = WIDTH - 1;
        }
        let column = column as u8;
        self.last_column = Some(column);
        Ok(column)
    }
}

#[derive(Clone, Copy, Debug, PartialEq, Eq, Structural)]
pub struct IncomingGarbagePacket {
    pub lines: u32,
    /// Some packets (maps/tests/custom modes) carry a fixed column. Normal TL
    /// attacks use `None` and consume the receiver's hole RNG on tank/cancel.
    pub hole_column: Option<u8>,
    pub ready_at_frame: u64,
    /// Hardened lines stay in queue and are skipped during cancellation.
    pub hardened: bool,
}

impl IncomingGarbagePacket {
    pub fn after_travel(lines: u32, hole_column: u8, sent_at_frame: u64, hardened: bool, rules: GarbageRules) -> (r:
        Result<Self, GarbageError>)
        ensures
            rules.config_error() matches Some(e) ==> r == Err::<Self, GarbageError>(GarbageError::InvalidConfiguration(e)),
            rules.config_error() is None && lines == 0 ==> r == Err::<Self, GarbageError>(GarbageError::ZeroLinePacket),
            rules.config_error() is None && lines > 0 && hole_column >= 10 ==> r == Err::<Self, GarbageError>(
                GarbageError::HoleOutOfBounds(hole_column),
            ),
            rules.config_error() is None && lines > 0 && hole_column < 10 && sent_at_frame + rules.travel_frames
                > u64::MAX ==> r == Err::<Self, GarbageError>(GarbageError::CounterOverflow),
            rules.config_error() is None && lines > 0 && hole_column < 10 && sent_at_frame + rules.travel_frames
                <= u64::MAX ==> r == Ok::<Self, GarbageError>(
                IncomingGarbagePacket {
                    lines,
                    hole_column: Some(hole_column),
                    ready_at_frame: (sent_at_frame + rules.travel_frames) as u64,
                    hardened,
                },
            ),
    {
        match rules.validate() {
            Ok(()) => {},
            Err(e) => {
                return Err(GarbageError::InvalidConfiguration(e));
            },
        }
        if lines == 0 {
            return Err(GarbageError::ZeroLinePacket);
        }
        if hole_column as usize >= WIDTH {
            return Err(GarbageError::HoleOutOfBounds(hole_column));
        }
        let ready_at_frame = match sent_at_frame.checked_add(rules.travel_frames as u64) {
            Some(v) => v,
            None => {
                return Err(GarbageError::CounterOverflow);
            },
        };
        Ok(IncomingGarbagePacket { lines, hole_column: Some(hole_column), ready_at_frame, hardened })
    }

    pub fn after_travel_generated(lines: u32, sent_at_frame: u64, hardened: bool, rules: GarbageRules) -> (r: Result<
        Self,
        GarbageError,
    >)
        ensures
            rules.config_error() matches Some(e) ==> r == Err::<Self, GarbageError>(GarbageError::InvalidConfiguration(e)),
            rules.config_error() is None && lines == 0 ==> r == Err::<Self, GarbageError>(GarbageError::ZeroLinePacket),
            rules.config_error() is None && lines > 0 && sent_at_frame + rules.travel_frames > u64::MAX ==> r == Err::<
                Self,
                GarbageError,
            >(GarbageError::CounterOverflow),
            rules.config_error() is None && lines > 0 && sent_at_frame + rules.travel_frames <= u64::MAX ==> r == Ok::<
                Self,
                GarbageError,
            >(
                IncomingGarbagePacket {
                    lines,
                    hole_column: None,
                    ready_at_frame: (sent_at_frame + rules.travel_frames) as u64,
                    hardened,
                },
            ),
    {
        match rules.validate() {
            Ok(()) => {},
            Err(e) => {
                return Err(GarbageError::InvalidConfiguration(e));
            },
        }
        if lines == 0 {
            return Err(GarbageError::ZeroLinePacket);
        }
        let ready_at_frame = match sent_at_frame.checked_add(rules.travel_frames as u64) {
            Some(v) => v,
            None => {
                return Err(GarbageError::CounterOverflow);
            },
        };
        Ok(IncomingGarbagePacket { lines, hole_column: None, ready_at_frame, hardened })
    }
}

/// Pending lines of a queue, front first.
pub open spec fn queue_lines(s: Seq<IncomingGarbagePacket>) -> int
    decreases s.len(),
{
    if s.len() == 0 {
        0
    } else {
        s[0].lines + queue_lines(s.drop_first())
    }
}

/// Lines of packets that have finished travelling by `frame`.
pub open spec fn ready_total(s: Seq<IncomingGarbagePacket>, frame: u64) -> int
    decreases s.len(),
{
    if s.len() == 0 {
        0
    } else {
        (if s[0].ready_at_frame <= frame { s[0].lines as int } else { 0 }) + ready_total(s.drop_first(), frame)
    }
}

pub proof fn lemma_queue_lines_concat(a: Seq<IncomingGarbagePacket>, b: Seq<IncomingGarbagePacket>)
    ensures
        queue_lines(a + b) == queue_lines(a) + queue_lines(b),
        ready_total(a + b, 0) == ready_total(a, 0) + ready_total(b, 0),
    decreases a.len(),
{
    if a.len() > 0 {
        assert((a + b).drop_first() =~= a.drop_first() + b);
        lemma_queue_lines_concat(a.drop_first(), b);
    } else {
        assert(a + b =~= b);
    }
}

pub proof fn lemma_ready_concat(a: Seq<IncomingGarbagePacket>, b: Seq<IncomingGarbagePacket>, frame: u64)
    ensures
        ready_total(a + b, frame) == ready_total(a, frame) + ready_total(b, frame),
        0 <= ready_total(a, frame) <= queue_lines(a),
    decreases a.len(),
{
    if a.len() > 0 {
        assert((a + b).drop_first() =~= a.drop_first() + b);
        lemma_ready_concat(a.drop_first(), b, frame);
    } else {
        assert(a + b =~= b);
    }
}

pub proof fn lemma_queue_lines_nonneg(s: Seq<IncomingGarbagePacket>)
    ensures
        queue_lines(s) >= 0,
    decreases s.len(),
{
    if s.len() > 0 {
        lemma_queue_lines_nonneg(s.drop_first());
    }
}

pub open spec fn packet_ok(p: IncomingGarbagePacket) -> bool {
    p.lines > 0 && (p.hole_column matches Some(c) ==> c < 10)
}

pub open spec fn packets_ok(s: Seq<IncomingGarbagePacket>) -> bool {
    forall|i: int| 0 <= i < s.len() ==> packet_ok(#[trigger] s[i])
}

/// Cancels up to `remaining` lines from packets `i..`, oldest first, skipping
/// hardened packets; a depleted packet leaves the queue and runs the hole
/// generator's packet-boundary step. `kept` collects the packets that stay.
pub open spec fn cancel_from(
    s: Seq<IncomingGarbagePacket>,
    i: int,
    g: HoleModel,
    remaining: u32,
    kept: Seq<IncomingGarbagePacket>,
    rules: GarbageMessinessRules,
) -> (Seq<IncomingGarbagePacket>, HoleModel, u32)
    decreases s.len() - i,
{
    if i < 0 || i >= s.len() {
        (kept, g, remaining)
    } else if remaining == 0 || s[i].hardened {
        cancel_from(s, i + 1, g, remaining, kept.push(s[i]), rules)
    } else if s[i].lines <= remaining {
        cancel_from(s, i + 1, finished_spec(g, rules), (remaining - s[i].lines) as u32, kept, rules)
    } else {
        cancel_from(
            s,
            i + 1,
            g,
            0,
            kept.push(IncomingGarbagePacket { lines: (s[i].lines - remaining) as u32, ..s[i] }),
            rules,
        )
    }
}

/// Queue state after cancelling up to `amount` lines, and the lines cancelled.
pub open spec fn cancel_spec(q: (Seq<IncomingGarbagePacket>, HoleModel), amount: u32, rules: GarbageMessinessRules) -> (
    (Seq<IncomingGarbagePacket>, HoleModel),
    u32,
) {
    let r = cancel_from(q.0, 0, q.1, amount, Seq::empty(), rules);
    ((r.0, r.1), (amount - r.2) as u32)
}

/// Index of the first packet that has finished travelling by `frame`.
pub open spec fn first_ready_from(s: Seq<IncomingGarbagePacket>, i: int, frame: u64) -> Option<int>
    decreases s.len() - i,
{
    if i < 0 || i >= s.len() {
        None
    } else if s[i].ready_at_frame <= frame {
        Some(i)
    } else {
        first_ready_from(s, i + 1, frame)
    }
}

/// Takes one line from the first ready packet: its hole column, and the
/// queue state afterwards.
pub open spec fn take_line_spec(q: (Seq<IncomingGarbagePacket>, HoleModel), frame: u64, rules: GarbageMessinessRules) -> (
    (Seq<IncomingGarbagePacket>, HoleModel),
    Option<u8>,
) {
    match first_ready_from(q.0, 0, frame) {
        None => (q, None),
        Some(i) => {
            let (g1, column) = line_column_spec(q.1, q.0[i].hole_column, rules);
            let p = IncomingGarbagePacket { lines: (q.0[i].lines - 1) as u32, ..q.0[i] };
            if p.lines == 0 {
                ((q.0.remove(i), finished_spec(g1, rules)), Some(column))
            } else {
                ((q.0.update(i, p), g1), Some(column))
            }
        },
    }
}

proof fn lemma_reroll_ok(g: HoleModel, rules: GarbageMessinessRules)
    requires
        hole_ok(g),
        rules.config_error() is None,
    ensures
        hole_ok((reroll_spec(g, rules).0, reroll_spec(g, rules).1, true)),
        reroll_spec(g, rules).1 is Some,
        hole_ok(finished_spec(g, rules)),
{
    reveal(reroll_spec);
    reveal(chance_spec);
    crate::rng::lemma_minstd_nonzero(g.0 as int);
    let (st, change) = chance_spec(g.0, rules.change_numerator, rules.change_denominator);
    crate::rng::lemma_minstd_nonzero(st as int);
}

proof fn lemma_line_column_ok(g: HoleModel, explicit: Option<u8>, rules: GarbageMessinessRules)
    requires
        hole_ok(g),
        rules.config_error() is None,
        explicit matches Some(c) ==> c < 10,
    ensures
        hole_ok(line_column_spec(g, explicit, rules).0),
        line_column_spec(g, explicit, rules).1 < 10,
        generated_spec(g, rules).1 is Some,
        hole_ok(generated_spec(g, rules)),
{
    reveal(chance_spec);
    crate::rng::lemma_minstd_nonzero(g.0 as int);
    let (st, should) = match g.1 {
        None => (g.0, true),
        Some(_) => chance_spec(g.0, rules.inner_numerator, rules.inner_denominator),
    };
    lemma_reroll_ok((st, g.1, g.2), rules);
}

proof fn lemma_cancel_from(
    s: Seq<IncomingGarbagePacket>,
    i: int,
    g: HoleModel,
    remaining: u32,
    kept: Seq<IncomingGarbagePacket>,
    rules: GarbageMessinessRules,
)
    requires
        0 <= i <= s.len(),
        packets_ok(s),
        packets_ok(kept),
        hole_ok(g),
        rules.config_error() is None,
    ensures
        cancel_from(s, i, g, remaining, kept, rules).2 <= remaining,
        queue_lines(cancel_from(s, i, g, remaining, kept, rules).0) == queue_lines(kept) + queue_lines(s.skip(i)) - (
        remaining - cancel_from(s, i, g, remaining, kept, rules).2),
        packets_ok(cancel_from(s, i, g, remaining, kept, rules).0),
        hole_ok(cancel_from(s, i, g, remaining, kept, rules).1),
    decreases s.len() - i,
{
    if i < s.len() {
        let x = s[i];
        assert(s.skip(i) =~= seq![x] + s.skip(i + 1));
        lemma_queue_lines_concat(seq![x], s.skip(i + 1));
        assert(queue_lines(seq![x].drop_first()) == 0);
        assert(packet_ok(x));
        if remaining == 0 || x.hardened {
            lemma_queue_lines_concat(kept, seq![x]);
            assert(packets_ok(kept.push(x))) by {
                assert forall|j: int| 0 <= j < kept.push(x).len() implies packet_ok(#[trigger] kept.push(x)[j]) by {
                    if j < kept.len() {
                        assert(kept.push(x)[j] == kept[j]);
                    }
                }
            }
            assert(kept + seq![x] =~= kept.push(x));
            lemma_cancel_from(s, i + 1, g, remaining, kept.push(x), rules);
        } else if x.lines <= remaining {
            lemma_reroll_ok(g, rules);
            lemma_cancel_from(s, i + 1, finished_spec(g, rules), (remaining - x.lines) as u32, kept, rules);
        } else {
            let y = IncomingGarbagePacket { lines: (x.lines - remaining) as u32, ..x };
            lemma_queue_lines_concat(kept, seq![y]);
            assert(queue_lines(seq![y].drop_first()) == 0);
            assert(packets_ok(kept.push(y))) by {
                assert forall|j: int| 0 <= j < kept.push(y).len() implies packet_ok(#[trigger] kept.push(y)[j]) by {
                    if j < kept.len() {
                        assert(kept.push(y)[j] == kept[j]);
                    }
                }
            }
            assert(kept + seq![y] =~= kept.push(y));
            lemma_cancel_from(s, i + 1, g, 0, kept.push(y), rules);
        }
    } else {
        assert(s.skip(i) =~= Seq::<IncomingGarbagePacket>::empty());
    }
}

proof fn lemma_first_ready(s: Seq<IncomingGarbagePacket>, i: int, frame: u64)
    requires
        0 <= i,
    ensures
        first_ready_from(s, i, frame) matches Some(k) ==> i <= k < s.len() && s[k].ready_at_frame <= frame,
        first_ready_from(s, i, frame) is None ==> forall|k: int| i <= k < s.len() ==> #[trigger] s[k].ready_at_frame > frame,
    decreases s.len() - i,
{
    if i < s.len() && s[i].ready_at_frame > frame {
        lemma_first_ready(s, i + 1, frame);
    }
}

pub(crate) proof fn lemma_take_line(q: (Seq<IncomingGarbagePacket>, HoleModel), frame: u64, rules: GarbageMessinessRules)
    requires
        packets_ok(q.0),
        hole_ok(q.1),
        rules.config_error() is None,
    ensures
        packets_ok(take_line_spec(q, frame, rules).0.0),
        hole_ok(take_line_spec(q, frame, rules).0.1),
        take_line_spec(q, frame, rules).1 matches Some(c) ==> c < 10 && queue_lines(take_line_spec(q, frame, rules).0.0)
            == queue_lines(q.0) - 1,
        take_line_spec(q, frame, rules).1 is None ==> take_line_spec(q, frame, rules).0 == q,
{
    lemma_first_ready(q.0, 0, frame);
    if let Some(i) = first_ready_from(q.0, 0, frame) {
        let s = q.0;
        let x = s[i];
        assert(packet_ok(x));
        lemma_line_column_ok(q.1, x.hole_column, rules);
        let (g1, column) = line_column_spec(q.1, x.hole_column, rules);
        let p = IncomingGarbagePacket { lines: (x.lines - 1) as u32, ..x };
        assert(s =~= s.take(i) + (seq![x] + s.skip(i + 1)));
        lemma_queue_lines_concat(s.take(i), seq![x] + s.skip(i + 1));
        lemma_queue_lines_concat(seq![x], s.skip(i + 1));
        assert(queue_lines(seq![x].drop_first()) == 0);
        if p.lines == 0 {
            lemma_reroll_ok(g1, rules);
            assert(s.remove(i) =~= s.take(i) + s.skip(i + 1));
            lemma_queue_lines_concat(s.take(i), s.skip(i + 1));
            assert forall|j: int| 0 <= j < s.remove(i).len() implies packet_ok(#[trigger] s.remove(i)[j]) by {
                if j < i {
                    assert(s.remove(i)[j] == s[j]);
                } else {
                    assert(s.remove(i)[j] == s[j + 1]);
                }
            }
        } else {
            assert(s.update(i, p) =~= s.take(i) + (seq![p] + s.skip(i + 1)));
            lemma_queue_lines_concat(s.take(i), seq![p] + s.skip(i + 1));
            lemma_queue_lines_concat(seq![p], s.skip(i + 1));
            assert(queue_lines(seq![p].drop_first()) == 0);
            assert forall|j: int| 0 <= j < s.update(i, p).len() implies packet_ok(#[trigger] s.update(i, p)[j]) by {
                if j != i {
                    assert(s.update(i, p)[j] == s[j]);
                }
            }
        }
    }
}

#[derive(Clone, Debug, PartialEq, Eq)]
pub struct IncomingGarbageQueue {
    packets: Vec<IncomingGarbagePacket>,
    holes: GarbageHoleGenerator,
}

impl View for IncomingGarbageQueue {
    type V = (Seq<IncomingGarbagePacket>, HoleModel);

    closed spec fn view(&self) -> (Seq<IncomingGarbagePacket>, HoleModel) {
        (self.packets@, self.holes.model())
    }
}

impl IncomingGarbageQueue {
    pub closed spec fn wf(&self) -> bool {
        &&& self.holes.wf()
        &&& packets_ok(self.packets@)
        &&& queue_lines(self.packets@) <= u64::MAX
    }

    pub proof fn lemma_wf(&self)
        requires
            self.wf(),
        ensures
            hole_ok(self@.1),
            packets_ok(self@.0),
            0 <= queue_lines(self@.0) <= u64::MAX,
    {
        lemma_queue_lines_nonneg(self.packets@);
    }

    pub fn new(seed: u64) -> (r: Self)
        ensures
            r.wf(),
            r@ == (Seq::<IncomingGarbagePacket>::empty(), (minstd_seed(seed), None::<u8>, false)),
    {
        IncomingGarbageQueue { packets: Vec::new(), holes: GarbageHoleGenerator::new(seed) }
    }

    /// An independent copy of the queue in the same state.
    pub fn duplicate(&self) -> (r: Self)
        ensures
            r@ == self@,
            self.wf() ==> r.wf(),
    {
        let mut packets: Vec<IncomingGarbagePacket> = Vec::new();
        let mut i: usize = 0;
        while i < self.packets.len()
            invariant
                i <= self.packets@.len(),
                packets@ == self.packets@.take(i as int),
            decreases self.packets@.len() - i,
        {
            packets.push(self.packets[i]);
            i += 1;
            assert(packets@ =~= self.packets@.take(i as int));
        }
        assert(packets@ =~= self.packets@);
        IncomingGarbageQueue { packets, holes: self.holes }
    }

    pub fn enqueue(&mut self, packet: IncomingGarbagePacket) -> (r: Result<(), GarbageError>)
        requires
            old(self).wf(),
            queue_lines(old(self)@.0) + packet.lines <= u64::MAX,
        ensures
            final(self).wf(),
            packet.lines == 0 ==> r == Err::<(), GarbageError>(GarbageError::ZeroLinePacket) && final(self)@ == old(self)@,
            packet.lines > 0 && (packet.hole_column matches Some(c) && c >= 10) ==> r == Err::<(), GarbageError>(
                GarbageError::HoleOutOfBounds(packet.hole_column->Some_0),
            ) && final(self)@ == old(self)@,
            packet_ok(packet) ==> r is Ok && final(self)@ == (old(self)@.0.push(packet), old(self)@.1),
    {
        if packet.lines == 0 {
            return Err(GarbageError::ZeroLinePacket);
        }
        if let Some(column) = packet.hole_column {
            if column as usize >= WIDTH {
                return Err(GarbageError::HoleOutOfBounds(column));
            }
        }
        proof {
            lemma_queue_lines_concat(self.packets@, seq![packet]);
            assert(queue_lines(seq![packet].drop_first()) == 0);
        }
        self.packets.push(packet);
        proof {
            assert(self.packets@ =~= old(self).packets@ + seq![packet]);
        }
        Ok(())
    }

    pub fn as_slices(&self) -> (r: (&[IncomingGarbagePacket], &[IncomingGarbagePacket]))
        ensures
            r.0@ + r.1@ == self@.0,
    {
        let all = self.packets.as_slice();
        let n = all.len();
        let back = vstd::slice::slice_subrange(all, n, n);
        assert(all@ + back@ =~= self@.0);
        (all, back)
    }

    pub fn len(&self) -> (r: usize)
        ensures
            r == self@.0.len(),
    {
        self.packets.len()
    }

    pub fn is_empty(&self) -> (r: bool)
        ensures
            r == (self@.0.len() == 0),
    {
        self.packets.len() == 0
    }

    pub fn hole_generator(&self) -> (r: &GarbageHoleGenerator)
        ensures
            r.model() == self@.1,
    {
        &self.holes
    }

    pub fn pending_lines(&self) -> (r: u64)
        requires
            self.wf(),
        ensures
            r == queue_lines(self@.0),
    {
        let mut sum: u64 = 0;
        let mut i: usize = 0;
        while i < self.packets.len()
            invariant
                self.wf(),
                i <= self.packets@.len(),
                sum == queue_lines(self.packets@.take(i as int)),
            decreases self.packets@.len() - i,
        {
            proof {
                let s = self.packets@;
                lemma_queue_lines_concat(s.take(i as int), seq![s[i as int]]);
                lemma_queue_lines_concat(s.take(i + 1), s.skip(i + 1));
                lemma_queue_lines_nonneg(s.skip(i + 1));
                assert(s.take(i as int) + seq![s[i as int]] =~= s.take(i + 1));
                assert(s.take(i + 1) + s.skip(i + 1) =~= s);
                assert(queue_lines(seq![s[i as int]].drop_first()) == 0);
            }
            sum = sum + self.packets[i].lines as u64;
            i += 1;
        }
        assert(self.packets@.take(self.packets@.len() as int) =~= self.packets@);
        sum
    }

    pub fn ready_lines(&self, frame: u64) -> (r: u64)
        requires
            self.wf(),
        ensures
            r == ready_total(self@.0, frame),
    {
        let mut sum: u64 = 0;
        let mut i: usize = 0;
        while i < self.packets.len()
            invariant
                self.wf(),
                i <= self.packets@.len(),
                sum == ready_total(self.packets@.take(i as int), frame),
            decreases self.packets@.len() - i,
        {
            proof {
                let s = self.packets@;
                lemma_ready_concat(s.take(i as int), seq![s[i as int]], frame);
                lemma_ready_concat(s.take(i + 1), s.skip(i + 1), frame);
                lemma_ready_concat(s.skip(i + 1), Seq::empty(), frame);
                lemma_queue_lines_concat(s.take(i + 1), s.skip(i + 1));
                lemma_queue_lines_nonneg(s.skip(i + 1));
                assert(s.take(i as int) + seq![s[i as int]] =~= s.take(i + 1));
                assert(s.take(i + 1) + s.skip(i + 1) =~= s);
                assert(ready_total(seq![s[i as int]].drop_first(), frame) == 0);
            }
            if self.packets[i].ready_at_frame <= frame {
                sum = sum + self.packets[i].lines as u64;
            }
            i += 1;
        }
        assert(self.packets@.take(self.packets@.len() as int) =~= self.packets@);
        sum
    }

    fn cancel(&mut self, amount: u32, rules: GarbageRules) -> (r: Result<u32, GarbageError>)
        requires
            old(self).wf(),
            rules.config_error() is None,
        ensures
            final(self).wf(),
            r == Ok::<u32, GarbageError>(cancel_spec(old(self)@, amount, rules.messiness).1),
            final(self)@ == cancel_spec(old(self)@, amount, rules.messiness).0,
            cancel_spec(old(self)@, amount, rules.messiness).1 <= amount,
            queue_lines(final(self)@.0) == queue_lines(old(self)@.0) - cancel_spec(old(self)@, amount, rules.messiness).1,
    {
        let ghost s = self.packets@;
        let ghost g0 = self.holes.model();
        let mut remaining = amount;
        let mut kept: Vec<IncomingGarbagePacket> = Vec::new();
        let mut i: usize = 0;
        proof {
            lemma_cancel_from(s, 0, g0, amount, Seq::empty(), rules.messiness);
            assert(s.skip(0) =~= s);
        }
        while i < self.packets.len()
            invariant
                self.packets@ == s,
                packets_ok(s),
                self.holes.wf(),
                rules.config_error() is None,
                i <= s.len(),
                packets_ok(kept@),
                remaining <= amount,
                cancel_from(s, 0, g0, amount, Seq::empty(), rules.messiness) == cancel_from(
                    s,
                    i as int,
                    self.holes.model(),
                    remaining,
                    kept@,
                    rules.messiness,
                ),
            decreases s.len() - i,
        {
            let packet = self.packets[i];
            proof {
                assert(packet_ok(s[i as int]));
                lemma_reroll_ok(self.holes.model(), rules.messiness);
            }
            if remaining == 0 || packet.hardened {
                kept.push(packet);
            } else if packet.lines <= remaining {
                remaining = remaining - packet.lines;
                match self.holes.packet_finished(rules.messiness) {
                    Ok(()) => {},
                    Err(e) => {
                        return Err(e);
                    },
                }
            } else {
                kept.push(IncomingGarbagePacket { lines: packet.lines - remaining, ..packet });
                remaining = 0;
            }
            proof {
                assert forall|j: int| 0 <= j < kept@.len() implies packet_ok(#[trigger] kept@[j]) by {}
            }
            i += 1;
        }
        proof {
            lemma_cancel_from(s, 0, g0, amount, Seq::empty(), rules.messiness);
            assert(s.skip(0) =~= s);
        }
        self.packets = kept;
        Ok(amount - remaining)
    }

    fn first_ready_index(&self, frame: u64) -> (r: Option<usize>)
        ensures
            r matches Some(i) ==> first_ready_from(self@.0, 0, frame) == Some(i as int),
            r is None ==> first_ready_from(self@.0, 0, frame) is None,
    {
        proof {
            lemma_first_ready(self.packets@, 0, frame);
        }
        let mut index: usize = 0;
        while index < self.packets.len()
            invariant
                index <= self.packets@.len(),
                first_ready_from(self.packets@, 0, frame) == first_ready_from(self.packets@, index as int, frame),
            decreases self.packets@.len() - index,
        {
            if self.packets[index].ready_at_frame <= frame {
                return Some(index);
            }
            index += 1;
        }
        None
    }

    pub(crate) fn take_ready_line(&mut self, frame: u64, rules: GarbageRules) -> (r: Result<Option<u8>, GarbageError>)
        requires
            old(self).wf(),
            rules.config_error() is None,
        ensures
            final(self).wf(),
            r == Ok::<Option<u8>, GarbageError>(take_line_spec(old(self)@, frame, rules.messiness).1),
            final(self)@ == take_line_spec(old(self)@, frame, rules.messiness).0,
    {
        let ghost q = self@;
        let ghost t = take_line_spec(q, frame, rules.messiness);
        proof {
            lemma_take_line(q, frame, rules.messiness);
            lemma_first_ready(self.packets@, 0, frame);
        }
        let index = match self.first_ready_index(frame) {
            Some(i) => i,
            None => {
                return Ok(None);
            },
        };
        let packet = self.packets[index];
        proof {
            assert(packet_ok(packet));
            assert(first_ready_from(q.0, 0, frame) == Some(index as int));
            assert(q.0[index as int] == packet);
        }
        let ghost lc = line_column_spec(q.1, packet.hole_column, rules.messiness);
        let hole_column = match self.holes.line_column(packet.hole_column, rules.messiness) {
            Ok(c) => c,
            Err(e) => {
                return Err(e);
            },
        };
        assert(hole_column == lc.1);
        let lines = packet.lines - 1;
        if lines == 0 {
            self.packets.remove(index);
            assert(self.packets@ == q.0.remove(index as int));
            assert(self.holes.model() == lc.0);
            match self.holes.packet_finished(rules.messiness) {
                Ok(()) => {},
                Err(e) => {
                    return Err(e);
                },
            }
            assert(self.holes.model() == finished_spec(lc.0, rules.messiness));
            assert(self@ == t.0);
        } else {
            self.packets.set(index, IncomingGarbagePacket { lines, ..packet });
            assert(self@ == t.0);
        }
        assert(t.1 == Some(hole_column));
        Ok(Some(hole_column))
    }
}


// ---------------------------------------------------------------------------
// Cancellation and insertion.
// ---------------------------------------------------------------------------

pub proof fn lemma_lines_total_concat(a: Seq<AttackPacket>, b: Seq<AttackPacket>)
    ensures
        lines_total(a + b) == lines_total(a) + lines_total(b),
    decreases b.len(),
{
    if b.len() == 0 {
        assert(a + b =~= a);
    } else {
        assert((a + b).drop_last() =~= a + b.drop_last());
        lemma_lines_total_concat(a, b.drop_last());
    }
}

/// Running state of a packet-by-packet cancellation.
pub struct CancelState {
    pub queue: (Seq<IncomingGarbagePacket>, HoleModel),
    pub outgoing: Seq<AttackPacket>,
    pub attack_cancelled: int,
    pub opener_cancelled: int,
    pub sent: int,
}

/// Cancels incoming garbage with attack packets `i..`: each packet first
/// cancels with its own lines, then (in the opener phase, while the pending
/// garbage is at least the lines sent so far) cancels the same amount again;
/// what the first cancellation left is sent.
/// One attack packet's cancellation step.
pub open spec fn cancel_next(p: AttackPacket, st: CancelState, pieces_placed: u64, rules: GarbageRules) -> CancelState {
    let opener = pieces_placed <= rules.opener_phase_pieces && queue_lines(st.queue.0) >= st.sent;
    let first = cancel_spec(st.queue, p.lines, rules.messiness);
    let remaining = p.lines - first.1;
    let second = if opener {
        cancel_spec(first.0, p.lines, rules.messiness)
    } else {
        (first.0, 0u32)
    };
    CancelState {
        queue: second.0,
        outgoing: if remaining > 0 {
            st.outgoing.push(AttackPacket { kind: p.kind, lines: remaining as u32 })
        } else {
            st.outgoing
        },
        attack_cancelled: st.attack_cancelled + first.1,
        opener_cancelled: st.opener_cancelled + second.1,
        sent: st.sent + remaining,
    }
}

/// Cancels incoming garbage with attack packets `i..` in order.
pub open spec fn cancel_packets_from(
    ps: Seq<AttackPacket>,
    i: int,
    st: CancelState,
    pieces_placed: u64,
    rules: GarbageRules,
) -> CancelState
    decreases ps.len() - i,
{
    if i < 0 || i >= ps.len() {
        st
    } else {
        cancel_packets_from(ps, i + 1, cancel_next(ps[i], st, pieces_placed, rules), pieces_placed, rules)
    }
}

pub open spec fn cancel_start(q: (Seq<IncomingGarbagePacket>, HoleModel), sent_before: u64) -> CancelState {
    CancelState { queue: q, outgoing: Seq::empty(), attack_cancelled: 0, opener_cancelled: 0, sent: sent_before as int }
}

/// A cancellation's counters exceed their storage.
pub open spec fn cancel_overflows(st: CancelState) -> bool {
    st.attack_cancelled > u32::MAX || st.opener_cancelled > u32::MAX || st.sent > u64::MAX
}

proof fn lemma_cancel_spec(q: (Seq<IncomingGarbagePacket>, HoleModel), amount: u32, rules: GarbageMessinessRules)
    requires
        packets_ok(q.0),
        hole_ok(q.1),
        rules.config_error() is None,
    ensures
        cancel_spec(q, amount, rules).1 <= amount,
        queue_lines(cancel_spec(q, amount, rules).0.0) == queue_lines(q.0) - cancel_spec(q, amount, rules).1,
        packets_ok(cancel_spec(q, amount, rules).0.0),
        hole_ok(cancel_spec(q, amount, rules).0.1),
{
    lemma_cancel_from(q.0, 0, q.1, amount, Seq::empty(), rules);
    assert(q.0.skip(0) =~= q.0);
}

proof fn lemma_cancel_next_ok(p: AttackPacket, st: CancelState, pieces_placed: u64, rules: GarbageRules)
    requires
        packets_ok(st.queue.0),
        hole_ok(st.queue.1),
        rules.config_error() is None,
    ensures
        packets_ok(cancel_next(p, st, pieces_placed, rules).queue.0),
        hole_ok(cancel_next(p, st, pieces_placed, rules).queue.1),
{
    lemma_cancel_spec(st.queue, p.lines, rules.messiness);
    let first = cancel_spec(st.queue, p.lines, rules.messiness);
    lemma_cancel_spec(first.0, p.lines, rules.messiness);
}

/// Cancellation conserves lines: every attack line is either cancelled or
/// sent, pending garbage drops by exactly the lines cancelled (attack and
/// opener bonus), and the sent total grows by exactly the lines sent.
pub proof fn lemma_cancellation_conserves(
    ps: Seq<AttackPacket>,
    i: int,
    st: CancelState,
    pieces_placed: u64,
    rules: GarbageRules,
)
    requires
        0 <= i <= ps.len(),
        rules.config_error() is None,
        packets_ok(st.queue.0),
        hole_ok(st.queue.1),
    ensures
        lines_total(ps.skip(i)) == (cancel_packets_from(ps, i, st, pieces_placed, rules).attack_cancelled
            - st.attack_cancelled) + (lines_total(cancel_packets_from(ps, i, st, pieces_placed, rules).outgoing)
            - lines_total(st.outgoing)),
        queue_lines(st.queue.0) - queue_lines(cancel_packets_from(ps, i, st, pieces_placed, rules).queue.0) == (
        cancel_packets_from(ps, i, st, pieces_placed, rules).attack_cancelled - st.attack_cancelled) + (
        cancel_packets_from(ps, i, st, pieces_placed, rules).opener_cancelled - st.opener_cancelled),
        cancel_packets_from(ps, i, st, pieces_placed, rules).sent - st.sent == lines_total(
            cancel_packets_from(ps, i, st, pieces_placed, rules).outgoing,
        ) - lines_total(st.outgoing),
        cancel_packets_from(ps, i, st, pieces_placed, rules).attack_cancelled >= st.attack_cancelled,
        cancel_packets_from(ps, i, st, pieces_placed, rules).opener_cancelled >= st.opener_cancelled,
        cancel_packets_from(ps, i, st, pieces_placed, rules).sent >= st.sent,
        packets_ok(cancel_packets_from(ps, i, st, pieces_placed, rules).queue.0),
        hole_ok(cancel_packets_from(ps, i, st, pieces_placed, rules).queue.1),
        cancel_packets_from(ps, i, st, pieces_placed, rules).outgoing.len() <= st.outgoing.len() + ps.len() - i,
    decreases ps.len() - i,
{
    if i < ps.len() {
        reveal_with_fuel(lines_total, 2);
        let p = ps[i];
        let opener = pieces_placed <= rules.opener_phase_pieces && queue_lines(st.queue.0) >= st.sent;
        lemma_cancel_spec(st.queue, p.lines, rules.messiness);
        let first = cancel_spec(st.queue, p.lines, rules.messiness);
        if opener {
            lemma_cancel_spec(first.0, p.lines, rules.messiness);
        }
        let remaining = p.lines - first.1;
        let next = cancel_next(p, st, pieces_placed, rules);
        lemma_cancellation_conserves(ps, i + 1, next, pieces_placed, rules);
        assert(ps.skip(i) =~= seq![p] + ps.skip(i + 1));
        lemma_lines_total_concat(seq![p], ps.skip(i + 1));
        assert(seq![p].drop_last() =~= Seq::<AttackPacket>::empty());
        assert(lines_total(seq![p]) == p.lines as int);
        if remaining > 0 {
            let x = AttackPacket { kind: p.kind, lines: remaining as u32 };
            assert(st.outgoing.push(x).drop_last() =~= st.outgoing);
            assert(lines_total(st.outgoing.push(x)) == lines_total(st.outgoing) + remaining);
        }
    } else {
        assert(ps.skip(i) =~= Seq::<AttackPacket>::empty());
    }
}

#[derive(Clone, Copy, Debug, PartialEq, Eq)]
pub struct GarbageCancellationOutcome {
    pub outgoing: AttackPackets,
    pub attack_cancelled: u32,
    pub opener_bonus_cancelled: u32,
    pub sent_lines_after: u64,
}

/// Cancels incoming garbage in the same packet order used by the attack
/// resolver. The attack portion is consumed before opener-only cancellation,
/// so only the uncancelled attack remainder can be sent to the opponent.
pub fn cancel_attack_packets(
    incoming: &mut IncomingGarbageQueue,
    packets: AttackPackets,
    pieces_placed: u64,
    sent_lines_before: u64,
    rules: GarbageRules,
) -> (r: Result<GarbageCancellationOutcome, GarbageError>)
    requires
        old(incoming).wf(),
        packets.wf(),
    ensures
        final(incoming).wf(),
        rules.config_error() matches Some(e) ==> r == Err::<GarbageCancellationOutcome, GarbageError>(
            GarbageError::InvalidConfiguration(e),
        ) && final(incoming)@ == old(incoming)@,
        rules.config_error() is None ==> {
            let f = cancel_packets_from(packets@, 0, cancel_start(old(incoming)@, sent_lines_before), pieces_placed, rules);
            if cancel_overflows(f) {
                r == Err::<GarbageCancellationOutcome, GarbageError>(GarbageError::CounterOverflow)
            } else {
                &&& r matches Ok(o)
                &&& o.outgoing.wf()
                &&& o.outgoing@ == f.outgoing
                &&& o.attack_cancelled == f.attack_cancelled
                &&& o.opener_bonus_cancelled == f.opener_cancelled
                &&& o.sent_lines_after == f.sent
                &&& final(incoming)@ == f.queue
            }
        },
{
    match rules.validate() {
        Ok(()) => {},
        Err(e) => {
            return Err(GarbageError::InvalidConfiguration(e));
        },
    }
    let ghost ps = packets@;
    let ghost start = cancel_start(old(incoming)@, sent_lines_before);
    assert(incoming@ == old(incoming)@);
    let ghost target = cancel_packets_from(ps, 0, start, pieces_placed, rules);
    let mut outgoing = AttackPackets::empty();
    let mut attack_cancelled: u32 = 0;
    let mut opener_bonus_cancelled: u32 = 0;
    let mut sent_lines_after = sent_lines_before;
    let slice = packets.as_slice();
    let mut i: usize = 0;
    proof {
        packets.lemma_wf();
        incoming.lemma_wf();
    }
    while i < slice.len()
        invariant
            slice@ == ps,
            ps == packets@,
            target == cancel_packets_from(packets@, 0, cancel_start(old(incoming)@, sent_lines_before), pieces_placed, rules),
            ps.len() <= 5,
            rules.config_error() is None,
            incoming.wf(),
            outgoing.wf(),
            outgoing@.len() <= i,
            i <= ps.len(),
            target == cancel_packets_from(
                ps,
                i as int,
                CancelState {
                    queue: incoming@,
                    outgoing: outgoing@,
                    attack_cancelled: attack_cancelled as int,
                    opener_cancelled: opener_bonus_cancelled as int,
                    sent: sent_lines_after as int,
                },
                pieces_placed,
                rules,
            ),
        decreases ps.len() - i,
    {
        let packet = slice[i];
        let ghost cur = CancelState {
            queue: incoming@,
            outgoing: outgoing@,
            attack_cancelled: attack_cancelled as int,
            opener_cancelled: opener_bonus_cancelled as int,
            sent: sent_lines_after as int,
        };
        proof {
            incoming.lemma_wf();
            lemma_cancellation_conserves(ps, i as int, cur, pieces_placed, rules);
        }
        let opener_bonus = pieces_placed <= rules.opener_phase_pieces && incoming.pending_lines() >= sent_lines_after;
        let cancelled = match incoming.cancel(packet.lines, rules) {
            Ok(c) => c,
            Err(e) => {
                return Err(e);
            },
        };
        attack_cancelled = match attack_cancelled.checked_add(cancelled) {
            Some(v) => v,
            None => {
                proof {
                    lemma_cancel_next_ok(packet, cur, pieces_placed, rules);
                    lemma_cancellation_conserves(
                        ps,
                        i + 1,
                        cancel_next(packet, cur, pieces_placed, rules),
                        pieces_placed,
                        rules,
                    );
                    assert(target == cancel_packets_from(ps, i + 1, cancel_next(packet, cur, pieces_placed, rules), pieces_placed, rules));
                }
                return Err(GarbageError::CounterOverflow);
            },
        };
        let remaining = packet.lines - cancelled;
        if opener_bonus {
            let bonus_cancelled = match incoming.cancel(packet.lines, rules) {
                Ok(c) => c,
                Err(e) => {
                    return Err(e);
                },
            };
            opener_bonus_cancelled = match opener_bonus_cancelled.checked_add(bonus_cancelled) {
                Some(v) => v,
                None => {
                    proof {
                        lemma_cancel_next_ok(packet, cur, pieces_placed, rules);
                        lemma_cancellation_conserves(
                            ps,
                            i + 1,
                            cancel_next(packet, cur, pieces_placed, rules),
                            pieces_placed,
                            rules,
                        );
                    }
                    return Err(GarbageError::CounterOverflow);
                },
            };
        }
        match outgoing.push(packet.kind, remaining) {
            Ok(()) => {},
            Err(e) => {
                return Err(GarbageError::Attack(e));
            },
        }
        sent_lines_after = match sent_lines_after.checked_add(remaining as u64) {
            Some(v) => v,
            None => {
                proof {
                    lemma_cancel_next_ok(packet, cur, pieces_placed, rules);
                    lemma_cancellation_conserves(
                        ps,
                        i + 1,
                        cancel_next(packet, cur, pieces_placed, rules),
                        pieces_placed,
                        rules,
                    );
                }
                return Err(GarbageError::CounterOverflow);
            },
        };
        i += 1;
    }
    Ok(GarbageCancellationOutcome {
        outgoing,
        attack_cancelled,
        opener_bonus_cancelled: opener_bonus_cancelled,
        sent_lines_after,
    })
}

#[derive(Clone, Copy, Debug, PartialEq, Eq, Structural)]
pub struct GarbageInsertionOutcome {
    pub inserted: u8,
    pub overflowed_buffer: bool,
    pub blocked_by_clear: bool,
}

/// Raises up to `left` ready lines, one garbage row per line with the line's hole.
pub open spec fn insert_from(
    q: (Seq<IncomingGarbagePacket>, HoleModel),
    board: (Seq<u16>, Seq<u16>),
    frame: u64,
    left: nat,
    inserted: int,
    overflowed: bool,
    rules: GarbageMessinessRules,
) -> ((Seq<IncomingGarbagePacket>, HoleModel), (Seq<u16>, Seq<u16>), int, bool)
    decreases left,
{
    if left == 0 {
        (q, board, inserted, overflowed)
    } else {
        let (q1, h) = take_line_spec(q, frame, rules);
        match h {
            None => (q, board, inserted, overflowed),
            Some(c) => insert_from(
                q1,
                (
                    seq![garbage_row(c as usize)] + board.0.take(HEIGHT - 1),
                    seq![garbage_row(c as usize)] + board.1.take(HEIGHT - 1),
                ),
                frame,
                (left - 1) as nat,
                inserted + 1,
                overflowed || board.0[HEIGHT - 1] != 0,
                rules,
            ),
        }
    }
}

/// Raises ready garbage after a placement. Under combo blocking, every line
/// clear blocks insertion; a non-clear placement may take up to the rule cap.
pub fn insert_ready_garbage(
    incoming: &mut IncomingGarbageQueue,
    board: &mut Board,
    frame: u64,
    cleared_lines: u8,
    rules: GarbageRules,
) -> (r: Result<GarbageInsertionOutcome, GarbageError>)
    requires
        old(incoming).wf(),
        old(board).wf(),
    ensures
        final(incoming).wf(),
        final(board).wf(),
        rules.config_error() matches Some(e) ==> r == Err::<GarbageInsertionOutcome, GarbageError>(
            GarbageError::InvalidConfiguration(e),
        ) && final(incoming)@ == old(incoming)@ && final(board)@ == old(board)@,
        rules.config_error() is None && rules.combo_blocking && cleared_lines > 0 ==> r == Ok::<
            GarbageInsertionOutcome,
            GarbageError,
        >(GarbageInsertionOutcome { inserted: 0, overflowed_buffer: false, blocked_by_clear: true })
            && final(incoming)@ == old(incoming)@ && final(board)@ == old(board)@,
        rules.config_error() is None && !(rules.combo_blocking && cleared_lines > 0) ==> {
            let f = insert_from(old(incoming)@, old(board)@, frame, rules.garbage_cap as nat, 0, false, rules.messiness);
            &&& r == Ok::<GarbageInsertionOutcome, GarbageError>(
                GarbageInsertionOutcome { inserted: f.2 as u8, overflowed_buffer: f.3, blocked_by_clear: false },
            )
            &&& final(incoming)@ == f.0
            &&& final(board)@ == f.1
        },
{
    match rules.validate() {
        Ok(()) => {},
        Err(e) => {
            return Err(GarbageError::InvalidConfiguration(e));
        },
    }
    if rules.combo_blocking && cleared_lines > 0 {
        return Ok(GarbageInsertionOutcome { inserted: 0, overflowed_buffer: false, blocked_by_clear: true });
    }
    let ghost target = insert_from(incoming@, board@, frame, rules.garbage_cap as nat, 0, false, rules.messiness);
    let mut inserted: u8 = 0;
    let mut overflowed_buffer = false;
    let mut done = false;
    while !done && inserted < rules.garbage_cap
        invariant
            incoming.wf(),
            board.wf(),
            rules.config_error() is None,
            inserted <= rules.garbage_cap,
            !done ==> target == insert_from(
                incoming@,
                board@,
                frame,
                (rules.garbage_cap - inserted) as nat,
                inserted as int,
                overflowed_buffer,
                rules.messiness,
            ),
            done ==> target == (incoming@, board@, inserted as int, overflowed_buffer),
        decreases rules.garbage_cap - inserted, if done { 0int } else { 1int },
    {
        proof {
            incoming.lemma_wf();
            lemma_take_line(incoming@, frame, rules.messiness);
        }
        let taken = match incoming.take_ready_line(frame, rules) {
            Ok(t) => t,
            Err(e) => {
                return Err(e);
            },
        };
        match taken {
            None => {
                done = true;
            },
            Some(hole_column) => {
                let pushed = match board.push_garbage_line(hole_column as usize) {
                    Ok(p) => p,
                    Err(e) => {
                        return Err(GarbageError::Board(e));
                    },
                };
                overflowed_buffer = overflowed_buffer || pushed.overflowed_buffer;
                inserted = inserted + 1;
            },
        }
    }
    Ok(GarbageInsertionOutcome { inserted, overflowed_buffer, blocked_by_clear: false })
}

// ---------------------------------------------------------------------------
// Attack resolution: the integer stages around the multiplier scaling.
// ---------------------------------------------------------------------------

/// The integer part of one attack resolution: everything the clear, the
/// previous counters and the rules decide before the garbage multiplier
/// scales the surge, combo and perfect-clear amounts.
#[derive(Clone, Copy, Debug, PartialEq, Eq, Structural)]
pub struct AttackTerms {
    pub state: AttackState,
    pub difficult: bool,
    pub back_to_back: bool,
    pub raw_surge_attack: u32,
    pub base_attack: u32,
    pub back_to_back_bonus: u32,
    pub attack_before_combo: u32,
    pub special_bonus: u32,
}

pub open spec fn table_for(clear: ClearEvent, rules: AttackRules) -> [u16; 5] {
    match clear.spin {
        None => rules.normal_clear,
        Some(s) => match s.classification {
            SpinClassification::Mini => rules.mini_spin,
            SpinClassification::Full => rules.full_spin,
        },
    }
}

pub open spec fn sat_sub(a: int, b: int) -> int {
    if a > b {
        a - b
    } else {
        0
    }
}

pub open spec fn max_int(a: int, b: int) -> int {
    if a >= b {
        a
    } else {
        b
    }
}

/// How far a clear advances the back-to-back counter.
pub open spec fn b2b_increment(previous: AttackState, clear: ClearEvent, rules: AttackRules) -> int {
    let cleared = clear.lines > 0;
    let difficult = cleared && (clear.lines >= 4 || clear.spin is Some);
    let d: int = if difficult { 1 } else { 0 };
    if !clear.perfect_clear {
        d
    } else {
        let inc1 = d + rules.perfect_clear_back_to_back;
        let inc2 = if !rules.perfect_clear_back_to_back_dupes {
            max_int(rules.perfect_clear_back_to_back as int, sat_sub(inc1, rules.perfect_clear_back_to_back as int))
        } else {
            inc1
        };
        if rules.perfect_clear_charges {
            let charge_top = if rules.back_to_back_charge_at == u32::MAX {
                u32::MAX as int
            } else {
                rules.back_to_back_charge_at + 1
            };
            max_int(inc2, sat_sub(charge_top, previous.back_to_back as int))
        } else {
            inc2
        }
    }
}

/// The integer stage of attack resolution, or the error the rules report.
pub open spec fn attack_terms_spec(previous: AttackState, clear: ClearEvent, cleared_garbage: bool, rules: AttackRules) -> Result<
    AttackTerms,
    AttackError,
> {
    if rules.config_error() is Some {
        Err(AttackError::InvalidConfiguration(rules.config_error()->Some_0))
    } else if clear.lines >= 5 {
        Err(AttackError::UnsupportedClearLines(clear.lines))
    } else if clear.perfect_clear && clear.lines == 0 {
        Err(AttackError::PerfectClearWithoutLineClear)
    } else {
        let cleared = clear.lines > 0;
        let difficult = cleared && (clear.lines >= 4 || clear.spin is Some);
        let combo: int = if cleared { previous.combo + 1 } else { 0 };
        let d: int = if difficult { 1 } else { 0 };
        let inc1 = if clear.perfect_clear { d + rules.perfect_clear_back_to_back } else { d };
        let inc = b2b_increment(previous, clear, rules);
        let next_b2b: int = if inc > 0 {
            previous.back_to_back + inc
        } else if cleared {
            0
        } else {
            previous.back_to_back as int
        };
        let surging = cleared && inc == 0 && rules.back_to_back_charging && previous.back_to_back
            > rules.back_to_back_charge_at;
        let raw_surge: int = if surging {
            previous.back_to_back - rules.back_to_back_charge_at + rules.back_to_back_charge_base
        } else {
            0
        };
        if combo > u32::MAX || inc1 > u32::MAX || next_b2b > u32::MAX || raw_surge > u32::MAX {
            Err(AttackError::CounterOverflow)
        } else {
            let back_to_back = inc > 0 && next_b2b > 1;
            let base = table_for(clear, rules)@[clear.lines as int];
            let sends = rules.perfect_clear_back_to_back_sends || !(clear.perfect_clear && inc
                == rules.perfect_clear_back_to_back);
            let bonus: u32 = if back_to_back && sends { rules.back_to_back_bonus as u32 } else { 0 };
            Ok(
                AttackTerms {
                    state: AttackState { combo: combo as u32, back_to_back: next_b2b as u32 },
                    difficult,
                    back_to_back,
                    raw_surge_attack: raw_surge as u32,
                    base_attack: base as u32,
                    back_to_back_bonus: bonus,
                    attack_before_combo: (base + bonus) as u32,
                    special_bonus: if cleared_garbage && difficult {
                        rules.garbage_clear_special_bonus as u32
                    } else {
                        0
                    },
                },
            )
        }
    }
}

/// The garbage-clear bonus goes only with a difficult clear: a clear of at
/// least four lines or a spin that clears a garbage row earns the rules'
/// bonus, and every other placement, a plain single to triple among them,
/// earns none whether or not it clears garbage. A clear is difficult exactly
/// when it clears four lines or is a spin with a line, and the combo counts
/// consecutive clearing placements.
pub proof fn lemma_garbage_clear_bonus_needs_a_difficult_clear(
    previous: AttackState,
    clear: ClearEvent,
    cleared_garbage: bool,
    rules: AttackRules,
)
    ensures
        attack_terms_spec(previous, clear, cleared_garbage, rules) matches Ok(t) ==> {
            let difficult = clear.lines > 0 && (clear.lines >= 4 || clear.spin is Some);
            &&& t.difficult == difficult
            &&& t.special_bonus == (if cleared_garbage && difficult { rules.garbage_clear_special_bonus as u32 } else { 0 })
            &&& clear.lines < 4 && clear.spin is None ==> t.special_bonus == 0
            &&& !cleared_garbage ==> t.special_bonus == 0
            &&& t.state.combo == (if clear.lines > 0 { previous.combo + 1 } else { 0 })
            &&& t.base_attack == table_for(clear, rules)@[clear.lines as int]
            &&& t.attack_before_combo == t.base_attack + t.back_to_back_bonus
        },
{
}

/// Computes the counters, difficulty, back-to-back bonus, base attack and the
/// unscaled surge of a clear.
pub fn attack_terms(previous: AttackState, clear: ClearEvent, cleared_garbage: bool, rules: AttackRules) -> (r: Result<
    AttackTerms,
    AttackError,
>)
    ensures
        r == attack_terms_spec(previous, clear, cleared_garbage, rules),
{
    match rules.validate() {
        Ok(()) => {},
        Err(e) => {
            return Err(AttackError::InvalidConfiguration(e));
        },
    }
    if clear.lines as usize >= 5 {
        return Err(AttackError::UnsupportedClearLines(clear.lines));
    }
    if clear.perfect_clear && clear.lines == 0 {
        return Err(AttackError::PerfectClearWithoutLineClear);
    }
    let cleared = clear.lines > 0;
    let difficult = cleared && (clear.lines >= 4 || clear.spin.is_some());
    let combo = if cleared {
        match previous.combo.checked_add(1) {
            Some(v) => v,
            None => {
                return Err(AttackError::CounterOverflow);
            },
        }
    } else {
        0
    };
    let mut increment: u32 = if difficult { 1 } else { 0 };
    if clear.perfect_clear {
        increment = match increment.checked_add(rules.perfect_clear_back_to_back) {
            Some(v) => v,
            None => {
                return Err(AttackError::CounterOverflow);
            },
        };
        if !rules.perfect_clear_back_to_back_dupes {
            let reduced = increment.saturating_sub(rules.perfect_clear_back_to_back);
            increment = if rules.perfect_clear_back_to_back >= reduced { rules.perfect_clear_back_to_back } else { reduced };
        }
        if rules.perfect_clear_charges {
            let charge = rules.back_to_back_charge_at.saturating_add(1).saturating_sub(previous.back_to_back);
            increment = if increment >= charge { increment } else { charge };
        }
    }
    proof {
        assert(increment == b2b_increment(previous, clear, rules));
    }
    let next_back_to_back = if increment > 0 {
        match previous.back_to_back.checked_add(increment) {
            Some(v) => v,
            None => {
                return Err(AttackError::CounterOverflow);
            },
        }
    } else if cleared {
        0
    } else {
        previous.back_to_back
    };
    let back_to_back = increment > 0 && next_back_to_back > 1;
    let raw_surge_attack = if cleared && increment == 0 && rules.back_to_back_charging && previous.back_to_back
        > rules.back_to_back_charge_at {
        match (previous.back_to_back - rules.back_to_back_charge_at).checked_add(rules.back_to_back_charge_base) {
            Some(v) => v,
            None => {
                return Err(AttackError::CounterOverflow);
            },
        }
    } else {
        0
    };
    let table = match clear.spin {
        None => rules.normal_clear,
        Some(spin) => match spin.classification {
            SpinClassification::Mini => rules.mini_spin,
            SpinClassification::Full => rules.full_spin,
        },
    };
    let base_attack = table[clear.lines as usize] as u32;
    let sends_back_to_back = rules.perfect_clear_back_to_back_sends || !(clear.perfect_clear && increment
        == rules.perfect_clear_back_to_back);
    let back_to_back_bonus: u32 = if back_to_back && sends_back_to_back {
        rules.back_to_back_bonus as u32
    } else {
        0
    };
    let special_bonus: u32 = if cleared_garbage && difficult {
        rules.garbage_clear_special_bonus as u32
    } else {
        0
    };
    Ok(AttackTerms {
        state: AttackState { combo, back_to_back: next_back_to_back },
        difficult,
        back_to_back,
        raw_surge_attack,
        base_attack,
        back_to_back_bonus,
        attack_before_combo: base_attack + back_to_back_bonus,
        special_bonus,
    })
}

/// Surge, clear and perfect-clear packets in client order; empty ones are
/// omitted. Positive JavaScript `Math.round(surge / 3)` is `(surge + 1) / 3`.
pub open spec fn attack_packet_order(surge: u32, clear_attack: u32, perfect_clear_attack: u32) -> Seq<AttackPacket> {
    let third = ((surge + 1) / 3) as u32;
    let last = (surge - 2 * third) as u32;
    kept_packets(
        seq![
            AttackPacket { kind: AttackPacketKind::Surge, lines: third },
            AttackPacket { kind: AttackPacketKind::Surge, lines: third },
            AttackPacket { kind: AttackPacketKind::Surge, lines: last },
            AttackPacket { kind: AttackPacketKind::Clear, lines: clear_attack },
            AttackPacket { kind: AttackPacketKind::PerfectClear, lines: perfect_clear_attack },
        ],
    )
}

/// Builds the attack outcome from the integer terms and the three amounts the
/// garbage multiplier produced: scaled surge, combo-scaled clear attack and
/// scaled perfect-clear attack.
pub fn assemble_attack(terms: AttackTerms, surge_attack: u32, combo_attack: u32, perfect_clear_attack: u32) -> (r: Result<
    AttackOutcome,
    AttackError,
>)
    ensures
        surge_attack == u32::MAX || combo_attack + terms.special_bonus > u32::MAX ==> r == Err::<
            AttackOutcome,
            AttackError,
        >(AttackError::CounterOverflow),
        surge_attack < u32::MAX && combo_attack + terms.special_bonus <= u32::MAX ==> {
            &&& r matches Ok(o)
            &&& o.packets.wf()
            &&& o.packets@ == attack_packet_order(
                surge_attack,
                (combo_attack + terms.special_bonus) as u32,
                perfect_clear_attack,
            )
            &&& o == AttackOutcome {
                state: terms.state,
                packets: o.packets,
                base_attack: terms.base_attack,
                clear_attack: (combo_attack + terms.special_bonus) as u32,
                back_to_back_bonus: terms.back_to_back_bonus,
                special_bonus: terms.special_bonus,
                surge_attack,
                perfect_clear_attack,
                difficult: terms.difficult,
                back_to_back: terms.back_to_back,
            }
        },
{
    let mut packets = AttackPackets::empty();
    let third = match surge_attack.checked_add(1) {
        Some(v) => v / 3,
        None => {
            return Err(AttackError::CounterOverflow);
        },
    };
    let last = surge_attack - 2 * third;
    let ghost order = seq![
        AttackPacket { kind: AttackPacketKind::Surge, lines: third },
        AttackPacket { kind: AttackPacketKind::Surge, lines: third },
        AttackPacket { kind: AttackPacketKind::Surge, lines: last },
        AttackPacket { kind: AttackPacketKind::Clear, lines: (combo_attack + terms.special_bonus) as u32 },
        AttackPacket { kind: AttackPacketKind::PerfectClear, lines: perfect_clear_attack },
    ];
    if surge_attack != 0 {
        let _ = packets.push(AttackPacketKind::Surge, third);
        let _ = packets.push(AttackPacketKind::Surge, third);
        let _ = packets.push(AttackPacketKind::Surge, last);
    }
    proof {
        assert(order.take(0) =~= Seq::<AttackPacket>::empty());
        lemma_kept_grows(order, 0);
        lemma_kept_grows(order, 1);
        lemma_kept_grows(order, 2);
        lemma_kept_grows(order, 3);
        lemma_kept_grows(order, 4);
        assert(order.take(5) =~= order);
        assert(packets@ == kept_packets(order.take(3)));
    }
    let clear_attack = match combo_attack.checked_add(terms.special_bonus) {
        Some(v) => v,
        None => {
            return Err(AttackError::CounterOverflow);
        },
    };
    let _ = packets.push(AttackPacketKind::Clear, clear_attack);
    assert(packets@ == kept_packets(order.take(4)));
    let _ = packets.push(AttackPacketKind::PerfectClear, perfect_clear_attack);
    assert(packets@ == kept_packets(order.take(5)));
    Ok(AttackOutcome {
        state: terms.state,
        packets,
        base_attack: terms.base_attack,
        clear_attack,
        back_to_back_bonus: terms.back_to_back_bonus,
        special_bonus: terms.special_bonus,
        surge_attack,
        perfect_clear_attack,
        difficult: terms.difficult,
        back_to_back: terms.back_to_back,
    })
}

/// Number of leading thresholds at or below `combo_index`.
pub open spec fn thresholds_reached(th: Seq<u32>, i: int, combo_index: u32) -> nat
    decreases th.len() - i,
{
    if i < 0 || i >= th.len() || th[i] > combo_index {
        0
    } else {
        1 + thresholds_reached(th, i + 1, combo_index)
    }
}

/// Combo attack of a zero-attack clear at multiplier one: how many of the
/// logarithmic thresholds the combo index has reached.
pub fn zero_base_combo_attack(thresholds: &[u32], combo_index: u32) -> (r: Result<u32, AttackError>)
    ensures
        thresholds_reached(thresholds@, 0, combo_index) <= u32::MAX ==> r == Ok::<u32, AttackError>(
            thresholds_reached(thresholds@, 0, combo_index) as u32,
        ),
        thresholds_reached(thresholds@, 0, combo_index) > u32::MAX ==> r == Err::<u32, AttackError>(
            AttackError::CounterOverflow,
        ),
{
    let mut i: usize = 0;
    while i < thresholds.len() && combo_index >= thresholds[i]
        invariant
            i <= thresholds@.len(),
            thresholds_reached(thresholds@, 0, combo_index) == i + thresholds_reached(thresholds@, i as int, combo_index),
        decreases thresholds@.len() - i,
    {
        i += 1;
    }
    if i > u32::MAX as usize {
        return Err(AttackError::CounterOverflow);
    }
    Ok(i as u32)
}

// ---------------------------------------------------------------------------
// Two-player rules and round results.
// ---------------------------------------------------------------------------

/// Complete score-free rules needed by the deterministic local 1v1 loop.
#[derive(Clone, Debug, PartialEq, Eq)]
pub struct BattleRules {
    pub game: GameConfig,
    pub timing: TimingSchedule,
    pub handling: [HandlingRules; 2],
    pub attack: AttackRules,
    pub garbage: GarbageRules,
}

impl BattleRules {
    /// The first configuration error of the timing, attack and garbage rules.
    pub open spec fn config_error(&self) -> Option<BattleError> {
        match schedule_rules_spec(self.timing, 0) {
            Err(e) => Some(BattleError::TimingSchedule(e)),
            Ok(_) => if self.attack.config_error() is Some {
                Some(BattleError::AttackConfiguration(self.attack.config_error()->Some_0))
            } else if self.garbage.config_error() is Some {
                Some(BattleError::GarbageConfiguration(self.garbage.config_error()->Some_0))
            } else {
                None
            },
        }
    }

    pub fn validate(&self) -> (r: Result<(), BattleError>)
        requires
            self.timing.wf(),
        ensures
            match self.config_error() {
                Some(e) => r == Err::<(), BattleError>(e),
                None => r is Ok,
            },
    {
        match self.timing.rules_at_frame(0) {
            Ok(_) => {},
            Err(e) => {
                return Err(BattleError::TimingSchedule(e));
            },
        }
        match self.attack.validate() {
            Ok(()) => {},
            Err(e) => {
                return Err(BattleError::AttackConfiguration(e));
            },
        }
        match self.garbage.validate() {
            Ok(()) => Ok(()),
            Err(e) => Err(BattleError::GarbageConfiguration(e)),
        }
    }
}

#[derive(Clone, Copy, Debug, PartialEq, Eq, Structural)]
pub enum PlayerId {
    One,
    Two,
}

#[derive(Clone, Copy, Debug, PartialEq, Eq, Structural)]
pub enum BattleResult {
    Ongoing,
    PlayerOneWin,
    PlayerTwoWin,
    Draw,
}

/// The round result from which players have topped out.
pub fn result_from_terminals(player_one_terminal: bool, player_two_terminal: bool) -> (r: BattleResult)
    ensures
        r == (if player_one_terminal && player_two_terminal {
            BattleResult::Draw
        } else if player_one_terminal {
            BattleResult::PlayerTwoWin
        } else if player_two_terminal {
            BattleResult::PlayerOneWin
        } else {
            BattleResult::Ongoing
        }),
{
    match (player_one_terminal, player_two_terminal) {
        (false, false) => BattleResult::Ongoing,
        (false, true) => BattleResult::PlayerOneWin,
        (true, false) => BattleResult::PlayerTwoWin,
        (true, true) => BattleResult::Draw,
    }
}

#[derive(Clone, Copy, Debug, PartialEq, Eq, Structural)]
pub enum BattleError {
    AttackConfiguration(AttackConfigError),
    GarbageConfiguration(GarbageConfigError),
    TimingSchedule(TimingScheduleError),
    Session { player: PlayerId, source: SessionStepError },
    Attack { player: PlayerId, source: AttackError },
    Garbage { player: PlayerId, source: GarbageError },
    FrameDesync { battle: u64, player_one: u64, player_two: u64 },
    RoundOver(BattleResult),
    ZeroPlacementCadence,
    FrameOverflow,
    PlacementPending,
    NoPendingPlacement,
}

/// Packet `i` of `s` after `amount` lines are taken off the front of the
/// sequence.
pub open spec fn reduced_packet(s: Seq<AttackPacket>, amount: int, i: int) -> AttackPacket {
    let before = lines_total(s.take(i));
    let left = if amount > before {
        amount - before
    } else {
        0
    };
    let cut = if left < s[i].lines {
        left
    } else {
        s[i].lines as int
    };
    AttackPacket { kind: s[i].kind, lines: (s[i].lines - cut) as u32 }
}

/// The packets left after `amount` lines are taken off the front, in order,
/// without those emptied.
pub open spec fn discard_prefix(s: Seq<AttackPacket>, amount: int) -> Seq<AttackPacket> {
    kept_packets(Seq::new(s.len(), |i: int| reduced_packet(s, amount, i)))
}

proof fn lemma_kept_total(s: Seq<AttackPacket>)
    ensures
        lines_total(kept_packets(s)) == lines_total(s),
        kept_packets(s).len() <= s.len(),
    decreases s.len(),
{
    if s.len() > 0 {
        lemma_kept_total(s.drop_last());
        let k = kept_packets(s.drop_last());
        if s.last().lines > 0 {
            assert(k.push(s.last()).drop_last() =~= k);
        }
    }
}

proof fn lemma_reduced_total(s: Seq<AttackPacket>, amount: int, n: nat)
    requires
        0 <= amount,
        n <= s.len(),
    ensures
        ({
            let red = Seq::new(s.len(), |i: int| reduced_packet(s, amount, i));
            let t = lines_total(s.take(n as int));
            lines_total(red.take(n as int)) == t - if amount < t {
                amount
            } else {
                t
            }
        }),
    decreases n,
{
    let red = Seq::new(s.len(), |i: int| reduced_packet(s, amount, i));
    if n > 0 {
        lemma_reduced_total(s, amount, (n - 1) as nat);
        assert(s.take(n as int).drop_last() =~= s.take(n - 1));
        assert(red.take(n as int).drop_last() =~= red.take(n - 1));
        lemma_lines_total_bound(s.take(n - 1));
    } else {
        assert(s.take(0) =~= Seq::<AttackPacket>::empty());
        assert(red.take(0) =~= Seq::<AttackPacket>::empty());
    }
}

/// Taking `amount` lines off the front of a sequence removes exactly that
/// many lines, or all of them when it holds fewer.
pub proof fn lemma_discard_prefix_total(s: Seq<AttackPacket>, amount: int)
    requires
        0 <= amount,
    ensures
        lines_total(discard_prefix(s, amount)) == lines_total(s) - if amount < lines_total(s) {
            amount
        } else {
            lines_total(s)
        },
{
    let red = Seq::new(s.len(), |i: int| reduced_packet(s, amount, i));
    lemma_reduced_total(s, amount, s.len());
    assert(s.take(s.len() as int) =~= s);
    assert(red.take(s.len() as int) =~= red);
    lemma_kept_total(red);
}

/// Removes `amount` lines from the front of the packets, keeping their order
/// and dropping the packets that empty.
pub fn discard_attack_prefix(packets: AttackPackets, amount: u64) -> (r: Result<AttackPackets, BattleError>)
    requires
        packets.wf(),
    ensures
        r matches Ok(p) && p.wf() && p@ == discard_prefix(packets@, amount as int),
{
    proof {
        packets.lemma_wf();
    }
    let slice = packets.as_slice();
    let ghost red = Seq::new(packets@.len(), |i: int| reduced_packet(packets@, amount as int, i));
    let mut remaining = AttackPackets::empty();
    let mut left = amount;
    let mut i: usize = 0;
    proof {
        assert(red.take(0) =~= Seq::<AttackPacket>::empty());
        assert(packets@.take(0) =~= Seq::<AttackPacket>::empty());
    }
    while i < slice.len()
        invariant
            slice@ == packets@,
            packets@.len() <= 5,
            i <= slice@.len(),
            red == Seq::new(packets@.len(), |i: int| reduced_packet(packets@, amount as int, i)),
            remaining.wf(),
            remaining@ == kept_packets(red.take(i as int)),
            remaining@.len() <= i,
            left == if amount > lines_total(packets@.take(i as int)) {
                amount - lines_total(packets@.take(i as int))
            } else {
                0
            },
        decreases slice@.len() - i,
    {
        let p = slice[i];
        let cancelled: u64 = if (p.lines as u64) < left {
            p.lines as u64
        } else {
            left
        };
        left = left - cancelled;
        let lines = p.lines - (cancelled as u32);
        proof {
            assert(packets@.take(i + 1).drop_last() =~= packets@.take(i as int));
            assert(red.take(i + 1).drop_last() =~= red.take(i as int));
            assert(red[i as int] == AttackPacket { kind: p.kind, lines });
            lemma_kept_total(red.take(i as int));
        }
        match remaining.push(p.kind, lines) {
            Ok(()) => {},
            Err(e) => {
                return Err(BattleError::Attack { player: PlayerId::One, source: e });
            },
        }
        i += 1;
    }
    proof {
        assert(red.take(packets@.len() as int) =~= red);
    }
    Ok(remaining)
}

/// The lines both players send on one frame.
pub open spec fn common_lines(one: Seq<AttackPacket>, two: Seq<AttackPacket>) -> int {
    if lines_total(one) < lines_total(two) {
        lines_total(one)
    } else {
        lines_total(two)
    }
}

/// Same-frame attacks acknowledge each other: the lines both send are taken
/// off the front of each side's packets, in the same amount for both.
pub fn cross_cancel_simultaneous(one: AttackPackets, two: AttackPackets) -> (r: Result<
    (AttackPackets, AttackPackets),
    BattleError,
>)
    requires
        one.wf(),
        two.wf(),
    ensures
        r matches Ok((a, b)) && a.wf() && b.wf() && a@ == discard_prefix(one@, common_lines(one@, two@)) && b@
            == discard_prefix(two@, common_lines(one@, two@)),
{
    let t1 = one.total();
    let t2 = two.total();
    let common = if t1 < t2 {
        t1
    } else {
        t2
    };
    let a = discard_attack_prefix(one, common)?;
    let b = discard_attack_prefix(two, common)?;
    Ok((a, b))
}

/// Same-frame cancellation is symmetric: both sides lose the same number of
/// lines, and afterwards at most one side still sends any.
pub proof fn lemma_cross_cancel_symmetric(one: Seq<AttackPacket>, two: Seq<AttackPacket>)
    ensures
        lines_total(one) - lines_total(discard_prefix(one, common_lines(one, two))) == lines_total(two)
            - lines_total(discard_prefix(two, common_lines(one, two))),
        lines_total(discard_prefix(one, common_lines(one, two))) == 0 || lines_total(
            discard_prefix(two, common_lines(one, two)),
        ) == 0,
{
    lemma_lines_total_bound(one);
    lemma_lines_total_bound(two);
    lemma_discard_prefix_total(one, common_lines(one, two));
    lemma_discard_prefix_total(two, common_lines(one, two));
}

/// The incoming packet a transmitted packet becomes: no hole yet, ready after
/// the travel time.
pub open spec fn generated_packet(p: AttackPacket, frame: u64, rules: GarbageRules) -> IncomingGarbagePacket {
    IncomingGarbagePacket {
        lines: p.lines,
        hole_column: None,
        ready_at_frame: (frame + rules.travel_frames) as u64,
        hardened: false,
    }
}

proof fn lemma_lines_total_prefix(s: Seq<AttackPacket>, n: int)
    requires
        0 <= n <= s.len(),
    ensures
        0 <= lines_total(s.take(n)) <= lines_total(s),
    decreases s.len() - n,
{
    lemma_lines_total_bound(s.take(n));
    if n < s.len() {
        lemma_lines_total_prefix(s, n + 1);
        assert(s.take(n + 1).drop_last() =~= s.take(n));
    } else {
        assert(s.take(n) =~= s);
    }
}

/// Queues the packets that reach `receiver` this frame, in order, each ready
/// after the travel time.
pub fn enqueue_generated_packets(
    receiver: PlayerId,
    incoming: &mut IncomingGarbageQueue,
    packets: AttackPackets,
    frame: u64,
    rules: GarbageRules,
) -> (r: Result<(), BattleError>)
    requires
        old(incoming).wf(),
        packets.wf(),
        queue_lines(old(incoming)@.0) + lines_total(packets@) <= u64::MAX,
    ensures
        final(incoming).wf(),
        packets@.len() > 0 && rules.config_error() is Some ==> r == Err::<(), BattleError>(
            BattleError::Garbage {
                player: receiver,
                source: GarbageError::InvalidConfiguration(rules.config_error()->Some_0),
            },
        ) && final(incoming)@ == old(incoming)@,
        packets@.len() > 0 && rules.config_error() is None && frame + rules.travel_frames > u64::MAX ==> r == Err::<
            (),
            BattleError,
        >(BattleError::Garbage { player: receiver, source: GarbageError::CounterOverflow }) && final(incoming)@ == old(
            incoming,
        )@,
        packets@.len() == 0 || (rules.config_error() is None && frame + rules.travel_frames <= u64::MAX) ==> r is Ok
            && final(incoming)@ == (
            old(incoming)@.0 + packets@.map_values(|p: AttackPacket| generated_packet(p, frame, rules)),
            old(incoming)@.1,
        ),
{
    proof {
        packets.lemma_wf();
    }
    let slice = packets.as_slice();
    let ghost q0 = incoming@;
    let mut i: usize = 0;
    while i < slice.len()
        invariant
            slice@ == packets@,
            packets@.len() <= 5,
            forall|j: int| 0 <= j < packets@.len() ==> #[trigger] packets@[j].lines > 0,
            i <= slice@.len(),
            incoming.wf(),
            q0 == old(incoming)@,
            queue_lines(q0.0) + lines_total(packets@) <= u64::MAX,
            incoming@ == (
                q0.0 + packets@.take(i as int).map_values(|p: AttackPacket| generated_packet(p, frame, rules)),
                q0.1,
            ),
            queue_lines(incoming@.0) == queue_lines(q0.0) + lines_total(packets@.take(i as int)),
            i > 0 ==> rules.config_error() is None && frame + rules.travel_frames <= u64::MAX,
        decreases slice@.len() - i,
    {
        let p = slice[i];
        let generated = match IncomingGarbagePacket::after_travel_generated(p.lines, frame, false, rules) {
            Ok(g) => g,
            Err(source) => {
                proof {
                    assert(packets@.take(0).map_values(|p: AttackPacket| generated_packet(p, frame, rules))
                        =~= Seq::<IncomingGarbagePacket>::empty());
                    assert(q0.0 + Seq::<IncomingGarbagePacket>::empty() =~= q0.0);
                }
                return Err(BattleError::Garbage { player: receiver, source });
            },
        };
        proof {
            assert(packets@.take(i + 1).drop_last() =~= packets@.take(i as int));
            lemma_lines_total_prefix(packets@, i + 1);
        }
        match incoming.enqueue(generated) {
            Ok(()) => {},
            Err(source) => {
                return Err(BattleError::Garbage { player: receiver, source });
            },
        }
        proof {
            let before = q0.0 + packets@.take(i as int).map_values(|p: AttackPacket| generated_packet(p, frame, rules));
            assert(packets@.take(i + 1).map_values(|p: AttackPacket| generated_packet(p, frame, rules))
                =~= packets@.take(i as int).map_values(|p: AttackPacket| generated_packet(p, frame, rules)).push(
                generated,
            ));
            assert(q0.0 + packets@.take(i + 1).map_values(|p: AttackPacket| generated_packet(p, frame, rules))
                =~= before.push(generated));
            lemma_queue_lines_concat(before, seq![generated]);
            assert(before + seq![generated] =~= before.push(generated));
            assert(queue_lines(seq![generated]) == generated.lines) by {
                assert(seq![generated].drop_first() =~= Seq::<IncomingGarbagePacket>::empty());
                reveal_with_fuel(queue_lines, 2);
            }
        }
        i += 1;
    }
    proof {
        assert(packets@.take(packets@.len() as int) =~= packets@);
        if packets@.len() == 0 {
            assert(packets@.map_values(|p: AttackPacket| generated_packet(p, frame, rules)) =~= Seq::<
                IncomingGarbagePacket,
            >::empty());
            assert(q0.0 + Seq::<IncomingGarbagePacket>::empty() =~= q0.0);
        }
    }
    Ok(())
}

} // verus!
