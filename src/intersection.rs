//! Intersections of the grid and their signal controllers: a deterministic,
//! cyclic automaton of phases, each granting right of way to some approaches
//! for a fixed number of ticks.
use vstd::prelude::*;
use crate::common::{AbsoluteDirection, Around, TurnRule};

verus! {

/// Number of ticks that each signal phase lasts.
pub const PHASE_TICKS: u64 = 120;

/// The shape of an intersection, given by which of its four incident roads exist.
#[derive(Copy, Clone, Debug, PartialEq, Eq, Structural)]
pub enum IntersectionShape {
    /// All four roads exist.
    Crossroad,
    /// Three roads exist; `missing` is the side without a road.
    TJunction { missing: AbsoluteDirection },
    /// Two roads or fewer: a corner, a pass-through or a dead end.
    Simple,
}

/// Number of phases in the cycle of an intersection of `shape`.
pub open spec fn phase_count(shape: IntersectionShape) -> nat {
    match shape {
        IntersectionShape::Crossroad => 2,
        IntersectionShape::TJunction { .. } => 2,
        IntersectionShape::Simple => 1,
    }
}

/// Whether traffic approaching from side `d` has right of way in `phase`.
pub open spec fn green(shape: IntersectionShape, phase: nat, d: AbsoluteDirection) -> bool {
    match shape {
        IntersectionShape::Crossroad => if phase == 0 {
            d == AbsoluteDirection::North || d == AbsoluteDirection::South
        } else {
            d == AbsoluteDirection::East || d == AbsoluteDirection::West
        },
        IntersectionShape::TJunction { missing } => if phase == 0 {
            d.index() == (missing.index() + 1) % 4 || d.index() == (missing.index() + 3) % 4
        } else {
            d.index() == (missing.index() + 2) % 4
        },
        IntersectionShape::Simple => true,
    }
}

/// Whether `table` is the right-of-way table of `phase`: every turn for a side
/// with right of way, none for the others.
pub open spec fn is_phase_table(table: Around<TurnRule>, shape: IntersectionShape, phase: nat) -> bool {
    forall|d: AbsoluteDirection| #[trigger] table.at(d).bits_of() == if green(shape, phase, d) {
        15u8
    } else {
        0u8
    }
}

/// The phase and the ticks left in it after one tick from `phase` with
/// `timer` ticks left.
pub open spec fn next_state(shape: IntersectionShape, phase: nat, timer: nat) -> (nat, nat) {
    if timer > 1 {
        (phase, (timer - 1) as nat)
    } else {
        ((phase + 1) % phase_count(shape), PHASE_TICKS as nat)
    }
}

/// The phase and the ticks left in it after `n` ticks.
pub open spec fn run(shape: IntersectionShape, phase: nat, timer: nat, n: nat) -> (nat, nat)
    decreases n,
{
    if n == 0 {
        (phase, timer)
    } else {
        let (p, t) = next_state(shape, phase, timer);
        run(shape, p, t, (n - 1) as nat)
    }
}

/// The right-of-way table of `phase`.
pub fn phase_table(shape: IntersectionShape, phase: usize) -> (r: Around<TurnRule>)
    ensures
        is_phase_table(r, shape, phase as nat),
{
    let all = TurnRule::all();
    let none = TurnRule::empty();
    match shape {
        IntersectionShape::Crossroad => if phase == 0 {
            Around { north: all, west: none, south: all, east: none }
        } else {
            Around { north: none, west: all, south: none, east: all }
        },
        IntersectionShape::TJunction { missing } => {
            let mut table = Around { north: none, west: none, south: none, east: none };
            if phase == 0 {
                *table.get_mut(missing.turn_right()) = all;
                *table.get_mut(missing.turn_left()) = all;
            } else {
                *table.get_mut(missing.turn_opposite()) = all;
            }
            table
        },
        IntersectionShape::Simple => Around { north: all, west: all, south: all, east: all },
    }
}

/// The signal controller of one intersection.
#[derive(Copy, Clone, Debug)]
pub struct IntersectionController {
    shape: IntersectionShape,
    phase: usize,
    timer: u64,
    current: Around<TurnRule>,
}

impl IntersectionController {
    /// The phase, its ticks left and the table agree with one another.
    pub closed spec fn wf(self) -> bool {
        self.phase < phase_count(self.shape) && 1 <= self.timer <= PHASE_TICKS && is_phase_table(
            self.current,
            self.shape,
            self.phase as nat,
        )
    }

    pub closed spec fn shape_of(self) -> IntersectionShape {
        self.shape
    }

    pub closed spec fn phase_of(self) -> nat {
        self.phase as nat
    }

    pub closed spec fn timer_of(self) -> nat {
        self.timer as nat
    }

    pub closed spec fn table_of(self) -> Around<TurnRule> {
        self.current
    }

    /// A controller in phase 0, at the start of it.
    pub fn new(shape: IntersectionShape) -> (r: IntersectionController)
        ensures
            r.wf(),
            r.shape_of() == shape,
            r.phase_of() == 0,
            r.timer_of() == PHASE_TICKS,
            is_phase_table(r.table_of(), shape, 0),
    {
        IntersectionController { shape, phase: 0, timer: PHASE_TICKS, current: phase_table(shape, 0) }
    }

    pub fn shape(&self) -> (r: IntersectionShape)
        ensures
            r == self.shape_of(),
    {
        self.shape
    }

    pub fn phase(&self) -> (r: usize)
        ensures
            r == self.phase_of(),
    {
        self.phase
    }

    /// The right-of-way table now in force.
    pub fn current(&self) -> (r: Around<TurnRule>)
        ensures
            r == self.table_of(),
            self.wf() ==> is_phase_table(r, self.shape_of(), self.phase_of()),
    {
        self.current
    }

    /// Number of ticks after which the controller is back where it started.
    pub fn cycle_length(&self) -> (r: u64)
        ensures
            r == phase_count(self.shape_of()) * PHASE_TICKS,
    {
        match self.shape {
            IntersectionShape::Simple => PHASE_TICKS,
            _ => 2 * PHASE_TICKS,
        }
    }

    /// Advance by one tick: count down the phase, and when it runs out move to
    /// the next phase of the cycle and put its table in force.
    pub fn tick(&mut self)
        requires
            old(self).wf(),
        ensures
            final(self).wf(),
            final(self).shape_of() == old(self).shape_of(),
            (final(self).phase_of(), final(self).timer_of()) == next_state(
                old(self).shape_of(),
                old(self).phase_of(),
                old(self).timer_of(),
            ),
    {
        if self.timer > 1 {
            self.timer = self.timer - 1;
        } else {
            let next: usize = match self.shape {
                IntersectionShape::Simple => 0,
                _ => if self.phase == 0 { 1 } else { 0 },
            };
            self.phase = next;
            self.timer = PHASE_TICKS;
            self.current = phase_table(self.shape, next);
        }
    }
}

/// Within a phase, `k` ticks only count the timer down.
proof fn lemma_run_within_phase(shape: IntersectionShape, phase: nat, timer: nat, k: nat)
    requires
        k < timer,
    ensures
        run(shape, phase, timer, k) == (phase, (timer - k) as nat),
    decreases k,
{
    if k > 0 {
        lemma_run_within_phase(shape, phase, (timer - 1) as nat, (k - 1) as nat);
    }
}

/// Running `a` ticks and then `b` more is running `a + b` ticks.
proof fn lemma_run_split(shape: IntersectionShape, phase: nat, timer: nat, a: nat, b: nat)
    ensures
        ({
            let (p, t) = run(shape, phase, timer, a);
            run(shape, p, t, b)
        }) == run(shape, phase, timer, a + b),
    decreases a,
{
    if a > 0 {
        let (p, t) = next_state(shape, phase, timer);
        lemma_run_split(shape, p, t, (a - 1) as nat, b);
        assert((a + b - 1) as nat == (a - 1) as nat + b);
    }
}

/// A full phase, started fresh, ends at the start of the next phase.
proof fn lemma_run_one_phase(shape: IntersectionShape, phase: nat)
    ensures
        run(shape, phase, PHASE_TICKS as nat, PHASE_TICKS as nat) == ((phase + 1) % phase_count(shape), PHASE_TICKS as nat),
{
    let n = PHASE_TICKS as nat;
    lemma_run_within_phase(shape, phase, n, (n - 1) as nat);
    lemma_run_split(shape, phase, n, (n - 1) as nat, 1);
    assert(run(shape, phase, 1, 1) == run(shape, (phase + 1) % phase_count(shape), n, 0));
}

/// The signal automaton is periodic: from the start of any phase, running a
/// full cycle of ticks (the phase count times the phase length) comes back to
/// the same phase with the same ticks left, and hence to the same
/// right-of-way table. In particular a new controller returns to its initial
/// phase and table.
pub proof fn lemma_cycle_returns(shape: IntersectionShape, phase: nat)
    requires
        phase < phase_count(shape),
    ensures
        run(shape, phase, PHASE_TICKS as nat, phase_count(shape) * PHASE_TICKS as nat) == (phase, PHASE_TICKS as nat),
        forall|a: Around<TurnRule>, b: Around<TurnRule>|
            is_phase_table(a, shape, phase) && is_phase_table(b, shape, phase) ==> a == b,
{
    let n = PHASE_TICKS as nat;
    let c = phase_count(shape);
    lemma_run_one_phase(shape, phase);
    if c == 2 {
        lemma_run_one_phase(shape, (phase + 1) % 2);
        lemma_run_split(shape, phase, n, n, n);
        assert(2 * n == n + n);
    }
    assert forall|a: Around<TurnRule>, b: Around<TurnRule>|
        is_phase_table(a, shape, phase) && is_phase_table(b, shape, phase) implies a == b by {
        assert(a.at(AbsoluteDirection::North).bits_of() == b.at(AbsoluteDirection::North).bits_of());
        assert(a.at(AbsoluteDirection::West).bits_of() == b.at(AbsoluteDirection::West).bits_of());
        assert(a.at(AbsoluteDirection::South).bits_of() == b.at(AbsoluteDirection::South).bits_of());
        assert(a.at(AbsoluteDirection::East).bits_of() == b.at(AbsoluteDirection::East).bits_of());
        TurnRule::lemma_bits_determine(a.north, b.north);
        TurnRule::lemma_bits_determine(a.west, b.west);
        TurnRule::lemma_bits_determine(a.south, b.south);
        TurnRule::lemma_bits_determine(a.east, b.east);
    }
}

} // verus!
