//! The beam processor: the stateful core that drains a bounded number of
//! instructions per frame from its backlog and folds them through the beam
//! state machine into an ordered, power-tagged point sequence.
//!
//! Policy choices, stated once here: a `Clear` instruction discards the
//! points accumulated so far within the same `process` call and nothing
//! else; and when the new batch produces at least one point, the previous
//! frame's last point is carried forward at the head of the list so the
//! renderer can draw the first segment of the new batch without a gap.

use vstd::prelude::*;

use crate::gfx::Point;
use crate::instruction::{Instruction, InstructionKind};

use slice_deque::SliceDeque;

verus! {

#[verifier::external_type_specification]
#[verifier::external_body]
#[verifier::reject_recursive_types(T)]
pub struct ExSliceDeque<T>(SliceDeque<T>);

/// What an instruction deque holds, front first.
pub uninterp spec fn deque_contents(d: SliceDeque<Instruction>) -> Seq<Instruction>;

/// Relies on slice_deque::SliceDeque::new: creates an empty deque.
#[verifier::external_body]
fn deque_new() -> (d: SliceDeque<Instruction>)
    ensures
        deque_contents(d) == Seq::<Instruction>::empty(),
{
    SliceDeque::new()
}

/// Relies on slice_deque::SliceDeque::len: the number of elements held.
#[verifier::external_body]
fn deque_len(d: &SliceDeque<Instruction>) -> (n: usize)
    ensures
        n == deque_contents(*d).len(),
{
    d.len()
}

/// Relies on slice_deque::SliceDeque::push_back: appends one element at the
/// tail.
#[verifier::external_body]
fn deque_push_back(d: &mut SliceDeque<Instruction>, i: Instruction)
    ensures
        deque_contents(*final (d)) == deque_contents(*old(d)).push(i),
{
    d.push_back(i)
}

/// Relies on slice_deque::SliceDeque::pop_front: removes and returns the
/// element at the head, or `None` when empty.
#[verifier::external_body]
fn deque_pop_front(d: &mut SliceDeque<Instruction>) -> (r: Option<Instruction>)
    ensures
        deque_contents(*old(d)).len() == 0 ==> r is None && deque_contents(*final (d))
            == deque_contents(*old(d)),
        deque_contents(*old(d)).len() > 0 ==> r == Some(deque_contents(*old(d))[0])
            && deque_contents(*final (d)) == deque_contents(*old(d)).drop_first(),
{
    d.pop_front()
}

/// The point a `MoveTo` payload lands on: x from the high 16 bits, y from
/// the low 16 bits, tagged with the beam's current power.
pub open spec fn point_of_data(data: u32, power: bool) -> Point {
    Point {
        x: (data / 0x10000) as u16,
        y: (data % 0x10000) as u16,
        power: if power {
            1u32
        } else {
            0u32
        },
    }
}

/// One step of the beam state machine: how a single instruction transforms
/// the power flag and the points accumulated so far in this batch.
pub open spec fn spec_exec_one(power: bool, pts: Seq<Point>, i: Instruction) -> (bool, Seq<Point>) {
    match i.kind {
        InstructionKind::Clear => (power, Seq::empty()),
        InstructionKind::MoveTo => (power, pts.push(point_of_data(i.data, power))),
        InstructionKind::PowerOn => (true, pts),
        InstructionKind::PowerOff => (false, pts),
    }
}

/// The beam state machine folded over a whole batch, in order.
pub open spec fn spec_run(power: bool, pts: Seq<Point>, batch: Seq<Instruction>) -> (
    bool,
    Seq<Point>,
)
    decreases batch.len(),
{
    if batch.len() == 0 {
        (power, pts)
    } else {
        let stepped = spec_exec_one(power, pts, batch[0]);
        spec_run(stepped.0, stepped.1, batch.drop_first())
    }
}

/// How many instructions one `process` call drains from a backlog of length
/// `backlog_len` under `budget`: up to `budget` when it is positive, the
/// whole backlog when it is zero.
pub open spec fn drained(budget: nat, backlog_len: nat) -> nat {
    if budget > 0 {
        if budget < backlog_len {
            budget
        } else {
            backlog_len
        }
    } else {
        backlog_len
    }
}

/// Processes the instructions.
pub struct InstructionProcessor {
    /// The instruction backlog, shared-format FIFO.
    instruction_buffer: SliceDeque<Instruction>,
    /// The points of the current frame.
    points: Vec<Point>,
    /// The beam power flag.
    power: bool,
    /// One-shot flag asking the renderer to wipe the previous image.
    should_clear: bool,
    /// The per-frame instruction budget; 0 means "drain all".
    instructions_per_frame: usize,
}

impl InstructionProcessor {
    /// The instructions waiting in the backlog, front first.
    pub closed spec fn backlog(&self) -> Seq<Instruction> {
        deque_contents(self.instruction_buffer)
    }

    /// The points of the current frame.
    pub closed spec fn point_seq(&self) -> Seq<Point> {
        self.points@
    }

    /// The beam power flag.
    pub closed spec fn power_state(&self) -> bool {
        self.power
    }

    /// The per-frame instruction budget.
    pub closed spec fn budget(&self) -> nat {
        self.instructions_per_frame as nat
    }

    /// The one-shot "wipe the previous image" flag.
    pub closed spec fn clear_flag(&self) -> bool {
        self.should_clear
    }

    /// Create a new instruction processor. The beam starts powered on, with
    /// an empty backlog and no points.
    pub fn new(instructions_per_frame: usize) -> (r: Self)
        ensures
            r.backlog() == Seq::<Instruction>::empty(),
            r.point_seq() == Seq::<Point>::empty(),
            r.power_state() == true,
            r.budget() == instructions_per_frame as nat,
    {
        Self {
            instruction_buffer: deque_new(),
            points: Vec::new(),
            instructions_per_frame,
            power: true,
            should_clear: false,
        }
    }

    /// Append instructions to the tail of the backlog. No budget check
    /// happens here: the backlog may grow without bound.
    pub fn push_instructions(&mut self, instructions: &[Instruction])
        ensures
            final (self).backlog() == old(self).backlog() + instructions@,
            final (self).point_seq() == old(self).point_seq(),
            final (self).power_state() == old(self).power_state(),
            final (self).budget() == old(self).budget(),
    {
        let mut k: usize = 0;
        proof {
            assert(self.backlog() =~= old(self).backlog() + instructions@.take(0));
        }
        while k < instructions.len()
            invariant
                k <= instructions.len(),
                self.backlog() == old(self).backlog() + instructions@.take(k as int),
                self.points == old(self).points,
                self.power == old(self).power,
                self.should_clear == old(self).should_clear,
                self.instructions_per_frame == old(self).instructions_per_frame,
            decreases instructions.len() - k,
        {
            deque_push_back(&mut self.instruction_buffer, instructions[k]);
            proof {
                assert(old(self).backlog() + instructions@.take(k + 1) =~= (old(self).backlog()
                    + instructions@.take(k as int)).push(instructions@[k as int]));
            }
            k = k + 1;
        }
        proof {
            assert(instructions@.take(instructions@.len() as int) =~= instructions@);
        }
    }

    /// Drain up to the budget's worth of instructions from the head of the
    /// backlog (all of them when the budget is 0) and fold them through the
    /// state machine into this frame's point list. When the batch yields at
    /// least one point and the previous frame had a last point, that point
    /// is carried forward at the head of the new list.
    pub fn process(&mut self)
        ensures
            ({
                let n = drained(old(self).budget(), old(self).backlog().len());
                let run = spec_run(
                    old(self).power_state(),
                    Seq::<Point>::empty(),
                    old(self).backlog().take(n as int),
                );
                &&& final (self).backlog() == old(self).backlog().skip(n as int)
                &&& final (self).power_state() == run.0
                &&& final (self).point_seq() == if run.1.len() > 0 && old(self).point_seq().len()
                    > 0 {
                    seq![old(self).point_seq().last()] + run.1
                } else {
                    run.1
                }
                &&& final (self).budget() == old(self).budget()
                &&& final (self).point_seq().len() <= n + 1
                &&& (forall|i: int|
                    0 <= i < old(self).point_seq().len() ==> (#[trigger] old(
                        self).point_seq()[i]).power <= 1) ==> (forall|i: int|
                    0 <= i < final (self).point_seq().len() ==> (#[trigger] final (
                        self).point_seq()[i]).power <= 1)
            }),
    {
        let backlog_len = deque_len(&self.instruction_buffer);
        let n_to_process: usize = if self.instructions_per_frame > 0 {
            if self.instructions_per_frame < backlog_len {
                self.instructions_per_frame
            } else {
                backlog_len
            }
        } else {
            backlog_len
        };
        let ghost batch = old(self).backlog().take(n_to_process as int);
        let ghost target = spec_run(old(self).power_state(), Seq::<Point>::empty(), batch);

        let mut power = self.power;
        let mut points: Vec<Point> = Vec::new();
        let mut k: usize = 0;
        proof {
            assert(batch.skip(0) =~= batch);
        }
        while k < n_to_process
            invariant
                k <= n_to_process,
                n_to_process <= old(self).backlog().len(),
                batch == old(self).backlog().take(n_to_process as int),
                deque_contents(self.instruction_buffer) == old(self).backlog().skip(k as int),
                spec_run(power, points@, batch.skip(k as int)) == target,
                self.points == old(self).points,
                self.should_clear == old(self).should_clear,
                self.instructions_per_frame == old(self).instructions_per_frame,
            decreases n_to_process - k,
        {
            proof {
                assert(old(self).backlog().skip(k as int)[0] == batch.skip(k as int)[0]);
            }
            let popped = deque_pop_front(&mut self.instruction_buffer);
            let instruction = popped.unwrap();
            proof {
                assert(old(self).backlog().skip(k as int).drop_first() =~= old(self).backlog().skip(
                    k as int + 1,
                ));
                assert(batch.skip(k as int).drop_first() =~= batch.skip(k as int + 1));
            }
            match instruction.kind {
                InstructionKind::Clear => {
                    points = Vec::new();
                },
                InstructionKind::MoveTo => {
                    let x = (instruction.data / 0x10000) as u16;
                    let y = (instruction.data % 0x10000) as u16;
                    let p = Point { x, y, power: if power { 1 } else { 0 } };
                    points.push(p);
                },
                InstructionKind::PowerOn => {
                    power = true;
                },
                InstructionKind::PowerOff => {
                    power = false;
                },
            }
            k = k + 1;
        }
        proof {
            assert(batch.skip(n_to_process as int) =~= Seq::<Instruction>::empty());
            lemma_run_point_count(old(self).power_state(), Seq::<Point>::empty(), batch);
            if forall|i: int|
                0 <= i < old(self).point_seq().len() ==> (#[trigger] old(
                    self).point_seq()[i]).power <= 1 {
                lemma_run_powers(old(self).power_state(), Seq::<Point>::empty(), batch);
            }
        }
        if points.len() > 0 && self.points.len() > 0 {
            let last = self.points[self.points.len() - 1];
            points.insert(0, last);
            proof {
                assert(points@ =~= seq![old(self).point_seq().last()] + target.1);
            }
        }
        self.points = points;
        self.power = power;
    }

    /// Read accessor for the current frame's points.
    pub fn points(&self) -> (r: &Vec<Point>)
        ensures
            r@ == self.point_seq(),
    {
        &self.points
    }

    /// Report whether the renderer should wipe the previous image, and reset
    /// the flag.
    pub fn should_clear(&mut self) -> (r: bool)
        ensures
            r == old(self).clear_flag(),
            final (self).clear_flag() == false,
            final (self).backlog() == old(self).backlog(),
            final (self).point_seq() == old(self).point_seq(),
            final (self).power_state() == old(self).power_state(),
            final (self).budget() == old(self).budget(),
    {
        if self.should_clear {
            self.should_clear = false;
            true
        } else {
            false
        }
    }
}

/// Every point the state machine emits carries a 0-or-1 power flag,
/// provided the points it starts from do.
pub proof fn lemma_run_powers(power: bool, pts: Seq<Point>, batch: Seq<Instruction>)
    requires
        forall|i: int| 0 <= i < pts.len() ==> (#[trigger] pts[i]).power <= 1,
    ensures
        forall|i: int|
            0 <= i < spec_run(power, pts, batch).1.len() ==> (#[trigger] spec_run(
                power,
                pts,
                batch,
            ).1[i]).power <= 1,
    decreases batch.len(),
{
    if batch.len() > 0 {
        let stepped = spec_exec_one(power, pts, batch[0]);
        assert(forall|i: int|
            0 <= i < stepped.1.len() ==> (#[trigger] stepped.1[i]).power <= 1);
        lemma_run_powers(stepped.0, stepped.1, batch.drop_first());
        let result = spec_run(power, pts, batch);
        let rest = spec_run(stepped.0, stepped.1, batch.drop_first());
        assert forall|i: int| 0 <= i < result.1.len() implies (#[trigger] result.1[i]).power
            <= 1 by {
            assert(result.1[i] == rest.1[i]);
        }
    }
}

/// A batch of instructions yields at most one point each, on top of
/// whatever was accumulated before.
pub proof fn lemma_run_point_count(power: bool, pts: Seq<Point>, batch: Seq<Instruction>)
    ensures
        spec_run(power, pts, batch).1.len() <= pts.len() + batch.len(),
    decreases batch.len(),
{
    if batch.len() > 0 {
        let stepped = spec_exec_one(power, pts, batch[0]);
        lemma_run_point_count(stepped.0, stepped.1, batch.drop_first());
    }
}

/// A `MoveTo` executed while the power is off always yields a point with
/// `power` 0, and one executed while the power is on always yields `power`
/// 1, regardless of the points accumulated before.
pub proof fn lemma_move_to_uses_current_power(power: bool, pts: Seq<Point>, d: u32)
    ensures
        ({
            let stepped = spec_exec_one(
                power,
                pts,
                Instruction { kind: InstructionKind::MoveTo, data: d },
            );
            &&& stepped.0 == power
            &&& stepped.1.len() == pts.len() + 1
            &&& stepped.1.last().power == if power {
                1u32
            } else {
                0u32
            }
        }),
{
}

/// After a `PowerOn`, the next `MoveTo` yields a point with `power` 1,
/// whatever the power state and the accumulated points were before.
pub proof fn lemma_power_on_then_move_to(power: bool, pts: Seq<Point>, d: u32)
    ensures
        ({
            let batch = seq![
                Instruction { kind: InstructionKind::PowerOn, data: 0 },
                Instruction { kind: InstructionKind::MoveTo, data: d },
            ];
            let run = spec_run(power, pts, batch);
            &&& run.0 == true
            &&& run.1.len() == pts.len() + 1
            &&& run.1.last().power == 1u32
        }),
{
    let batch = seq![
        Instruction { kind: InstructionKind::PowerOn, data: 0 },
        Instruction { kind: InstructionKind::MoveTo, data: d },
    ];
    let rest = batch.drop_first();
    assert(rest =~= seq![Instruction { kind: InstructionKind::MoveTo, data: d }]);
    assert(rest.drop_first() =~= Seq::<Instruction>::empty());
    assert(spec_exec_one(power, pts, batch[0]) == (true, pts));
    assert(spec_run(power, pts, batch) == spec_run(true, pts, rest));
    let pushed = pts.push(point_of_data(d, true));
    assert(spec_exec_one(true, pts, rest[0]) == (true, pushed));
    assert(spec_run(true, pts, rest) == spec_run(true, pushed, rest.drop_first()));
    assert(spec_run(true, pushed, rest.drop_first()) == (true, pushed));
    assert(pushed.last() == point_of_data(d, true));
}

} // verus!
