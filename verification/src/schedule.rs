//! The iteration scheduler: which pass comes next, which of the two
//! photon-state generations it reads and writes, and which generation holds
//! the final radiance.
//!
//! The scheduler performs no device work.  It hands out one [`Action`] at a
//! time; the caller has the compute engine carry it out, waits for it to
//! complete, and asks for the next.  When the engine fails, the caller
//! reports it with [`Scheduler::fail`] and the run is over.

use vstd::prelude::*;
use crate::error::{RenderError, Stage};
use crate::layout::FrameLayout;

verus! {

/// Number of photon-state generations.
pub const GENERATIONS: usize = 2;

/// One unit of work for the compute engine.
#[derive(Clone, Copy, Debug, PartialEq, Eq, Structural)]
pub enum Action {
    /// Allocate both generations, each `rows` rows of `row_texels` texels.
    Allocate { row_texels: u32, rows: u32 },
    /// Fill generation `target` with the initial photon states.
    Reset { target: usize },
    /// Run simulation pass number `index`: read generation `source`, write
    /// generation `target`.
    Step { index: u32, source: usize, target: usize },
    /// Read the radiance of generation `source` back: `bytes` bytes.
    Readback { source: usize, bytes: u32 },
}

/// What each generation holds: `Some(n)` for the photon states after the
/// reset and `n` simulation passes, `None` for memory that no pass of this
/// run has written.
pub type Ages = Seq<Option<nat>>;

/// The store right after allocation.
pub open spec fn unwritten() -> Ages {
    seq![None, None]
}

/// The effect of one action on the store.  A simulation pass writes, into
/// its target, the state one pass older than what it read.
pub open spec fn store_after_action(ages: Ages, action: Action) -> Ages {
    match action {
        Action::Allocate { .. } => unwritten(),
        Action::Reset { target } => ages.update(target as int, Some(0nat)),
        Action::Step { source, target, .. } => ages.update(
            target as int,
            match ages[source as int] {
                Some(n) => Some(n + 1),
                None => None,
            },
        ),
        Action::Readback { .. } => ages,
    }
}

/// Number of actions in a run of `iterations` simulation passes.
pub open spec fn action_count(iterations: nat) -> nat {
    iterations + 3
}

/// The `k`-th action of a run: allocation, reset, the simulation passes in
/// order, and the readback of the generation that the last pass wrote.
pub open spec fn spec_action(layout: FrameLayout, iterations: nat, k: nat) -> Action {
    if k == 0 {
        Action::Allocate { row_texels: layout.spec_stride() as u32, rows: layout.spec_height() as u32 }
    } else if k == 1 {
        Action::Reset { target: 0 }
    } else if k <= iterations + 1 {
        Action::Step {
            index: (k - 2) as u32,
            source: ((k - 2) % 2) as usize,
            target: ((k - 1) % 2) as usize,
        }
    } else {
        Action::Readback {
            source: (iterations % 2) as usize,
            bytes: layout.spec_buffer_bytes() as u32,
        }
    }
}

/// The store after the first `k` actions of a run.
pub open spec fn store_after(layout: FrameLayout, iterations: nat, k: nat) -> Ages
    decreases k,
{
    if k == 0 {
        unwritten()
    } else {
        store_after_action(
            store_after(layout, iterations, (k - 1) as nat),
            spec_action(layout, iterations, (k - 1) as nat),
        )
    }
}

/// Number of simulation passes among the first `k` actions of a run.
pub open spec fn steps_among(iterations: nat, k: nat) -> nat {
    if k <= 2 {
        0
    } else if k <= iterations + 2 {
        (k - 2) as nat
    } else {
        iterations
    }
}

/// Generation `generation` alone holds the photon states after `steps`
/// simulation passes; the other generation is one pass behind, or unwritten
/// when no pass has run.
pub open spec fn holds_newest(ages: Ages, generation: int, steps: nat) -> bool {
    &&& ages.len() == 2
    &&& 0 <= generation < 2
    &&& ages[generation] == Some(steps)
    &&& ages[1 - generation] == if steps == 0 {
        None::<nat>
    } else {
        Some((steps - 1) as nat)
    }
}

/// `action` may be carried out on a store in state `ages`: a simulation pass
/// reads the generation that holds the newest state and writes the other
/// one, and the readback takes the generation that holds the state after all
/// `iterations` passes.
pub open spec fn action_fits(ages: Ages, iterations: nat, action: Action) -> bool {
    match action {
        Action::Allocate { .. } => true,
        Action::Reset { target } => ages == unwritten() && target == 0,
        Action::Step { index, source, target } => {
            &&& index < iterations
            &&& source + target == 1
            &&& holds_newest(ages, source as int, index as nat)
        },
        Action::Readback { source, .. } => holds_newest(ages, source as int, iterations),
    }
}

/// After the reset and `steps` simulation passes, generation `steps mod 2`,
/// and no other, holds the newest photon states.
pub proof fn lemma_newest_generation(layout: FrameLayout, iterations: nat, k: nat)
    requires
        2 <= k <= action_count(iterations),
    ensures
        holds_newest(
            store_after(layout, iterations, k),
            (steps_among(iterations, k) % 2) as int,
            steps_among(iterations, k),
        ),
    decreases k,
{
    reveal_with_fuel(store_after, 3);
    if k == 2 {
        assert(store_after(layout, iterations, 2) =~= seq![Some(0nat), None]);
    } else {
        lemma_newest_generation(layout, iterations, (k - 1) as nat);
        let before = store_after(layout, iterations, (k - 1) as nat);
        let action = spec_action(layout, iterations, (k - 1) as nat);
        if k <= iterations + 2 {
            let index = (k - 3) as nat;
            assert(steps_among(iterations, (k - 1) as nat) == index);
            assert(action == Action::Step {
                index: index as u32,
                source: (index % 2) as usize,
                target: ((index + 1) % 2) as usize,
            });
            assert(store_after(layout, iterations, k) == store_after_action(before, action));
        } else {
            assert(store_after(layout, iterations, k) == before);
        }
    }
}

/// Every action of a run fits the store that the actions before it left.
pub proof fn lemma_schedule_fits(layout: FrameLayout, iterations: nat, k: nat)
    requires
        iterations <= u32::MAX,
        k < action_count(iterations),
    ensures
        action_fits(store_after(layout, iterations, k), iterations, spec_action(layout, iterations, k)),
{
    reveal_with_fuel(store_after, 3);
    if k >= 2 {
        lemma_newest_generation(layout, iterations, k);
    }
}

/// A run without simulation passes reads back generation 0 as the reset left
/// it.
pub proof fn lemma_no_iterations(layout: FrameLayout)
    ensures
        action_count(0) == 3,
        spec_action(layout, 0, 1) == (Action::Reset { target: 0 }),
        spec_action(layout, 0, 2) == (Action::Readback {
            source: 0,
            bytes: layout.spec_buffer_bytes() as u32,
        }),
        store_after(layout, 0, 2) == store_after(layout, 0, 3),
        holds_newest(store_after(layout, 0, 3), 0, 0),
{
    reveal_with_fuel(store_after, 4);
    lemma_newest_generation(layout, 0, 3);
}

/// The scheduler's state, as contracts see it.
pub struct SchedulerView {
    /// Geometry of the frame.
    pub layout: FrameLayout,
    /// Number of simulation passes of the run.
    pub iterations: nat,
    /// Number of actions handed out so far.
    pub issued: nat,
    /// Whether the run was given up.
    pub aborted: bool,
}

impl SchedulerView {
    /// What the two generations hold once the actions handed out so far are
    /// complete.
    pub open spec fn ages(self) -> Ages {
        store_after(self.layout, self.iterations, self.issued)
    }

    /// The stage that the action handed out last belongs to.
    pub open spec fn stage(self) -> Stage {
        if self.issued <= 1 {
            Stage::Init
        } else if self.issued == 2 {
            Stage::Reset
        } else if self.issued <= self.iterations + 2 {
            Stage::Step
        } else {
            Stage::Finalize
        }
    }
}

/// Hands out the actions of one render, in order.
pub struct Scheduler {
    layout: FrameLayout,
    iterations: u32,
    issued: u64,
    aborted: bool,
}

impl View for Scheduler {
    type V = SchedulerView;

    closed spec fn view(&self) -> SchedulerView {
        SchedulerView {
            layout: self.layout,
            iterations: self.iterations as nat,
            issued: self.issued as nat,
            aborted: self.aborted,
        }
    }
}

impl Scheduler {
    /// The scheduler's invariant.
    pub open spec fn wf(&self) -> bool {
        &&& self@.layout.wf()
        &&& self@.iterations <= u32::MAX
        &&& self@.issued <= action_count(self@.iterations)
    }

    /// A scheduler for `iterations` simulation passes over frames of the
    /// given geometry.  Nothing has been handed out yet.
    pub fn new(layout: FrameLayout, iterations: u32) -> (scheduler: Scheduler)
        requires
            layout.wf(),
        ensures
            scheduler.wf(),
            scheduler@ == (SchedulerView {
                layout,
                iterations: iterations as nat,
                issued: 0,
                aborted: false,
            }),
    {
        Scheduler { layout, iterations, issued: 0, aborted: false }
    }

    /// Hands out the next action, or `None` when the run was given up or
    /// every action has been handed out.
    pub fn next_action(&mut self) -> (action: Option<Action>)
        requires
            old(self).wf(),
        ensures
            final(self).wf(),
            action.is_some() <==> (!old(self)@.aborted && old(self)@.issued < action_count(
                old(self)@.iterations,
            )),
            match action {
                Some(a) => {
                    &&& a == spec_action(
                        old(self)@.layout,
                        old(self)@.iterations,
                        old(self)@.issued,
                    )
                    &&& action_fits(old(self)@.ages(), old(self)@.iterations, a)
                    &&& final(self)@ == (SchedulerView {
                        issued: old(self)@.issued + 1,
                        ..old(self)@
                    })
                },
                None => final(self)@ == old(self)@,
            },
    {
        if self.aborted || self.issued >= self.iterations as u64 + 3 {
            return None;
        }
        proof {
            lemma_schedule_fits(self@.layout, self@.iterations, self@.issued);
        }
        let k: u64 = self.issued;
        self.issued = k + 1;
        if k == 0 {
            Some(Action::Allocate { row_texels: self.layout.stride(), rows: self.layout.height() })
        } else if k == 1 {
            Some(Action::Reset { target: 0 })
        } else if k <= self.iterations as u64 + 1 {
            Some(
                Action::Step {
                    index: (k - 2) as u32,
                    source: ((k - 2) % 2) as usize,
                    target: ((k - 1) % 2) as usize,
                },
            )
        } else {
            Some(
                Action::Readback {
                    source: (self.iterations % 2) as usize,
                    bytes: self.layout.buffer_bytes(),
                },
            )
        }
    }

    /// Number of simulation passes handed out so far.
    pub fn steps_issued(&self) -> (steps: u32)
        requires
            self.wf(),
        ensures
            steps == steps_among(self@.iterations, self@.issued),
    {
        if self.issued <= 2 {
            0
        } else if self.issued <= self.iterations as u64 + 2 {
            (self.issued - 2) as u32
        } else {
            self.iterations
        }
    }

    /// The generation that holds the newest photon states once the actions
    /// handed out so far are complete: `None` before the reset, afterwards
    /// the number of simulation passes modulo 2.
    pub fn newest_generation(&self) -> (generation: Option<usize>)
        requires
            self.wf(),
        ensures
            generation.is_some() <==> self@.issued >= 2,
            match generation {
                Some(g) => {
                    &&& g == steps_among(self@.iterations, self@.issued) % 2
                    &&& holds_newest(
                        self@.ages(),
                        g as int,
                        steps_among(self@.iterations, self@.issued),
                    )
                },
                None => forall|g: int| 0 <= g < 2 ==> self@.ages()[g].is_none(),
            },
    {
        if self.issued < 2 {
            proof {
                reveal_with_fuel(store_after, 3);
            }
            None
        } else {
            proof {
                lemma_newest_generation(self@.layout, self@.iterations, self@.issued);
            }
            Some((self.steps_issued() % 2) as usize)
        }
    }

    /// Whether every action has been handed out and the run was not given
    /// up.
    pub fn is_complete(&self) -> (complete: bool)
        ensures
            complete <==> (!self@.aborted && self@.issued >= action_count(self@.iterations)),
    {
        !self.aborted && self.issued >= self.iterations as u64 + 3
    }

    /// Gives the run up after the engine failed at the action handed out
    /// last, and says at which stage that was.  No action is handed out
    /// afterwards.
    pub fn fail(&mut self) -> (error: RenderError)
        requires
            old(self).wf(),
        ensures
            final(self).wf(),
            final(self)@ == (SchedulerView { aborted: true, ..old(self)@ }),
            error == RenderError::Resource(old(self)@.stage()),
    {
        self.aborted = true;
        let stage = if self.issued <= 1 {
            Stage::Init
        } else if self.issued == 2 {
            Stage::Reset
        } else if self.issued <= self.iterations as u64 + 2 {
            Stage::Step
        } else {
            Stage::Finalize
        };
        RenderError::Resource(stage)
    }
}

} // verus!
