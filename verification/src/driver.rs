//! The per-view driver: a state machine that walks one view through
//! masking, seeding, the jump-flood rounds and the composite, and says at
//! each state which pass, if any, the renderer has to record.
//!
//! A view that is no ripple camera is not applicable and records nothing.
//! A pass whose pipeline is not compiled yet is skipped for the frame, and
//! so are the rounds and the composite of a view without a style.

use vstd::prelude::*;

use crate::resources::Extent;
use crate::schedule::{
    max_exponent,
    max_exponent_spec,
    round_at,
    round_spec,
    JfaRound,
};

verus! {

/// What the driver knows of a view in one frame.
#[derive(Clone, Copy, Debug, PartialEq, Eq)]
pub struct ViewDescriptor {
    /// The view carries the marker of a ripple camera.
    pub ripple_camera: bool,
    /// The size of the render targets, in pixels.
    pub size: Extent,
    /// The reach of the ripples from a shore, in whole pixels rounded up, of
    /// the view's style; `None` where the view has no style.
    pub coast: Option<u32>,
    /// The view's target can be rendered to in this frame.
    pub has_target: bool,
}

/// Which of the fullscreen pipelines are compiled.
#[derive(Clone, Copy, Debug, PartialEq, Eq)]
pub struct PipelineStatus {
    pub seed_ready: bool,
    pub jfa_ready: bool,
    pub composite_ready: bool,
}

/// A pass for the renderer to record.
#[derive(Clone, Copy, Debug, PartialEq, Eq, Structural)]
pub enum PassCommand {
    /// Draw the maskable shapes into the mask and resolve it.
    Mask,
    /// Seed the primary jump-flood buffer from the mask.
    Seed,
    /// Run one jump-flood round.
    Round(JfaRound),
    /// Blend the ripples onto the view's target.
    Composite,
}

/// Where the driver stands with a view.
#[derive(Clone, Copy, Debug, PartialEq, Eq, Structural)]
pub enum DriverState {
    /// The view is no ripple camera: nothing runs for it.
    NotApplicable,
    Masking,
    Seeding,
    /// About to run the round with this index.
    Iterating(u32),
    Compositing,
    Done,
}

/// The rounds run: the view has a style and the round pipeline is compiled.
pub open spec fn rounds_active(view: ViewDescriptor, pipelines: PipelineStatus) -> bool {
    view.coast is Some && pipelines.jfa_ready
}

/// The composite runs: the view has a style and a target, and the composite
/// pipeline is compiled.
pub open spec fn composite_active(view: ViewDescriptor, pipelines: PipelineStatus) -> bool {
    view.coast is Some && view.has_target && pipelines.composite_ready
}

/// The widest exponent of the view's schedule; zero for a view without a
/// style.
pub open spec fn view_max_exp(view: ViewDescriptor) -> u32 {
    match view.coast {
        Some(coast) => max_exponent_spec(view.size.width, view.size.height, coast) as u32,
        None => 0,
    }
}

/// The state in which the driver begins with a view.
pub open spec fn start_spec(view: ViewDescriptor) -> DriverState {
    if view.ripple_camera {
        DriverState::Masking
    } else {
        DriverState::NotApplicable
    }
}

/// One transition: the next state, and the pass to record on the way.
pub open spec fn step_spec(
    state: DriverState,
    view: ViewDescriptor,
    pipelines: PipelineStatus,
) -> (DriverState, Option<PassCommand>) {
    match state {
        DriverState::NotApplicable => (DriverState::NotApplicable, None),
        DriverState::Masking => (DriverState::Seeding, Some(PassCommand::Mask)),
        DriverState::Seeding => (
            DriverState::Iterating(0),
            if pipelines.seed_ready {
                Some(PassCommand::Seed)
            } else {
                None
            },
        ),
        DriverState::Iterating(i) => {
            let m = view_max_exp(view);
            if !rounds_active(view, pipelines) || i > m {
                (DriverState::Compositing, None)
            } else {
                (
                    if i == m {
                        DriverState::Compositing
                    } else {
                        DriverState::Iterating((i + 1) as u32)
                    },
                    Some(PassCommand::Round(round_spec(m, i))),
                )
            }
        },
        DriverState::Compositing => (
            DriverState::Done,
            if composite_active(view, pipelines) {
                Some(PassCommand::Composite)
            } else {
                None
            },
        ),
        DriverState::Done => (DriverState::Done, None),
    }
}

/// The driver has nothing left to do.
pub open spec fn terminal(state: DriverState) -> bool {
    state == DriverState::NotApplicable || state == DriverState::Done
}

/// An upper bound on the transitions left before the driver is done.
pub open spec fn steps_left(state: DriverState) -> nat {
    match state {
        DriverState::NotApplicable => 0,
        DriverState::Masking => 36,
        DriverState::Seeding => 35,
        DriverState::Iterating(i) => if i < 32 {
            (34 - i) as nat
        } else {
            2
        },
        DriverState::Compositing => 1,
        DriverState::Done => 0,
    }
}

/// A command, if there is one, as a sequence.
pub open spec fn emitted(command: Option<PassCommand>) -> Seq<PassCommand> {
    match command {
        Some(c) => seq![c],
        None => Seq::empty(),
    }
}

/// The passes that the driver records from `state` until it is done. Every
/// transition from a state that is not terminal lowers `steps_left` (see
/// [`lemma_step_descends`]), which is what the guard in the body relies on.
pub open spec fn run_spec(
    state: DriverState,
    view: ViewDescriptor,
    pipelines: PipelineStatus,
) -> Seq<PassCommand>
    decreases steps_left(state),
{
    if terminal(state) {
        Seq::empty()
    } else {
        let (next, command) = step_spec(state, view, pipelines);
        if steps_left(next) < steps_left(state) {
            emitted(command) + run_spec(next, view, pipelines)
        } else {
            Seq::empty()
        }
    }
}

/// The rounds of a frame, widest jump first; none where the rounds do not run.
pub open spec fn rounds_part(view: ViewDescriptor, pipelines: PipelineStatus) -> Seq<PassCommand> {
    if rounds_active(view, pipelines) {
        Seq::new(
            view_max_exp(view) as nat + 1,
            |k: int| PassCommand::Round(round_spec(view_max_exp(view), k as u32)),
        )
    } else {
        Seq::empty()
    }
}

/// The passes of one frame for one view: the mask, the seeding, the rounds
/// and the composite, in that order, each only where it runs.
pub open spec fn frame_spec(view: ViewDescriptor, pipelines: PipelineStatus) -> Seq<PassCommand> {
    if !view.ripple_camera {
        Seq::empty()
    } else {
        seq![PassCommand::Mask] + emitted(
            if pipelines.seed_ready {
                Some(PassCommand::Seed)
            } else {
                None
            },
        ) + rounds_part(view, pipelines) + emitted(
            if composite_active(view, pipelines) {
                Some(PassCommand::Composite)
            } else {
                None
            },
        )
    }
}

/// The stage of the pipeline that a pass belongs to.
pub open spec fn stage(command: PassCommand) -> nat {
    match command {
        PassCommand::Mask => 0,
        PassCommand::Seed => 1,
        PassCommand::Round(_) => 2,
        PassCommand::Composite => 3,
    }
}

impl ViewDescriptor {
    /// The widest exponent of the view's schedule; zero for a view without a
    /// style.
    pub fn max_exp(&self) -> (m: u32)
        ensures
            m == view_max_exp(*self),
            m < 32,
    {
        match self.coast {
            Some(coast) => max_exponent(self.size.width, self.size.height, coast),
            None => 0,
        }
    }
}

impl DriverState {
    /// The state in which the driver begins with `view`.
    pub fn start(view: &ViewDescriptor) -> (s: DriverState)
        ensures
            s == start_spec(*view),
    {
        if view.ripple_camera {
            DriverState::Masking
        } else {
            DriverState::NotApplicable
        }
    }

    /// Whether the driver has nothing left to do.
    pub fn is_terminal(&self) -> (b: bool)
        ensures
            b == terminal(*self),
    {
        match self {
            DriverState::NotApplicable => true,
            DriverState::Done => true,
            _ => false,
        }
    }

    /// One transition: the next state, and the pass to record on the way.
    pub fn step(&self, view: &ViewDescriptor, pipelines: &PipelineStatus) -> (r: (
        DriverState,
        Option<PassCommand>,
    ))
        ensures
            r == step_spec(*self, *view, *pipelines),
            !terminal(*self) ==> steps_left(r.0) < steps_left(*self),
    {
        match *self {
            DriverState::NotApplicable => (DriverState::NotApplicable, None),
            DriverState::Masking => (DriverState::Seeding, Some(PassCommand::Mask)),
            DriverState::Seeding => {
                let command = if pipelines.seed_ready {
                    Some(PassCommand::Seed)
                } else {
                    None
                };
                (DriverState::Iterating(0), command)
            },
            DriverState::Iterating(i) => {
                let m = view.max_exp();
                let active = view.coast.is_some() && pipelines.jfa_ready;
                if !active || i > m {
                    (DriverState::Compositing, None)
                } else {
                    let next = if i == m {
                        DriverState::Compositing
                    } else {
                        DriverState::Iterating(i + 1)
                    };
                    (next, Some(PassCommand::Round(round_at(m, i))))
                }
            },
            DriverState::Compositing => {
                let command = if view.coast.is_some() && view.has_target
                    && pipelines.composite_ready {
                    Some(PassCommand::Composite)
                } else {
                    None
                };
                (DriverState::Done, command)
            },
            DriverState::Done => (DriverState::Done, None),
        }
    }
}

/// The passes of one frame for one view, in the order in which the renderer
/// has to record them.
pub fn plan_frame(view: &ViewDescriptor, pipelines: &PipelineStatus) -> (commands: Vec<
    PassCommand,
>)
    ensures
        commands@ == frame_spec(*view, *pipelines),
        commands@ == run_spec(start_spec(*view), *view, *pipelines),
{
    let mut commands: Vec<PassCommand> = Vec::new();
    let mut state = DriverState::start(view);
    while !state.is_terminal()
        invariant
            commands@ + run_spec(state, *view, *pipelines) == run_spec(
                start_spec(*view),
                *view,
                *pipelines,
            ),
        decreases steps_left(state),
    {
        let ghost before = commands@;
        let (next, command) = state.step(view, pipelines);
        match command {
            Some(c) => {
                commands.push(c);
            },
            None => {},
        }
        proof {
            assert(commands@ =~= before + emitted(command));
            assert(run_spec(state, *view, *pipelines) == emitted(command) + run_spec(
                next,
                *view,
                *pipelines,
            ));
            assert(commands@ + run_spec(next, *view, *pipelines) =~= before + run_spec(
                state,
                *view,
                *pipelines,
            ));
        }
        state = next;
    }
    proof {
        assert(run_spec(state, *view, *pipelines) =~= Seq::empty());
        assert(commands@ =~= commands@ + run_spec(state, *view, *pipelines));
        lemma_run_is_frame(*view, *pipelines);
    }
    commands
}

/// Every transition from a state that is not terminal brings the driver
/// nearer to its end.
pub proof fn lemma_step_descends(state: DriverState, view: ViewDescriptor, pipelines: PipelineStatus)
    requires
        !terminal(state),
        view_max_exp(view) < 32,
    ensures
        steps_left(step_spec(state, view, pipelines).0) < steps_left(state),
{
}

/// From the state before round `i`, the driver records the rounds `i` to the
/// last and then the composite.
pub proof fn lemma_run_rounds(view: ViewDescriptor, pipelines: PipelineStatus, i: u32)
    requires
        rounds_active(view, pipelines),
        i <= view_max_exp(view) < 32,
    ensures
        run_spec(DriverState::Iterating(i), view, pipelines) == Seq::new(
            (view_max_exp(view) - i + 1) as nat,
            |k: int| PassCommand::Round(round_spec(view_max_exp(view), (i + k) as u32)),
        ) + run_spec(DriverState::Compositing, view, pipelines),
    decreases view_max_exp(view) - i,
{
    let m = view_max_exp(view);
    let tail = run_spec(DriverState::Compositing, view, pipelines);
    let here = Seq::new(
        (m - i + 1) as nat,
        |k: int| PassCommand::Round(round_spec(m, (i + k) as u32)),
    );
    let first = seq![PassCommand::Round(round_spec(m, i))];
    if i == m {
        assert(run_spec(DriverState::Iterating(i), view, pipelines) == first + tail);
        assert(here =~= first);
    } else {
        lemma_run_rounds(view, pipelines, (i + 1) as u32);
        let rest = Seq::new(
            (m - i) as nat,
            |k: int| PassCommand::Round(round_spec(m, (i + 1 + k) as u32)),
        );
        assert(run_spec(DriverState::Iterating(i), view, pipelines) == first + run_spec(
            DriverState::Iterating((i + 1) as u32),
            view,
            pipelines,
        ));
        assert(here =~= first + rest);
        assert(first + (rest + tail) =~= (first + rest) + tail);
    }
}

/// Run from its start, the driver records exactly the passes of the frame.
pub proof fn lemma_run_is_frame(view: ViewDescriptor, pipelines: PipelineStatus)
    ensures
        run_spec(start_spec(view), view, pipelines) == frame_spec(view, pipelines),
{
    if view.ripple_camera {
        let m = view_max_exp(view);
        assert(m < 32) by {
            match view.coast {
                Some(coast) => {
                    crate::schedule::lemma_step_distance_32();
                    crate::schedule::lemma_floor_log2_below(
                        crate::schedule::max_distance_spec(
                            view.size.width,
                            view.size.height,
                            coast,
                        ),
                        32,
                    );
                },
                None => {},
            }
        }
        let composite = emitted(
            if composite_active(view, pipelines) {
                Some(PassCommand::Composite)
            } else {
                None
            },
        );
        let seed = emitted(
            if pipelines.seed_ready {
                Some(PassCommand::Seed)
            } else {
                None
            },
        );
        assert(run_spec(DriverState::Done, view, pipelines) =~= Seq::empty());
        assert(run_spec(DriverState::Compositing, view, pipelines) =~= composite);
        let rounds = run_spec(DriverState::Iterating(0), view, pipelines);
        if rounds_active(view, pipelines) {
            lemma_run_rounds(view, pipelines, 0);
            assert(Seq::new(
                (m - 0 + 1) as nat,
                |k: int| PassCommand::Round(round_spec(m, (0 + k) as u32)),
            ) =~= rounds_part(view, pipelines));
            assert(rounds == rounds_part(view, pipelines) + composite);
        } else {
            assert(rounds =~= rounds_part(view, pipelines) + composite);
        }
        assert(run_spec(DriverState::Seeding, view, pipelines) == seed + rounds);
        assert(run_spec(DriverState::Masking, view, pipelines) == seq![PassCommand::Mask] + (seed
            + rounds));
        assert(seq![PassCommand::Mask] + (seed + (rounds_part(view, pipelines) + composite))
            =~= frame_spec(view, pipelines));
    } else {
        assert(run_spec(DriverState::NotApplicable, view, pipelines) =~= Seq::empty());
    }
}

/// Where the rounds run, they are the schedule of the view: as many as the
/// schedule has, each in its place.
pub proof fn lemma_frame_rounds_are_schedule(view: ViewDescriptor, pipelines: PipelineStatus)
    requires
        rounds_active(view, pipelines),
    ensures
        rounds_part(view, pipelines).len() == crate::schedule::schedule_spec(
            view_max_exp(view),
        ).len(),
        forall|k: int|
            0 <= k < rounds_part(view, pipelines).len() ==> #[trigger] rounds_part(
                view,
                pipelines,
            )[k] == PassCommand::Round(crate::schedule::schedule_spec(view_max_exp(view))[k]),
{
}

/// A view that is no ripple camera records nothing.
pub proof fn lemma_not_applicable(view: ViewDescriptor, pipelines: PipelineStatus)
    requires
        !view.ripple_camera,
    ensures
        frame_spec(view, pipelines) == Seq::<PassCommand>::empty(),
{
}

/// A view without a style records neither a round nor the composite: its
/// target is left as it is.
pub proof fn lemma_no_style_no_composite(view: ViewDescriptor, pipelines: PipelineStatus)
    requires
        view.coast is None,
    ensures
        forall|i: int|
            0 <= i < frame_spec(view, pipelines).len() ==> stage(
                #[trigger] frame_spec(view, pipelines)[i],
            ) <= 1,
{
}

/// The passes of a frame come in the order of the pipeline: the mask, then
/// the seeding, then the rounds, then the composite; and the rounds among
/// them are the view's schedule, in its order.
pub proof fn lemma_frame_in_order(view: ViewDescriptor, pipelines: PipelineStatus)
    ensures
        forall|i: int, j: int|
            0 <= i < j < frame_spec(view, pipelines).len() ==> stage(
                #[trigger] frame_spec(view, pipelines)[i],
            ) <= stage(#[trigger] frame_spec(view, pipelines)[j]),
        forall|i: int, j: int|
            0 <= i < j < frame_spec(view, pipelines).len() && stage(
                #[trigger] frame_spec(view, pipelines)[i],
            ) == stage(#[trigger] frame_spec(view, pipelines)[j]) ==> stage(
                frame_spec(view, pipelines)[i],
            ) == 2,
{
    let f = frame_spec(view, pipelines);
    if view.ripple_camera {
        let seed = emitted(
            if pipelines.seed_ready {
                Some(PassCommand::Seed)
            } else {
                None
            },
        );
        let rounds = rounds_part(view, pipelines);
        let composite = emitted(
            if composite_active(view, pipelines) {
                Some(PassCommand::Composite)
            } else {
                None
            },
        );
        let a = 1 + seed.len();
        let b = a + rounds.len();
        assert forall|i: int| 0 <= i < f.len() implies stage(#[trigger] f[i]) == (if i == 0 {
            0nat
        } else if i < a {
            1nat
        } else if i < b {
            2nat
        } else {
            3nat
        }) by {
            if i == 0 {
            } else if i < a {
                assert(f[i] == seed[i - 1]);
            } else if i < b {
                assert(f[i] == rounds[i - a]);
            } else {
                assert(f[i] == composite[i - b]);
            }
        }
    }
}

} // verus!
