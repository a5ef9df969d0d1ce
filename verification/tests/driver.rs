use water_ripples::driver::{
    plan_frame, DriverState, PassCommand, PipelineStatus, ViewDescriptor,
};
use water_ripples::resources::Extent;
use water_ripples::schedule::{plan_rounds, JfaBuffer, JfaRound};

fn view(ripple_camera: bool, coast: Option<u32>) -> ViewDescriptor {
    ViewDescriptor {
        ripple_camera,
        size: Extent { width: 256, height: 256 },
        coast,
        has_target: true,
    }
}

fn ready() -> PipelineStatus {
    PipelineStatus { seed_ready: true, jfa_ready: true, composite_ready: true }
}

#[test]
fn full_frame_for_a_styled_ripple_camera() {
    let commands = plan_frame(&view(true, Some(100)), &ready());
    let mut expected = vec![PassCommand::Mask, PassCommand::Seed];
    expected.extend(plan_rounds(6).into_iter().map(PassCommand::Round));
    expected.push(PassCommand::Composite);
    assert_eq!(commands, expected);
    assert_eq!(commands.len(), 10);
    let exponents: Vec<u32> = commands
        .iter()
        .filter_map(|c| match c {
            PassCommand::Round(r) => Some(r.exponent),
            _ => None,
        })
        .collect();
    assert_eq!(exponents, vec![6, 5, 4, 3, 2, 1, 0]);
}

#[test]
fn a_view_without_the_marker_records_nothing() {
    assert_eq!(plan_frame(&view(false, Some(100)), &ready()), vec![]);
    assert_eq!(plan_frame(&view(false, None), &ready()), vec![]);
    assert_eq!(DriverState::start(&view(false, Some(100))), DriverState::NotApplicable);
    assert!(DriverState::NotApplicable.is_terminal());
    assert_eq!(
        DriverState::NotApplicable.step(&view(false, None), &ready()),
        (DriverState::NotApplicable, None)
    );
}

#[test]
fn a_view_without_a_style_leaves_its_target_untouched() {
    let commands = plan_frame(&view(true, None), &ready());
    assert_eq!(commands, vec![PassCommand::Mask, PassCommand::Seed]);
    assert!(!commands.contains(&PassCommand::Composite));
}

#[test]
fn rounds_are_skipped_whole_while_their_pipeline_compiles() {
    let pipelines = PipelineStatus { jfa_ready: false, ..ready() };
    assert_eq!(
        plan_frame(&view(true, Some(100)), &pipelines),
        vec![PassCommand::Mask, PassCommand::Seed, PassCommand::Composite]
    );
}

#[test]
fn seeding_and_composite_are_skipped_while_their_pipelines_compile() {
    let pipelines = PipelineStatus { seed_ready: false, jfa_ready: true, composite_ready: false };
    let commands = plan_frame(&view(true, Some(1)), &pipelines);
    assert_eq!(
        commands,
        vec![
            PassCommand::Mask,
            PassCommand::Round(JfaRound {
                iteration: 0,
                exponent: 0,
                source: JfaBuffer::Primary,
                target: JfaBuffer::Final,
            }),
        ]
    );
    let nothing = PipelineStatus { seed_ready: false, jfa_ready: false, composite_ready: false };
    assert_eq!(plan_frame(&view(true, Some(100)), &nothing), vec![PassCommand::Mask]);
}

#[test]
fn composite_needs_a_target() {
    let mut v = view(true, Some(3));
    v.has_target = false;
    let commands = plan_frame(&v, &ready());
    assert_eq!(commands.len(), 4);
    assert!(!commands.contains(&PassCommand::Composite));
}

#[test]
fn states_follow_one_another() {
    let v = view(true, Some(2));
    let p = ready();
    let mut state = DriverState::start(&v);
    assert_eq!(state, DriverState::Masking);
    let mut seen = vec![state];
    let mut commands = Vec::new();
    while !state.is_terminal() {
        let (next, command) = state.step(&v, &p);
        commands.extend(command);
        state = next;
        seen.push(state);
    }
    assert_eq!(
        seen,
        vec![
            DriverState::Masking,
            DriverState::Seeding,
            DriverState::Iterating(0),
            DriverState::Iterating(1),
            DriverState::Compositing,
            DriverState::Done,
        ]
    );
    assert_eq!(commands, plan_frame(&v, &p));
    assert_eq!(DriverState::Done.step(&v, &p), (DriverState::Done, None));
}

#[test]
fn a_round_index_past_the_schedule_moves_on() {
    let v = view(true, Some(2));
    assert_eq!(
        DriverState::Iterating(9).step(&v, &ready()),
        (DriverState::Compositing, None)
    );
}

#[test]
fn schedule_follows_the_smaller_of_view_and_reach() {
    let v = ViewDescriptor {
        ripple_camera: true,
        size: Extent { width: 64, height: 32 },
        coast: Some(5000),
        has_target: true,
    };
    assert_eq!(v.max_exp(), 6);
    assert_eq!(view(true, None).max_exp(), 0);
    let rounds = plan_frame(&v, &ready())
        .into_iter()
        .filter(|c| matches!(c, PassCommand::Round(_)))
        .count();
    assert_eq!(rounds, 7);
}
