use ants::scheduler::{
    agent_groups, cover, decay_groups, stage_order, AbortReason, FrameAction, FrameEvent,
    FramePlan, FrameScheduler, Stage, SurfaceStatus, WorkGroups, AGENTS_PER_GROUP, TILE_SIZE,
};
use ants::trail::BufferId;

const READY: FrameEvent = FrameEvent::RedrawRequested(SurfaceStatus::Ready);

#[test]
fn cover_rounds_up() {
    assert_eq!(cover(0, 8), 0);
    assert_eq!(cover(1, 8), 1);
    assert_eq!(cover(7, 8), 1);
    assert_eq!(cover(8, 8), 1);
    assert_eq!(cover(9, 8), 2);
    assert_eq!(cover(64, 64), 1);
    assert_eq!(cover(65, 64), 2);
    assert_eq!(cover(u32::MAX, 64), 67_108_864);
    assert_eq!(cover(u32::MAX, 1), u32::MAX);
    assert_eq!(cover(5, u32::MAX), 1);
}

#[test]
fn cover_is_the_least_cover() {
    for count in 0u32..300 {
        for size in 1u32..20 {
            let groups = cover(count, size);
            assert!(groups * size >= count);
            if groups > 0 {
                assert!((groups - 1) * size < count);
            }
        }
    }
}

#[test]
fn group_sizes_are_fixed() {
    assert_eq!(TILE_SIZE, 8);
    assert_eq!(AGENTS_PER_GROUP, 64);
}

#[test]
fn dispatch_sizes_of_a_full_screen() {
    assert_eq!(decay_groups(1600, 1000), WorkGroups { x: 200, y: 125, z: 1 });
    assert_eq!(agent_groups(4096), WorkGroups { x: 64, y: 1, z: 1 });
}

#[test]
fn dispatch_sizes_round_up() {
    assert_eq!(decay_groups(1601, 1001), WorkGroups { x: 201, y: 126, z: 1 });
    assert_eq!(decay_groups(4, 4), WorkGroups { x: 1, y: 1, z: 1 });
    assert_eq!(decay_groups(0, 0), WorkGroups { x: 0, y: 0, z: 1 });
    assert_eq!(agent_groups(4097), WorkGroups { x: 65, y: 1, z: 1 });
    assert_eq!(agent_groups(1), WorkGroups { x: 1, y: 1, z: 1 });
    assert_eq!(agent_groups(0), WorkGroups { x: 0, y: 1, z: 1 });
}

#[test]
fn stages_run_in_fixed_order() {
    assert_eq!(
        stage_order(),
        [Stage::Decay, Stage::AgentUpdate, Stage::Render, Stage::Present]
    );
}

#[test]
fn first_plan_reads_a_and_writes_b() {
    let scheduler = FrameScheduler::new(1600, 1000, 4096);
    assert_eq!(scheduler.frame_index(), 0);
    assert_eq!(scheduler.source(), BufferId::A);
    assert_eq!(scheduler.destination(), BufferId::B);
    assert_eq!(
        scheduler.plan(),
        FramePlan {
            frame_index: 0,
            source: BufferId::A,
            destination: BufferId::B,
            decay_groups: WorkGroups { x: 200, y: 125, z: 1 },
            agent_groups: WorkGroups { x: 64, y: 1, z: 1 },
        }
    );
}

#[test]
fn plan_binds_buffers_per_stage() {
    let plan = FrameScheduler::new(8, 8, 1).plan();
    assert_eq!(plan.reads(Stage::Decay), Some(BufferId::A));
    assert_eq!(plan.writes(Stage::Decay), Some(BufferId::B));
    assert_eq!(plan.reads(Stage::AgentUpdate), Some(BufferId::B));
    assert_eq!(plan.writes(Stage::AgentUpdate), Some(BufferId::B));
    assert_eq!(plan.reads(Stage::Render), Some(BufferId::B));
    assert_eq!(plan.writes(Stage::Render), None);
    assert_eq!(plan.reads(Stage::Present), None);
    assert_eq!(plan.writes(Stage::Present), None);
}

#[test]
fn read_buffer_follows_frame_parity() {
    let mut scheduler = FrameScheduler::new(16, 16, 10);
    for n in 0u64..9 {
        assert_eq!(scheduler.frame_index(), n);
        let expected = if n % 2 == 0 { BufferId::A } else { BufferId::B };
        assert_eq!(scheduler.source(), expected);
        assert_ne!(scheduler.destination(), expected);
        match scheduler.on_event(READY) {
            FrameAction::Submit(plan) => {
                assert_eq!(plan.frame_index, n);
                assert_eq!(plan.source, expected);
                assert_ne!(plan.destination, plan.source);
                assert_ne!(plan.reads(Stage::Decay), plan.writes(Stage::Decay));
            }
            other => panic!("expected a submitted frame, got {:?}", other),
        }
    }
}

#[test]
fn only_a_submitted_frame_advances_the_counter() {
    let mut scheduler = FrameScheduler::new(16, 16, 10);
    assert_eq!(
        scheduler.on_event(FrameEvent::RedrawRequested(SurfaceStatus::Unavailable)),
        FrameAction::Reconfigure
    );
    assert_eq!(scheduler.frame_index(), 0);
    assert_eq!(
        scheduler.on_event(FrameEvent::RedrawRequested(SurfaceStatus::DeviceLost)),
        FrameAction::Abort(AbortReason::DeviceLost)
    );
    assert_eq!(scheduler.frame_index(), 0);
    assert_eq!(scheduler.on_event(FrameEvent::CloseRequested), FrameAction::Exit);
    assert_eq!(scheduler.on_event(FrameEvent::AboutToWait), FrameAction::RequestRedraw);
    assert_eq!(scheduler.on_event(FrameEvent::Other), FrameAction::Ignore);
    assert_eq!(scheduler.frame_index(), 0);
    assert_eq!(scheduler.source(), BufferId::A);
    assert!(matches!(scheduler.on_event(READY), FrameAction::Submit(_)));
    assert_eq!(scheduler.frame_index(), 1);
    assert_eq!(scheduler.source(), BufferId::B);
    assert_eq!(
        scheduler.on_event(FrameEvent::RedrawRequested(SurfaceStatus::Unavailable)),
        FrameAction::Reconfigure
    );
    assert_eq!(scheduler.frame_index(), 1);
    assert_eq!(scheduler.source(), BufferId::B);
}

#[test]
fn exhausted_counter_aborts() {
    let mut scheduler = FrameScheduler::starting_at(u64::MAX - 1, 8, 8, 1);
    assert_eq!(scheduler.source(), BufferId::A);
    match scheduler.on_event(READY) {
        FrameAction::Submit(plan) => assert_eq!(plan.frame_index, u64::MAX - 1),
        other => panic!("expected a submitted frame, got {:?}", other),
    }
    assert_eq!(scheduler.frame_index(), u64::MAX);
    assert_eq!(scheduler.source(), BufferId::B);
    assert_eq!(
        scheduler.on_event(READY),
        FrameAction::Abort(AbortReason::CounterExhausted)
    );
    assert_eq!(scheduler.frame_index(), u64::MAX);
}

#[test]
fn buffer_ids_flip() {
    assert_eq!(BufferId::A.other(), BufferId::B);
    assert_eq!(BufferId::B.other(), BufferId::A);
}
