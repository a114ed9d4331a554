use particle_dance::{
    ChunkPlan, ChunkView, Dispatch, Region, ScheduleError, FULL_POINT_CHUNK_LEN,
    INVOCATIONS_PER_WORKGROUP, MAX_WORKGROUPS_PER_DISPATCH,
};

const POINT: usize = 8;

#[test]
fn chunk_is_64_times_65535() {
    assert_eq!(INVOCATIONS_PER_WORKGROUP, 64);
    assert_eq!(MAX_WORKGROUPS_PER_DISPATCH, 65535);
    assert_eq!(FULL_POINT_CHUNK_LEN, 4_194_240);
}

#[test]
fn five_million_points_take_two_dispatches() {
    let plan = ChunkPlan::new(5_000_000, POINT).unwrap();
    assert_eq!(plan.n_full_dispatches(), 1);
    assert_eq!(plan.n_rest_points(), 805_760);
    let d = plan.dispatches();
    assert_eq!(d.len(), 2);
    assert_eq!(
        d[0],
        Dispatch { view: ChunkView::Full, dynamic_offset: 0, n_points: 4_194_240, workgroups: 65535 }
    );
    assert_eq!(
        d[1],
        Dispatch { view: ChunkView::Rest, dynamic_offset: 0, n_points: 805_760, workgroups: 12_590 }
    );
    assert_eq!(plan.full_chunk_view(), Some(Region { offset: 0, size: 4_194_240 * 8 }));
    assert_eq!(
        plan.rest_chunk_view(),
        Some(Region { offset: 4_194_240 * 8, size: 805_760 * 8 })
    );
}

#[test]
fn two_million_points_take_one_dispatch() {
    let plan = ChunkPlan::new(2_000_000, POINT).unwrap();
    assert_eq!(plan.n_full_dispatches(), 0);
    assert_eq!(plan.n_rest_points(), 2_000_000);
    let d = plan.dispatches();
    assert_eq!(d.len(), 1);
    assert_eq!(
        d[0],
        Dispatch { view: ChunkView::Rest, dynamic_offset: 0, n_points: 2_000_000, workgroups: 31_250 }
    );
    assert_eq!(plan.full_chunk_view(), None);
    assert_eq!(plan.rest_chunk_view(), Some(Region { offset: 0, size: 16_000_000 }));
}

#[test]
fn no_points_no_dispatches() {
    let plan = ChunkPlan::new(0, POINT).unwrap();
    assert_eq!(plan.n_full_dispatches(), 0);
    assert_eq!(plan.n_rest_points(), 0);
    assert!(plan.dispatches().is_empty());
    assert_eq!(plan.full_chunk_view(), None);
    assert_eq!(plan.rest_chunk_view(), None);
}

#[test]
fn exact_multiple_has_no_rest() {
    let plan = ChunkPlan::new(2 * 4_194_240, 4).unwrap();
    let d = plan.dispatches();
    assert_eq!(d.len(), 2);
    assert_eq!(d[0].dynamic_offset, 0);
    assert_eq!(d[1].dynamic_offset, 4_194_240 * 4);
    assert!(d.iter().all(|x| x.view == ChunkView::Full));
    assert_eq!(plan.rest_chunk_view(), None);
}

#[test]
fn dispatch_ranges_tile_the_buffer() {
    let n: usize = 3 * 4_194_240 + 100;
    let plan = ChunkPlan::new(n, POINT).unwrap();
    let full = plan.full_chunk_view().unwrap();
    let rest = plan.rest_chunk_view().unwrap();
    let mut next: u64 = 0;
    for d in plan.dispatches() {
        let region = match d.view {
            ChunkView::Full => full,
            ChunkView::Rest => rest,
        };
        let start = region.offset + d.dynamic_offset as u64;
        assert_eq!(start, next);
        next = start + region.size;
    }
    assert_eq!(next, (n * POINT) as u64);
}

#[test]
fn too_many_bytes_is_refused() {
    let most = (u32::MAX as usize) / POINT;
    assert!(ChunkPlan::new(most, POINT).is_ok());
    assert_eq!(ChunkPlan::new(most + 1, POINT).unwrap_err(), ScheduleError::BufferTooLarge);
    assert_eq!(
        ChunkPlan::new(u32::MAX as usize + 1, 0).unwrap_err(),
        ScheduleError::BufferTooLarge
    );
    assert!(ChunkPlan::new(0, usize::MAX).is_ok());
}
