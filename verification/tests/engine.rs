use voxelize::block::{BlockDescriptor, BlockRegistry, FaceDir};
use voxelize::chunk::{Chunk, ChunkOptions, ChunkStatus};
use voxelize::manager::{ChunkManager, EditError, RequestOutcome};
use voxelize::mesher::{mesh_chunk, ApplyRule, GeometryData, Mesher, MesherRegistry, MeshStrategy};
use voxelize::scheduler::SchedulerError;
use voxelize::stage::{process_stage, ChunkStage};
use voxelize::vec::Vec2;

fn small_options() -> ChunkOptions {
    ChunkOptions::new(16, 256, 4, 16)
}

fn stone_registry() -> BlockRegistry {
    // Air (id 0) never gets a descriptor.
    let mut blocks: Vec<BlockDescriptor> = Vec::new();
    blocks.push(BlockDescriptor::solid(1, String::from("stone")));
    blocks.push(BlockDescriptor::solid(2, String::from("dirt")));
    blocks.push(BlockDescriptor::solid(5, String::from("barrier")));
    BlockRegistry::with_blocks(blocks)
}

fn cube_meshers() -> MesherRegistry {
    let mut m = MesherRegistry::new();
    m.register(Mesher { rule: ApplyRule::AnySolid, strategy: MeshStrategy::CubeFaces });
    m
}

fn flat_world() -> ChunkManager {
    let options = small_options();
    let mut manager = ChunkManager::new(stone_registry(), cube_meshers(), &options);
    manager.start_job_processor(8).unwrap();
    manager.add_stage(ChunkStage::FlatLayer { y: 0, block_id: 1 });
    manager
}

fn geometry_eq(a: &GeometryData, b: &GeometryData) -> bool {
    a.block_id == b.block_id && a.dir == b.dir && a.corners == b.corners
        && a.indices == b.indices && a.uv == b.uv
}

#[test]
fn pipeline_is_deterministic() {
    let options = small_options();
    let stage = ChunkStage::FlatLayer { y: 0, block_id: 1 };
    let mut a = Chunk::new(Vec2(0, 0), options);
    let mut b = Chunk::new(Vec2(0, 0), options);
    assert!(process_stage(&stage, &mut a));
    assert!(process_stage(&stage, &mut b));
    for x in 0..16 {
        for y in 0..4 {
            for z in 0..16 {
                assert_eq!(a.get_block_id(x, y, z), b.get_block_id(x, y, z));
            }
        }
    }
}

#[test]
fn mesher_output_is_deterministic() {
    let options = small_options();
    let stage = ChunkStage::FlatLayer { y: 0, block_id: 1 };
    let mut chunk = Chunk::new(Vec2(0, 0), options);
    assert!(process_stage(&stage, &mut chunk));
    let registry = stone_registry();
    let meshers = cube_meshers();
    let first = mesh_chunk(&chunk, &meshers, &registry);
    let second = mesh_chunk(&chunk, &meshers, &registry);
    assert_eq!(first.len(), second.len());
    for i in 0..first.len() {
        assert!(geometry_eq(&first[i], &second[i]));
    }
}

#[test]
fn update_with_nothing_finished_changes_nothing() {
    let mut manager = flat_world();
    manager.update();
    assert_eq!(manager.take_done().len(), 0);
    assert_eq!(manager.pending_jobs(), 0);
    assert_eq!(manager.stale_discarded(), 0);
}

#[test]
fn duplicate_request_is_coalesced() {
    let mut manager = flat_world();
    assert_eq!(manager.request(Vec2(0, 0)), RequestOutcome::Submitted);
    assert_eq!(manager.request(Vec2(0, 0)), RequestOutcome::Pending);
    assert_eq!(manager.request(Vec2(0, 0)), RequestOutcome::Pending);
    assert_eq!(manager.pending_jobs(), 1);
}

#[test]
fn out_of_order_completion_merges_by_coordinate() {
    let mut manager = flat_world();
    let a = Vec2(0, 0);
    let b = Vec2(3, -2);
    assert_eq!(manager.request(a), RequestOutcome::Submitted);
    assert_eq!(manager.request(b), RequestOutcome::Submitted);
    assert_eq!(manager.pending_jobs(), 2);
    // Finish b's job first, then a's.
    manager.process_job_at(1);
    manager.process_job_at(0);
    manager.update();
    let chunk_a = manager.get_chunk(&a).unwrap();
    assert_eq!(chunk_a.coords, a);
    assert_eq!(chunk_a.min.0, 0);
    assert_eq!(chunk_a.min.2, 0);
    assert_eq!(chunk_a.status, ChunkStatus::Ready);
    assert_eq!(chunk_a.get_block_id(0, 0, 0), 1);
    let chunk_b = manager.get_chunk(&b).unwrap();
    assert_eq!(chunk_b.coords, b);
    assert_eq!(chunk_b.min.0, 48);
    assert_eq!(chunk_b.min.2, -32);
    assert_eq!(chunk_b.status, ChunkStatus::Ready);
    assert_eq!(chunk_b.get_block_id(48, 0, -32), 1);
    let done = manager.take_done();
    assert_eq!(done.len(), 2);
    assert_eq!(done[0].coords, b);
    assert_eq!(done[1].coords, a);
}

#[test]
fn eviction_during_flight_discards_the_result() {
    let mut manager = flat_world();
    let a = Vec2(0, 0);
    assert_eq!(manager.request(a), RequestOutcome::Submitted);
    assert!(manager.evict(&a));
    manager.process_all_jobs();
    manager.update();
    assert!(manager.get_chunk(&a).is_none());
    assert_eq!(manager.take_done().len(), 0);
    assert_eq!(manager.stale_discarded(), 1);
    // A later request starts from scratch.
    assert_eq!(manager.request(a), RequestOutcome::Submitted);
}

#[test]
fn set_block_edits_exactly_one_voxel_and_remeshes() {
    let mut manager = flat_world();
    let a = Vec2(0, 0);
    manager.request(a);
    manager.process_all_jobs();
    manager.update();
    manager.take_done();
    assert_eq!(manager.get_chunk(&a).unwrap().status, ChunkStatus::Ready);

    manager.set_block(&a, 5, 10, 7, 2).unwrap();
    // The chunk is checked out into a mesh-only job while re-meshing.
    assert!(manager.get_chunk(&a).is_none());
    assert_eq!(manager.pending_jobs(), 1);
    manager.process_all_jobs();
    manager.update();

    let chunk = manager.get_chunk(&a).unwrap();
    assert_eq!(chunk.status, ChunkStatus::Ready);
    for x in 0..16 {
        for y in 0..256 {
            for z in 0..16 {
                let expected = if (x, y, z) == (5, 10, 7) {
                    2
                } else if y == 0 {
                    1
                } else {
                    0
                };
                assert_eq!(chunk.get_block_id(x, y, z), expected);
            }
        }
    }
    let done = manager.take_done();
    assert_eq!(done.len(), 1);
    assert!(!done[0].failed);
    assert_eq!(done[0].status, ChunkStatus::Ready);
    assert!(!done[0].geometry.is_empty());
}

#[test]
fn set_block_fails_fast_without_touching_state() {
    let mut manager = flat_world();
    let a = Vec2(0, 0);
    assert_eq!(manager.set_block(&a, 0, 0, 0, 2), Err(EditError::NoChunk));
    manager.request(a);
    assert_eq!(manager.set_block(&a, 0, 0, 0, 2), Err(EditError::NotReady));
    manager.process_all_jobs();
    manager.update();
    // Out of this chunk's bounds: reject, never clamp.
    assert_eq!(manager.set_block(&a, 16, 0, 0, 2), Err(EditError::OutOfBounds));
    assert_eq!(manager.set_block(&a, 0, -1, 0, 2), Err(EditError::OutOfBounds));
    assert_eq!(manager.get_chunk(&a).unwrap().get_block_id(0, 0, 0), 1);
    assert_eq!(manager.pending_jobs(), 0);
}

#[test]
fn flat_layer_scenario_exposes_every_top_face() {
    let mut manager = flat_world();
    let a = Vec2(0, 0);
    assert_eq!(manager.request(a), RequestOutcome::Submitted);
    manager.process_all_jobs();
    manager.update();

    let chunk = manager.get_chunk(&a).unwrap();
    for x in 0..16 {
        for z in 0..16 {
            assert_eq!(chunk.get_block_id(x, 0, z), 1);
        }
    }

    let done = manager.take_done();
    assert_eq!(done.len(), 1);
    let mut top_faces = [[0usize; 16]; 16];
    for g in &done[0].geometry {
        assert_eq!(g.block_id, 1);
        if g.dir == FaceDir::PosY {
            // Corner 0 of a top face is (x, y + 1, z).
            let c = g.corners[0];
            top_faces[c.0 as usize][c.2 as usize] += 1;
            assert_eq!(c.1, 1);
        }
    }
    for x in 0..16 {
        for z in 0..16 {
            assert!(top_faces[x][z] >= 1);
        }
    }
}

#[test]
fn stacked_layers_hide_inner_faces() {
    let options = small_options();
    let mut manager = ChunkManager::new(stone_registry(), cube_meshers(), &options);
    manager.start_job_processor(8).unwrap();
    manager.add_stage(ChunkStage::FillRange { from_y: 0, to_y: 2, block_id: 1 });
    manager.request(Vec2(0, 0));
    manager.process_all_jobs();
    manager.update();
    let done = manager.take_done();
    let mut pos_y = 0usize;
    let mut neg_y = 0usize;
    for g in &done[0].geometry {
        if g.dir == FaceDir::PosY {
            pos_y += 1;
            // Only the upper layer's top faces are exposed.
            assert_eq!(g.corners[0].1, 2);
        }
        if g.dir == FaceDir::NegY {
            neg_y += 1;
        }
    }
    assert_eq!(pos_y, 256);
    assert_eq!(neg_y, 256);
}

#[test]
fn first_registered_mesher_wins() {
    let options = small_options();
    let mut meshers = MesherRegistry::new();
    meshers.register(Mesher { rule: ApplyRule::Exactly(5), strategy: MeshStrategy::NoGeometry });
    meshers.register(Mesher { rule: ApplyRule::AnySolid, strategy: MeshStrategy::CubeFaces });
    let mut manager = ChunkManager::new(stone_registry(), meshers, &options);
    manager.start_job_processor(8).unwrap();
    manager.add_stage(ChunkStage::FlatLayer { y: 0, block_id: 5 });
    manager.request(Vec2(0, 0));
    manager.process_all_jobs();
    manager.update();
    let done = manager.take_done();
    assert_eq!(done.len(), 1);
    assert!(done[0].geometry.is_empty());
}

#[test]
fn block_registry_first_id_wins() {
    let mut blocks: Vec<BlockDescriptor> = Vec::new();
    blocks.push(BlockDescriptor::solid(7, String::from("first")));
    blocks.push(BlockDescriptor::solid(7, String::from("second")));
    let registry = BlockRegistry::with_blocks(blocks);
    assert_eq!(registry.get_block_by_id(7).unwrap().name, "first");
    assert!(registry.get_block_by_id(9).is_none());
    // Unregistered ids (air among them) are transparent everywhere.
    assert!(registry.is_transparent(0, FaceDir::PosY));
    assert!(!registry.is_transparent(7, FaceDir::PosY));
}

#[test]
fn request_signals_saturation_distinctly() {
    let options = small_options();
    let mut manager =
        ChunkManager::with_limits(stone_registry(), cube_meshers(), &options, 1, 3);
    manager.start_job_processor(1).unwrap();
    assert_eq!(manager.request(Vec2(0, 0)), RequestOutcome::Submitted);
    assert_eq!(manager.request(Vec2(1, 0)), RequestOutcome::Saturated);
    assert_eq!(manager.pending_jobs(), 1);
    assert!(manager.get_chunk(&Vec2(1, 0)).is_none());
}

#[test]
fn generation_failure_retries_then_turns_terminal() {
    let options = small_options();
    let mut manager =
        ChunkManager::with_limits(stone_registry(), cube_meshers(), &options, 64, 2);
    manager.start_job_processor(1).unwrap();
    // A layer below the world: the stage's precondition fails.
    manager.add_stage(ChunkStage::FlatLayer { y: -1, block_id: 1 });
    let a = Vec2(0, 0);
    assert_eq!(manager.request(a), RequestOutcome::Submitted);

    // Two retries are re-dispatched without surfacing anything.
    for _ in 0..2 {
        manager.process_all_jobs();
        manager.update();
        assert_eq!(manager.take_done().len(), 0);
        assert_eq!(manager.pending_jobs(), 1);
        assert_eq!(manager.request(a), RequestOutcome::Pending);
    }

    // The third failure is terminal and surfaced explicitly.
    manager.process_all_jobs();
    manager.update();
    let done = manager.take_done();
    assert_eq!(done.len(), 1);
    assert!(done[0].failed);
    assert_eq!(done[0].status, ChunkStatus::GenerationFailed);
    assert_eq!(manager.get_chunk(&a).unwrap().status, ChunkStatus::GenerationFailed);
    assert_eq!(manager.request(a), RequestOutcome::Failed);
}

#[test]
fn job_processor_starts_once() {
    let options = small_options();
    let mut manager = ChunkManager::new(stone_registry(), cube_meshers(), &options);
    assert_eq!(manager.start_job_processor(8), Ok(()));
    assert_eq!(manager.start_job_processor(8), Err(SchedulerError::AlreadyStarted));
}

#[test]
fn ready_chunk_is_returned_immediately() {
    let mut manager = flat_world();
    let a = Vec2(0, 0);
    assert_eq!(manager.request(a), RequestOutcome::Submitted);
    manager.process_all_jobs();
    manager.update();
    assert_eq!(manager.request(a), RequestOutcome::Ready);
    // Still exactly one job ever submitted for the coordinate.
    assert_eq!(manager.pending_jobs(), 0);
}

#[test]
fn empty_pipeline_yields_air_and_no_geometry() {
    let options = small_options();
    let mut manager = ChunkManager::new(stone_registry(), cube_meshers(), &options);
    manager.start_job_processor(1).unwrap();
    let a = Vec2(0, 0);
    assert_eq!(manager.request(a), RequestOutcome::Submitted);
    manager.process_all_jobs();
    manager.update();
    let chunk = manager.get_chunk(&a).unwrap();
    assert_eq!(chunk.status, ChunkStatus::Ready);
    assert_eq!(chunk.get_block_id(3, 100, 7), 0);
    let done = manager.take_done();
    assert_eq!(done.len(), 1);
    assert!(done[0].geometry.is_empty());
}

#[test]
fn single_voxel_world_meshes_six_exact_faces() {
    let options = ChunkOptions::new(1, 1, 1, 0);
    let mut manager = ChunkManager::new(stone_registry(), cube_meshers(), &options);
    manager.start_job_processor(1).unwrap();
    manager.add_stage(ChunkStage::FlatLayer { y: 0, block_id: 1 });
    let a = Vec2(0, 0);
    assert_eq!(manager.request(a), RequestOutcome::Submitted);
    manager.process_all_jobs();
    manager.update();
    let done = manager.take_done();
    let geometry = &done[0].geometry;
    assert_eq!(geometry.len(), 6);
    // Fixed face order; the first fragment is the +x face of the
    // unit cube at the origin.
    let px = &geometry[0];
    assert_eq!(px.dir, FaceDir::PosX);
    assert_eq!(
        px.corners,
        vec![
            voxelize::vec::Vec3(1, 0, 0),
            voxelize::vec::Vec3(1, 1, 0),
            voxelize::vec::Vec3(1, 1, 1),
            voxelize::vec::Vec3(1, 0, 1),
        ]
    );
    assert_eq!(px.indices, vec![0, 1, 2, 0, 2, 3]);
    assert_eq!(px.uv, 0);
    assert_eq!(px.block_id, 1);
}

#[test]
fn set_block_signals_saturation_without_applying_the_edit() {
    let options = small_options();
    let mut manager =
        ChunkManager::with_limits(stone_registry(), cube_meshers(), &options, 1, 3);
    manager.start_job_processor(1).unwrap();
    manager.add_stage(ChunkStage::FlatLayer { y: 0, block_id: 1 });
    let a = Vec2(0, 0);
    assert_eq!(manager.request(a), RequestOutcome::Submitted);
    manager.process_all_jobs();
    manager.update();
    // Fill the one queue slot with another coordinate's job.
    assert_eq!(manager.request(Vec2(1, 0)), RequestOutcome::Submitted);
    assert_eq!(manager.set_block(&a, 0, 0, 0, 2), Err(EditError::Saturated));
    // The edit was not applied and the chunk stayed in the table.
    assert_eq!(manager.get_chunk(&a).unwrap().get_block_id(0, 0, 0), 1);
}

#[test]
fn out_of_range_stage_reports_failure_and_leaves_content() {
    let options = small_options();
    let stage = ChunkStage::FillRange { from_y: 10, to_y: 5, block_id: 1 };
    let mut chunk = Chunk::new(Vec2(0, 0), options);
    assert!(!process_stage(&stage, &mut chunk));
    assert_eq!(chunk.get_block_id(0, 7, 0), 0);
}
