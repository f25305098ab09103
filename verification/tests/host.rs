use parametric_lod::application::{GameRes, GpuApplication, ProfilerSettings};
use parametric_lod::buffer::{
    patch_queue_size, BufferUsages, EncodingError, TypedBuffer, PATCH_STRIDE, QUEUE_HEADER_SIZE,
};
use parametric_lod::context::{
    ResizeAction, SurfaceError, SurfaceOrFallback, SurfaceSize, SurfaceTexture, WgpuContext,
};
use parametric_lod::cursor::{
    requested_capture, update_cursor_capture, CursorAction, CursorCapture, WindowCursorCapture,
};
use parametric_lod::frame::{
    begin_frame, finish_frame, frame_commands, render_stage_draws, BinDraw, FrameCommand,
    FrameCounter, FrameStart, FrameTime, RenderResults,
};
use parametric_lod::mesh::{GridVertex, Mesh, QUAD_INDICES};
use parametric_lod::registry::{
    any_error, CompilationMessage, CompilationMessageType, CompileOutcome, CompileTicket, ShaderId,
    ShaderRegistry,
};
use parametric_lod::scene::{update_models, Bits3, Bits4, MaterialInfo, ModelInfo, Transform};

fn size(width: u32, height: u32) -> SurfaceSize {
    SurfaceSize { width, height }
}

fn model(id: u64, instance_count: u32) -> ModelInfo {
    ModelInfo {
        id,
        shader_id: ShaderId(id + 100),
        transform: Transform {
            position: Bits3 { x: 0, y: 0, z: 0 },
            rotation: Bits4 { x: 0, y: 0, z: 0, w: 1.0f32.to_bits() },
            scale: 1.0f32.to_bits(),
        },
        instance_count,
        material_info: MaterialInfo {
            color: Bits3 { x: 1.0f32.to_bits(), y: 0, z: 1.0f32.to_bits() },
            emissive: Bits3 { x: 0, y: 0, z: 0 },
            roughness: 0.7f32.to_bits(),
            metallic: 0.1f32.to_bits(),
        },
    }
}

fn message(kind: CompilationMessageType, text: &str) -> CompilationMessage {
    CompilationMessage { message: text.to_string(), message_type: kind }
}

#[test]
fn sizes_are_raised_to_one_texel_per_side() {
    assert_eq!(size(0, 0).at_least_one(), size(1, 1));
    assert_eq!(size(0, 7).at_least_one(), size(1, 7));
    assert_eq!(size(640, 0).at_least_one(), size(640, 1));
    assert_eq!(size(1, 1).at_least_one(), size(1, 1));
    assert_eq!(size(u32::MAX, 3).at_least_one(), size(u32::MAX, 3));
}

#[test]
fn context_of_an_empty_window_has_a_one_by_one_target() {
    let context = WgpuContext::new(size(0, 0), true);
    assert_eq!(context.size(), size(1, 1));
    assert_eq!(context.surface(), SurfaceOrFallback::Surface { config: size(1, 1) });
    let fallback = WgpuContext::new(size(1, 1), false);
    assert_eq!(fallback.surface(), SurfaceOrFallback::Fallback { texture: size(1, 1) });
    assert_eq!(fallback.surface().size(), size(1, 1));
}

#[test]
fn try_resize_reports_what_to_do_only_when_the_size_changes() {
    let mut context = WgpuContext::new(size(800, 600), true);
    assert_eq!(context.try_resize(size(800, 600)), None);
    assert_eq!(context.try_resize(size(1024, 768)), Some(ResizeAction::Configure(size(1024, 768))));
    assert_eq!(context.size(), size(1024, 768));
    assert_eq!(context.try_resize(size(0, 0)), Some(ResizeAction::Configure(size(1, 1))));
    assert_eq!(context.try_resize(size(0, 1)), None);
    let mut fallback = WgpuContext::new(size(4, 4), false);
    assert_eq!(
        fallback.try_resize(size(8, 2)),
        Some(ResizeAction::RecreateTexture(size(8, 2)))
    );
    assert_eq!(fallback.surface(), SurfaceOrFallback::Fallback { texture: size(8, 2) });
}

#[test]
fn resize_ignores_empty_and_unchanged_sizes() {
    let mut context = WgpuContext::new(size(800, 600), true);
    assert_eq!(context.resize(size(0, 600)), None);
    assert_eq!(context.resize(size(800, 0)), None);
    assert_eq!(context.resize(size(800, 600)), None);
    assert_eq!(context.size(), size(800, 600));
    assert_eq!(context.resize(size(400, 300)), Some(size(400, 300)));
    assert_eq!(context.size(), size(400, 300));
}

#[test]
fn swapchain_is_recreated_for_a_window_only() {
    assert_eq!(WgpuContext::new(size(3, 2), true).recreate_swapchain(), Some(size(3, 2)));
    assert_eq!(WgpuContext::new(size(3, 2), false).recreate_swapchain(), None);
}

#[test]
fn fallback_always_has_a_texture() {
    let window = WgpuContext::new(size(3, 2), true);
    assert_eq!(window.surface_texture(Ok(())), Ok(SurfaceTexture::Surface));
    assert_eq!(window.surface_texture(Err(SurfaceError::Timeout)), Err(SurfaceError::Timeout));
    let fallback = WgpuContext::new(size(3, 2), false);
    assert_eq!(fallback.surface_texture(Err(SurfaceError::Lost)), Ok(SurfaceTexture::Fallback));
    assert!(SurfaceTexture::Surface.present());
    assert!(!SurfaceTexture::Fallback.present());
}

#[test]
fn cursor_is_grabbed_and_released_with_its_position() {
    let free: WindowCursorCapture<(i32, i32)> = WindowCursorCapture::Free;
    let locked = WindowCursorCapture::LockedAndHidden((3, 4));
    let (state, action) = update_cursor_capture(true, free, locked);
    assert!(matches!(state, WindowCursorCapture::LockedAndHidden((3, 4))));
    assert!(matches!(action, CursorAction::Grab));
    let (state, action) = update_cursor_capture(true, state, WindowCursorCapture::LockedAndHidden((9, 9)));
    assert!(matches!(state, WindowCursorCapture::LockedAndHidden((9, 9))));
    assert!(matches!(action, CursorAction::Keep));
    let (state, action) = update_cursor_capture(true, state, WindowCursorCapture::Free);
    assert!(matches!(state, WindowCursorCapture::Free));
    assert!(matches!(action, CursorAction::Release((9, 9))));
    let (state, action) = update_cursor_capture(true, state, WindowCursorCapture::Free);
    assert!(matches!(state, WindowCursorCapture::Free));
    assert!(matches!(action, CursorAction::Keep));
}

#[test]
fn cursor_stays_as_it_is_without_a_window() {
    let locked = WindowCursorCapture::LockedAndHidden((1, 2));
    let (state, action) = update_cursor_capture(false, locked, WindowCursorCapture::Free);
    assert!(matches!(state, WindowCursorCapture::LockedAndHidden((1, 2))));
    assert!(matches!(action, CursorAction::Keep));
    let (state, action) =
        update_cursor_capture(false, WindowCursorCapture::Free, WindowCursorCapture::LockedAndHidden((5, 5)));
    assert!(matches!(state, WindowCursorCapture::Free));
    assert!(matches!(action, CursorAction::Keep));
}

#[test]
fn requested_capture_remembers_the_cursor_or_the_origin() {
    assert!(matches!(
        requested_capture(CursorCapture::Free, Some((1, 1)), (0, 0)),
        WindowCursorCapture::Free
    ));
    assert!(matches!(
        requested_capture(CursorCapture::LockedAndHidden, Some((1, 2)), (0, 0)),
        WindowCursorCapture::LockedAndHidden((1, 2))
    ));
    assert!(matches!(
        requested_capture(CursorCapture::LockedAndHidden, None, (0, 0)),
        WindowCursorCapture::LockedAndHidden((0, 0))
    ));
}

#[test]
fn update_models_replaces_appends_and_truncates() {
    let mut models = vec![model(1, 1), model(2, 1), model(3, 1)];
    let wanted = vec![model(1, 1), model(2, 5), model(4, 1)];
    let changes = update_models(&mut models, &wanted);
    assert_eq!(models, wanted);
    assert_eq!(changes.updated, vec![1, 2]);
    assert_eq!(changes.replaced, vec![2]);
    assert_eq!((changes.added, changes.removed), (0, 0));

    let longer = vec![model(1, 1), model(2, 5), model(4, 1), model(5, 2), model(6, 2)];
    let changes = update_models(&mut models, &longer);
    assert_eq!(models, longer);
    assert_eq!(changes.updated, Vec::<usize>::new());
    assert_eq!((changes.added, changes.removed), (2, 0));

    let shorter = vec![model(7, 1)];
    let changes = update_models(&mut models, &shorter);
    assert_eq!(models, shorter);
    assert_eq!(changes.updated, vec![0]);
    assert_eq!(changes.replaced, vec![0]);
    assert_eq!((changes.added, changes.removed), (0, 4));

    let changes = update_models(&mut models, &vec![]);
    assert!(models.is_empty());
    assert_eq!((changes.updated.len(), changes.added, changes.removed), (0, 0, 1));
}

#[test]
fn missing_material_is_magenta() {
    let missing = MaterialInfo::missing();
    assert_eq!(f32::from_bits(missing.color.x), 1.0);
    assert_eq!(f32::from_bits(missing.color.y), 0.0);
    assert_eq!(f32::from_bits(missing.color.z), 1.0);
    assert_eq!(missing.emissive, Bits3 { x: 0, y: 0, z: 0 });
    assert_eq!((f32::from_bits(missing.roughness), f32::from_bits(missing.metallic)), (1.0, 0.0));
}

#[test]
fn model_equality_is_structural() {
    let mut other = model(1, 1);
    assert_eq!(model(1, 1), other);
    other.material_info.roughness = 0.5f32.to_bits();
    assert_ne!(model(1, 1), other);
    let mut moved = model(1, 1);
    moved.transform.position.y = 2.0f32.to_bits();
    assert_ne!(model(1, 1), moved);
}

#[test]
fn compilation_fails_when_any_message_is_an_error() {
    assert!(!any_error(&vec![]));
    assert!(!any_error(&vec![
        message(CompilationMessageType::Warning, "unused variable"),
        message(CompilationMessageType::Info, "done"),
    ]));
    assert!(any_error(&vec![
        message(CompilationMessageType::Warning, "unused variable"),
        message(CompilationMessageType::Error, "expected ';'"),
        message(CompilationMessageType::Info, "done"),
    ]));
}

#[test]
fn shader_with_compile_error_falls_back() {
    let mut registry: ShaderRegistry<&str> = ShaderRegistry::new();
    let fallback = "magenta";
    let id = ShaderId(4);
    let errors = vec![message(CompilationMessageType::Error, "unknown identifier")];
    let ticket = registry.set_shader(id);
    assert_eq!(registry.finish_compile(ticket, "broken", &errors), CompileOutcome::Rejected);
    assert!(registry.is_missing(&id));
    assert_eq!(registry.lookup(&id), None);
    assert_eq!(*registry.resolve(&id, &fallback), "magenta");
}

#[test]
fn registry_publishes_clean_compiles_and_the_last_one_wins() {
    let mut registry: ShaderRegistry<&str> = ShaderRegistry::new();
    let fallback = "magenta";
    let id = ShaderId(4);
    let warnings = vec![message(CompilationMessageType::Warning, "unused")];
    let first = registry.set_shader(id);
    let second = registry.set_shader(id);
    assert_eq!(first, CompileTicket { shader_id: id, epoch: 0 });
    assert_eq!(*registry.resolve(&id, &fallback), "magenta");
    // The second compilation finishes first; the first one, finished last, wins.
    assert_eq!(registry.finish_compile(second, "second", &vec![]), CompileOutcome::Installed);
    assert_eq!(*registry.resolve(&id, &fallback), "second");
    assert_eq!(registry.finish_compile(first, "first", &warnings), CompileOutcome::Installed);
    assert_eq!(registry.lookup(&id), Some(&"first"));
    let errors = vec![message(CompilationMessageType::Error, "bad")];
    let third = registry.set_shader(id);
    assert_eq!(registry.finish_compile(third, "third", &errors), CompileOutcome::Rejected);
    assert_eq!(*registry.resolve(&id, &fallback), "first");
    assert_eq!(*registry.resolve(&ShaderId(5), &fallback), "magenta");
    registry.remove_shader(&id);
    assert!(registry.is_missing(&id));
    assert_eq!(*registry.resolve(&id, &fallback), "magenta");
    registry.remove_shader(&id);
    assert!(registry.is_missing(&id));
    assert_eq!(registry.epoch(), 2);
}

#[test]
fn shader_removed_while_compiling_is_discarded() {
    let mut registry: ShaderRegistry<&str> = ShaderRegistry::new();
    let id = ShaderId(1);
    let other = ShaderId(2);
    let early = registry.set_shader(id);
    let unrelated = registry.set_shader(other);
    registry.remove_shader(&id);
    let late = registry.set_shader(id);
    assert_eq!(late, CompileTicket { shader_id: id, epoch: 1 });
    assert_eq!(registry.finish_compile(early, "early", &vec![]), CompileOutcome::Discarded);
    assert!(registry.is_missing(&id));
    assert_eq!(registry.finish_compile(unrelated, "other", &vec![]), CompileOutcome::Installed);
    assert_eq!(registry.lookup(&other), Some(&"other"));
    assert_eq!(registry.finish_compile(late, "late", &vec![]), CompileOutcome::Installed);
    assert_eq!(registry.lookup(&id), Some(&"late"));
    // An error is reported even for a compilation that was cancelled.
    let errors = vec![message(CompilationMessageType::Error, "bad")];
    let doomed = registry.set_shader(id);
    registry.remove_shader(&id);
    assert_eq!(registry.finish_compile(doomed, "doomed", &errors), CompileOutcome::Rejected);
    assert!(registry.is_missing(&id));
}

#[test]
fn single_quad_has_two_triangles() {
    let quad = Mesh::new_quad();
    assert_eq!(quad.indices, QUAD_INDICES.to_vec());
    assert_eq!(quad.indices, vec![0, 1, 2, 2, 3, 0]);
    assert_eq!(quad.num_indices, 6);
    assert_eq!(
        quad.vertices,
        vec![
            GridVertex { column: 0, row: 0 },
            GridVertex { column: 1, row: 0 },
            GridVertex { column: 1, row: 1 },
            GridVertex { column: 0, row: 1 },
        ]
    );
}

#[test]
fn tesselated_quad_is_a_grid_of_cells() {
    let mesh = Mesh::new_tesselated_quad(1);
    assert_eq!(mesh.cells, 2);
    assert_eq!(mesh.vertices.len(), 9);
    assert_eq!(mesh.vertices[0], GridVertex { column: 0, row: 0 });
    assert_eq!(mesh.vertices[5], GridVertex { column: 2, row: 1 });
    assert_eq!(mesh.vertices[8], GridVertex { column: 2, row: 2 });
    assert_eq!(mesh.num_indices, 24);
    assert_eq!(
        mesh.indices,
        vec![0, 1, 4, 4, 3, 0, 1, 2, 5, 5, 4, 1, 3, 4, 7, 7, 6, 3, 4, 5, 8, 8, 7, 4]
    );
    let flat = Mesh::new_tesselated_quad(0);
    assert_eq!(flat.indices, vec![0, 1, 3, 3, 2, 0]);
    assert_eq!(flat.vertices.len(), 4);
}

#[test]
fn bin_meshes_have_one_quad_per_two_texels() {
    let counts: Vec<u32> =
        [0u32, 1, 3, 7, 15].iter().map(|s| Mesh::new_tesselated_quad(*s).num_indices).collect();
    assert_eq!(counts, vec![6, 24, 96, 384, 1536]);
    let largest = Mesh::new_tesselated_quad(254);
    assert_eq!(largest.vertices.len(), 65536);
    assert_eq!(*largest.indices.iter().max().unwrap(), 65535);
    assert_eq!(largest.num_indices, 6 * 255 * 255);
}

#[test]
fn index_bytes_hold_two_bytes_per_index() {
    let mesh = Mesh::new_tesselated_quad(15);
    let bytes = mesh.index_bytes();
    assert_eq!(bytes.len(), 2 * mesh.indices.len());
    for (i, index) in mesh.indices.iter().enumerate() {
        assert_eq!(u16::from_ne_bytes([bytes[2 * i], bytes[2 * i + 1]]), *index);
    }
    assert!(mesh.indices.iter().any(|i| *i > 255));
}

#[test]
fn buffers_are_sized_by_head_and_array() {
    let none = BufferUsages::none();
    let copy_src = BufferUsages { copy_src: true, ..none };
    let uniform = TypedBuffer::new_uniform(80, none);
    assert_eq!(uniform.size, 80);
    assert_eq!(uniform.usage, BufferUsages { uniform: true, copy_dst: true, ..none });
    let storage = TypedBuffer::new_storage(12, BufferUsages { indirect: true, copy_dst: true, ..none });
    assert_eq!(
        storage.usage,
        BufferUsages { storage: true, indirect: true, copy_dst: true, ..none }
    );
    let queue = TypedBuffer::new_storage_with_runtime_array(
        QUEUE_HEADER_SIZE,
        PATCH_STRIDE,
        100_000,
        copy_src.union(BufferUsages { copy_dst: true, ..none }),
    );
    assert_eq!(queue.size, 1_200_008);
    assert_eq!(patch_queue_size(100_000), 1_200_008);
    assert_eq!(patch_queue_size(1), 20);
    assert_eq!(patch_queue_size(0), 8);
    assert_eq!(
        queue.usage,
        BufferUsages { storage: true, copy_src: true, copy_dst: true, ..none }
    );
}

#[test]
fn write_fails_when_the_value_is_larger_than_the_buffer() {
    let buffer = TypedBuffer::new_storage(20, BufferUsages::none());
    assert_eq!(buffer.write(0), Ok(()));
    assert_eq!(buffer.write(20), Ok(()));
    assert_eq!(buffer.write(21), Err(EncodingError { needed: 21, available: 20 }));
}

#[test]
fn copy_moves_as_many_bytes_as_both_buffers_hold() {
    let reset = TypedBuffer::new_storage(patch_queue_size(1), BufferUsages::none());
    let queue = TypedBuffer::new_storage(patch_queue_size(100_000), BufferUsages::none());
    assert_eq!(queue.copy_all_from(&reset), 20);
    assert_eq!(reset.copy_all_from(&queue), 20);
    assert_eq!(queue.copy_all_from(&queue), 1_200_008);
}

#[test]
fn lost_surface_skips_the_frame_and_the_next_one_is_drawn() {
    let mut app: GpuApplication<(i32, i32), u8> = GpuApplication::new(WgpuContext::new(size(640, 480), true));
    let game = GameRes {
        cursor_capture: WindowCursorCapture::Free,
        profiler_settings: ProfilerSettings::default(),
        models: vec![model(1, 1)],
        lod_stage_overridden: false,
    };
    let first = app.render(&game, Ok(()), 1_000);
    assert_eq!(first.start, FrameStart::Draw(SurfaceTexture::Surface));
    let lost = app.render(&game, Err(SurfaceError::Lost), 17_000);
    assert_eq!(lost.start, FrameStart::Skip);
    assert!(lost.recreate_swapchain);
    assert!(lost.commands.is_empty());
    let results: Result<RenderResults<u8>, SurfaceError> = finish_frame(lost.start, lost.time, Some(1));
    let results = results.unwrap();
    assert_eq!(results.delta_time, 0);
    assert_eq!(results.profiler_results, None);
    let next = app.render(&game, Ok(()), 33_000);
    assert_eq!(next.start, FrameStart::Draw(SurfaceTexture::Surface));
    assert!(!next.recreate_swapchain);
    assert_eq!(next.time, FrameTime { frame: 2, delta: 16_000 });
    assert!(next.commands.contains(&FrameCommand::RenderStage(0)));
    let drawn = finish_frame(next.start, next.time, Some(9u8)).unwrap();
    assert_eq!((drawn.delta_time, drawn.profiler_results), (16_000, Some(9)));
}

#[test]
fn surface_errors_are_recovered_or_handed_on() {
    assert_eq!(begin_frame(Ok(SurfaceTexture::Fallback)), FrameStart::Draw(SurfaceTexture::Fallback));
    assert_eq!(begin_frame(Err(SurfaceError::Lost)), FrameStart::Skip);
    assert_eq!(begin_frame(Err(SurfaceError::Outdated)), FrameStart::Skip);
    assert_eq!(begin_frame(Err(SurfaceError::Timeout)), FrameStart::Fail(SurfaceError::Timeout));
    assert_eq!(
        begin_frame(Err(SurfaceError::OutOfMemory)),
        FrameStart::Fail(SurfaceError::OutOfMemory)
    );
    assert_eq!(begin_frame(Err(SurfaceError::Other)), FrameStart::Fail(SurfaceError::Other));
    let failed: Result<RenderResults<u8>, SurfaceError> = finish_frame(
        FrameStart::Fail(SurfaceError::Timeout),
        FrameTime { frame: 0, delta: 5 },
        None,
    );
    assert_eq!(failed.err(), Some(SurfaceError::Timeout));
    let skipped: RenderResults<u8> = RenderResults::skip();
    assert_eq!((skipped.delta_time, skipped.profiler_results), (0, None));
}

#[test]
fn frame_records_every_lod_stage_before_the_render_pass() {
    assert_eq!(
        frame_commands(FrameStart::Draw(SurfaceTexture::Surface), 2, false),
        vec![
            FrameCommand::UpdateScene,
            FrameCommand::LodStage(0),
            FrameCommand::LodStage(1),
            FrameCommand::BeginRenderPass,
            FrameCommand::RenderStage(0),
            FrameCommand::RenderStage(1),
            FrameCommand::GroundPlane,
            FrameCommand::EndRenderPass,
            FrameCommand::ResolveQueries,
            FrameCommand::Submit,
            FrameCommand::Present,
        ]
    );
    assert_eq!(
        frame_commands(FrameStart::Draw(SurfaceTexture::Fallback), 0, true),
        vec![
            FrameCommand::UpdateScene,
            FrameCommand::BeginRenderPass,
            FrameCommand::GroundPlane,
            FrameCommand::EndRenderPass,
            FrameCommand::ResolveQueries,
            FrameCommand::Submit,
            FrameCommand::Wait,
        ]
    );
    assert_eq!(frame_commands(FrameStart::Skip, 3, true), vec![]);
    assert_eq!(frame_commands(FrameStart::Fail(SurfaceError::Timeout), 3, false), vec![]);
}

#[test]
fn render_stage_draws_every_bin_in_order() {
    let expected: Vec<BinDraw> =
        (0..5).map(|b| BinDraw { bin: b, indirect_offset: 20 * b as u64 }).collect();
    assert_eq!(render_stage_draws(), expected);
}

#[test]
fn frame_counter_measures_the_time_between_frames() {
    let mut counter = FrameCounter::new();
    assert_eq!(counter.new_frame(500), FrameTime { frame: 0, delta: 0 });
    assert_eq!(counter.new_frame(1_500), FrameTime { frame: 1, delta: 1_000 });
    assert_eq!(counter.new_frame(1_000), FrameTime { frame: 2, delta: 0 });
    assert_eq!(counter, FrameCounter { frame: 3, last: Some(1_000) });
    let mut late = FrameCounter { frame: u64::MAX, last: Some(0) };
    assert_eq!(late.new_frame(7), FrameTime { frame: u64::MAX, delta: 7 });
    assert_eq!(late.frame, u64::MAX);
}

#[test]
fn application_follows_the_scene() {
    let mut app: GpuApplication<(i32, i32), &str> =
        GpuApplication::new(WgpuContext::new(size(640, 480), true));
    assert_eq!(app.size(), size(640, 480));
    assert_eq!(app.threshold_factor.get(), 10_000);
    assert!(!ProfilerSettings::default().gpu);
    let game = GameRes {
        cursor_capture: WindowCursorCapture::LockedAndHidden((10, 20)),
        profiler_settings: ProfilerSettings { gpu: true },
        models: vec![model(1, 1), model(2, 3)],
        lod_stage_overridden: false,
    };
    let plan = app.render(&game, Ok(()), 0);
    assert!(matches!(plan.cursor, CursorAction::Grab));
    assert_eq!(plan.passes, parametric_lod::schedule::pass_schedule());
    assert_eq!(plan.timer_queries, Some(true));
    assert_eq!((plan.models.updated.len(), plan.models.added, plan.models.removed), (0, 2, 0));
    assert_eq!(app.models, game.models);
    assert!(app.profiling_enabled);
    let again = app.render(&game, Ok(()), 10);
    assert!(matches!(again.cursor, CursorAction::Keep));
    assert_eq!(again.timer_queries, None);
    assert_eq!((again.models.updated.len(), again.models.added, again.models.removed), (0, 0, 0));

    app.force_wait();
    let waited = app.render(&game, Err(SurfaceError::Timeout), 20);
    assert_eq!(waited.start, FrameStart::Fail(SurfaceError::Timeout));
    assert!(!waited.recreate_swapchain);
    let drawn = app.render(&game, Ok(()), 30);
    assert_eq!(drawn.commands.last(), Some(&FrameCommand::Wait));

    app.set_threshold_factor(0);
    assert_eq!(app.threshold_factor.get(), 1);
    app.set_threshold_factor(20_000);
    assert_eq!(app.threshold_factor.get(), 20_000);
    app.set_threshold_factor(u64::MAX);
    assert_eq!(app.threshold_factor.get(), 1_000_000_000);

    assert_eq!(app.resize(size(0, 0)), Some(ResizeAction::Configure(size(1, 1))));
    assert_eq!(app.resize(size(1, 1)), None);
    assert_eq!(app.size(), size(1, 1));

    let errors = vec![message(CompilationMessageType::Error, "bad")];
    let ticket = app.set_shader(ShaderId(101));
    assert_eq!(app.shader_compiled(ticket, "broken", &errors), CompileOutcome::Rejected);
    assert_eq!(*app.shaders.resolve(&ShaderId(101), &"magenta"), "magenta");
    let ticket = app.set_shader(ShaderId(101));
    assert_eq!(app.shader_compiled(ticket, "compiled", &vec![]), CompileOutcome::Installed);
    assert_eq!(*app.shaders.resolve(&ShaderId(101), &"magenta"), "compiled");
    let pending = app.set_shader(ShaderId(101));
    app.remove_shader(&ShaderId(101));
    assert_eq!(*app.shaders.resolve(&ShaderId(101), &"magenta"), "magenta");
    assert_eq!(app.shader_compiled(pending, "late", &vec![]), CompileOutcome::Discarded);
    assert_eq!(*app.shaders.resolve(&ShaderId(101), &"magenta"), "magenta");
}

#[test]
fn application_without_a_window_draws_to_the_fallback() {
    let mut app: GpuApplication<(i32, i32), u8> = GpuApplication::new(WgpuContext::new(size(0, 0), false));
    let game = GameRes {
        cursor_capture: WindowCursorCapture::LockedAndHidden((1, 1)),
        profiler_settings: ProfilerSettings::default(),
        models: vec![],
        lod_stage_overridden: true,
    };
    let plan = app.render(&game, Err(SurfaceError::Lost), 0);
    assert!(matches!(plan.cursor, CursorAction::Keep));
    assert!(matches!(app.cursor_capture, WindowCursorCapture::Free));
    assert_eq!(plan.start, FrameStart::Draw(SurfaceTexture::Fallback));
    assert!(!plan.commands.contains(&FrameCommand::Present));
    assert!(plan.passes.is_empty());
    let (state, action) = app.update_cursor_capture(WindowCursorCapture::LockedAndHidden((2, 2)));
    assert!(matches!(state, WindowCursorCapture::Free));
    assert!(matches!(action, CursorAction::Keep));
}
