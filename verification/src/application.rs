//! The host-side state of the renderer and the decisions of a frame.

use vstd::prelude::*;
use crate::context::{ResizeAction, SurfaceError, SurfaceSize, WgpuContext};
use crate::cursor::{CursorAction, WindowCursorCapture, update_cursor_capture};
use crate::frame::{
    FrameCommand, FrameCounter, FrameStart, FrameTime, begin_frame, frame_commands,
    spec_delta, spec_frame_commands,
};
use crate::kernel::{ThresholdFactor, spec_clamp};
use crate::limits::{EXTENT_UNIT, MAX_THRESHOLD, MIN_THRESHOLD, PASS_COUNT};
use crate::registry::{
    CompilationMessage, CompileOutcome, CompileTicket, ShaderId, ShaderRegistry,
};
use crate::scene::{
    ModelChanges, ModelInfo, differing_positions, replaced_positions, spec_min, update_models,
};
use crate::schedule::{PassPlan, lod_stage_passes, spec_pass_plan};

verus! {

/// Which profilers are switched on.
#[derive(Debug, Clone, Copy, PartialEq, Eq, Structural)]
pub struct ProfilerSettings {
    /// Whether GPU timer queries are recorded.
    pub gpu: bool,
}

/// What the scene hands to the renderer for a frame. `P` is the window
/// system's position type.
#[derive(Debug, Clone)]
pub struct GameRes<P> {
    pub cursor_capture: WindowCursorCapture<P>,
    pub profiler_settings: ProfilerSettings,
    pub models: Vec<ModelInfo>,
    /// Whether the caller runs the level-of-detail stage of this frame
    /// itself, in place of the scheduled passes.
    pub lod_stage_overridden: bool,
}

/// What the host has to carry out for a frame, in the order of the fields.
#[derive(Debug, Clone)]
pub struct FramePlan<P> {
    /// What to do to the window's cursor.
    pub cursor: CursorAction<P>,
    /// The new setting of the GPU timer queries, where it changes.
    pub timer_queries: Option<bool>,
    /// How the list of models changed.
    pub models: ModelChanges,
    /// Number and time of the frame.
    pub time: FrameTime,
    /// Whether the frame is drawn, skipped, or failed.
    pub start: FrameStart,
    /// Whether the swapchain has to be recreated before the next frame.
    pub recreate_swapchain: bool,
    /// The steps of the frame; none unless it is drawn.
    pub commands: Vec<FrameCommand>,
    /// The subdivision passes that every level-of-detail stage of the frame
    /// records: the whole schedule, or none where the stage is overridden.
    pub passes: Vec<PassPlan>,
}

/// The renderer's state on the host. `P` is the window system's position
/// type, `H` what the host keeps for a compiled pair of pipelines.
pub struct GpuApplication<P, H> {
    pub context: WgpuContext,
    pub shaders: ShaderRegistry<H>,
    pub profiling_enabled: bool,
    pub force_wait: bool,
    pub threshold_factor: ThresholdFactor,
    pub cursor_capture: WindowCursorCapture<P>,
    pub models: Vec<ModelInfo>,
    pub frame_counter: FrameCounter,
}

impl Default for ProfilerSettings {
    /// Profiling is off by default.
    fn default() -> (settings: ProfilerSettings)
        ensures
            !settings.gpu,
    {
        ProfilerSettings { gpu: false }
    }
}

impl<P: Copy, H> GpuApplication<P, H> {
    /// The state of a renderer on `context` before its first frame: no
    /// models, profiling off, a free cursor and a threshold factor of one.
    pub fn new(context: WgpuContext) -> (app: GpuApplication<P, H>)
        requires
            context.wf(),
        ensures
            app.context == context,
            app.shaders@.wf(),
            app.shaders@.shaders == Map::<u64, H>::empty(),
            app.shaders@.epoch == 0,
            !app.profiling_enabled,
            !app.force_wait,
            app.threshold_factor.value() == EXTENT_UNIT,
            app.cursor_capture is Free,
            app.models@.len() == 0,
            app.frame_counter == (FrameCounter { frame: 0, last: None }),
    {
        GpuApplication {
            context,
            shaders: ShaderRegistry::new(),
            profiling_enabled: false,
            force_wait: false,
            threshold_factor: ThresholdFactor::one(),
            cursor_capture: WindowCursorCapture::Free,
            models: Vec::new(),
            frame_counter: FrameCounter::new(),
        }
    }

    /// Starts a compilation of shader `shader_id` and hands out the ticket to
    /// finish it with. Until it is finished, models that name the shader keep
    /// what they had: the earlier pipelines or the fallback.
    pub fn set_shader(&self, shader_id: ShaderId) -> (ticket: CompileTicket)
        requires
            self.shaders@.wf(),
        ensures
            ticket == (CompileTicket { shader_id, epoch: self.shaders@.epoch }),
            !self.shaders@.cancelled(ticket),
    {
        self.shaders.set_shader(shader_id)
    }

    /// Takes the outcome of the compilation of `ticket`: the new pipelines
    /// replace the shader's entry unless a message reports an error or the
    /// shader was removed while it compiled.
    pub fn shader_compiled(
        &mut self,
        ticket: CompileTicket,
        pipelines: H,
        messages: &Vec<CompilationMessage>,
    ) -> (outcome: CompileOutcome)
        ensures
            outcome == old(self).shaders@.outcome(ticket, messages@),
            final(self).shaders@.shaders == if outcome is Installed {
                old(self).shaders@.shaders.insert(ticket.shader_id.0, pipelines)
            } else {
                old(self).shaders@.shaders
            },
            final(self).shaders@.removed_at == old(self).shaders@.removed_at,
            final(self).shaders@.epoch == old(self).shaders@.epoch,
            final(self).context == old(self).context,
            final(self).models == old(self).models,
            final(self).cursor_capture == old(self).cursor_capture,
            final(self).threshold_factor == old(self).threshold_factor,
            final(self).force_wait == old(self).force_wait,
            final(self).profiling_enabled == old(self).profiling_enabled,
            final(self).frame_counter == old(self).frame_counter,
    {
        self.shaders.finish_compile(ticket, pipelines, messages)
    }

    /// Removes the entry of `shader_id` and cancels its unfinished
    /// compilations; models that name it fall back.
    pub fn remove_shader(&mut self, shader_id: &ShaderId)
        requires
            old(self).shaders@.wf(),
            old(self).shaders@.epoch < u64::MAX,
        ensures
            final(self).shaders@.wf(),
            final(self).shaders@.shaders == old(self).shaders@.shaders.remove(shader_id.0),
            final(self).shaders@.removed_at == old(self).shaders@.removed_at.insert(
                shader_id.0,
                old(self).shaders@.epoch,
            ),
            final(self).shaders@.epoch == old(self).shaders@.epoch + 1,
            final(self).context == old(self).context,
            final(self).models == old(self).models,
            final(self).cursor_capture == old(self).cursor_capture,
            final(self).threshold_factor == old(self).threshold_factor,
            final(self).force_wait == old(self).force_wait,
            final(self).profiling_enabled == old(self).profiling_enabled,
            final(self).frame_counter == old(self).frame_counter,
    {
        self.shaders.remove_shader(shader_id);
    }

    /// The size of the render target.
    pub fn size(&self) -> (size: SurfaceSize)
        ensures
            size == self.context.spec_size(),
    {
        self.context.size()
    }

    /// Resizes the render target to `new_size`, raised to at least one texel
    /// per side. Returns what has to be done to the target when the size
    /// changes.
    pub fn resize(&mut self, new_size: SurfaceSize) -> (action: Option<ResizeAction>)
        requires
            old(self).context.wf(),
        ensures
            final(self).context.wf(),
            final(self).context.spec_size() == new_size.spec_at_least_one(),
            (action is None) == (new_size.spec_at_least_one() == old(self).context.spec_size()),
            action matches Some(a) ==> a == if old(self).context.spec_surface() is Surface {
                ResizeAction::Configure(new_size.spec_at_least_one())
            } else {
                ResizeAction::RecreateTexture(new_size.spec_at_least_one())
            },
            final(self).shaders == old(self).shaders,
            final(self).models == old(self).models,
            final(self).cursor_capture == old(self).cursor_capture,
            final(self).threshold_factor == old(self).threshold_factor,
            final(self).force_wait == old(self).force_wait,
            final(self).profiling_enabled == old(self).profiling_enabled,
            final(self).frame_counter == old(self).frame_counter,
    {
        self.context.try_resize(new_size)
    }

    /// Makes every following frame wait until the GPU has finished.
    pub fn force_wait(&mut self)
        ensures
            final(self).force_wait,
            final(self).shaders == old(self).shaders,
            final(self).context == old(self).context,
            final(self).models == old(self).models,
            final(self).cursor_capture == old(self).cursor_capture,
            final(self).threshold_factor == old(self).threshold_factor,
            final(self).profiling_enabled == old(self).profiling_enabled,
            final(self).frame_counter == old(self).frame_counter,
    {
        self.force_wait = true;
    }

    /// Sets the threshold factor of the level-of-detail stage to
    /// `ten_thousandths / EXTENT_UNIT`, clamped to its limits.
    pub fn set_threshold_factor(&mut self, ten_thousandths: u64)
        ensures
            final(self).threshold_factor.value() == spec_clamp(
                ten_thousandths as int,
                MIN_THRESHOLD as int,
                MAX_THRESHOLD as int,
            ),
            final(self).shaders == old(self).shaders,
            final(self).context == old(self).context,
            final(self).models == old(self).models,
            final(self).cursor_capture == old(self).cursor_capture,
            final(self).force_wait == old(self).force_wait,
            final(self).profiling_enabled == old(self).profiling_enabled,
            final(self).frame_counter == old(self).frame_counter,
    {
        self.threshold_factor = ThresholdFactor::new(ten_thousandths);
    }

    /// The next state of the cursor and what to do to the window, given the
    /// state asked for. Without a window the state stays as it is.
    pub fn update_cursor_capture(&self, cursor_capture: WindowCursorCapture<P>) -> (next: (
        WindowCursorCapture<P>,
        CursorAction<P>,
    ))
        ensures
            self.context.spec_surface() is Fallback ==> next.0 == self.cursor_capture && next.1 is Keep,
            self.context.spec_surface() is Surface ==> next.0 == cursor_capture,
            self.context.spec_surface() is Surface ==> match (self.cursor_capture, cursor_capture) {
                (
                    WindowCursorCapture::LockedAndHidden(position),
                    WindowCursorCapture::Free,
                ) => next.1 == CursorAction::Release(position),
                (WindowCursorCapture::Free, WindowCursorCapture::LockedAndHidden(_)) => next.1 is Grab,
                _ => next.1 is Keep,
            },
    {
        let has_window: bool = match self.context.surface() {
            crate::context::SurfaceOrFallback::Surface { config: _ } => true,
            crate::context::SurfaceOrFallback::Fallback { texture: _ } => false,
        };
        update_cursor_capture(has_window, self.cursor_capture, cursor_capture)
    }

    /// Plans a frame. `acquired` says what asking the window surface for a
    /// texture yielded, `now` is the time in microseconds.
    ///
    /// The cursor follows the scene's request, the timer queries are switched
    /// when the scene's setting differs from the renderer's, and the list of
    /// models is made equal to the scene's. A frame on a lost or outdated
    /// surface is skipped and the swapchain recreated; on any other error the
    /// frame fails; else it is drawn, with one level-of-detail stage and one
    /// render stage per model.
    pub fn render(&mut self, game: &GameRes<P>, acquired: Result<(), SurfaceError>, now: u64) -> (plan:
        FramePlan<P>)
        requires
            old(self).context.wf(),
        ensures
            final(self).context == old(self).context,
            final(self).shaders == old(self).shaders,
            final(self).force_wait == old(self).force_wait,
            final(self).threshold_factor == old(self).threshold_factor,
            final(self).profiling_enabled == game.profiler_settings.gpu,
            plan.timer_queries == if old(self).profiling_enabled != game.profiler_settings.gpu {
                Some(game.profiler_settings.gpu)
            } else {
                None
            },
            final(self).models@ == game.models@,
            plan.models.updated@ == differing_positions(
                old(self).models@,
                game.models@,
                spec_min(old(self).models@.len() as int, game.models@.len() as int),
            ),
            plan.models.replaced@ == replaced_positions(
                old(self).models@,
                game.models@,
                spec_min(old(self).models@.len() as int, game.models@.len() as int),
            ),
            game.lod_stage_overridden ==> plan.passes@.len() == 0,
            !game.lod_stage_overridden ==> plan.passes@.len() == PASS_COUNT && forall|i: int|
                0 <= i < PASS_COUNT ==> #[trigger] plan.passes@[i] == spec_pass_plan(i as nat),
            old(self).context.spec_surface() is Fallback ==> final(self).cursor_capture == old(
                self,
            ).cursor_capture && plan.cursor is Keep,
            old(self).context.spec_surface() is Surface ==> final(self).cursor_capture
                == game.cursor_capture,
            old(self).context.spec_surface() is Surface ==> match (
                old(self).cursor_capture,
                game.cursor_capture,
            ) {
                (
                    WindowCursorCapture::LockedAndHidden(position),
                    WindowCursorCapture::Free,
                ) => plan.cursor == CursorAction::Release(position),
                (WindowCursorCapture::Free, WindowCursorCapture::LockedAndHidden(_)) => plan.cursor is Grab,
                _ => plan.cursor is Keep,
            },
            plan.models.added == if game.models@.len() > old(self).models@.len() {
                game.models@.len() - old(self).models@.len()
            } else {
                0
            },
            plan.models.removed == if old(self).models@.len() > game.models@.len() {
                old(self).models@.len() - game.models@.len()
            } else {
                0
            },
            plan.time.frame == old(self).frame_counter.frame,
            plan.time.delta == spec_delta(old(self).frame_counter.last, now),
            final(self).frame_counter.last == Some(now),
            plan.start == match (old(self).context.spec_surface(), acquired) {
                (crate::context::SurfaceOrFallback::Fallback { texture }, _) => FrameStart::Draw(
                    crate::context::SurfaceTexture::Fallback,
                ),
                (_, Ok(_)) => FrameStart::Draw(crate::context::SurfaceTexture::Surface),
                (_, Err(SurfaceError::Lost)) => FrameStart::Skip,
                (_, Err(SurfaceError::Outdated)) => FrameStart::Skip,
                (_, Err(e)) => FrameStart::Fail(e),
            },
            plan.recreate_swapchain == (plan.start is Skip),
            plan.commands@ == match plan.start {
                FrameStart::Draw(texture) => spec_frame_commands(
                    game.models@.len(),
                    texture is Surface,
                    old(self).force_wait,
                ),
                _ => Seq::<FrameCommand>::empty(),
            },
    {
        let (next_capture, cursor) = self.update_cursor_capture(game.cursor_capture);
        self.cursor_capture = next_capture;
        let timer_queries: Option<bool> = if self.profiling_enabled != game.profiler_settings.gpu {
            self.profiling_enabled = game.profiler_settings.gpu;
            Some(game.profiler_settings.gpu)
        } else {
            None
        };
        let models: ModelChanges = update_models(&mut self.models, &game.models);
        let time: FrameTime = self.frame_counter.new_frame(now);
        let start: FrameStart = begin_frame(self.context.surface_texture(acquired));
        let recreate_swapchain: bool = match start {
            FrameStart::Skip => true,
            _ => false,
        };
        let commands: Vec<FrameCommand> = frame_commands(start, self.models.len(), self.force_wait);
        let passes: Vec<PassPlan> = lod_stage_passes(game.lod_stage_overridden);
        FramePlan { cursor, timer_queries, models, time, start, recreate_swapchain, commands, passes }
    }
}

} // verus!
