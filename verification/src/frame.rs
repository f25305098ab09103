//! The order of a frame: what the host does once a surface texture has been
//! asked for, and in which order the stages of the models are recorded.

use vstd::prelude::*;
use crate::context::{SurfaceError, SurfaceTexture};
use crate::indirect::DRAW_ARGS_STRIDE;
use crate::limits::BIN_COUNT;

verus! {

/// Counts frames and measures the time between them, in microseconds.
#[derive(Clone, Copy, Debug, PartialEq, Eq, Structural)]
pub struct FrameCounter {
    /// Number of frames begun so far.
    pub frame: u64,
    /// When the last frame began.
    pub last: Option<u64>,
}

/// Number of a frame and the time since the frame before it.
#[derive(Clone, Copy, Debug, PartialEq, Eq, Structural)]
pub struct FrameTime {
    pub frame: u64,
    pub delta: u64,
}

/// What a frame reports to the caller. `R` is what the profiler hands out.
#[derive(Clone, Debug)]
pub struct RenderResults<R> {
    /// Time since the previous frame in microseconds; zero for a frame that
    /// was skipped.
    pub delta_time: u64,
    pub profiler_results: Option<R>,
}

/// How a frame goes on after the surface texture was asked for.
#[derive(Clone, Copy, Debug, PartialEq, Eq, Structural)]
pub enum FrameStart {
    /// The frame is drawn to this texture.
    Draw(SurfaceTexture),
    /// The swapchain is recreated and the frame is skipped; it still counts
    /// as a success.
    Skip,
    /// The frame is skipped and the error goes to the caller.
    Fail(SurfaceError),
}

/// One step of a drawn frame.
#[derive(Clone, Copy, Debug, PartialEq, Eq, Structural)]
pub enum FrameCommand {
    /// Write camera, lights, mouse, screen size and time to the scene uniforms.
    UpdateScene,
    /// Record the level-of-detail stage of the model at this position.
    LodStage(usize),
    /// Begin the render pass, clearing colour and depth.
    BeginRenderPass,
    /// Record the render stage of the model at this position.
    RenderStage(usize),
    /// Draw the ground plane.
    GroundPlane,
    /// End the render pass.
    EndRenderPass,
    /// Resolve the profiler's queries.
    ResolveQueries,
    /// Submit the recorded commands.
    Submit,
    /// Present the surface texture.
    Present,
    /// Wait until the GPU has finished.
    Wait,
}

/// One indirect draw of the render stage.
#[derive(Clone, Copy, Debug, PartialEq, Eq, Structural)]
pub struct BinDraw {
    /// The bin whose patches are drawn; also the position of its quad mesh.
    pub bin: usize,
    /// Byte offset of the bin's record in the indirect draw buffer.
    pub indirect_offset: u64,
}

/// Time since the last frame: zero for the first frame and where the clock
/// went backwards.
pub open spec fn spec_delta(last: Option<u64>, now: u64) -> u64 {
    match last {
        Some(before) => if now >= before {
            (now - before) as u64
        } else {
            0
        },
        None => 0,
    }
}

/// The steps of a drawn frame of `models` models: the scene uniforms, every
/// model's level-of-detail stage, then one render pass with every model's
/// render stage and the ground plane last, then resolve and submit; the
/// texture is presented when `present`, and the host waits when `wait`.
pub open spec fn spec_frame_commands(models: nat, present: bool, wait: bool) -> Seq<FrameCommand> {
    seq![FrameCommand::UpdateScene] + Seq::new(models, |i: int| FrameCommand::LodStage(i as usize))
        + seq![FrameCommand::BeginRenderPass] + Seq::new(
        models,
        |i: int| FrameCommand::RenderStage(i as usize),
    ) + seq![
        FrameCommand::GroundPlane,
        FrameCommand::EndRenderPass,
        FrameCommand::ResolveQueries,
        FrameCommand::Submit,
    ] + (if present {
        seq![FrameCommand::Present]
    } else {
        Seq::empty()
    }) + (if wait {
        seq![FrameCommand::Wait]
    } else {
        Seq::empty()
    })
}

impl FrameCounter {
    /// A counter before the first frame.
    pub fn new() -> (counter: FrameCounter)
        ensures
            counter == (FrameCounter { frame: 0, last: None }),
    {
        FrameCounter { frame: 0, last: None }
    }

    /// Begins a frame at time `now`: reports its number and the time since
    /// the frame before, and advances the counter.
    pub fn new_frame(&mut self, now: u64) -> (time: FrameTime)
        ensures
            time.frame == old(self).frame,
            time.delta == spec_delta(old(self).last, now),
            final(self).last == Some(now),
            final(self).frame == if old(self).frame < u64::MAX {
                (old(self).frame + 1) as u64
            } else {
                u64::MAX
            },
    {
        let delta: u64 = match self.last {
            Some(before) => if now >= before {
                now - before
            } else {
                0
            },
            None => 0,
        };
        let time = FrameTime { frame: self.frame, delta };
        if self.frame < u64::MAX {
            self.frame = self.frame + 1;
        }
        self.last = Some(now);
        time
    }
}

impl<R> RenderResults<R> {
    /// The results of a frame that was skipped: no time passed, nothing measured.
    pub fn skip() -> (results: RenderResults<R>)
        ensures
            results.delta_time == 0,
            results.profiler_results is None,
    {
        RenderResults { delta_time: 0, profiler_results: None }
    }
}

/// Decides how the frame goes on. A lost or outdated surface is recovered
/// from: the swapchain is recreated and the frame skipped. Every other error
/// goes to the caller.
pub fn begin_frame(acquired: Result<SurfaceTexture, SurfaceError>) -> (start: FrameStart)
    ensures
        start == match acquired {
            Ok(texture) => FrameStart::Draw(texture),
            Err(SurfaceError::Lost) => FrameStart::Skip,
            Err(SurfaceError::Outdated) => FrameStart::Skip,
            Err(e) => FrameStart::Fail(e),
        },
{
    match acquired {
        Ok(texture) => FrameStart::Draw(texture),
        Err(SurfaceError::Lost) => FrameStart::Skip,
        Err(SurfaceError::Outdated) => FrameStart::Skip,
        Err(e) => FrameStart::Fail(e),
    }
}

/// What the frame reports: the time and the profile of a drawn frame, the
/// empty results of a skipped one, or the error.
pub fn finish_frame<R>(start: FrameStart, time: FrameTime, profile: Option<R>) -> (results: Result<
    RenderResults<R>,
    SurfaceError,
>)
    ensures
        match start {
            FrameStart::Draw(_) => results matches Ok(r) && r.delta_time == time.delta
                && r.profiler_results == profile,
            FrameStart::Skip => results matches Ok(r) && r.delta_time == 0
                && r.profiler_results is None,
            FrameStart::Fail(e) => results matches Err(f) && f == e,
        },
{
    match start {
        FrameStart::Draw(_) => Ok(RenderResults { delta_time: time.delta, profiler_results: profile }),
        FrameStart::Skip => Ok(RenderResults::skip()),
        FrameStart::Fail(e) => Err(e),
    }
}

/// The steps of a frame of `models` models, in order. A frame that is not
/// drawn has no steps.
pub fn frame_commands(start: FrameStart, models: usize, wait: bool) -> (commands: Vec<FrameCommand>)
    ensures
        commands@ == match start {
            FrameStart::Draw(texture) => spec_frame_commands(
                models as nat,
                texture is Surface,
                wait,
            ),
            _ => Seq::<FrameCommand>::empty(),
        },
{
    let mut commands: Vec<FrameCommand> = Vec::new();
    let texture = match start {
        FrameStart::Draw(texture) => texture,
        _ => {
            return commands;
        },
    };
    commands.push(FrameCommand::UpdateScene);
    let mut i: usize = 0;
    while i < models
        invariant
            i <= models,
            commands@ == seq![FrameCommand::UpdateScene] + Seq::new(
                i as nat,
                |k: int| FrameCommand::LodStage(k as usize),
            ),
        decreases models - i,
    {
        commands.push(FrameCommand::LodStage(i));
        i = i + 1;
        assert(commands@ =~= seq![FrameCommand::UpdateScene] + Seq::new(
            i as nat,
            |k: int| FrameCommand::LodStage(k as usize),
        ));
    }
    commands.push(FrameCommand::BeginRenderPass);
    let ghost head = commands@;
    let mut j: usize = 0;
    while j < models
        invariant
            j <= models,
            commands@ == head + Seq::new(j as nat, |k: int| FrameCommand::RenderStage(k as usize)),
        decreases models - j,
    {
        commands.push(FrameCommand::RenderStage(j));
        j = j + 1;
        assert(commands@ =~= head + Seq::new(
            j as nat,
            |k: int| FrameCommand::RenderStage(k as usize),
        ));
    }
    commands.push(FrameCommand::GroundPlane);
    commands.push(FrameCommand::EndRenderPass);
    commands.push(FrameCommand::ResolveQueries);
    commands.push(FrameCommand::Submit);
    if texture.present() {
        commands.push(FrameCommand::Present);
    }
    if wait {
        commands.push(FrameCommand::Wait);
    }
    assert(commands@ =~= spec_frame_commands(models as nat, texture is Surface, wait));
    commands
}

/// The draws of a model's render stage: one indirect indexed draw per bin,
/// from the smallest target size to the largest, each with the bin's own quad
/// mesh and the bin's record of the indirect draw buffer.
pub fn render_stage_draws() -> (draws: Vec<BinDraw>)
    ensures
        draws@.len() == BIN_COUNT,
        forall|b: int|
            0 <= b < BIN_COUNT ==> #[trigger] draws@[b] == (BinDraw {
                bin: b as usize,
                indirect_offset: (b * DRAW_ARGS_STRIDE) as u64,
            }),
{
    let mut draws: Vec<BinDraw> = Vec::new();
    let mut bin: usize = 0;
    while bin < BIN_COUNT
        invariant
            bin <= BIN_COUNT,
            draws@.len() == bin,
            forall|b: int|
                0 <= b < bin ==> #[trigger] draws@[b] == (BinDraw {
                    bin: b as usize,
                    indirect_offset: (b * DRAW_ARGS_STRIDE) as u64,
                }),
        decreases BIN_COUNT - bin,
    {
        draws.push(BinDraw { bin, indirect_offset: crate::indirect::draw_args_offset(bin) });
        bin = bin + 1;
    }
    draws
}

} // verus!
