//! The render target as the host sees it: its size, whether it is a window
//! surface or an off-screen fallback, and what acquiring a texture yields.

use vstd::prelude::*;

verus! {

/// Width and height of a render target in texels.
#[derive(Clone, Copy, Debug, PartialEq, Eq, Structural)]
pub struct SurfaceSize {
    pub width: u32,
    pub height: u32,
}

/// Why a surface texture could not be acquired.
#[derive(Clone, Copy, Debug, PartialEq, Eq, Structural)]
pub enum SurfaceError {
    /// The acquisition timed out.
    Timeout,
    /// The surface has changed and must be reconfigured.
    Outdated,
    /// The swapchain was lost and must be recreated.
    Lost,
    /// No memory is left for a new frame.
    OutOfMemory,
    /// Any other failure.
    Other,
}

/// The render target: a window surface with its configured size, or an
/// off-screen texture where no window is attached.
#[derive(Clone, Copy, Debug, PartialEq, Eq, Structural)]
pub enum SurfaceOrFallback {
    Surface { config: SurfaceSize },
    Fallback { texture: SurfaceSize },
}

/// The texture a frame renders to.
#[derive(Clone, Copy, Debug, PartialEq, Eq, Structural)]
pub enum SurfaceTexture {
    /// A texture acquired from the window surface; it must be presented.
    Surface,
    /// The off-screen texture; there is nothing to present.
    Fallback,
}

/// What the host has to do to the render target after a resize.
#[derive(Clone, Copy, Debug, PartialEq, Eq, Structural)]
pub enum ResizeAction {
    /// Configure the window surface with the new size.
    Configure(SurfaceSize),
    /// Replace the off-screen texture by one of the new size.
    RecreateTexture(SurfaceSize),
}

/// The host's record of the GPU context.
#[derive(Clone, Copy, Debug, PartialEq, Eq, Structural)]
pub struct WgpuContext {
    size: SurfaceSize,
    surface: SurfaceOrFallback,
}

/// The larger of two numbers.
pub open spec fn spec_max(a: int, b: int) -> int {
    if a >= b {
        a
    } else {
        b
    }
}

impl SurfaceSize {
    /// Neither side is zero.
    pub open spec fn nonempty(self) -> bool {
        self.width >= 1 && self.height >= 1
    }

    /// This size with each side raised to at least one texel.
    pub open spec fn spec_at_least_one(self) -> SurfaceSize {
        SurfaceSize {
            width: spec_max(self.width as int, 1) as u32,
            height: spec_max(self.height as int, 1) as u32,
        }
    }

    /// The side-by-side maximum of two sizes.
    ///
    /// Calls `glam::UVec2::max`, which takes the maximum of each component.
    #[verifier::external_body]
    fn component_max(self, other: SurfaceSize) -> (largest: SurfaceSize)
        ensures
            largest.width == spec_max(self.width as int, other.width as int),
            largest.height == spec_max(self.height as int, other.height as int),
    {
        let largest = glam::UVec2::new(self.width, self.height).max(
            glam::UVec2::new(other.width, other.height),
        );
        SurfaceSize { width: largest.x, height: largest.y }
    }

    /// This size with each side raised to at least one texel, so that no
    /// render target is ever empty.
    pub fn at_least_one(self) -> (size: SurfaceSize)
        ensures
            size == self.spec_at_least_one(),
            size.nonempty(),
            self.nonempty() ==> size == self,
    {
        self.component_max(SurfaceSize { width: 1, height: 1 })
    }
}

impl SurfaceOrFallback {
    /// The size of the target.
    pub open spec fn spec_size(self) -> SurfaceSize {
        match self {
            SurfaceOrFallback::Surface { config } => config,
            SurfaceOrFallback::Fallback { texture } => texture,
        }
    }

    /// The size of the target.
    pub fn size(&self) -> (size: SurfaceSize)
        ensures
            size == self.spec_size(),
    {
        match self {
            SurfaceOrFallback::Surface { config } => *config,
            SurfaceOrFallback::Fallback { texture } => *texture,
        }
    }
}

impl SurfaceTexture {
    /// Whether the texture has to be presented once the frame is submitted.
    pub fn present(self) -> (presented: bool)
        ensures
            presented == (self is Surface),
    {
        match self {
            SurfaceTexture::Surface => true,
            SurfaceTexture::Fallback => false,
        }
    }
}

impl WgpuContext {
    /// The recorded size is that of the target and is not empty.
    pub closed spec fn wf(self) -> bool {
        self.size.nonempty() && self.surface.spec_size() == self.size
    }

    /// The recorded size.
    pub closed spec fn spec_size(self) -> SurfaceSize {
        self.size
    }

    /// The recorded target.
    pub closed spec fn spec_surface(self) -> SurfaceOrFallback {
        self.surface
    }

    /// The context of a target of size `size`, raised to at least one texel
    /// per side; a window surface when `has_window`, else the fallback.
    pub fn new(size: SurfaceSize, has_window: bool) -> (context: WgpuContext)
        ensures
            context.wf(),
            context.spec_size() == size.spec_at_least_one(),
            context.spec_surface() == if has_window {
                SurfaceOrFallback::Surface { config: size.spec_at_least_one() }
            } else {
                SurfaceOrFallback::Fallback { texture: size.spec_at_least_one() }
            },
    {
        let size = size.at_least_one();
        let surface = if has_window {
            SurfaceOrFallback::Surface { config: size }
        } else {
            SurfaceOrFallback::Fallback { texture: size }
        };
        WgpuContext { size, surface }
    }

    /// The recorded size.
    pub fn size(&self) -> (size: SurfaceSize)
        ensures
            size == self.spec_size(),
    {
        self.size
    }

    /// The recorded target.
    pub fn surface(&self) -> (surface: SurfaceOrFallback)
        ensures
            surface == self.spec_surface(),
    {
        self.surface
    }

    /// Tries to resize the target to `new_size`, raised to at least one texel
    /// per side. Returns what has to be done to the target when the size
    /// changes, and nothing when it stays the same.
    pub fn try_resize(&mut self, new_size: SurfaceSize) -> (action: Option<ResizeAction>)
        requires
            old(self).wf(),
        ensures
            final(self).wf(),
            final(self).spec_size() == new_size.spec_at_least_one(),
            (action is None) == (new_size.spec_at_least_one() == old(self).spec_size()),
            action is None ==> *final(self) == *old(self),
            old(self).spec_surface() is Surface ==> final(self).spec_surface() is Surface,
            old(self).spec_surface() is Fallback ==> final(self).spec_surface() is Fallback,
            action matches Some(a) ==> a == if old(self).spec_surface() is Surface {
                ResizeAction::Configure(new_size.spec_at_least_one())
            } else {
                ResizeAction::RecreateTexture(new_size.spec_at_least_one())
            },
    {
        let new_size = new_size.at_least_one();
        if new_size == self.size {
            return None;
        }
        self.size = new_size;
        match self.surface {
            SurfaceOrFallback::Surface { config: _ } => {
                self.surface = SurfaceOrFallback::Surface { config: new_size };
                Some(ResizeAction::Configure(new_size))
            },
            SurfaceOrFallback::Fallback { texture: _ } => {
                self.surface = SurfaceOrFallback::Fallback { texture: new_size };
                Some(ResizeAction::RecreateTexture(new_size))
            },
        }
    }

    /// Resizes a window surface to `new_size` unless a side is zero or the
    /// size is the recorded one. Returns the new size when it was taken.
    pub fn resize(&mut self, new_size: SurfaceSize) -> (taken: Option<SurfaceSize>)
        requires
            old(self).wf(),
        ensures
            final(self).wf(),
            (taken is Some) == (new_size.nonempty() && new_size != old(self).spec_size()),
            taken is Some ==> taken == Some(new_size) && final(self).spec_size() == new_size,
            taken is None ==> *final(self) == *old(self),
    {
        if new_size.width > 0 && new_size.height > 0 && new_size != self.size {
            let action = self.try_resize(new_size);
            Some(new_size)
        } else {
            None
        }
    }

    /// What recreating the swapchain has to configure: the window surface
    /// with its recorded size, and nothing for the fallback.
    pub fn recreate_swapchain(&self) -> (config: Option<SurfaceSize>)
        ensures
            config == match self.spec_surface() {
                SurfaceOrFallback::Surface { config } => Some(config),
                SurfaceOrFallback::Fallback { texture } => None::<SurfaceSize>,
            },
    {
        match self.surface {
            SurfaceOrFallback::Surface { config } => Some(config),
            SurfaceOrFallback::Fallback { texture: _ } => None,
        }
    }

    /// The texture of the frame, given what acquiring one from the window
    /// surface yielded. The fallback has its texture at all times, so for it
    /// the outcome of the acquisition does not matter.
    pub fn surface_texture(&self, acquired: Result<(), SurfaceError>) -> (texture: Result<
        SurfaceTexture,
        SurfaceError,
    >)
        ensures
            texture == match self.spec_surface() {
                SurfaceOrFallback::Surface { config } => match acquired {
                    Ok(_) => Ok::<SurfaceTexture, SurfaceError>(SurfaceTexture::Surface),
                    Err(e) => Err(e),
                },
                SurfaceOrFallback::Fallback { texture } => Ok(SurfaceTexture::Fallback),
            },
    {
        match self.surface {
            SurfaceOrFallback::Surface { config: _ } => match acquired {
                Ok(_) => Ok(SurfaceTexture::Surface),
                Err(e) => Err(e),
            },
            SurfaceOrFallback::Fallback { texture: _ } => Ok(SurfaceTexture::Fallback),
        }
    }
}

} // verus!
