//! Decisions taken while an OpenGL ES context is built on a GBM surface.

use crate::mode::Mode;
use vstd::prelude::*;
use vstd::string::*;

verus! {

/// Why a rendering context could not be built or used.
#[derive(Debug, Clone, PartialEq, Eq)]
pub enum GlesContextError {
    DisplayCreationFailed,
    NoConfigFound,
    GbmSurfaceCreationFailed,
    EglSurfaceCreationFailed(String),
    EglContextCreationFailed(String),
    MakeCurrentFailed,
}

impl GlesContextError {
    /// The text of the error.
    pub open spec fn spec_message(&self) -> Seq<char> {
        match self {
            GlesContextError::DisplayCreationFailed => "Failed to create EGL display"@,
            GlesContextError::NoConfigFound => "No suitable EGL config found"@,
            GlesContextError::GbmSurfaceCreationFailed => "Failed to create GBM surface"@,
            GlesContextError::EglSurfaceCreationFailed(detail) => "Failed to create EGL surface: "@
                + detail@,
            GlesContextError::EglContextCreationFailed(detail) => "Failed to create EGL context: "@
                + detail@,
            GlesContextError::MakeCurrentFailed => "Failed to make context current"@,
        }
    }

    /// Renders the error as text.
    pub fn message(&self) -> (text: String)
        ensures
            text@ == self.spec_message(),
    {
        match self {
            GlesContextError::DisplayCreationFailed => String::from_str(
                "Failed to create EGL display",
            ),
            GlesContextError::NoConfigFound => String::from_str("No suitable EGL config found"),
            GlesContextError::GbmSurfaceCreationFailed => String::from_str(
                "Failed to create GBM surface",
            ),
            GlesContextError::EglSurfaceCreationFailed(detail) => String::from_str(
                "Failed to create EGL surface: ",
            ).concat(detail.as_str()),
            GlesContextError::EglContextCreationFailed(detail) => String::from_str(
                "Failed to create EGL context: ",
            ).concat(detail.as_str()),
            GlesContextError::MakeCurrentFailed => String::from_str(
                "Failed to make context current",
            ),
        }
    }
}

/// `best` is the position of the configuration to use among `samples`, the
/// sample counts of the configurations in the order the display lists them:
/// one with the greatest count, and the last of those.
pub open spec fn is_best_config(samples: Seq<u8>, best: int) -> bool {
    &&& 0 <= best < samples.len()
    &&& forall|i: int| 0 <= i < samples.len() ==> samples[i] <= samples[best]
    &&& forall|i: int| best < i < samples.len() ==> samples[i] < samples[best]
}

/// Picks the configuration with the most samples per pixel; among equals the
/// one listed last. Without any configuration there is nothing to pick.
pub fn find_egl_config(samples: &Vec<u8>) -> (choice: Result<usize, GlesContextError>)
    ensures
        samples@.len() == 0 ==> choice == Err::<usize, GlesContextError>(
            GlesContextError::NoConfigFound,
        ),
        samples@.len() > 0 ==> choice is Ok && is_best_config(samples@, choice.unwrap() as int),
{
    if samples.len() == 0 {
        return Err(GlesContextError::NoConfigFound);
    }
    let mut best: usize = 0;
    let mut i: usize = 1;
    while i < samples.len()
        invariant
            1 <= i <= samples@.len(),
            is_best_config(samples@.take(i as int), best as int),
        decreases samples@.len() - i,
    {
        if !(samples[best] > samples[i]) {
            best = i;
        }
        i += 1;
    }
    proof {
        assert(samples@.take(i as int) =~= samples@);
    }
    Ok(best)
}

/// The fourcc code of the pixel format XRGB8888 (`XR24`).
pub const FORMAT_XRGB8888: u32 = 0x34325258;

/// The GBM surface that backs a context: its size in pixels, its pixel
/// format as a fourcc code, and what its buffers are used for.
#[derive(Debug, Clone, Copy, PartialEq, Eq, Structural)]
pub struct SurfacePlan {
    pub width: u32,
    pub height: u32,
    pub format: u32,
    pub scanout: bool,
    pub rendering: bool,
}

/// What to build a context from: the configuration to use, by its position
/// in the display's list, and the surface.
#[derive(Debug, Clone, Copy, PartialEq, Eq, Structural)]
pub struct ContextPlan {
    pub config: usize,
    pub surface: SurfacePlan,
}

/// How far building a context by a plan got.
#[derive(Debug, Clone, PartialEq, Eq)]
pub enum ContextBuild {
    /// The GBM surface could not be made.
    GbmSurfaceFailed,
    /// No window surface could be made on the GBM surface.
    EglSurfaceFailed(String),
    /// No context could be made.
    EglContextFailed(String),
    /// The context could not be made current on the surface.
    MakeCurrentFailed,
    /// The context is current and its functions are loaded.
    Built,
}

/// The surface for a mode: as large as the mode, in XRGB8888, for scan-out
/// and rendering.
pub open spec fn surface_for(mode: Mode) -> SurfacePlan {
    SurfacePlan {
        width: mode.hdisplay as u32,
        height: mode.vdisplay as u32,
        format: FORMAT_XRGB8888,
        scanout: true,
        rendering: true,
    }
}

/// What planning a context on a display gives: without a display, or
/// without a configuration, nothing can be built; a surface needs a width
/// and a height.
pub open spec fn planned(mode: Mode, display: bool, samples: Seq<u8>, plan: Result<
    ContextPlan,
    GlesContextError,
>) -> bool {
    if !display {
        plan == Err::<ContextPlan, GlesContextError>(GlesContextError::DisplayCreationFailed)
    } else if samples.len() == 0 {
        plan == Err::<ContextPlan, GlesContextError>(GlesContextError::NoConfigFound)
    } else if mode.hdisplay == 0 || mode.vdisplay == 0 {
        plan == Err::<ContextPlan, GlesContextError>(GlesContextError::GbmSurfaceCreationFailed)
    } else {
        plan matches Ok(made) && made.surface == surface_for(mode) && is_best_config(
            samples,
            made.config as int,
        )
    }
}

/// The error that ends the building of a context, if it failed.
pub open spec fn build_error(build: ContextBuild) -> Option<GlesContextError> {
    match build {
        ContextBuild::GbmSurfaceFailed => Some(GlesContextError::GbmSurfaceCreationFailed),
        ContextBuild::EglSurfaceFailed(detail) => Some(
            GlesContextError::EglSurfaceCreationFailed(detail),
        ),
        ContextBuild::EglContextFailed(detail) => Some(
            GlesContextError::EglContextCreationFailed(detail),
        ),
        ContextBuild::MakeCurrentFailed => Some(GlesContextError::MakeCurrentFailed),
        ContextBuild::Built => None,
    }
}

/// A rendering context of a monitor, as far as decisions rest on it: the
/// configuration and the surface that it was built with.
#[derive(Debug, Clone, Copy, PartialEq, Eq, Structural)]
pub struct GlesContext {
    plan: ContextPlan,
}

impl GlesContext {
    /// The plan that the context was built by.
    pub closed spec fn spec_plan(&self) -> ContextPlan {
        self.plan
    }

    /// Plans a context for `mode`, given whether the display could be made
    /// and the sample counts of its configurations, in the display's order.
    pub fn plan(mode: &Mode, display: bool, samples: &Vec<u8>) -> (plan: Result<
        ContextPlan,
        GlesContextError,
    >)
        ensures
            planned(*mode, display, samples@, plan),
    {
        if !display {
            return Err(GlesContextError::DisplayCreationFailed);
        }
        let config = match find_egl_config(samples) {
            Ok(config) => config,
            Err(e) => {
                return Err(e);
            },
        };
        let (width, height) = mode.size();
        if width == 0 || height == 0 {
            return Err(GlesContextError::GbmSurfaceCreationFailed);
        }
        Ok(
            ContextPlan {
                config,
                surface: SurfacePlan {
                    width: width as u32,
                    height: height as u32,
                    format: FORMAT_XRGB8888,
                    scanout: true,
                    rendering: true,
                },
            },
        )
    }

    /// Judges how building a context by `plan` went.
    pub fn new(plan: ContextPlan, build: ContextBuild) -> (made: Result<
        GlesContext,
        GlesContextError,
    >)
        ensures
            build_error(build) matches Some(e) ==> made == Err::<GlesContext, GlesContextError>(e),
            build_error(build) is None ==> (made matches Ok(context) && context.spec_plan() == plan),
    {
        match build {
            ContextBuild::GbmSurfaceFailed => Err(GlesContextError::GbmSurfaceCreationFailed),
            ContextBuild::EglSurfaceFailed(detail) => Err(
                GlesContextError::EglSurfaceCreationFailed(detail),
            ),
            ContextBuild::EglContextFailed(detail) => Err(
                GlesContextError::EglContextCreationFailed(detail),
            ),
            ContextBuild::MakeCurrentFailed => Err(GlesContextError::MakeCurrentFailed),
            ContextBuild::Built => Ok(GlesContext { plan }),
        }
    }

    /// The plan that the context was built by.
    pub fn built_by(&self) -> (plan: ContextPlan)
        ensures
            plan == self.spec_plan(),
    {
        self.plan
    }

    /// Judges an attempt to make the context current.
    pub fn make_current(&self, made_current: bool) -> (done: Result<(), GlesContextError>)
        ensures
            done == if made_current {
                Ok::<(), GlesContextError>(())
            } else {
                Err::<(), GlesContextError>(GlesContextError::MakeCurrentFailed)
            },
    {
        if made_current {
            Ok(())
        } else {
            Err(GlesContextError::MakeCurrentFailed)
        }
    }

    /// Judges a buffer swap: `swapped` tells whether the buffers were
    /// swapped, and `front_buffer` is the front buffer that was locked
    /// after that, if it could be locked. A swap that failed counts as a
    /// failure to make the context current, a lock that failed as a failure
    /// of the GBM surface.
    pub fn swap_buffers(&self, swapped: bool, front_buffer: Option<u64>) -> (buffer: Result<
        u64,
        GlesContextError,
    >)
        ensures
            !swapped ==> buffer == Err::<u64, GlesContextError>(GlesContextError::MakeCurrentFailed),
            swapped && front_buffer is None ==> buffer == Err::<u64, GlesContextError>(
                GlesContextError::GbmSurfaceCreationFailed,
            ),
            swapped && front_buffer is Some ==> buffer == Ok::<u64, GlesContextError>(
                front_buffer.unwrap(),
            ),
    {
        if !swapped {
            return Err(GlesContextError::MakeCurrentFailed);
        }
        match front_buffer {
            Some(buffer) => Ok(buffer),
            None => Err(GlesContextError::GbmSurfaceCreationFailed),
        }
    }
}

} // verus!
