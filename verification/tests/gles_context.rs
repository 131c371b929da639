use easydrm::gles_context::{
    find_egl_config, ContextBuild, ContextPlan, SurfacePlan, FORMAT_XRGB8888,
};
use easydrm::{GlesContext, GlesContextError, Mode};

fn mode(width: u16, height: u16, refresh: u32) -> Mode {
    Mode {
        name: [0; 32],
        clock: 148500,
        hdisplay: width,
        hsync_start: width + 88,
        hsync_end: width + 132,
        htotal: width + 280,
        hskew: 0,
        vdisplay: height,
        vsync_start: height + 4,
        vsync_end: height + 9,
        vtotal: height + 45,
        vscan: 0,
        vrefresh: refresh,
        flags: 5,
        mode_type: 0x48,
    }
}

#[test]
fn config_with_most_samples_wins() {
    assert_eq!(find_egl_config(&vec![0, 4, 2]), Ok(1));
    assert_eq!(find_egl_config(&vec![8]), Ok(0));
}

#[test]
fn among_equal_configs_the_last_wins() {
    assert_eq!(find_egl_config(&vec![0, 4, 4, 2]), Ok(2));
    assert_eq!(find_egl_config(&vec![0, 0, 0]), Ok(2));
}

#[test]
fn no_config_is_an_error() {
    assert_eq!(find_egl_config(&vec![]), Err(GlesContextError::NoConfigFound));
}

#[test]
fn plan_holds_the_surface_of_the_mode() {
    let plan = GlesContext::plan(&mode(1920, 1080, 60), true, &vec![0, 4]).unwrap();
    assert_eq!(plan.config, 1);
    assert_eq!(
        plan.surface,
        SurfacePlan { width: 1920, height: 1080, format: 0x34325258, scanout: true, rendering: true }
    );
    assert_eq!(FORMAT_XRGB8888, u32::from_le_bytes(*b"XR24"));
}

#[test]
fn plan_fails_in_the_order_of_the_steps() {
    assert_eq!(
        GlesContext::plan(&mode(0, 0, 60), false, &vec![]),
        Err(GlesContextError::DisplayCreationFailed)
    );
    assert_eq!(
        GlesContext::plan(&mode(0, 0, 60), true, &vec![]),
        Err(GlesContextError::NoConfigFound)
    );
    assert_eq!(
        GlesContext::plan(&mode(0, 1080, 60), true, &vec![1]),
        Err(GlesContextError::GbmSurfaceCreationFailed)
    );
    assert_eq!(
        GlesContext::plan(&mode(1920, 0, 60), true, &vec![1]),
        Err(GlesContextError::GbmSurfaceCreationFailed)
    );
}

#[test]
fn build_failures_map_to_their_errors() {
    let plan = ContextPlan {
        config: 0,
        surface: SurfacePlan { width: 8, height: 8, format: FORMAT_XRGB8888, scanout: true, rendering: true },
    };
    assert_eq!(
        GlesContext::new(plan, ContextBuild::GbmSurfaceFailed),
        Err(GlesContextError::GbmSurfaceCreationFailed)
    );
    assert_eq!(
        GlesContext::new(plan, ContextBuild::EglSurfaceFailed("bad native window".to_string())),
        Err(GlesContextError::EglSurfaceCreationFailed("bad native window".to_string()))
    );
    assert_eq!(
        GlesContext::new(plan, ContextBuild::EglContextFailed("bad match".to_string())),
        Err(GlesContextError::EglContextCreationFailed("bad match".to_string()))
    );
    assert_eq!(
        GlesContext::new(plan, ContextBuild::MakeCurrentFailed),
        Err(GlesContextError::MakeCurrentFailed)
    );
    let context = GlesContext::new(plan, ContextBuild::Built).unwrap();
    assert_eq!(context.built_by(), plan);
}

#[test]
fn swap_and_make_current_report_failures() {
    let plan = ContextPlan {
        config: 0,
        surface: SurfacePlan { width: 8, height: 8, format: FORMAT_XRGB8888, scanout: true, rendering: true },
    };
    let context = GlesContext::new(plan, ContextBuild::Built).unwrap();
    assert_eq!(context.make_current(true), Ok(()));
    assert_eq!(context.make_current(false), Err(GlesContextError::MakeCurrentFailed));
    assert_eq!(context.swap_buffers(true, Some(7)), Ok(7));
    assert_eq!(context.swap_buffers(false, Some(7)), Err(GlesContextError::MakeCurrentFailed));
    assert_eq!(context.swap_buffers(false, None), Err(GlesContextError::MakeCurrentFailed));
    assert_eq!(context.swap_buffers(true, None), Err(GlesContextError::GbmSurfaceCreationFailed));
}

#[test]
fn context_error_texts() {
    assert_eq!(GlesContextError::DisplayCreationFailed.message(), "Failed to create EGL display");
    assert_eq!(GlesContextError::NoConfigFound.message(), "No suitable EGL config found");
    assert_eq!(GlesContextError::GbmSurfaceCreationFailed.message(), "Failed to create GBM surface");
    assert_eq!(
        GlesContextError::EglSurfaceCreationFailed("x".to_string()).message(),
        "Failed to create EGL surface: x"
    );
    assert_eq!(
        GlesContextError::EglContextCreationFailed("y".to_string()).message(),
        "Failed to create EGL context: y"
    );
    assert_eq!(GlesContextError::MakeCurrentFailed.message(), "Failed to make context current");
}
