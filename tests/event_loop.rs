use poliosis::event_loop::{LoopAction, LoopEvent, LoopState, SurfaceFault, SurfaceSize};

fn size(width: u32, height: u32) -> SurfaceSize {
    SurfaceSize { width, height }
}

#[test]
fn zero_area_resize_is_ignored() {
    let mut state = LoopState::new(size(800, 600));
    assert_eq!(state.step(LoopEvent::Resized { width: 0, height: 600 }), LoopAction::Nothing);
    assert_eq!(state.step(LoopEvent::Resized { width: 800, height: 0 }), LoopAction::Nothing);
    assert!(!state.resize(0, 0));
    assert_eq!(state.surface_size(), size(800, 600));
    assert!(state.running());
}

#[test]
fn resize_reconfigures_the_surface() {
    let mut state = LoopState::new(size(800, 600));
    assert_eq!(
        state.step(LoopEvent::Resized { width: 1024, height: 768 }),
        LoopAction::Reconfigure(size(1024, 768))
    );
    assert_eq!(state.surface_size(), size(1024, 768));
    assert!(state.resize(1, 1));
    assert_eq!(state.surface_size(), size(1, 1));
}

#[test]
fn frame_tick_runs_a_frame() {
    let mut state = LoopState::new(size(800, 600));
    assert_eq!(state.step(LoopEvent::FrameTick), LoopAction::RunFrame);
    assert!(state.running());
}

#[test]
fn close_request_ends_the_loop() {
    let mut state = LoopState::new(size(800, 600));
    assert_eq!(state.step(LoopEvent::CloseRequested), LoopAction::Exit);
    assert!(!state.running());
    assert_eq!(state.step(LoopEvent::FrameTick), LoopAction::Nothing);
    assert_eq!(state.step(LoopEvent::Resized { width: 10, height: 10 }), LoopAction::Nothing);
    assert_eq!(state.surface_size(), size(800, 600));
}

#[test]
fn present_failures_are_told_apart() {
    let mut state = LoopState::new(size(640, 480));
    assert_eq!(
        state.step(LoopEvent::PresentFailed(SurfaceFault::Lost)),
        LoopAction::Reconfigure(size(640, 480))
    );
    assert_eq!(
        state.step(LoopEvent::PresentFailed(SurfaceFault::Outdated)),
        LoopAction::Reconfigure(size(640, 480))
    );
    assert_eq!(state.step(LoopEvent::PresentFailed(SurfaceFault::Timeout)), LoopAction::Nothing);
    assert!(state.running());
    assert_eq!(state.step(LoopEvent::PresentFailed(SurfaceFault::OutOfMemory)), LoopAction::Exit);
    assert!(!state.running());
}
