//! The decisions of the window's event loop, from state and event to next state and
//! action. The loop itself, which waits for platform events and carries out the
//! actions, lives with the windowing code.
use vstd::prelude::*;

verus! {

/// The presentation surface's size in pixels.
#[derive(Debug, Clone, Copy, PartialEq, Eq, Structural)]
pub struct SurfaceSize {
    pub width: u32,
    pub height: u32,
}

/// How presenting a frame failed.
#[derive(Debug, Clone, Copy, PartialEq, Eq, Structural)]
pub enum SurfaceFault {
    /// The surface was lost and must be configured again.
    Lost,
    /// The surface no longer matches the window and must be configured again.
    Outdated,
    /// The device ran out of memory.
    OutOfMemory,
    /// Acquiring the next texture took too long.
    Timeout,
}

/// What the event loop is told.
#[derive(Debug, Clone, Copy, PartialEq, Eq, Structural)]
pub enum LoopEvent {
    Resized { width: u32, height: u32 },
    CloseRequested,
    /// All events of this cycle were handled: time to build and present a frame.
    FrameTick,
    /// Presenting the last frame failed.
    PresentFailed(SurfaceFault),
}

/// What the event loop must do next.
#[derive(Debug, Clone, Copy, PartialEq, Eq, Structural)]
pub enum LoopAction {
    Nothing,
    /// Configure the surface for this size.
    Reconfigure(SurfaceSize),
    /// Leave the loop: nothing more will be done.
    Exit,
    /// Run the per-frame closure once, then submit and present the frame.
    RunFrame,
}

/// The loop's state: the surface's current size, and whether it still runs.
pub struct LoopState {
    size: SurfaceSize,
    running: bool,
}

/// Whether a resize to `width` by `height` is carried out: zero-area sizes are ignored.
pub open spec fn accepts_size(width: u32, height: u32) -> bool {
    width > 0 && height > 0
}

/// The size after a resize request.
pub open spec fn resized(size: SurfaceSize, width: u32, height: u32) -> SurfaceSize {
    if accepts_size(width, height) {
        SurfaceSize { width, height }
    } else {
        size
    }
}

/// The action that an event calls for in a running loop whose surface has `size`.
pub open spec fn action_for(size: SurfaceSize, event: LoopEvent) -> LoopAction {
    match event {
        LoopEvent::Resized { width, height } => if accepts_size(width, height) {
            LoopAction::Reconfigure(SurfaceSize { width, height })
        } else {
            LoopAction::Nothing
        },
        LoopEvent::CloseRequested => LoopAction::Exit,
        LoopEvent::FrameTick => LoopAction::RunFrame,
        LoopEvent::PresentFailed(fault) => match fault {
            SurfaceFault::Lost | SurfaceFault::Outdated => LoopAction::Reconfigure(size),
            SurfaceFault::OutOfMemory => LoopAction::Exit,
            SurfaceFault::Timeout => LoopAction::Nothing,
        },
    }
}

impl LoopState {
    /// A running loop over a surface of the window's initial size.
    pub fn new(size: SurfaceSize) -> (r: Self)
        ensures
            r.size() == size,
            r.is_running(),
    {
        LoopState { size, running: true }
    }

    pub closed spec fn size(&self) -> SurfaceSize {
        self.size
    }

    pub closed spec fn is_running(&self) -> bool {
        self.running
    }

    /// The surface's current size.
    pub fn surface_size(&self) -> (r: SurfaceSize)
        ensures
            r == self.size(),
    {
        self.size
    }

    /// Whether the loop still runs.
    pub fn running(&self) -> (r: bool)
        ensures
            r == self.is_running(),
    {
        self.running
    }

    /// Takes a new window size; a size with a zero side leaves everything unchanged.
    /// Returns whether the surface must be configured again.
    pub fn resize(&mut self, width: u32, height: u32) -> (r: bool)
        ensures
            r == accepts_size(width, height),
            final(self).size() == resized(old(self).size(), width, height),
            final(self).is_running() == old(self).is_running(),
    {
        if width > 0 && height > 0 {
            self.size = SurfaceSize { width, height };
            true
        } else {
            false
        }
    }

    /// Decides what to do with one event. Once the loop has exited every event is
    /// ignored.
    pub fn step(&mut self, event: LoopEvent) -> (r: LoopAction)
        ensures
            !old(self).is_running() ==> r == LoopAction::Nothing && *final(self) == *old(self),
            old(self).is_running() ==> {
                &&& r == action_for(old(self).size(), event)
                &&& final(self).is_running() == (r != LoopAction::Exit)
                &&& final(self).size() == match event {
                    LoopEvent::Resized { width, height } => resized(old(self).size(), width, height),
                    _ => old(self).size(),
                }
            },
    {
        if !self.running {
            return LoopAction::Nothing;
        }
        match event {
            LoopEvent::Resized { width, height } => {
                if self.resize(width, height) {
                    LoopAction::Reconfigure(SurfaceSize { width, height })
                } else {
                    LoopAction::Nothing
                }
            },
            LoopEvent::CloseRequested => {
                self.running = false;
                LoopAction::Exit
            },
            LoopEvent::FrameTick => LoopAction::RunFrame,
            LoopEvent::PresentFailed(fault) => match fault {
                SurfaceFault::Lost | SurfaceFault::Outdated => LoopAction::Reconfigure(self.size),
                SurfaceFault::OutOfMemory => {
                    self.running = false;
                    LoopAction::Exit
                },
                SurfaceFault::Timeout => LoopAction::Nothing,
            },
        }
    }
}

} // verus!
