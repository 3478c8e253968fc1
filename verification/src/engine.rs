//! Engine settings and the small application types built on the engine.

use vstd::prelude::*;
use crate::text::owned;

verus! {

broadcast use vstd::string::group_string_axioms;

/// Window, timing and subsystem settings of the engine.
#[derive(Debug, Clone)]
pub struct EngineConfig {
    pub window_title: String,
    pub window_width: u32,
    pub window_height: u32,
    pub vsync: bool,
    pub max_fps: Option<u32>,
    pub enable_audio: bool,
    pub enable_physics: bool,
    pub enable_scripting: bool,
}

impl Default for EngineConfig {
    /// A 1280 by 720 window titled "Lumina Engine Game", vsync on, no frame
    /// cap, every subsystem on.
    fn default() -> (r: Self)
        ensures
            r.window_title@ == "Lumina Engine Game"@,
            r.window_width == 1280,
            r.window_height == 720,
            r.vsync,
            r.max_fps is None,
            r.enable_audio,
            r.enable_physics,
            r.enable_scripting,
    {
        EngineConfig {
            window_title: owned("Lumina Engine Game"),
            window_width: 1280,
            window_height: 720,
            vsync: true,
            max_fps: None,
            enable_audio: true,
            enable_physics: true,
            enable_scripting: true,
        }
    }
}

/// The most basic application: it only records whether it is initialized.
#[derive(Debug)]
pub struct BasicApp {
    initialized: bool,
}

impl BasicApp {
    /// Whether the application has been initialized.
    pub closed spec fn is_initialized(self) -> bool {
        self.initialized
    }

    /// A new application, not yet initialized.
    pub fn new() -> (r: Self)
        ensures
            !r.is_initialized(),
    {
        BasicApp { initialized: false }
    }
}

impl Default for BasicApp {
    /// Same as `BasicApp::new`.
    fn default() -> (r: Self)
        ensures
            !r.is_initialized(),
    {
        BasicApp::new()
    }
}

/// The demonstration application of the ECS runner.
#[derive(Debug)]
pub struct ExampleEcsApp {
    pub title: String,
}

impl ExampleEcsApp {
    /// An application whose window carries `title`.
    pub fn new(title: String) -> (r: Self)
        ensures
            r.title == title,
    {
        ExampleEcsApp { title }
    }
}

/// An application that checks text rendering.
#[derive(Debug)]
pub struct SimpleTextTest {
    renderer_ready: bool,
}

impl SimpleTextTest {
    /// Whether the renderer has been set up.
    pub closed spec fn is_ready(self) -> bool {
        self.renderer_ready
    }

    /// A new test whose renderer is not set up yet.
    pub fn new() -> (r: Self)
        ensures
            !r.is_ready(),
    {
        SimpleTextTest { renderer_ready: false }
    }
}

/// Starts the editor on the ECS runner.
#[derive(Debug)]
pub struct EditorRunner;

impl EditorRunner {
    /// A runner; creating one cannot fail.
    pub fn new() -> (r: Result<Self, ()>)
        ensures
            r is Ok,
    {
        Ok(EditorRunner)
    }
}

impl Default for EditorRunner {
    /// Same as `EditorRunner::new`.
    fn default() -> (r: Self) {
        EditorRunner
    }
}

} // verus!
