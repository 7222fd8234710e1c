//! Scene orchestration core: a stack of scenes driven by a fixed-timestep
//! scheduler, with key bindings that turn raw key codes into abstract input
//! events.

pub mod driver;
pub mod input;
pub mod scene;
pub mod stack;
pub mod world;

pub use driver::{handle_key, Scheduler};
pub use input::{create_input_binding, InputBinding, InputEffectTracker, InputEvent};
pub use scene::{EncounterScene, Fade, FadeStyle, MainScene, Menu, Scene, SceneError, SceneSwitch};
pub use stack::{opening_stack, Layer, SceneStack, StackError};
pub use world::{SceneState, World};
