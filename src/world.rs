use vstd::prelude::*;

use crate::input::InputEffectTracker;

verus! {

/// Game mode recorded on the shared context.
#[derive(Clone, Copy, Debug, PartialEq, Eq, Structural)]
pub enum SceneState {
    Menu,
    Practice,
    Encounter,
}

/// Shared context that the scene stack owns and lends to each scene call.
pub struct World {
    pub scene: SceneState,
    pub next_scene: SceneState,
    pub input: InputEffectTracker,
}

impl World {
    pub open spec fn wf(&self) -> bool {
        self.input.wf()
    }

    /// A context in menu mode with no transition requested and no input held.
    pub fn new() -> (r: World)
        ensures
            r.wf(),
            r.scene == SceneState::Menu,
            r.next_scene == SceneState::Menu,
            forall|i: int| 0 <= i < r.input@.len() ==> r.input@[i] == (false, 0u64),
    {
        World { scene: SceneState::Menu, next_scene: SceneState::Menu, input: InputEffectTracker::new() }
    }
}

} // verus!
