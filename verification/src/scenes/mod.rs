pub mod keybind_scene;
pub mod menu_scene;

use vstd::prelude::*;

verus! {

/// What a scene asks of the scene stack after a key: nothing more, or to
/// close the scene.
#[derive(Copy, Clone, Debug, PartialEq, Eq)]
pub enum SceneKeyAction {
    Ignore,
    PopScene,
}

} // verus!
