use vstd::prelude::*;
use vstd::string::StrSliceExecFns;

use crate::input::{
    is_modifier_key, modifier_bit, InputAction, InputMapping, InputModifier, InputModifierSet,
    InputState, KeyCode,
};
use crate::scenes::SceneKeyAction;

verus! {

/// A page of the key binding screen: its title and the actions it lists.
pub struct KeybindTab {
    pub title: String,
    pub actions: Vec<InputAction>,
}

/// A binding being recorded: the row it is for and the modifiers pressed
/// so far.
#[derive(Copy, Clone, Debug)]
pub struct RecordingState {
    pub index: usize,
    pub modifiers: InputModifierSet,
}

/// An action's binding: its key and the modifiers it wants held.
pub type Binding = (InputAction, KeyCode, InputModifierSet);

/// The key and modifiers bound to `a`; a later entry overrides an earlier.
pub open spec fn binding_of(s: Seq<Binding>, a: InputAction) -> Option<(KeyCode, InputModifierSet)>
    decreases s.len(),
{
    if s.len() == 0 {
        None
    } else if s.last().0 == a {
        Some((s.last().1, s.last().2))
    } else {
        binding_of(s.drop_last(), a)
    }
}

/// The bindings without those of `a`.
pub open spec fn without_action(s: Seq<Binding>, a: InputAction) -> Seq<Binding>
    decreases s.len(),
{
    if s.len() == 0 {
        s
    } else if s.last().0 == a {
        without_action(s.drop_last(), a)
    } else {
        without_action(s.drop_last(), a).push(s.last())
    }
}

proof fn lemma_without_action(s: Seq<Binding>, a: InputAction, b: InputAction)
    ensures
        binding_of(without_action(s, a), b) == if b == a { None } else { binding_of(s, b) },
    decreases s.len(),
{
    if s.len() > 0 {
        lemma_without_action(s.drop_last(), a, b);
        if s.last().0 != a {
            let w = without_action(s.drop_last(), a);
            assert(w.push(s.last()).drop_last() =~= w);
        }
    }
}

/// The key binding screen: the bindings being edited, its pages, the row
/// selected, and the binding being recorded, if any.
pub struct KeybindScene {
    pub mapping: Vec<Binding>,
    pub tabs: Vec<KeybindTab>,
    pub active_tab: usize,
    pub active_index: usize,
    pub recording: Option<RecordingState>,
}

impl KeybindScene {
    /// The selection points at a row of a page, and every page lists an
    /// action.
    pub open spec fn wf(&self) -> bool {
        &&& self.tabs@.len() > 0
        &&& forall|t: int| 0 <= t < self.tabs@.len() ==> (#[trigger] self.tabs@[t]).actions@.len() > 0
        &&& self.active_tab < self.tabs@.len()
        &&& self.active_index < self.tabs@[self.active_tab as int].actions@.len()
    }

    /// The action of the selected row.
    pub open spec fn selected_action(&self) -> InputAction {
        self.tabs@[self.active_tab as int].actions@[self.active_index as int]
    }

    /// The screen over `mapping`, each action's binding, on the first row of
    /// its first page: movement, weapons, toggles, actions and the rest.
    pub fn new(mapping: Vec<Binding>) -> (r: KeybindScene)
        ensures
            r.wf(),
            r.mapping@ == mapping@,
            r.active_tab == 0 && r.active_index == 0,
            r.recording is None,
            r.tabs@.len() == 5,
            r.tabs@[0].title@ == "Movement"@ && r.tabs@[0].actions@ == seq![InputAction::MoveLeft,
                InputAction::MoveRight, InputAction::MoveForward, InputAction::MoveBackward, InputAction::Afterburner],
            r.tabs@[1].title@ == "Weapons"@ && r.tabs@[1].actions@ == seq![InputAction::Bomb,
                InputAction::Bullet, InputAction::Mine, InputAction::Thor, InputAction::Burst],
            r.tabs@[2].title@ == "Toggles"@ && r.tabs@[2].actions@ == seq![InputAction::Multifire,
                InputAction::Antiwarp, InputAction::Stealth, InputAction::Cloak, InputAction::XRadar],
            r.tabs@[3].title@ == "Actions"@ && r.tabs@[3].actions@ == seq![InputAction::Repel,
                InputAction::Warp, InputAction::Portal, InputAction::Decoy, InputAction::Rocket,
                InputAction::Brick, InputAction::Attach],
            r.tabs@[4].title@ == "Misc"@ && r.tabs@[4].actions@ == seq![InputAction::StatboxCycle,
                InputAction::StatboxUp, InputAction::StatboxDown, InputAction::FullRadar],
    {
        let mut tabs: Vec<KeybindTab> = Vec::new();
        tabs.push(KeybindTab {
            title: String::from_str("Movement"),
            actions: vec![
                InputAction::MoveLeft,
                InputAction::MoveRight,
                InputAction::MoveForward,
                InputAction::MoveBackward,
                InputAction::Afterburner,
            ],
        });
        tabs.push(KeybindTab {
            title: String::from_str("Weapons"),
            actions: vec![
                InputAction::Bomb,
                InputAction::Bullet,
                InputAction::Mine,
                InputAction::Thor,
                InputAction::Burst,
            ],
        });
        tabs.push(KeybindTab {
            title: String::from_str("Toggles"),
            actions: vec![
                InputAction::Multifire,
                InputAction::Antiwarp,
                InputAction::Stealth,
                InputAction::Cloak,
                InputAction::XRadar,
            ],
        });
        tabs.push(KeybindTab {
            title: String::from_str("Actions"),
            actions: vec![
                InputAction::Repel,
                InputAction::Warp,
                InputAction::Portal,
                InputAction::Decoy,
                InputAction::Rocket,
                InputAction::Brick,
                InputAction::Attach,
            ],
        });
        tabs.push(KeybindTab {
            title: String::from_str("Misc"),
            actions: vec![
                InputAction::StatboxCycle,
                InputAction::StatboxUp,
                InputAction::StatboxDown,
                InputAction::FullRadar,
            ],
        });
        proof {
            reveal_strlit("Movement");
            reveal_strlit("Weapons");
            reveal_strlit("Toggles");
            reveal_strlit("Actions");
            reveal_strlit("Misc");
        }
        KeybindScene { mapping, tabs, active_tab: 0, active_index: 0, recording: None }
    }

    /// Drops the binding of `action`.
    fn unbind(&mut self, action: InputAction)
        ensures
            final(self).mapping@ == without_action(old(self).mapping@, action),
            final(self).tabs == old(self).tabs,
            final(self).active_tab == old(self).active_tab,
            final(self).active_index == old(self).active_index,
            final(self).recording == old(self).recording,
    {
        let mut kept: Vec<Binding> = Vec::new();
        let mut i: usize = 0;
        while i < self.mapping.len()
            invariant
                i <= self.mapping@.len(),
                kept@ == without_action(self.mapping@.subrange(0, i as int), action),
            decreases self.mapping@.len() - i,
        {
            let entry = self.mapping[i];
            proof {
                assert(self.mapping@.subrange(0, i + 1).drop_last() =~= self.mapping@.subrange(0, i as int));
            }
            if entry.0 != action {
                kept.push(entry);
            }
            i = i + 1;
        }
        proof {
            assert(self.mapping@.subrange(0, self.mapping@.len() as int) =~= self.mapping@);
        }
        self.mapping = kept;
    }

    /// Binds `action` to `code` with `modifiers`, in place of its binding.
    fn bind(&mut self, action: InputAction, code: KeyCode, modifiers: InputModifierSet)
        ensures
            final(self).mapping@ == without_action(old(self).mapping@, action).push((action, code, modifiers)),
            final(self).tabs == old(self).tabs,
            final(self).active_tab == old(self).active_tab,
            final(self).active_index == old(self).active_index,
            final(self).recording == old(self).recording,
    {
        self.unbind(action);
        self.mapping.push((action, code, modifiers));
    }

    /// A key on the binding screen. While a binding is recorded, modifier
    /// presses gather modifiers, and the first other key pressed (or a
    /// modifier released) becomes the binding of the selected row; escape
    /// clears it instead. Otherwise escape or F10 closes the screen (whose
    /// bindings the caller then keeps), the arrows and page keys move
    /// between pages and rows, and enter starts recording with the
    /// modifiers held.
    pub fn handle_key(&mut self, input_state: &InputState, code: KeyCode, is_pressed: bool) -> (r: Option<SceneKeyAction>)
        requires
            old(self).wf(),
        ensures
            final(self).wf(),
            final(self).tabs == old(self).tabs,
            old(self).recording is Some || !is_pressed || !(code is Escape || code is F10) ==> r == Some(SceneKeyAction::Ignore),
            old(self).recording is None && is_pressed && (code is Escape || code is F10) ==> r == Some(SceneKeyAction::PopScene),
            match old(self).recording {
                Some(rec) => {
                    let action = old(self).selected_action();
                    &&& final(self).active_tab == old(self).active_tab
                    &&& final(self).active_index == old(self).active_index
                    &&& if !is_modifier_key(code) {
                        if is_pressed {
                            &&& final(self).recording is None
                            &&& forall|b: InputAction| #[trigger] binding_of(final(self).mapping@, b) == if b == action {
                                if code is Escape { None } else { Some((code, rec.modifiers)) }
                            } else {
                                binding_of(old(self).mapping@, b)
                            }
                        } else {
                            final(self).recording == old(self).recording && final(self).mapping@ == old(self).mapping@
                        }
                    } else if is_pressed {
                        let bit = if code is ShiftLeft || code is ShiftRight {
                            modifier_bit(InputModifier::Shift)
                        } else if code is ControlLeft || code is ControlRight {
                            modifier_bit(InputModifier::Control)
                        } else {
                            modifier_bit(InputModifier::Alt)
                        };
                        &&& final(self).recording == Some(RecordingState {
                            modifiers: InputModifierSet { states: rec.modifiers.states | bit },
                            ..rec
                        })
                        &&& final(self).mapping@ == old(self).mapping@
                    } else {
                        &&& final(self).recording is None
                        &&& forall|b: InputAction| #[trigger] binding_of(final(self).mapping@, b) == if b == action {
                            Some((code, rec.modifiers))
                        } else {
                            binding_of(old(self).mapping@, b)
                        }
                    }
                },
                None => {
                    let tab = old(self).active_tab;
                    let index = old(self).active_index;
                    let rows = old(self).tabs@[tab as int].actions@.len();
                    &&& final(self).mapping@ == old(self).mapping@
                    &&& final(self).recording == if is_pressed && code is Enter {
                        Some(RecordingState { index: index, modifiers: input_state.modifier_down_states })
                    } else {
                        None
                    }
                    &&& (final(self).active_tab, final(self).active_index) == if !is_pressed {
                        (tab, index)
                    } else {
                        match code {
                            KeyCode::ArrowLeft => if tab > 0 { ((tab - 1) as usize, 0usize) } else { (tab, index) },
                            KeyCode::ArrowRight => if tab + 1 < old(self).tabs@.len() { ((tab + 1) as usize, 0usize) } else { (tab, index) },
                            KeyCode::ArrowUp => if index > 0 { (tab, (index - 1) as usize) } else { (tab, index) },
                            KeyCode::ArrowDown => if index + 1 < rows { (tab, (index + 1) as usize) } else { (tab, index) },
                            KeyCode::PageUp => (tab, 0usize),
                            KeyCode::PageDown => (tab, (rows - 1) as usize),
                            _ => (tab, index),
                        }
                    }
                },
            },
    {
        if let Some(rec) = self.recording {
            let action = self.tabs[self.active_tab].actions[self.active_index];
            if !InputMapping::is_modifier_code(code) {
                if is_pressed {
                    if code == KeyCode::Escape {
                        self.unbind(action);
                    } else {
                        self.bind(action, code, rec.modifiers);
                    }
                    self.recording = None;
                    proof {
                        assert forall|b: InputAction| #[trigger] binding_of(self.mapping@, b) == if b == action {
                            if code is Escape { None } else { Some((code, rec.modifiers)) }
                        } else {
                            binding_of(old(self).mapping@, b)
                        } by {
                            lemma_without_action(old(self).mapping@, action, b);
                            let w = without_action(old(self).mapping@, action);
                            assert(w.push((action, code, rec.modifiers)).drop_last() =~= w);
                        }
                    }
                }
            } else {
                if is_pressed {
                    let mut modifiers = rec.modifiers;
                    match code {
                        KeyCode::ShiftLeft | KeyCode::ShiftRight => modifiers.set(InputModifier::Shift),
                        KeyCode::ControlLeft | KeyCode::ControlRight => modifiers.set(InputModifier::Control),
                        _ => modifiers.set(InputModifier::Alt),
                    }
                    self.recording = Some(RecordingState { index: rec.index, modifiers });
                } else {
                    self.bind(action, code, rec.modifiers);
                    self.recording = None;
                    proof {
                        assert forall|b: InputAction| #[trigger] binding_of(self.mapping@, b) == if b == action {
                            Some((code, rec.modifiers))
                        } else {
                            binding_of(old(self).mapping@, b)
                        } by {
                            lemma_without_action(old(self).mapping@, action, b);
                            let w = without_action(old(self).mapping@, action);
                            assert(w.push((action, code, rec.modifiers)).drop_last() =~= w);
                        }
                    }
                }
            }
            return Some(SceneKeyAction::Ignore);
        }
        if is_pressed {
            match code {
                KeyCode::Escape | KeyCode::F10 => {
                    return Some(SceneKeyAction::PopScene);
                },
                KeyCode::ArrowLeft => {
                    if self.active_tab > 0 {
                        self.active_tab = self.active_tab - 1;
                        self.active_index = 0;
                    }
                },
                KeyCode::ArrowRight => {
                    if self.active_tab < self.tabs.len() - 1 {
                        self.active_tab = self.active_tab + 1;
                        self.active_index = 0;
                    }
                },
                KeyCode::ArrowUp => {
                    if self.active_index > 0 {
                        self.active_index = self.active_index - 1;
                    }
                },
                KeyCode::ArrowDown => {
                    if self.active_index < self.tabs[self.active_tab].actions.len() - 1 {
                        self.active_index = self.active_index + 1;
                    }
                },
                KeyCode::PageUp => {
                    self.active_index = 0;
                },
                KeyCode::PageDown => {
                    self.active_index = self.tabs[self.active_tab].actions.len() - 1;
                },
                KeyCode::Enter => {
                    self.recording = Some(RecordingState {
                        index: self.active_index,
                        modifiers: input_state.get_modifier_down_set(),
                    });
                },
                _ => {},
            }
        }
        Some(SceneKeyAction::Ignore)
    }

    /// The binding screen takes part in the scene stack while it is open.
    pub fn is_active(&self) -> (r: bool)
        ensures
            r,
    {
        true
    }
}

} // verus!
