use vstd::prelude::*;

verus! {

#[derive(Copy, Clone, Debug, PartialEq, Eq, Structural)]
pub enum InputAction {
    MoveLeft,
    MoveRight,
    MoveForward,
    MoveBackward,
    Afterburner,
    Bullet,
    Bomb,
    Mine,
    Thor,
    Repel,
    Burst,
    Rocket,
    Brick,
    Multifire,
    Antiwarp,
    Stealth,
    Cloak,
    XRadar,
    Warp,
    Portal,
    Decoy,
    Attach,
    StatboxCycle,
    StatboxUp,
    StatboxDown,
    FullRadar,
}

/// The bit of an action in the key state words.
pub open spec fn action_index(a: InputAction) -> u64 {
    match a {
        InputAction::MoveLeft => 0,
        InputAction::MoveRight => 1,
        InputAction::MoveForward => 2,
        InputAction::MoveBackward => 3,
        InputAction::Afterburner => 4,
        InputAction::Bullet => 5,
        InputAction::Bomb => 6,
        InputAction::Mine => 7,
        InputAction::Thor => 8,
        InputAction::Repel => 9,
        InputAction::Burst => 10,
        InputAction::Rocket => 11,
        InputAction::Brick => 12,
        InputAction::Multifire => 13,
        InputAction::Antiwarp => 14,
        InputAction::Stealth => 15,
        InputAction::Cloak => 16,
        InputAction::XRadar => 17,
        InputAction::Warp => 18,
        InputAction::Portal => 19,
        InputAction::Decoy => 20,
        InputAction::Attach => 21,
        InputAction::StatboxCycle => 22,
        InputAction::StatboxUp => 23,
        InputAction::StatboxDown => 24,
        InputAction::FullRadar => 25,
    }
}

impl InputAction {
    pub fn index(&self) -> (r: u64)
        ensures
            r == action_index(*self),
            r < 26,
    {
        match self {
            InputAction::MoveLeft => 0,
            InputAction::MoveRight => 1,
            InputAction::MoveForward => 2,
            InputAction::MoveBackward => 3,
            InputAction::Afterburner => 4,
            InputAction::Bullet => 5,
            InputAction::Bomb => 6,
            InputAction::Mine => 7,
            InputAction::Thor => 8,
            InputAction::Repel => 9,
            InputAction::Burst => 10,
            InputAction::Rocket => 11,
            InputAction::Brick => 12,
            InputAction::Multifire => 13,
            InputAction::Antiwarp => 14,
            InputAction::Stealth => 15,
            InputAction::Cloak => 16,
            InputAction::XRadar => 17,
            InputAction::Warp => 18,
            InputAction::Portal => 19,
            InputAction::Decoy => 20,
            InputAction::Attach => 21,
            InputAction::StatboxCycle => 22,
            InputAction::StatboxUp => 23,
            InputAction::StatboxDown => 24,
            InputAction::FullRadar => 25,
        }
    }
}

#[derive(Copy, Clone, Debug, PartialEq, Eq, Structural)]
pub enum InputModifier {
    Control,
    Shift,
    Alt,
}

/// The bit of a modifier in a modifier set.
pub open spec fn modifier_bit(m: InputModifier) -> u8 {
    match m {
        InputModifier::Control => 1,
        InputModifier::Shift => 2,
        InputModifier::Alt => 4,
    }
}

fn modifier_mask(m: InputModifier) -> (r: u8)
    ensures
        r == modifier_bit(m),
{
    match m {
        InputModifier::Control => 1,
        InputModifier::Shift => 2,
        InputModifier::Alt => 4,
    }
}

/// A set of held modifier keys, one bit each.
#[derive(Copy, Clone, Debug, PartialEq, Eq, Structural)]
pub struct InputModifierSet {
    pub states: u8,
}

/// Number of set bits among the low `n` bits of `s`.
pub open spec fn bit_count(s: u8, n: nat) -> nat
    decreases n,
{
    if n == 0 {
        0
    } else {
        bit_count(s, (n - 1) as nat) + if s & (1u8 << ((n - 1) as u8)) != 0 { 1nat } else { 0nat }
    }
}

/// The low `i` bits of `x`.
pub open spec fn low_bits(x: u8, i: u8) -> u8 {
    ((x as u32) & (((1u32 << i) - 1u32) as u32)) as u8
}

proof fn lemma_low_bits_step(x: u8, i: u8)
    requires
        i < 8,
    ensures
        x & (1u8 << i) != 0 ==> low_bits(x, (i + 1) as u8) == low_bits(x, i) | (1u8 << i),
        x & (1u8 << i) == 0 ==> low_bits(x, (i + 1) as u8) == low_bits(x, i),
        low_bits(x, 0) == 0,
        low_bits(x, 8) == x,
{
    assert(x & (1u8 << i) != 0 ==> (((x as u32) & (((1u32 << ((i + 1) as u8)) - 1u32) as u32)) as u8)
        == (((x as u32) & (((1u32 << i) - 1u32) as u32)) as u8) | (1u8 << i)) by (bit_vector)
        requires
            i < 8;
    assert(x & (1u8 << i) == 0 ==> (((x as u32) & (((1u32 << ((i + 1) as u8)) - 1u32) as u32)) as u8)
        == (((x as u32) & (((1u32 << i) - 1u32) as u32)) as u8)) by (bit_vector)
        requires
            i < 8;
    assert((((x as u32) & (((1u32 << 0u8) - 1u32) as u32)) as u8) == 0) by (bit_vector);
    assert((((x as u32) & (((1u32 << 8u8) - 1u32) as u32)) as u8) == x) by (bit_vector);
}

impl InputModifierSet {
    pub fn empty() -> (r: InputModifierSet)
        ensures
            r.states == 0,
    {
        InputModifierSet { states: 0 }
    }

    /// The set holding only `modifier`.
    pub fn with(modifier: InputModifier) -> (r: InputModifierSet)
        ensures
            r.states == modifier_bit(modifier),
    {
        let mut result = InputModifierSet { states: 0 };
        result.set(modifier);
        assert(0u8 | 1u8 == 1u8 && 0u8 | 2u8 == 2u8 && 0u8 | 4u8 == 4u8) by (bit_vector);
        result
    }

    pub fn set(&mut self, modifier: InputModifier)
        ensures
            final(self).states == old(self).states | modifier_bit(modifier),
    {
        self.states = self.states | modifier_mask(modifier);
    }

    pub fn erase(&mut self, modifier: InputModifier)
        ensures
            final(self).states == old(self).states & !modifier_bit(modifier),
    {
        self.states = self.states & !modifier_mask(modifier);
    }

    pub fn is_set(&self, modifier: InputModifier) -> (r: bool)
        ensures
            r == (self.states & modifier_bit(modifier) != 0),
    {
        self.states & modifier_mask(modifier) != 0
    }

    /// The modifiers held in both sets.
    pub fn union(&self, other: Self) -> (r: InputModifierSet)
        ensures
            r.states == self.states & other.states,
    {
        let mut overlap = InputModifierSet::empty();
        let ghost both = self.states & other.states;
        let mut i: u8 = 0;
        proof {
            lemma_low_bits_step(both, 0);
        }
        while i < 8
            invariant
                i <= 8,
                both == self.states & other.states,
                overlap.states == low_bits(both, i),
            decreases 8 - i,
        {
            proof {
                lemma_low_bits_step(both, i);
                let a = self.states;
                let b = other.states;
                assert((a & (1u8 << i) != 0 && b & (1u8 << i) != 0) == ((a & b) & (1u8 << i) != 0)) by (bit_vector)
                    requires
                        i < 8;
            }
            if self.states & (1 << i) != 0 && other.states & (1 << i) != 0 {
                overlap.states = overlap.states | (1 << i);
            }
            i = i + 1;
        }
        proof {
            lemma_low_bits_step(both, 0);
        }
        overlap
    }

    /// Number of modifiers in the set.
    pub fn count(&self) -> (r: usize)
        ensures
            r == bit_count(self.states, 8),
    {
        let mut count: usize = 0;
        let mut i: u8 = 0;
        while i < 8
            invariant
                i <= 8,
                count == bit_count(self.states, i as nat),
                count <= i,
            decreases 8 - i,
        {
            if self.states & (1 << i) != 0 {
                count = count + 1;
            }
            i = i + 1;
        }
        count
    }
}

/// Which actions are held and which were just pressed, one bit each.
pub struct InputState {
    pub down_states: u64,
    pub trigger_states: u64,
    pub modifier_down_states: InputModifierSet,
    pub modifier_trigger_states: InputModifierSet,
}

/// The bit of an action in a state word.
pub open spec fn action_bit(a: InputAction) -> u64 {
    1u64 << action_index(a)
}

impl InputState {
    /// The action was pressed in this tick.
    pub open spec fn triggered(&self, a: InputAction) -> bool {
        self.trigger_states & action_bit(a) != 0
    }

    /// The action's key is held.
    pub open spec fn held(&self, a: InputAction) -> bool {
        self.down_states & action_bit(a) != 0
    }

    pub fn new() -> (r: InputState)
        ensures
            r.down_states == 0 && r.trigger_states == 0,
            r.modifier_down_states.states == 0 && r.modifier_trigger_states.states == 0,
    {
        InputState {
            down_states: 0,
            trigger_states: 0,
            modifier_down_states: InputModifierSet::empty(),
            modifier_trigger_states: InputModifierSet::empty(),
        }
    }

    /// The action was pressed in this tick (key repeats count again).
    pub fn is_triggered(&self, action: InputAction) -> (r: bool)
        ensures
            r == (self.trigger_states & action_bit(action) != 0),
    {
        let index = action.index();
        self.trigger_states & (1 << index) != 0
    }

    /// The action's key is held.
    pub fn is_down(&self, action: InputAction) -> (r: bool)
        ensures
            r == (self.down_states & action_bit(action) != 0),
    {
        let index = action.index();
        self.down_states & (1 << index) != 0
    }

    pub fn is_modifier_down(&self, modifier: InputModifier) -> (r: bool)
        ensures
            r == (self.modifier_down_states.states & modifier_bit(modifier) != 0),
    {
        self.modifier_down_states.is_set(modifier)
    }

    pub fn is_modifier_triggered(&self, modifier: InputModifier) -> (r: bool)
        ensures
            r == (self.modifier_trigger_states.states & modifier_bit(modifier) != 0),
    {
        self.modifier_trigger_states.is_set(modifier)
    }

    pub fn clear_triggered(&mut self)
        ensures
            final(self).trigger_states == 0,
            final(self).modifier_trigger_states.states == 0,
            final(self).down_states == old(self).down_states,
            final(self).modifier_down_states == old(self).modifier_down_states,
    {
        self.trigger_states = 0;
        self.modifier_trigger_states.states = 0;
    }

    pub fn set_triggered(&mut self, action: InputAction)
        ensures
            final(self).trigger_states == old(self).trigger_states | action_bit(action),
            final(self).down_states == old(self).down_states,
            final(self).modifier_down_states == old(self).modifier_down_states,
            final(self).modifier_trigger_states == old(self).modifier_trigger_states,
    {
        let index = action.index();
        self.trigger_states = self.trigger_states | (1 << index);
    }

    pub fn set_down(&mut self, action: InputAction, pressed: bool)
        ensures
            final(self).down_states == (if pressed {
                old(self).down_states | action_bit(action)
            } else {
                old(self).down_states & !action_bit(action)
            }),
            final(self).trigger_states == old(self).trigger_states,
            final(self).modifier_down_states == old(self).modifier_down_states,
            final(self).modifier_trigger_states == old(self).modifier_trigger_states,
    {
        let index = action.index();
        if pressed {
            self.down_states = self.down_states | (1 << index);
        } else {
            self.down_states = self.down_states & !(1 << index);
        }
    }

    pub fn set_modifier_down(&mut self, modifier: InputModifier, pressed: bool)
        ensures
            final(self).modifier_down_states.states == (if pressed {
                old(self).modifier_down_states.states | modifier_bit(modifier)
            } else {
                old(self).modifier_down_states.states & !modifier_bit(modifier)
            }),
            final(self).down_states == old(self).down_states,
            final(self).trigger_states == old(self).trigger_states,
            final(self).modifier_trigger_states == old(self).modifier_trigger_states,
    {
        if pressed {
            self.modifier_down_states.set(modifier);
        } else {
            self.modifier_down_states.erase(modifier);
        }
    }

    pub fn set_modifier_triggered(&mut self, modifier: InputModifier)
        ensures
            final(self).modifier_trigger_states.states == old(self).modifier_trigger_states.states | modifier_bit(modifier),
            final(self).down_states == old(self).down_states,
            final(self).trigger_states == old(self).trigger_states,
            final(self).modifier_down_states == old(self).modifier_down_states,
    {
        self.modifier_trigger_states.set(modifier);
    }

    pub fn get_modifier_down_set(&self) -> (r: InputModifierSet)
        ensures
            r == self.modifier_down_states,
    {
        self.modifier_down_states
    }
}

/// A key of the keyboard, by its position. Keys the client gives no
/// meaning to are `Unidentified`.
#[derive(Copy, Clone, Debug, PartialEq, Eq, Structural)]
pub enum KeyCode {
    AltLeft,
    AltRight,
    ArrowDown,
    ArrowLeft,
    ArrowRight,
    ArrowUp,
    Backquote,
    Backslash,
    BracketLeft,
    BracketRight,
    Comma,
    ControlLeft,
    ControlRight,
    Delete,
    Digit0,
    Digit1,
    Digit2,
    Digit3,
    Digit4,
    Digit5,
    Digit6,
    Digit7,
    Digit8,
    Digit9,
    End,
    Enter,
    Equal,
    Escape,
    F1,
    F2,
    F3,
    F4,
    F5,
    F6,
    F7,
    F8,
    F10,
    Home,
    Insert,
    IntlBackslash,
    KeyA,
    KeyB,
    KeyC,
    KeyD,
    KeyE,
    KeyF,
    KeyG,
    KeyH,
    KeyI,
    KeyJ,
    KeyK,
    KeyL,
    KeyM,
    KeyN,
    KeyO,
    KeyP,
    KeyQ,
    KeyR,
    KeyS,
    KeyT,
    KeyU,
    KeyV,
    KeyW,
    KeyX,
    KeyY,
    KeyZ,
    Minus,
    Numpad0,
    Numpad1,
    Numpad2,
    Numpad3,
    Numpad4,
    Numpad5,
    Numpad6,
    Numpad7,
    Numpad8,
    Numpad9,
    NumpadBackspace,
    NumpadComma,
    NumpadDivide,
    NumpadEnter,
    NumpadEqual,
    NumpadHash,
    NumpadParenLeft,
    NumpadParenRight,
    NumpadStar,
    NumpadSubtract,
    PageDown,
    PageUp,
    Period,
    Quote,
    Semicolon,
    ShiftLeft,
    ShiftRight,
    Slash,
    Space,
    Tab,
    Unidentified,
}

/// Keys that type text into the chat line.
pub open spec fn is_text_key(code: KeyCode) -> bool {
    match code {
        KeyCode::Backquote | KeyCode::Backslash | KeyCode::BracketLeft | KeyCode::BracketRight | KeyCode::Comma | KeyCode::Digit0 | KeyCode::Digit1 | KeyCode::Digit2 | KeyCode::Digit3 | KeyCode::Digit4 | KeyCode::Digit5 | KeyCode::Digit6 | KeyCode::Digit7 | KeyCode::Digit8 | KeyCode::Digit9 | KeyCode::Equal | KeyCode::IntlBackslash | KeyCode::KeyA | KeyCode::KeyB | KeyCode::KeyC | KeyCode::KeyD | KeyCode::KeyE | KeyCode::KeyF | KeyCode::KeyG | KeyCode::KeyH | KeyCode::KeyI | KeyCode::KeyJ | KeyCode::KeyK | KeyCode::KeyL | KeyCode::KeyM | KeyCode::KeyN | KeyCode::KeyO | KeyCode::KeyP | KeyCode::KeyQ | KeyCode::KeyR | KeyCode::KeyS | KeyCode::KeyT | KeyCode::KeyU | KeyCode::KeyV | KeyCode::KeyW | KeyCode::KeyX | KeyCode::KeyY | KeyCode::KeyZ | KeyCode::Minus | KeyCode::Period | KeyCode::Quote | KeyCode::Semicolon | KeyCode::Slash | KeyCode::Enter | KeyCode::Space | KeyCode::Numpad0 | KeyCode::Numpad1 | KeyCode::Numpad2 | KeyCode::Numpad3 | KeyCode::Numpad4 | KeyCode::Numpad5 | KeyCode::Numpad6 | KeyCode::Numpad7 | KeyCode::Numpad8 | KeyCode::Numpad9 | KeyCode::NumpadBackspace | KeyCode::NumpadComma | KeyCode::NumpadDivide | KeyCode::NumpadEnter | KeyCode::NumpadEqual | KeyCode::NumpadHash | KeyCode::NumpadParenLeft | KeyCode::NumpadParenRight | KeyCode::NumpadStar | KeyCode::NumpadSubtract => true,
        _ => false,
    }
}

/// Whether the key types text into the chat line.
pub fn is_input_keycode(code: KeyCode) -> (r: bool)
    ensures
        r == is_text_key(code),
{
    match code {
        KeyCode::Backquote | KeyCode::Backslash | KeyCode::BracketLeft | KeyCode::BracketRight | KeyCode::Comma | KeyCode::Digit0 | KeyCode::Digit1 | KeyCode::Digit2 | KeyCode::Digit3 | KeyCode::Digit4 | KeyCode::Digit5 | KeyCode::Digit6 | KeyCode::Digit7 | KeyCode::Digit8 | KeyCode::Digit9 | KeyCode::Equal | KeyCode::IntlBackslash | KeyCode::KeyA | KeyCode::KeyB | KeyCode::KeyC | KeyCode::KeyD | KeyCode::KeyE | KeyCode::KeyF | KeyCode::KeyG | KeyCode::KeyH | KeyCode::KeyI | KeyCode::KeyJ | KeyCode::KeyK | KeyCode::KeyL | KeyCode::KeyM | KeyCode::KeyN | KeyCode::KeyO | KeyCode::KeyP | KeyCode::KeyQ | KeyCode::KeyR | KeyCode::KeyS | KeyCode::KeyT | KeyCode::KeyU | KeyCode::KeyV | KeyCode::KeyW | KeyCode::KeyX | KeyCode::KeyY | KeyCode::KeyZ | KeyCode::Minus | KeyCode::Period | KeyCode::Quote | KeyCode::Semicolon | KeyCode::Slash | KeyCode::Enter | KeyCode::Space | KeyCode::Numpad0 | KeyCode::Numpad1 | KeyCode::Numpad2 | KeyCode::Numpad3 | KeyCode::Numpad4 | KeyCode::Numpad5 | KeyCode::Numpad6 | KeyCode::Numpad7 | KeyCode::Numpad8 | KeyCode::Numpad9 | KeyCode::NumpadBackspace | KeyCode::NumpadComma | KeyCode::NumpadDivide | KeyCode::NumpadEnter | KeyCode::NumpadEqual | KeyCode::NumpadHash | KeyCode::NumpadParenLeft | KeyCode::NumpadParenRight | KeyCode::NumpadStar | KeyCode::NumpadSubtract => true,
        _ => false,
    }
}

/// The actions bound to one key, each with the modifiers it wants held.
pub struct KeyActionSet {
    pub actions: Vec<(InputAction, InputModifierSet)>,
}

impl KeyActionSet {
    pub fn new() -> (r: KeyActionSet)
        ensures
            r.actions@.len() == 0,
    {
        KeyActionSet { actions: Vec::new() }
    }

    pub fn insert(&mut self, action: InputAction, modifiers: InputModifierSet)
        ensures
            final(self).actions@ == old(self).actions@.push((action, modifiers)),
    {
        self.actions.push((action, modifiers));
    }
}

/// The bindings: for each key, its actions in the order they were bound.
pub type Bindings = Seq<(KeyCode, Seq<(InputAction, InputModifierSet)>)>;

/// The position of `code` among the bound keys, or the number of keys.
pub open spec fn key_pos(b: Bindings, code: KeyCode, from: int) -> int
    decreases b.len() - from,
{
    if from >= b.len() || from < 0 {
        b.len() as int
    } else if b[from].0 == code {
        from
    } else {
        key_pos(b, code, from + 1)
    }
}

/// The bindings after `action` is bound to `code` with `modifiers`.
pub open spec fn bound(b: Bindings, code: KeyCode, modifiers: InputModifierSet, action: InputAction) -> Bindings {
    let k = key_pos(b, code, 0);
    if k < b.len() {
        b.update(k, (code, b[k].1.push((action, modifiers))))
    } else {
        b.push((code, seq![(action, modifiers)]))
    }
}

/// The bindings after the first `n` of `list` are made, in order.
pub open spec fn bound_all(b: Bindings, list: Seq<(KeyCode, u8, InputAction)>, n: int) -> Bindings
    decreases n,
{
    if n <= 0 {
        b
    } else {
        let (code, m, action) = list[n - 1];
        bound(bound_all(b, list, n - 1), code, InputModifierSet { states: m }, action)
    }
}

/// The standard key bindings: key, modifier bits, action.
pub open spec fn default_bindings() -> Seq<(KeyCode, u8, InputAction)> {
    seq![
        (KeyCode::ArrowLeft, 0, InputAction::MoveLeft),
        (KeyCode::ArrowRight, 0, InputAction::MoveRight),
        (KeyCode::ArrowUp, 0, InputAction::MoveForward),
        (KeyCode::ArrowDown, 0, InputAction::MoveBackward),
        (KeyCode::AltLeft, 0, InputAction::FullRadar),
        (KeyCode::AltRight, 0, InputAction::FullRadar),
        (KeyCode::PageDown, 0, InputAction::StatboxDown),
        (KeyCode::PageUp, 0, InputAction::StatboxUp),
        (KeyCode::F2, 0, InputAction::StatboxCycle),
        (KeyCode::ShiftLeft, 0, InputAction::Afterburner),
        (KeyCode::ShiftRight, 0, InputAction::Afterburner),
        (KeyCode::ControlLeft, 0, InputAction::Bullet),
        (KeyCode::ControlRight, 0, InputAction::Bullet),
        (KeyCode::Tab, 0, InputAction::Bomb),
        (KeyCode::Tab, 2, InputAction::Mine),
        (KeyCode::F6, 0, InputAction::Thor),
        (KeyCode::ShiftLeft, 1, InputAction::Repel),
        (KeyCode::ShiftRight, 1, InputAction::Repel),
        (KeyCode::ControlLeft, 2, InputAction::Repel),
        (KeyCode::ControlRight, 2, InputAction::Repel),
        (KeyCode::Backquote, 0, InputAction::Repel),
        (KeyCode::Delete, 2, InputAction::Burst),
        (KeyCode::F3, 0, InputAction::Rocket),
        (KeyCode::F4, 0, InputAction::Brick),
        (KeyCode::Delete, 0, InputAction::Multifire),
        (KeyCode::End, 2, InputAction::Antiwarp),
        (KeyCode::Home, 0, InputAction::Stealth),
        (KeyCode::Home, 2, InputAction::Cloak),
        (KeyCode::End, 0, InputAction::XRadar),
        (KeyCode::Insert, 0, InputAction::Warp),
        (KeyCode::Insert, 2, InputAction::Portal),
        (KeyCode::F5, 0, InputAction::Decoy),
        (KeyCode::F7, 0, InputAction::Attach)
    ]
}

/// The action among `actions[i..]` chosen for the held modifiers `current`:
/// the first whose modifiers are exactly those held, else the first with the
/// most modifiers in common (`best` so far, with `best_count` in common).
pub open spec fn action_scan(
    actions: Seq<(InputAction, InputModifierSet)>,
    current: InputModifierSet,
    i: int,
    best: Option<InputAction>,
    best_count: nat,
) -> Option<InputAction>
    decreases actions.len() - i,
{
    if i >= actions.len() || i < 0 {
        best
    } else {
        let (a, m) = actions[i];
        let c = bit_count(current.states & m.states, 8);
        if m == current {
            Some(a)
        } else if best is None || c > best_count {
            action_scan(actions, current, i + 1, Some(a), c)
        } else {
            action_scan(actions, current, i + 1, best, best_count)
        }
    }
}

/// The bits of the actions in `actions[..j]` that want `modifier`.
pub open spec fn actions_mask(actions: Seq<(InputAction, InputModifierSet)>, modifier: InputModifier, j: int) -> u64
    decreases j,
{
    if j <= 0 || j > actions.len() {
        0
    } else if actions[j - 1].1.states & modifier_bit(modifier) != 0 {
        actions_mask(actions, modifier, j - 1) | action_bit(actions[j - 1].0)
    } else {
        actions_mask(actions, modifier, j - 1)
    }
}

/// The bits of all bound actions, on the first `i` keys, that want `modifier`.
pub open spec fn bindings_mask(b: Bindings, modifier: InputModifier, i: int) -> u64
    decreases i,
{
    if i <= 0 || i > b.len() {
        0
    } else {
        bindings_mask(b, modifier, i - 1) | actions_mask(b[i - 1].1, modifier, b[i - 1].1.len() as int)
    }
}

proof fn lemma_clear_step(d: u64, m: u64, bit: u64)
    ensures
        (d & !m) & !bit == d & !(m | bit),
{
    assert((d & !m) & !bit == d & !(m | bit)) by (bit_vector);
}

/// The shift, control and alt keys.
pub open spec fn is_modifier_key(code: KeyCode) -> bool {
    code is ShiftLeft || code is ShiftRight || code is ControlLeft || code is ControlRight
        || code is AltLeft || code is AltRight
}

/// Which actions each key triggers.
pub struct InputMapping {
    pub mapping: Vec<(KeyCode, KeyActionSet)>,
}

impl InputMapping {

    /// The key is one of the modifier keys: shift, control or alt.
    pub fn is_modifier_code(code: KeyCode) -> (r: bool)
        ensures
            r == is_modifier_key(code),
    {
        match code {
            KeyCode::ShiftLeft | KeyCode::ShiftRight | KeyCode::ControlLeft | KeyCode::ControlRight
            | KeyCode::AltLeft | KeyCode::AltRight => true,
            _ => false,
        }
    }
    /// The bindings, key by key.
    pub open spec fn bindings(&self) -> Bindings {
        Seq::new(self.mapping@.len(), |i: int| (self.mapping@[i].0, self.mapping@[i].1.actions@))
    }

    pub fn new() -> (r: InputMapping)
        ensures
            r.bindings().len() == 0,
    {
        InputMapping { mapping: Vec::new() }
    }

    fn find_key(&self, code: KeyCode) -> (r: usize)
        ensures
            r == key_pos(self.bindings(), code, 0),
    {
        let mut i: usize = 0;
        while i < self.mapping.len()
            invariant
                i <= self.mapping@.len(),
                key_pos(self.bindings(), code, 0) == key_pos(self.bindings(), code, i as int),
            decreases self.mapping@.len() - i,
        {
            if self.mapping[i].0 == code {
                return i;
            }
            i = i + 1;
        }
        i
    }

    /// Binds the standard keys, after whatever is bound already.
    pub fn register_defaults(&mut self)
        ensures
            final(self).bindings() == bound_all(old(self).bindings(), default_bindings(), default_bindings().len() as int),
    {
        let table: [(KeyCode, u8, InputAction); 33] = [
            (KeyCode::ArrowLeft, 0, InputAction::MoveLeft),
        (KeyCode::ArrowRight, 0, InputAction::MoveRight),
        (KeyCode::ArrowUp, 0, InputAction::MoveForward),
        (KeyCode::ArrowDown, 0, InputAction::MoveBackward),
        (KeyCode::AltLeft, 0, InputAction::FullRadar),
        (KeyCode::AltRight, 0, InputAction::FullRadar),
        (KeyCode::PageDown, 0, InputAction::StatboxDown),
        (KeyCode::PageUp, 0, InputAction::StatboxUp),
        (KeyCode::F2, 0, InputAction::StatboxCycle),
        (KeyCode::ShiftLeft, 0, InputAction::Afterburner),
        (KeyCode::ShiftRight, 0, InputAction::Afterburner),
        (KeyCode::ControlLeft, 0, InputAction::Bullet),
        (KeyCode::ControlRight, 0, InputAction::Bullet),
        (KeyCode::Tab, 0, InputAction::Bomb),
        (KeyCode::Tab, 2, InputAction::Mine),
        (KeyCode::F6, 0, InputAction::Thor),
        (KeyCode::ShiftLeft, 1, InputAction::Repel),
        (KeyCode::ShiftRight, 1, InputAction::Repel),
        (KeyCode::ControlLeft, 2, InputAction::Repel),
        (KeyCode::ControlRight, 2, InputAction::Repel),
        (KeyCode::Backquote, 0, InputAction::Repel),
        (KeyCode::Delete, 2, InputAction::Burst),
        (KeyCode::F3, 0, InputAction::Rocket),
        (KeyCode::F4, 0, InputAction::Brick),
        (KeyCode::Delete, 0, InputAction::Multifire),
        (KeyCode::End, 2, InputAction::Antiwarp),
        (KeyCode::Home, 0, InputAction::Stealth),
        (KeyCode::Home, 2, InputAction::Cloak),
        (KeyCode::End, 0, InputAction::XRadar),
        (KeyCode::Insert, 0, InputAction::Warp),
        (KeyCode::Insert, 2, InputAction::Portal),
        (KeyCode::F5, 0, InputAction::Decoy),
        (KeyCode::F7, 0, InputAction::Attach)
        ];
        assert(table@ =~= default_bindings());
        let mut i: usize = 0;
        while i < 33
            invariant
                i <= 33,
                table@ == default_bindings(),
                self.bindings() == bound_all(old(self).bindings(), default_bindings(), i as int),
            decreases 33 - i,
        {
            let (code, m, action) = table[i];
            self.register_modifier_action(code, InputModifierSet { states: m }, action);
            i = i + 1;
        }
    }

    /// The action `code` triggers with the modifiers held in `input_state`.
    pub fn get_action(&self, code: KeyCode, input_state: &InputState) -> (r: Option<InputAction>)
        ensures
            r == (if key_pos(self.bindings(), code, 0) < self.bindings().len() {
                action_scan(self.bindings()[key_pos(self.bindings(), code, 0)].1, input_state.modifier_down_states, 0, None, 0)
            } else {
                None
            }),
    {
        let k = self.find_key(code);
        if k >= self.mapping.len() {
            return None;
        }
        let actions = &self.mapping[k].1.actions;
        let current_modifiers = input_state.get_modifier_down_set();
        let mut best_action: Option<InputAction> = None;
        let mut best_action_modifier_count: usize = 0;
        let mut i: usize = 0;
        while i < actions.len()
            invariant
                i <= actions@.len(),
                k == key_pos(self.bindings(), code, 0),
                k < self.mapping@.len(),
                actions@ == self.bindings()[k as int].1,
                current_modifiers == input_state.modifier_down_states,
                action_scan(actions@, current_modifiers, 0, None, 0)
                    == action_scan(actions@, current_modifiers, i as int, best_action, best_action_modifier_count as nat),
                best_action_modifier_count <= 8,
            decreases actions@.len() - i,
        {
            let (action, modifier_set) = actions[i];
            let modifier_count = current_modifiers.union(modifier_set).count();
            proof {
                lemma_bit_count_bound(current_modifiers.states & modifier_set.states, 8);
            }
            if best_action.is_none() || modifier_count > best_action_modifier_count {
                best_action = Some(action);
                best_action_modifier_count = modifier_count;
            }
            if modifier_set == current_modifiers {
                return Some(action);
            }
            i = i + 1;
        }
        best_action
    }

    /// Lets go of every action whose binding wants `modifier`.
    pub fn clear_actions_with_modifier(&self, modifier: InputModifier, input_state: &mut InputState)
        ensures
            final(input_state).down_states == old(input_state).down_states
                & !bindings_mask(self.bindings(), modifier, self.bindings().len() as int),
            final(input_state).trigger_states == old(input_state).trigger_states,
            final(input_state).modifier_down_states == old(input_state).modifier_down_states,
            final(input_state).modifier_trigger_states == old(input_state).modifier_trigger_states,
    {
        let ghost d0 = input_state.down_states;
        let mut i: usize = 0;
        proof {
            assert(d0 & !0u64 == d0) by (bit_vector);
        }
        while i < self.mapping.len()
            invariant
                i <= self.mapping@.len(),
                input_state.down_states == d0 & !bindings_mask(self.bindings(), modifier, i as int),
                input_state.trigger_states == old(input_state).trigger_states,
                input_state.modifier_down_states == old(input_state).modifier_down_states,
                input_state.modifier_trigger_states == old(input_state).modifier_trigger_states,
                d0 == old(input_state).down_states,
            decreases self.mapping@.len() - i,
        {
            let actions = &self.mapping[i].1.actions;
            let ghost m_before = bindings_mask(self.bindings(), modifier, i as int);
            let mut j: usize = 0;
            proof {
                let z = 0u64;
                assert(m_before | z == m_before) by (bit_vector)
                    requires
                        z == 0u64;
            }
            while j < actions.len()
                invariant
                    j <= actions@.len(),
                    i < self.mapping@.len(),
                    actions@ == self.bindings()[i as int].1,
                    input_state.down_states == d0 & !(m_before | actions_mask(actions@, modifier, j as int)),
                    input_state.trigger_states == old(input_state).trigger_states,
                    input_state.modifier_down_states == old(input_state).modifier_down_states,
                    input_state.modifier_trigger_states == old(input_state).modifier_trigger_states,
                decreases actions@.len() - j,
            {
                let (action, modifier_set) = actions[j];
                if modifier_set.is_set(modifier) {
                    let ghost before = input_state.down_states;
                    input_state.set_down(action, false);
                    proof {
                        let m1 = m_before | actions_mask(actions@, modifier, j as int);
                        lemma_clear_step(d0, m1, action_bit(action));
                        let a = actions_mask(actions@, modifier, j as int);
                        let bit = action_bit(action);
                        assert((m_before | a) | bit == m_before | (a | bit)) by (bit_vector);
                    }
                }
                j = j + 1;
            }
            i = i + 1;
        }
    }

    /// Binds `action` to `code` with no modifier.
    pub fn register_action(&mut self, code: KeyCode, action: InputAction)
        ensures
            final(self).bindings() == bound(old(self).bindings(), code, InputModifierSet { states: 0 }, action),
    {
        self.register_modifier_action(code, InputModifierSet::empty(), action);
    }

    /// Binds `action` to `code`, to be triggered with `modifiers` held.
    pub fn register_modifier_action(&mut self, code: KeyCode, modifiers: InputModifierSet, action: InputAction)
        ensures
            final(self).bindings() == bound(old(self).bindings(), code, modifiers, action),
    {
        let k = self.find_key(code);
        let ghost b0 = self.bindings();
        let ghost m0 = self.mapping@;
        proof {
            lemma_key_pos(b0, code, 0);
        }
        if k < self.mapping.len() {
            self.mapping[k].1.insert(action, modifiers);
            proof {
                assert forall|i: int| 0 <= i < b0.len() && i != k implies self.mapping@[i] == m0[i] by {}
                assert(self.mapping@[k as int].0 == code);
                assert(self.bindings() =~= b0.update(k as int, (code, b0[k as int].1.push((action, modifiers)))));
            }
        } else {
            let mut key_set = KeyActionSet::new();
            key_set.insert(action, modifiers);
            self.mapping.push((code, key_set));
            proof {
                assert(key_set.actions@ =~= seq![(action, modifiers)]);
                assert(self.bindings() =~= b0.push((code, seq![(action, modifiers)])));
            }
        }
    }
}

proof fn lemma_key_pos(b: Bindings, code: KeyCode, from: int)
    requires
        0 <= from,
    ensures
        from <= key_pos(b, code, from) <= b.len() || (from > b.len() && key_pos(b, code, from) == b.len()),
        key_pos(b, code, from) < b.len() ==> b[key_pos(b, code, from)].0 == code,
    decreases b.len() - from,
{
    if from < b.len() && b[from].0 != code {
        lemma_key_pos(b, code, from + 1);
    }
}

proof fn lemma_bit_count_bound(s: u8, n: nat)
    ensures
        bit_count(s, n) <= n,
    decreases n,
{
    if n > 0 {
        lemma_bit_count_bound(s, (n - 1) as nat);
    }
}

/// A held modifier reads as held; releasing it reads as not held; and
/// holding or releasing one modifier leaves the others as they were.
pub proof fn lemma_modifier_set_erase(states: u8, m: InputModifier, other: InputModifier)
    ensures
        (states | modifier_bit(m)) & modifier_bit(m) != 0,
        (states & !modifier_bit(m)) & modifier_bit(m) == 0,
        other != m ==> ((states | modifier_bit(m)) & modifier_bit(other) != 0) == (states & modifier_bit(other) != 0),
        other != m ==> ((states & !modifier_bit(m)) & modifier_bit(other) != 0) == (states & modifier_bit(other) != 0),
{
    let b = modifier_bit(m);
    let c = modifier_bit(other);
    assert(b == 1 || b == 2 || b == 4);
    assert(other != m ==> c != b);
    assert({
        &&& (states | b) & b != 0
        &&& (states & !b) & b == 0
        &&& c != b ==> ((states | b) & c != 0) == (states & c != 0)
        &&& c != b ==> ((states & !b) & c != 0) == (states & c != 0)
    }) by (bit_vector)
        requires (b == 1u8 || b == 2u8 || b == 4u8) && (c == 1u8 || c == 2u8 || c == 4u8);
}

/// A pressed action reads as down; a released one as not down; and
/// pressing or releasing one action leaves the others as they were.
pub proof fn lemma_action_press_release(states: u64, a: InputAction, other: InputAction)
    ensures
        (states | action_bit(a)) & action_bit(a) != 0,
        (states & !action_bit(a)) & action_bit(a) == 0,
        action_index(other) != action_index(a) ==>
            ((states | action_bit(a)) & action_bit(other) != 0) == (states & action_bit(other) != 0),
        action_index(other) != action_index(a) ==>
            ((states & !action_bit(a)) & action_bit(other) != 0) == (states & action_bit(other) != 0),
{
    let i = action_index(a) as u64;
    let j = action_index(other) as u64;
    assert(i < 64 && j < 64);
    assert({
        &&& (states | (1u64 << i)) & (1u64 << i) != 0
        &&& (states & !(1u64 << i)) & (1u64 << i) == 0
        &&& i != j ==> ((states | (1u64 << i)) & (1u64 << j) != 0) == (states & (1u64 << j) != 0)
        &&& i != j ==> ((states & !(1u64 << i)) & (1u64 << j) != 0) == (states & (1u64 << j) != 0)
    }) by (bit_vector)
        requires i < 64 && j < 64;
}

} // verus!
