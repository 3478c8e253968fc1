//! The engine's input state: which keys and mouse buttons are held, and
//! which went down or up since the last update.
//!
//! Events reach the state through `handle_keyboard_event` and
//! `handle_mouse_button`; the pointer position is kept by the caller.

use vstd::prelude::*;
use crate::events::{Key, KeyboardEvent, MouseButton, named_key};
use crate::text::{lowercase_of, equals_str};

verus! {

broadcast use vstd::string::group_string_axioms;

/// A number for each named key, and 62 for a key without a name.
pub open spec fn key_code(k: Key) -> int {
    match k {
        Key::A => 0,
        Key::B => 1,
        Key::C => 2,
        Key::D => 3,
        Key::E => 4,
        Key::F => 5,
        Key::G => 6,
        Key::H => 7,
        Key::I => 8,
        Key::J => 9,
        Key::K => 10,
        Key::L => 11,
        Key::M => 12,
        Key::N => 13,
        Key::O => 14,
        Key::P => 15,
        Key::Q => 16,
        Key::R => 17,
        Key::S => 18,
        Key::T => 19,
        Key::U => 20,
        Key::V => 21,
        Key::W => 22,
        Key::X => 23,
        Key::Y => 24,
        Key::Z => 25,
        Key::Key0 => 26,
        Key::Key1 => 27,
        Key::Key2 => 28,
        Key::Key3 => 29,
        Key::Key4 => 30,
        Key::Key5 => 31,
        Key::Key6 => 32,
        Key::Key7 => 33,
        Key::Key8 => 34,
        Key::Key9 => 35,
        Key::F1 => 36,
        Key::F2 => 37,
        Key::F3 => 38,
        Key::F4 => 39,
        Key::F5 => 40,
        Key::F6 => 41,
        Key::F7 => 42,
        Key::F8 => 43,
        Key::F9 => 44,
        Key::F10 => 45,
        Key::F11 => 46,
        Key::F12 => 47,
        Key::Escape => 48,
        Key::Enter => 49,
        Key::Space => 50,
        Key::Tab => 51,
        Key::Backspace => 52,
        Key::Delete => 53,
        Key::ArrowUp => 54,
        Key::ArrowDown => 55,
        Key::ArrowLeft => 56,
        Key::ArrowRight => 57,
        Key::Shift => 58,
        Key::Control => 59,
        Key::Alt => 60,
        Key::Meta => 61,
        Key::Unknown(_) => 62,
    }
}

/// The named key with number `n` (0 to 61); every other number stands for
/// no named key.
pub open spec fn key_of_code(n: int) -> Option<Key> {
    if n == 0 {
        Some(Key::A)
    } else if n == 1 {
        Some(Key::B)
    } else if n == 2 {
        Some(Key::C)
    } else if n == 3 {
        Some(Key::D)
    } else if n == 4 {
        Some(Key::E)
    } else if n == 5 {
        Some(Key::F)
    } else if n == 6 {
        Some(Key::G)
    } else if n == 7 {
        Some(Key::H)
    } else if n == 8 {
        Some(Key::I)
    } else if n == 9 {
        Some(Key::J)
    } else if n == 10 {
        Some(Key::K)
    } else if n == 11 {
        Some(Key::L)
    } else if n == 12 {
        Some(Key::M)
    } else if n == 13 {
        Some(Key::N)
    } else if n == 14 {
        Some(Key::O)
    } else if n == 15 {
        Some(Key::P)
    } else if n == 16 {
        Some(Key::Q)
    } else if n == 17 {
        Some(Key::R)
    } else if n == 18 {
        Some(Key::S)
    } else if n == 19 {
        Some(Key::T)
    } else if n == 20 {
        Some(Key::U)
    } else if n == 21 {
        Some(Key::V)
    } else if n == 22 {
        Some(Key::W)
    } else if n == 23 {
        Some(Key::X)
    } else if n == 24 {
        Some(Key::Y)
    } else if n == 25 {
        Some(Key::Z)
    } else if n == 26 {
        Some(Key::Key0)
    } else if n == 27 {
        Some(Key::Key1)
    } else if n == 28 {
        Some(Key::Key2)
    } else if n == 29 {
        Some(Key::Key3)
    } else if n == 30 {
        Some(Key::Key4)
    } else if n == 31 {
        Some(Key::Key5)
    } else if n == 32 {
        Some(Key::Key6)
    } else if n == 33 {
        Some(Key::Key7)
    } else if n == 34 {
        Some(Key::Key8)
    } else if n == 35 {
        Some(Key::Key9)
    } else if n == 36 {
        Some(Key::F1)
    } else if n == 37 {
        Some(Key::F2)
    } else if n == 38 {
        Some(Key::F3)
    } else if n == 39 {
        Some(Key::F4)
    } else if n == 40 {
        Some(Key::F5)
    } else if n == 41 {
        Some(Key::F6)
    } else if n == 42 {
        Some(Key::F7)
    } else if n == 43 {
        Some(Key::F8)
    } else if n == 44 {
        Some(Key::F9)
    } else if n == 45 {
        Some(Key::F10)
    } else if n == 46 {
        Some(Key::F11)
    } else if n == 47 {
        Some(Key::F12)
    } else if n == 48 {
        Some(Key::Escape)
    } else if n == 49 {
        Some(Key::Enter)
    } else if n == 50 {
        Some(Key::Space)
    } else if n == 51 {
        Some(Key::Tab)
    } else if n == 52 {
        Some(Key::Backspace)
    } else if n == 53 {
        Some(Key::Delete)
    } else if n == 54 {
        Some(Key::ArrowUp)
    } else if n == 55 {
        Some(Key::ArrowDown)
    } else if n == 56 {
        Some(Key::ArrowLeft)
    } else if n == 57 {
        Some(Key::ArrowRight)
    } else if n == 58 {
        Some(Key::Shift)
    } else if n == 59 {
        Some(Key::Control)
    } else if n == 60 {
        Some(Key::Alt)
    } else if n == 61 {
        Some(Key::Meta)
    } else {
        None
    }
}

/// What identifies a key: its number, and for a key without a name, its
/// written name.
pub open spec fn key_id(k: Key) -> (int, Seq<char>) {
    match k {
        Key::Unknown(s) => (62, s@),
        _ => (key_code(k), Seq::empty()),
    }
}

/// The identity of the key a key name stands for.
pub open spec fn key_id_of_name(name: Seq<char>) -> (int, Seq<char>) {
    match named_key(lowercase_of(name)) {
        Some(k) => key_id(k),
        None => (62, name),
    }
}

fn code_of(k: &Key) -> (r: u8)
    ensures
        r == key_code(*k),
{
    match k {
        Key::A => 0,
        Key::B => 1,
        Key::C => 2,
        Key::D => 3,
        Key::E => 4,
        Key::F => 5,
        Key::G => 6,
        Key::H => 7,
        Key::I => 8,
        Key::J => 9,
        Key::K => 10,
        Key::L => 11,
        Key::M => 12,
        Key::N => 13,
        Key::O => 14,
        Key::P => 15,
        Key::Q => 16,
        Key::R => 17,
        Key::S => 18,
        Key::T => 19,
        Key::U => 20,
        Key::V => 21,
        Key::W => 22,
        Key::X => 23,
        Key::Y => 24,
        Key::Z => 25,
        Key::Key0 => 26,
        Key::Key1 => 27,
        Key::Key2 => 28,
        Key::Key3 => 29,
        Key::Key4 => 30,
        Key::Key5 => 31,
        Key::Key6 => 32,
        Key::Key7 => 33,
        Key::Key8 => 34,
        Key::Key9 => 35,
        Key::F1 => 36,
        Key::F2 => 37,
        Key::F3 => 38,
        Key::F4 => 39,
        Key::F5 => 40,
        Key::F6 => 41,
        Key::F7 => 42,
        Key::F8 => 43,
        Key::F9 => 44,
        Key::F10 => 45,
        Key::F11 => 46,
        Key::F12 => 47,
        Key::Escape => 48,
        Key::Enter => 49,
        Key::Space => 50,
        Key::Tab => 51,
        Key::Backspace => 52,
        Key::Delete => 53,
        Key::ArrowUp => 54,
        Key::ArrowDown => 55,
        Key::ArrowLeft => 56,
        Key::ArrowRight => 57,
        Key::Shift => 58,
        Key::Control => 59,
        Key::Alt => 60,
        Key::Meta => 61,
        Key::Unknown(_) => 62,
    }
}

/// Whether two keys are the same key.
pub fn same_key(a: &Key, b: &Key) -> (r: bool)
    ensures
        r == (key_id(*a) == key_id(*b)),
        !(*a is Unknown) || !(*b is Unknown) ==> (r == (*a == *b)),
{
    proof {
        law_key_identity(*a, *b);
    }
    match (a, b) {
        (Key::Unknown(s), Key::Unknown(t)) => *s == *t,
        _ => code_of(a) == code_of(b),
    }
}

/// The identities of a list of keys.
pub open spec fn key_ids(v: Seq<Key>) -> Seq<(int, Seq<char>)> {
    v.map_values(|k: Key| key_id(k))
}

fn holds_key(v: &Vec<Key>, k: &Key) -> (r: bool)
    ensures
        r == key_ids(v@).contains(key_id(*k)),
{
    let mut i: usize = 0;
    while i < v.len()
        invariant
            i <= v@.len(),
            forall|j: int| 0 <= j < i ==> key_id(#[trigger] v@[j]) != key_id(*k),
        decreases v@.len() - i,
    {
        if same_key(&v[i], k) {
            assert(key_ids(v@)[i as int] == key_id(*k));
            return true;
        }
        i = i + 1;
    }
    proof {
        if key_ids(v@).contains(key_id(*k)) {
            let j = choose|j: int| 0 <= j < key_ids(v@).len() && key_ids(v@)[j] == key_id(*k);
            assert(key_id(v@[j]) == key_id(*k));
        }
    }
    false
}

fn add_key(v: &mut Vec<Key>, k: Key)
    requires
        key_ids(old(v)@).no_duplicates(),
    ensures
        key_ids(final(v)@).no_duplicates(),
        key_ids(final(v)@).to_set() == key_ids(old(v)@).to_set().insert(key_id(k)),
{
    if !holds_key(v, &k) {
        let ghost before = key_ids(v@);
        let ghost id = key_id(k);
        v.push(k);
        assert(key_ids(v@) =~= before.push(id));
        proof {
            before.lemma_push_to_set_commute(id);
        }
    } else {
        assert(key_ids(v@).to_set().insert(key_id(k)) =~= key_ids(v@).to_set());
    }
}

proof fn lemma_remove_key_id(s: Seq<Key>, i: int)
    requires
        key_ids(s).no_duplicates(),
        0 <= i < s.len(),
    ensures
        key_ids(s.remove(i)).no_duplicates(),
        key_ids(s.remove(i)).to_set() == key_ids(s).to_set().remove(key_id(s[i])),
{
    let ids = key_ids(s);
    assert(key_ids(s.remove(i)) =~= ids.remove(i));
    let r = ids.remove(i);
    assert forall|a: int, c: int| 0 <= a < r.len() && 0 <= c < r.len() && a != c implies r[a] != r[c] by {
        let a2 = if a < i { a } else { a + 1 };
        let c2 = if c < i { c } else { c + 1 };
        assert(r[a] == ids[a2]);
        assert(r[c] == ids[c2]);
    }
    assert forall|x: (int, Seq<char>)| #[trigger] r.to_set().contains(x) == ids.to_set().remove(ids[i]).contains(x) by {
        if r.contains(x) {
            let k = choose|k: int| 0 <= k < r.len() && r[k] == x;
            let k2 = if k < i { k } else { k + 1 };
            assert(ids[k2] == x);
        }
        if ids.contains(x) && x != ids[i] {
            let k = choose|k: int| 0 <= k < ids.len() && ids[k] == x;
            if k < i {
                assert(r[k] == x);
            } else {
                assert(r[k - 1] == x);
            }
        }
    }
    assert(r.to_set() =~= ids.to_set().remove(ids[i]));
}

fn drop_key(v: &mut Vec<Key>, k: &Key)
    requires
        key_ids(old(v)@).no_duplicates(),
    ensures
        key_ids(final(v)@).no_duplicates(),
        key_ids(final(v)@).to_set() == key_ids(old(v)@).to_set().remove(key_id(*k)),
{
    let mut i: usize = 0;
    while i < v.len()
        invariant
            i <= v@.len(),
            v@ == old(v)@,
            key_ids(old(v)@).no_duplicates(),
            forall|j: int| 0 <= j < i ==> key_id(#[trigger] v@[j]) != key_id(*k),
        decreases v@.len() - i,
    {
        if same_key(&v[i], k) {
            let ghost before = v@;
            v.remove(i);
            proof {
                lemma_remove_key_id(before, i as int);
            }
            return;
        }
        i = i + 1;
    }
    proof {
        assert(!key_ids(v@).contains(key_id(*k))) by {
            if key_ids(v@).contains(key_id(*k)) {
                let j = choose|j: int| 0 <= j < key_ids(v@).len() && key_ids(v@)[j] == key_id(*k);
                assert(key_id(v@[j]) == key_id(*k));
            }
        }
        assert(key_ids(v@).to_set().remove(key_id(*k)) =~= key_ids(v@).to_set());
    }
}

fn holds_button(v: &Vec<MouseButton>, b: MouseButton) -> (r: bool)
    ensures
        r == v@.contains(b),
{
    let mut i: usize = 0;
    while i < v.len()
        invariant
            i <= v@.len(),
            forall|j: int| 0 <= j < i ==> v@[j] != b,
        decreases v@.len() - i,
    {
        if v[i] == b {
            return true;
        }
        i = i + 1;
    }
    false
}

fn add_button(v: &mut Vec<MouseButton>, b: MouseButton)
    requires
        old(v)@.no_duplicates(),
    ensures
        final(v)@.no_duplicates(),
        final(v)@.to_set() == old(v)@.to_set().insert(b),
{
    if !holds_button(v, b) {
        v.push(b);
        proof {
            old(v)@.lemma_push_to_set_commute(b);
        }
    } else {
        assert(old(v)@.to_set().insert(b) =~= old(v)@.to_set());
    }
}

fn drop_button(v: &mut Vec<MouseButton>, b: MouseButton)
    requires
        old(v)@.no_duplicates(),
    ensures
        final(v)@.no_duplicates(),
        final(v)@.to_set() == old(v)@.to_set().remove(b),
{
    let mut i: usize = 0;
    while i < v.len()
        invariant
            i <= v@.len(),
            v@ == old(v)@,
            old(v)@.no_duplicates(),
            forall|j: int| 0 <= j < i ==> v@[j] != b,
        decreases v@.len() - i,
    {
        if v[i] == b {
            let ghost before = v@;
            v.remove(i);
            proof {
                let r = before.remove(i as int);
                assert forall|a: int, c: int| 0 <= a < r.len() && 0 <= c < r.len() && a != c implies r[a] != r[c] by {
                    let a2 = if a < i { a } else { a + 1 };
                    let c2 = if c < i { c } else { c + 1 };
                    assert(r[a] == before[a2]);
                    assert(r[c] == before[c2]);
                }
                assert forall|x: MouseButton| #[trigger] r.to_set().contains(x) == before.to_set().remove(b).contains(x) by {
                    if r.contains(x) {
                        let k = choose|k: int| 0 <= k < r.len() && r[k] == x;
                        let k2 = if k < i { k } else { k + 1 };
                        assert(before[k2] == x);
                    }
                    if before.contains(x) && x != b {
                        let k = choose|k: int| 0 <= k < before.len() && before[k] == x;
                        if k < i {
                            assert(r[k] == x);
                        } else {
                            assert(r[k - 1] == x);
                        }
                    }
                }
                assert(r.to_set() =~= before.to_set().remove(b));
            }
            return;
        }
        i = i + 1;
    }
    assert(old(v)@.to_set().remove(b) =~= old(v)@.to_set());
}

/// The sets the input state keeps.
pub struct InputSets {
    pub pressed_keys: Set<(int, Seq<char>)>,
    pub just_pressed_keys: Set<(int, Seq<char>)>,
    pub just_released_keys: Set<(int, Seq<char>)>,
    pub pressed_buttons: Set<MouseButton>,
    pub just_pressed_buttons: Set<MouseButton>,
    pub just_released_buttons: Set<MouseButton>,
}

impl InputSets {
    /// The sets after a key goes down (`pressed`) or up.
    pub open spec fn key_event(self, k: (int, Seq<char>), pressed: bool) -> InputSets {
        if pressed {
            InputSets {
                pressed_keys: self.pressed_keys.insert(k),
                just_pressed_keys: if self.pressed_keys.contains(k) {
                    self.just_pressed_keys
                } else {
                    self.just_pressed_keys.insert(k)
                },
                ..self
            }
        } else {
            InputSets {
                pressed_keys: self.pressed_keys.remove(k),
                just_released_keys: self.just_released_keys.insert(k),
                ..self
            }
        }
    }

    /// The sets after a mouse button goes down (`pressed`) or up.
    pub open spec fn button_event(self, b: MouseButton, pressed: bool) -> InputSets {
        if pressed {
            InputSets {
                pressed_buttons: self.pressed_buttons.insert(b),
                just_pressed_buttons: if self.pressed_buttons.contains(b) {
                    self.just_pressed_buttons
                } else {
                    self.just_pressed_buttons.insert(b)
                },
                ..self
            }
        } else {
            InputSets {
                pressed_buttons: self.pressed_buttons.remove(b),
                just_released_buttons: self.just_released_buttons.insert(b),
                ..self
            }
        }
    }

    /// The sets after an update: nothing counts as just pressed or released.
    pub open spec fn updated(self) -> InputSets {
        InputSets {
            just_pressed_keys: Set::empty(),
            just_released_keys: Set::empty(),
            just_pressed_buttons: Set::empty(),
            just_released_buttons: Set::empty(),
            ..self
        }
    }
}

/// A key that went down and then up is no longer held, unless it was held
/// before; it counts as released in any case.
pub proof fn law_key_up_after_down(s: InputSets, k: (int, Seq<char>))
    requires
        !s.pressed_keys.contains(k),
    ensures
        s.key_event(k, true).key_event(k, false).pressed_keys == s.pressed_keys,
        s.key_event(k, true).key_event(k, false).just_pressed_keys.contains(k),
        s.key_event(k, true).key_event(k, false).just_released_keys.contains(k),
{
    assert(s.pressed_keys.insert(k).remove(k) =~= s.pressed_keys);
}

/// A key held down over repeated events counts as just pressed only once:
/// a repeat changes nothing.
pub proof fn law_key_repeat_changes_nothing(s: InputSets, k: (int, Seq<char>))
    ensures
        s.key_event(k, true).key_event(k, true) == s.key_event(k, true),
{
    assert(s.key_event(k, true).pressed_keys.insert(k) =~= s.key_event(k, true).pressed_keys);
}

/// An update keeps what is held and forgets the rest.
pub proof fn law_update_keeps_held(s: InputSets)
    ensures
        s.updated().pressed_keys == s.pressed_keys,
        s.updated().pressed_buttons == s.pressed_buttons,
        s.updated().updated() == s.updated(),
{
}

/// Each named key has its own number, below 62, from which it can be read
/// back.
proof fn lemma_key_code_names_one_key(k: Key)
    requires
        !(k is Unknown),
    ensures
        0 <= key_code(k) < 62,
        key_of_code(key_code(k)) == Some(k),
{
}

/// Keys are told apart exactly: two keys have the same identity only when
/// they are the same named key, or both unnamed with the same written
/// name. So pressing one key never reports another as held.
pub proof fn law_key_identity(a: Key, b: Key)
    ensures
        !(a is Unknown) || !(b is Unknown) ==> (key_id(a) == key_id(b) <==> a == b),
        a is Unknown && b is Unknown ==> (key_id(a) == key_id(b) <==> a->0@ == b->0@),
{
    if !(a is Unknown) {
        lemma_key_code_names_one_key(a);
    }
    if !(b is Unknown) {
        lemma_key_code_names_one_key(b);
    }
}

/// A key going down makes that key held and leaves every other key as it
/// was.
pub proof fn law_key_down_touches_only_that_key(s: InputSets, k: Key, j: Key)
    requires
        j != k,
        !(j is Unknown) || !(k is Unknown),
    ensures
        s.key_event(key_id(k), true).pressed_keys.contains(key_id(k)),
        s.key_event(key_id(k), true).pressed_keys.contains(key_id(j)) == s.pressed_keys.contains(
            key_id(j),
        ),
        s.key_event(key_id(k), true).just_pressed_keys.contains(key_id(j))
            == s.just_pressed_keys.contains(key_id(j)),
{
    law_key_identity(j, k);
}

/// Keyboard and mouse state of the engine.
pub struct Input {
    pressed_keys: Vec<Key>,
    just_pressed_keys: Vec<Key>,
    just_released_keys: Vec<Key>,
    pressed_mouse_buttons: Vec<MouseButton>,
    just_pressed_mouse_buttons: Vec<MouseButton>,
    just_released_mouse_buttons: Vec<MouseButton>,
}

impl Input {
    /// The state as sets.
    pub closed spec fn sets(&self) -> InputSets {
        InputSets {
            pressed_keys: key_ids(self.pressed_keys@).to_set(),
            just_pressed_keys: key_ids(self.just_pressed_keys@).to_set(),
            just_released_keys: key_ids(self.just_released_keys@).to_set(),
            pressed_buttons: self.pressed_mouse_buttons@.to_set(),
            just_pressed_buttons: self.just_pressed_mouse_buttons@.to_set(),
            just_released_buttons: self.just_released_mouse_buttons@.to_set(),
        }
    }

    /// No list holds a key or button twice.
    pub closed spec fn wf(&self) -> bool {
        &&& key_ids(self.pressed_keys@).no_duplicates()
        &&& key_ids(self.just_pressed_keys@).no_duplicates()
        &&& key_ids(self.just_released_keys@).no_duplicates()
        &&& self.pressed_mouse_buttons@.no_duplicates()
        &&& self.just_pressed_mouse_buttons@.no_duplicates()
        &&& self.just_released_mouse_buttons@.no_duplicates()
    }

    /// Nothing held, nothing pressed or released.
    pub fn new() -> (r: Self)
        ensures
            r.wf(),
            r.sets() == (InputSets {
                pressed_keys: Set::empty(),
                just_pressed_keys: Set::empty(),
                just_released_keys: Set::empty(),
                pressed_buttons: Set::empty(),
                just_pressed_buttons: Set::empty(),
                just_released_buttons: Set::empty(),
            }),
    {
        let r = Input {
            pressed_keys: Vec::new(),
            just_pressed_keys: Vec::new(),
            just_released_keys: Vec::new(),
            pressed_mouse_buttons: Vec::new(),
            just_pressed_mouse_buttons: Vec::new(),
            just_released_mouse_buttons: Vec::new(),
        };
        assert(key_ids(r.pressed_keys@) =~= Seq::<(int, Seq<char>)>::empty());
        assert(key_ids(r.just_pressed_keys@) =~= Seq::<(int, Seq<char>)>::empty());
        assert(key_ids(r.just_released_keys@) =~= Seq::<(int, Seq<char>)>::empty());
        assert(r.sets().pressed_keys =~= Set::empty());
        assert(r.sets().just_pressed_keys =~= Set::empty());
        assert(r.sets().just_released_keys =~= Set::empty());
        assert(r.sets().pressed_buttons =~= Set::empty());
        assert(r.sets().just_pressed_buttons =~= Set::empty());
        assert(r.sets().just_released_buttons =~= Set::empty());
        r
    }

    /// Records a keyboard event: the key its name stands for goes down or
    /// up.
    pub fn handle_keyboard_event(&mut self, event: &KeyboardEvent)
        requires
            old(self).wf(),
        ensures
            final(self).wf(),
            final(self).sets() == old(self).sets().key_event(key_id_of_name(event.key@), event.pressed),
    {
        let key = Key::from_name(event.key.as_str());
        proof {
            assert(key_id(key) == key_id_of_name(event.key@));
        }
        if event.pressed {
            if !holds_key(&self.pressed_keys, &key) {
                let again = Key::from_name(event.key.as_str());
                add_key(&mut self.just_pressed_keys, again);
            }
            add_key(&mut self.pressed_keys, key);
        } else {
            drop_key(&mut self.pressed_keys, &key);
            add_key(&mut self.just_released_keys, key);
        }
    }

    /// Records a mouse button going down (`pressed`) or up.
    pub fn handle_mouse_button(&mut self, button: MouseButton, pressed: bool)
        requires
            old(self).wf(),
        ensures
            final(self).wf(),
            final(self).sets() == old(self).sets().button_event(button, pressed),
    {
        if pressed {
            if !holds_button(&self.pressed_mouse_buttons, button) {
                add_button(&mut self.just_pressed_mouse_buttons, button);
            }
            add_button(&mut self.pressed_mouse_buttons, button);
        } else {
            drop_button(&mut self.pressed_mouse_buttons, button);
            add_button(&mut self.just_released_mouse_buttons, button);
        }
    }

    /// Ends a frame: forgets what was pressed or released during it.
    pub fn update(&mut self)
        requires
            old(self).wf(),
        ensures
            final(self).wf(),
            final(self).sets() == old(self).sets().updated(),
    {
        self.just_pressed_keys.clear();
        self.just_released_keys.clear();
        self.just_pressed_mouse_buttons.clear();
        self.just_released_mouse_buttons.clear();
        assert(key_ids(self.just_pressed_keys@) =~= Seq::<(int, Seq<char>)>::empty());
        assert(key_ids(self.just_released_keys@) =~= Seq::<(int, Seq<char>)>::empty());
        assert(self.sets().just_pressed_keys =~= Set::empty());
        assert(self.sets().just_released_keys =~= Set::empty());
        assert(self.sets().just_pressed_buttons =~= Set::empty());
        assert(self.sets().just_released_buttons =~= Set::empty());
    }

    /// Whether a key is held.
    pub fn is_key_pressed(&self, key: &Key) -> (r: bool)
        ensures
            r == self.sets().pressed_keys.contains(key_id(*key)),
    {
        holds_key(&self.pressed_keys, key)
    }

    /// Whether a key went down since the last update.
    pub fn is_key_just_pressed(&self, key: &Key) -> (r: bool)
        ensures
            r == self.sets().just_pressed_keys.contains(key_id(*key)),
    {
        holds_key(&self.just_pressed_keys, key)
    }

    /// Whether a key went up since the last update.
    pub fn is_key_just_released(&self, key: &Key) -> (r: bool)
        ensures
            r == self.sets().just_released_keys.contains(key_id(*key)),
    {
        holds_key(&self.just_released_keys, key)
    }

    /// Whether a mouse button is held.
    pub fn is_mouse_button_pressed(&self, button: MouseButton) -> (r: bool)
        ensures
            r == self.sets().pressed_buttons.contains(button),
    {
        holds_button(&self.pressed_mouse_buttons, button)
    }

    /// Whether a mouse button went down since the last update.
    pub fn is_mouse_button_just_pressed(&self, button: MouseButton) -> (r: bool)
        ensures
            r == self.sets().just_pressed_buttons.contains(button),
    {
        holds_button(&self.just_pressed_mouse_buttons, button)
    }

    /// Whether a mouse button went up since the last update.
    pub fn is_mouse_button_just_released(&self, button: MouseButton) -> (r: bool)
        ensures
            r == self.sets().just_released_buttons.contains(button),
    {
        holds_button(&self.just_released_mouse_buttons, button)
    }
}

impl Default for Input {
    /// Same as `Input::new`.
    fn default() -> (r: Self)
        ensures
            r.wf(),
    {
        Input::new()
    }
}

} // verus!
