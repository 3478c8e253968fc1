//! Button state tracking: which buttons are held, which went down this
//! frame and which went up this frame.

use vstd::prelude::*;

verus! {

broadcast use vstd::seq_lib::group_seq_properties;

/// A button identifier that can be compared in verified code.
pub trait InputButton: Copy {
    /// Whether `self` and `other` denote the same button.
    fn same_button(&self, other: &Self) -> (r: bool)
        ensures
            r == (*self == *other),
    ;
}

/// A mouse button.
#[derive(Debug, Clone, Copy, PartialEq, Eq, Hash, Structural)]
pub enum MouseButton {
    Left,
    Right,
    Middle,
    Back,
    Forward,
    Other(u16),
}

impl InputButton for MouseButton {
    fn same_button(&self, other: &Self) -> (r: bool) {
        *self == *other
    }
}

/// Key codes given as plain integers.
impl InputButton for u32 {
    fn same_button(&self, other: &Self) -> (r: bool) {
        *self == *other
    }
}

/// Errors of the input system.
#[derive(Debug)]
pub enum InputError {
    ResourceNotFound(String),
    InvalidState(String),
}

/// Whether `v` holds `b`.
fn holds<T: InputButton>(v: &Vec<T>, b: &T) -> (r: bool)
    ensures
        r == v@.contains(*b),
{
    let mut i: usize = 0;
    while i < v.len()
        invariant
            i <= v@.len(),
            forall|k: int| 0 <= k < i ==> v@[k] != *b,
        decreases v@.len() - i,
    {
        if v[i].same_button(b) {
            assert(v@[i as int] == *b);
            return true;
        }
        i = i + 1;
    }
    false
}

/// Adds `b` to `v` unless it is already there.
fn insert_unique<T: InputButton>(v: &mut Vec<T>, b: T)
    requires
        old(v)@.no_duplicates(),
    ensures
        final(v)@.no_duplicates(),
        final(v)@.to_set() == old(v)@.to_set().insert(b),
{
    if !holds(v, &b) {
        v.push(b);
        proof {
            old(v)@.lemma_push_to_set_commute(b);
        }
    } else {
        assert(old(v)@.to_set().insert(b) =~= old(v)@.to_set());
    }
}

proof fn lemma_remove_index<T>(s: Seq<T>, i: int)
    requires
        s.no_duplicates(),
        0 <= i < s.len(),
    ensures
        s.remove(i).no_duplicates(),
        s.remove(i).to_set() == s.to_set().remove(s[i]),
{
    let r = s.remove(i);
    assert(forall|k: int| 0 <= k < r.len() ==> #[trigger] r[k] == if k < i {
        s[k]
    } else {
        s[k + 1]
    });
    assert forall|a: int, c: int| 0 <= a < r.len() && 0 <= c < r.len() && a != c implies r[a]
        != r[c] by {
        let a2 = if a < i { a } else { a + 1 };
        let c2 = if c < i { c } else { c + 1 };
        assert(s[a2] != s[c2]);
    }
    assert forall|x: T| #[trigger] r.to_set().contains(x) == s.to_set().remove(s[i]).contains(x) by {
        if r.contains(x) {
            let k = choose|k: int| 0 <= k < r.len() && r[k] == x;
            let k2 = if k < i { k } else { k + 1 };
            assert(s[k2] == x);
            assert(k2 != i);
        }
        if s.contains(x) && x != s[i] {
            let k = choose|k: int| 0 <= k < s.len() && s[k] == x;
            if k < i {
                assert(r[k] == x);
            } else {
                assert(k != i);
                assert(r[k - 1] == x);
            }
        }
    }
    assert(r.to_set() =~= s.to_set().remove(s[i]));
}

/// A copy of `v`.
fn copy_all<T: Copy>(v: &Vec<T>) -> (r: Vec<T>)
    ensures
        r@ == v@,
{
    let mut r: Vec<T> = Vec::new();
    let mut i: usize = 0;
    while i < v.len()
        invariant
            i <= v@.len(),
            r@ == v@.subrange(0, i as int),
        decreases v@.len() - i,
    {
        r.push(v[i]);
        i = i + 1;
    }
    assert(r@ =~= v@);
    r
}

/// Removes `b` from `v` if it is there.
fn remove_one<T: InputButton>(v: &mut Vec<T>, b: T)
    requires
        old(v)@.no_duplicates(),
    ensures
        final(v)@.no_duplicates(),
        final(v)@.to_set() == old(v)@.to_set().remove(b),
{
    let mut i: usize = 0;
    while i < v.len()
        invariant
            i <= v@.len(),
            v@ == old(v)@,
            old(v)@.no_duplicates(),
            forall|k: int| 0 <= k < i ==> v@[k] != b,
        decreases v@.len() - i,
    {
        if v[i].same_button(&b) {
            let ghost before = v@;
            v.remove(i);
            proof {
                lemma_remove_index(before, i as int);
            }
            return;
        }
        i = i + 1;
    }
    assert(old(v)@.to_set().remove(b) =~= old(v)@.to_set());
}

/// The three sets a button tracker keeps.
#[verifier::reject_recursive_types(T)]
pub struct ButtonSets<T> {
    /// Buttons held down.
    pub pressed: Set<T>,
    /// Buttons that went down during the current frame.
    pub just_pressed: Set<T>,
    /// Buttons that went up during the current frame.
    pub just_released: Set<T>,
}

impl<T> ButtonSets<T> {
    /// The sets after a press of `b`.
    pub open spec fn press(self, b: T) -> ButtonSets<T> {
        ButtonSets {
            pressed: self.pressed.insert(b),
            just_pressed: if self.pressed.contains(b) {
                self.just_pressed
            } else {
                self.just_pressed.insert(b)
            },
            just_released: self.just_released,
        }
    }

    /// The sets after a release of `b`.
    pub open spec fn release(self, b: T) -> ButtonSets<T> {
        ButtonSets {
            pressed: self.pressed.remove(b),
            just_pressed: self.just_pressed,
            just_released: if self.pressed.contains(b) {
                self.just_released.insert(b)
            } else {
                self.just_released
            },
        }
    }

    /// The sets at the start of the next frame.
    pub open spec fn end_frame(self) -> ButtonSets<T> {
        ButtonSets { pressed: self.pressed, just_pressed: Set::empty(), just_released: Set::empty() }
    }
}

/// The sets after each click in turn: a press for `true`, a release for
/// `false`.
pub open spec fn apply_clicks<T>(s: ButtonSets<T>, clicks: Seq<(T, bool)>) -> ButtonSets<T>
    decreases clicks.len(),
{
    if clicks.len() == 0 {
        s
    } else {
        let before = apply_clicks(s, clicks.drop_last());
        let (b, down) = clicks.last();
        if down {
            before.press(b)
        } else {
            before.release(b)
        }
    }
}

/// Releasing a button that a press made held leaves the held buttons as
/// they were before the press; the press and the release are both
/// recorded for the frame.
pub proof fn law_release_undoes_press<T>(s: ButtonSets<T>, b: T)
    requires
        !s.pressed.contains(b),
    ensures
        s.press(b).release(b).pressed == s.pressed,
        s.press(b).release(b).just_pressed.contains(b),
        s.press(b).release(b).just_released.contains(b),
{
    assert(s.pressed.insert(b).remove(b) =~= s.pressed);
}

/// Pressing a held button again changes nothing.
pub proof fn law_press_is_idempotent<T>(s: ButtonSets<T>, b: T)
    ensures
        s.press(b).press(b) == s.press(b),
{
    assert(s.press(b).pressed.insert(b) =~= s.press(b).pressed);
}

/// A button counts as just pressed only in the frame in which it went
/// down: ending the frame forgets it, and it stays held.
pub proof fn law_just_pressed_lasts_one_frame<T>(s: ButtonSets<T>, b: T)
    ensures
        s.press(b).pressed.contains(b),
        !s.pressed.contains(b) ==> s.press(b).just_pressed.contains(b),
        s.press(b).end_frame().pressed.contains(b),
        !s.press(b).end_frame().just_pressed.contains(b),
{
}

/// Releasing a button that is not held changes nothing.
pub proof fn law_release_of_unheld_button<T>(s: ButtonSets<T>, b: T)
    requires
        !s.pressed.contains(b),
    ensures
        s.release(b) == s,
{
    assert(s.pressed.remove(b) =~= s.pressed);
}

/// Tracks button state over frames: the buttons held now, those pressed
/// during the current frame, and those released during it.
#[derive(Debug, Clone)]
pub struct ButtonInput<T: InputButton> {
    pressed: Vec<T>,
    just_pressed: Vec<T>,
    just_released: Vec<T>,
}

impl<T: InputButton> ButtonInput<T> {
    /// Buttons held down.
    pub closed spec fn pressed_set(&self) -> Set<T> {
        self.pressed@.to_set()
    }

    /// Buttons pressed during the current frame.
    pub closed spec fn just_pressed_set(&self) -> Set<T> {
        self.just_pressed@.to_set()
    }

    /// Buttons released during the current frame.
    pub closed spec fn just_released_set(&self) -> Set<T> {
        self.just_released@.to_set()
    }

    /// The three sets together.
    pub open spec fn sets(&self) -> ButtonSets<T> {
        ButtonSets {
            pressed: self.pressed_set(),
            just_pressed: self.just_pressed_set(),
            just_released: self.just_released_set(),
        }
    }

    /// The three sets are finite.
    pub proof fn lemma_sets_finite(&self)
        ensures
            self.pressed_set().finite(),
            self.just_pressed_set().finite(),
            self.just_released_set().finite(),
    {
        vstd::seq_lib::seq_to_set_is_finite(self.pressed@);
        vstd::seq_lib::seq_to_set_is_finite(self.just_pressed@);
        vstd::seq_lib::seq_to_set_is_finite(self.just_released@);
    }

    /// No list holds a button twice.
    pub closed spec fn wf(&self) -> bool {
        &&& self.pressed@.no_duplicates()
        &&& self.just_pressed@.no_duplicates()
        &&& self.just_released@.no_duplicates()
    }

    /// A tracker with nothing pressed.
    pub fn new() -> (r: Self)
        ensures
            r.wf(),
            r.pressed_set() == Set::<T>::empty(),
            r.just_pressed_set() == Set::<T>::empty(),
            r.just_released_set() == Set::<T>::empty(),
    {
        let r = ButtonInput { pressed: Vec::new(), just_pressed: Vec::new(), just_released: Vec::new() };
        assert(r.pressed@.to_set() =~= Set::<T>::empty());
        r
    }

    /// Records a press of `button`: it is held from now on, and it counts as
    /// just pressed unless it was already held.
    pub fn press(&mut self, button: T)
        requires
            old(self).wf(),
        ensures
            final(self).wf(),
            final(self).pressed_set() == old(self).pressed_set().insert(button),
            final(self).just_pressed_set() == if old(self).pressed_set().contains(button) {
                old(self).just_pressed_set()
            } else {
                old(self).just_pressed_set().insert(button)
            },
            final(self).just_released_set() == old(self).just_released_set(),
            final(self).sets() == old(self).sets().press(button),
    {
        if !holds(&self.pressed, &button) {
            insert_unique(&mut self.just_pressed, button);
        }
        insert_unique(&mut self.pressed, button);
    }

    /// Records a release of `button`: it is no longer held, and it counts as
    /// just released if it was held.
    pub fn release(&mut self, button: T)
        requires
            old(self).wf(),
        ensures
            final(self).wf(),
            final(self).pressed_set() == old(self).pressed_set().remove(button),
            final(self).just_released_set() == if old(self).pressed_set().contains(button) {
                old(self).just_released_set().insert(button)
            } else {
                old(self).just_released_set()
            },
            final(self).just_pressed_set() == old(self).just_pressed_set(),
            final(self).sets() == old(self).sets().release(button),
    {
        if holds(&self.pressed, &button) {
            insert_unique(&mut self.just_released, button);
        }
        remove_one(&mut self.pressed, button);
    }

    /// Whether `button` is held.
    pub fn pressed(&self, button: T) -> (r: bool)
        ensures
            r == self.pressed_set().contains(button),
    {
        holds(&self.pressed, &button)
    }

    /// Whether `button` was pressed during the current frame.
    pub fn just_pressed(&self, button: T) -> (r: bool)
        ensures
            r == self.just_pressed_set().contains(button),
    {
        holds(&self.just_pressed, &button)
    }

    /// Whether `button` was released during the current frame.
    pub fn just_released(&self, button: T) -> (r: bool)
        ensures
            r == self.just_released_set().contains(button),
    {
        holds(&self.just_released, &button)
    }

    /// The held buttons, each once, in no promised order.
    pub fn get_pressed(&self) -> (r: Vec<T>)
        requires
            self.wf(),
        ensures
            r@.no_duplicates(),
            r@.to_set() == self.pressed_set(),
    {
        copy_all(&self.pressed)
    }

    /// The buttons pressed during the current frame, each once, in no
    /// promised order.
    pub fn get_just_pressed(&self) -> (r: Vec<T>)
        requires
            self.wf(),
        ensures
            r@.no_duplicates(),
            r@.to_set() == self.just_pressed_set(),
    {
        copy_all(&self.just_pressed)
    }

    /// The buttons released during the current frame, each once, in no
    /// promised order.
    pub fn get_just_released(&self) -> (r: Vec<T>)
        requires
            self.wf(),
        ensures
            r@.no_duplicates(),
            r@.to_set() == self.just_released_set(),
    {
        copy_all(&self.just_released)
    }

    /// Ends the frame: forgets what was pressed or released during it and
    /// keeps what is held.
    pub fn clear_just_pressed(&mut self)
        requires
            old(self).wf(),
        ensures
            final(self).wf(),
            final(self).pressed_set() == old(self).pressed_set(),
            final(self).just_pressed_set() == Set::<T>::empty(),
            final(self).just_released_set() == Set::<T>::empty(),
            final(self).sets() == old(self).sets().end_frame(),
    {
        self.just_pressed.clear();
        self.just_released.clear();
        assert(self.just_pressed@.to_set() =~= Set::<T>::empty());
        assert(self.just_released@.to_set() =~= Set::<T>::empty());
    }

    /// Forgets every button state.
    pub fn reset(&mut self)
        ensures
            final(self).wf(),
            final(self).pressed_set() == Set::<T>::empty(),
            final(self).just_pressed_set() == Set::<T>::empty(),
            final(self).just_released_set() == Set::<T>::empty(),
    {
        self.pressed.clear();
        self.just_pressed.clear();
        self.just_released.clear();
        assert(self.pressed@.to_set() =~= Set::<T>::empty());
        assert(self.just_pressed@.to_set() =~= Set::<T>::empty());
        assert(self.just_released@.to_set() =~= Set::<T>::empty());
    }

    /// How many buttons are held.
    pub fn len(&self) -> (r: usize)
        requires
            self.wf(),
        ensures
            r == self.pressed_set().len(),
            self.pressed_set().finite(),
    {
        proof {
            vstd::seq_lib::seq_to_set_is_finite(self.pressed@);
            self.pressed@.unique_seq_to_set();
        }
        self.pressed.len()
    }

    /// Whether no button is held.
    pub fn is_empty(&self) -> (r: bool)
        requires
            self.wf(),
        ensures
            r == (self.pressed_set().len() == 0),
            r == (self.pressed_set() == Set::<T>::empty()),
            self.pressed_set().finite(),
    {
        proof {
            vstd::seq_lib::seq_to_set_is_finite(self.pressed@);
            self.pressed@.unique_seq_to_set();
            if self.pressed@.len() > 0 {
                assert(self.pressed_set().contains(self.pressed@[0]));
            } else {
                assert(self.pressed_set() =~= Set::<T>::empty());
            }
        }
        self.pressed.len() == 0
    }
}

/// Feeds the clicks recorded during a frame, in order, to a button
/// tracker: each down-click presses its button, each up-click releases it.
pub fn update_button_input<T: InputButton>(clicks: &Vec<(T, bool)>, input: &mut ButtonInput<T>)
    requires
        old(input).wf(),
    ensures
        final(input).wf(),
        final(input).sets() == apply_clicks(old(input).sets(), clicks@),
{
    let mut i: usize = 0;
    while i < clicks.len()
        invariant
            i <= clicks@.len(),
            input.wf(),
            input.sets() == apply_clicks(old(input).sets(), clicks@.subrange(0, i as int)),
        decreases clicks@.len() - i,
    {
        assert(clicks@.subrange(0, i + 1).drop_last() == clicks@.subrange(0, i as int));
        let (button, down) = clicks[i];
        if down {
            input.press(button);
        } else {
            input.release(button);
        }
        i = i + 1;
    }
    assert(clicks@.subrange(0, i as int) == clicks@);
}

impl<T: InputButton> Default for ButtonInput<T> {
    /// Same as `ButtonInput::new`.
    fn default() -> (r: Self)
        ensures
            r.wf(),
            r.pressed_set() == Set::<T>::empty(),
            r.just_pressed_set() == Set::<T>::empty(),
            r.just_released_set() == Set::<T>::empty(),
    {
        ButtonInput::new()
    }
}

} // verus!
