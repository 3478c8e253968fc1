//! Keyboard state of the browser build: which key codes are held down.
//!
//! The browser hands over each key event's code; the system records it
//! and tells whether the browser's default action must be suppressed.

use vstd::prelude::*;
use crate::text::{owned, equals_str};

verus! {

broadcast use vstd::string::group_string_axioms;

/// The views of a list of strings.
pub open spec fn views(v: Seq<String>) -> Seq<Seq<char>> {
    v.map_values(|s: String| s@)
}

/// The items joined with `sep` between neighbours.
pub open spec fn joined(items: Seq<Seq<char>>, sep: Seq<char>) -> Seq<char>
    decreases items.len(),
{
    if items.len() == 0 {
        Seq::empty()
    } else if items.len() == 1 {
        items[0]
    } else {
        joined(items.drop_last(), sep) + sep + items.last()
    }
}

/// The key codes a game reads: WASD, space and the arrows.
pub open spec fn is_game_code(key: Seq<char>) -> bool {
    ||| key == "KeyA"@
    ||| key == "KeyD"@
    ||| key == "KeyW"@
    ||| key == "KeyS"@
    ||| key == "Space"@
    ||| key == "ArrowLeft"@
    ||| key == "ArrowRight"@
    ||| key == "ArrowUp"@
    ||| key == "ArrowDown"@
}

/// The game keys are exactly the nine codes of WASD, space and the four
/// arrows.
pub proof fn law_game_codes(code: Seq<char>)
    ensures
        is_game_code(code) == seq![
            "KeyA"@,
            "KeyD"@,
            "KeyW"@,
            "KeyS"@,
            "Space"@,
            "ArrowLeft"@,
            "ArrowRight"@,
            "ArrowUp"@,
            "ArrowDown"@,
        ].contains(code),
{
    let codes = seq![
        "KeyA"@,
        "KeyD"@,
        "KeyW"@,
        "KeyS"@,
        "Space"@,
        "ArrowLeft"@,
        "ArrowRight"@,
        "ArrowUp"@,
        "ArrowDown"@,
    ];
    if is_game_code(code) {
        if code == "KeyA"@ {
            assert(codes[0] == code);
        } else if code == "KeyD"@ {
            assert(codes[1] == code);
        } else if code == "KeyW"@ {
            assert(codes[2] == code);
        } else if code == "KeyS"@ {
            assert(codes[3] == code);
        } else if code == "Space"@ {
            assert(codes[4] == code);
        } else if code == "ArrowLeft"@ {
            assert(codes[5] == code);
        } else if code == "ArrowRight"@ {
            assert(codes[6] == code);
        } else if code == "ArrowUp"@ {
            assert(codes[7] == code);
        } else {
            assert(codes[8] == code);
        }
    }
}

/// Key state of the browser build.
pub struct WebInputSystem {
    pressed_keys: Vec<String>,
}

impl WebInputSystem {
    /// The codes held down, each once.
    pub closed spec fn keys(&self) -> Seq<Seq<char>> {
        views(self.pressed_keys@)
    }

    /// No code is recorded twice.
    pub closed spec fn wf(&self) -> bool {
        self.keys().no_duplicates()
    }

    /// No key held.
    pub fn new() -> (r: Self)
        ensures
            r.wf(),
            r.keys() == Seq::<Seq<char>>::empty(),
    {
        let r = WebInputSystem { pressed_keys: Vec::new() };
        assert(r.keys() =~= Seq::<Seq<char>>::empty());
        r
    }

    /// The code under which a browser key is recorded: every code stands
    /// for itself.
    fn normalize_key_code(&self, code: &str) -> (r: String)
        ensures
            r@ == code@,
    {
        owned(code)
    }

    /// Whether the browser's own shortcut for this key must be suppressed.
    fn is_game_key(&self, key: &str) -> (r: bool)
        ensures
            r == is_game_code(key@),
    {
        let k = owned(key);
        equals_str(&k, "KeyA") || equals_str(&k, "KeyD") || equals_str(&k, "KeyW") || equals_str(
            &k,
            "KeyS",
        ) || equals_str(&k, "Space") || equals_str(&k, "ArrowLeft") || equals_str(&k, "ArrowRight")
            || equals_str(&k, "ArrowUp") || equals_str(&k, "ArrowDown")
    }

    fn position(&self, key: &String) -> (r: Option<usize>)
        ensures
            match r {
                Some(i) => i < self.keys().len() && self.keys()[i as int] == key@,
                None => !self.keys().contains(key@),
            },
    {
        let mut i: usize = 0;
        while i < self.pressed_keys.len()
            invariant
                i <= self.pressed_keys@.len(),
                forall|j: int| 0 <= j < i ==> self.keys()[j] != key@,
            decreases self.pressed_keys@.len() - i,
        {
            if self.pressed_keys[i] == *key {
                return Some(i);
            }
            i = i + 1;
        }
        None
    }

    /// Records a key going down; the result tells whether to suppress the
    /// browser's default action.
    pub fn handle_keydown(&mut self, code: &str) -> (r: bool)
        requires
            old(self).wf(),
        ensures
            final(self).wf(),
            final(self).keys() == if old(self).keys().contains(code@) {
                old(self).keys()
            } else {
                old(self).keys().push(code@)
            },
            r == is_game_code(code@),
            r == seq![
                "KeyA"@,
                "KeyD"@,
                "KeyW"@,
                "KeyS"@,
                "Space"@,
                "ArrowLeft"@,
                "ArrowRight"@,
                "ArrowUp"@,
                "ArrowDown"@,
            ].contains(code@),
    {
        proof {
            law_game_codes(code@);
        }
        let key = self.normalize_key_code(code);
        if self.position(&key).is_none() {
            let ghost before = self.keys();
            self.pressed_keys.push(key);
            assert(self.keys() =~= before.push(code@));
        }
        self.is_game_key(code)
    }

    /// Records a key going up; the result tells whether to suppress the
    /// browser's default action.
    pub fn handle_keyup(&mut self, code: &str) -> (r: bool)
        requires
            old(self).wf(),
        ensures
            final(self).wf(),
            final(self).keys().to_set() == old(self).keys().to_set().remove(code@),
            r == is_game_code(code@),
            r == seq![
                "KeyA"@,
                "KeyD"@,
                "KeyW"@,
                "KeyS"@,
                "Space"@,
                "ArrowLeft"@,
                "ArrowRight"@,
                "ArrowUp"@,
                "ArrowDown"@,
            ].contains(code@),
    {
        proof {
            law_game_codes(code@);
        }
        let key = self.normalize_key_code(code);
        match self.position(&key) {
            Some(i) => {
                let ghost before = self.keys();
                self.pressed_keys.remove(i);
                assert(self.keys() =~= before.remove(i as int));
                proof {
                    assert forall|k: Seq<char>| #[trigger]
                        self.keys().to_set().contains(k) <==> before.to_set().remove(
                            code@,
                        ).contains(k) by {
                        if self.keys().contains(k) {
                            let j = choose|j: int| 0 <= j < self.keys().len() && self.keys()[j] == k;
                            if j < i {
                                assert(before[j] == k);
                            } else {
                                assert(before[j + 1] == k);
                            }
                        }
                        if before.contains(k) && k != code@ {
                            let j = choose|j: int| 0 <= j < before.len() && before[j] == k;
                            if j < i {
                                assert(self.keys()[j] == k);
                            } else {
                                assert(self.keys()[j - 1] == k);
                            }
                        }
                    }
                    assert(self.keys().to_set() =~= before.to_set().remove(code@));
                }
            },
            None => {
                assert(self.keys().to_set() =~= self.keys().to_set().remove(code@));
            },
        }
        self.is_game_key(code)
    }

    /// A line describing the held keys.
    pub fn get_debug_info(&self) -> (r: String)
        ensures
            r@ == if self.keys().len() == 0 {
                "No keys pressed"@
            } else {
                "Pressed: "@ + joined(self.keys(), ", "@)
            },
    {
        if self.pressed_keys.len() == 0 {
            return owned("No keys pressed");
        }
        let mut list = owned(self.pressed_keys[0].as_str());
        let mut i: usize = 1;
        while i < self.pressed_keys.len()
            invariant
                1 <= i <= self.pressed_keys@.len(),
                list@ == joined(self.keys().subrange(0, i as int), ", "@),
            decreases self.pressed_keys@.len() - i,
        {
            list.append(", ");
            list.append(self.pressed_keys[i].as_str());
            proof {
                let s = self.keys().subrange(0, i as int + 1);
                assert(s.drop_last() == self.keys().subrange(0, i as int));
            }
            i = i + 1;
        }
        assert(self.keys().subrange(0, i as int) == self.keys());
        let mut out = owned("Pressed: ");
        out.append(list.as_str());
        out
    }
}

} // verus!
