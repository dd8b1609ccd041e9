use vstd::prelude::*;

verus! {

/// Something the player can do with a key.
#[derive(Clone, Copy, Debug, Eq, PartialEq, Hash, Structural)]
pub enum Action {
    Forward,
    Backward,
    Left,
    Right,
    Jump,
    Sprint,
    Primary,
    Secondary,
    Cancel,
    Pause,
    Build,
}

/// A keyboard key that can be bound to an action.
#[derive(Clone, Copy, Debug, Eq, PartialEq, Hash, Structural)]
pub enum Key {
    KeyW,
    KeyS,
    KeyA,
    KeyD,
    KeyE,
    KeyF,
    KeyQ,
    KeyB,
    Space,
    ShiftLeft,
    Escape,
    Digit0,
}

/// The key's name, as the input library spells it.
pub open spec fn key_name(k: Key) -> Seq<char> {
    match k {
        Key::KeyW => "KeyW"@,
        Key::KeyS => "KeyS"@,
        Key::KeyA => "KeyA"@,
        Key::KeyD => "KeyD"@,
        Key::KeyE => "KeyE"@,
        Key::KeyF => "KeyF"@,
        Key::KeyQ => "KeyQ"@,
        Key::KeyB => "KeyB"@,
        Key::Space => "Space"@,
        Key::ShiftLeft => "ShiftLeft"@,
        Key::Escape => "Escape"@,
        Key::Digit0 => "Digit0"@,
    }
}

/// How a key name is shown to the player: a name that starts with `Key` is
/// shortened to its last character, any other name is shown whole.
pub open spec fn key_label(name: Seq<char>) -> Seq<char> {
    if name.len() >= 3 && name.take(3) == "Key"@ {
        seq![name.last()]
    } else {
        name
    }
}

impl Key {
    /// The key's name, as the input library spells it.
    pub fn name(&self) -> (r: &str)
        ensures
            r@ == key_name(*self),
    {
        match self {
            Key::KeyW => "KeyW",
            Key::KeyS => "KeyS",
            Key::KeyA => "KeyA",
            Key::KeyD => "KeyD",
            Key::KeyE => "KeyE",
            Key::KeyF => "KeyF",
            Key::KeyQ => "KeyQ",
            Key::KeyB => "KeyB",
            Key::Space => "Space",
            Key::ShiftLeft => "ShiftLeft",
            Key::Escape => "Escape",
            Key::Digit0 => "Digit0",
        }
    }

    /// The key as shown to the player.
    pub fn label(&self) -> (r: String)
        ensures
            r@ == key_label(key_name(*self)),
    {
        proof {
            reveal_strlit("Key");
        }
        let s = match self {
            Key::KeyW => {
                proof {
                    reveal_strlit("KeyW");
                    reveal_strlit("W");
                    assert(key_name(*self).take(3) =~= "Key"@);
                }
                "W"
            },
            Key::KeyS => {
                proof {
                    reveal_strlit("KeyS");
                    reveal_strlit("S");
                    assert(key_name(*self).take(3) =~= "Key"@);
                }
                "S"
            },
            Key::KeyA => {
                proof {
                    reveal_strlit("KeyA");
                    reveal_strlit("A");
                    assert(key_name(*self).take(3) =~= "Key"@);
                }
                "A"
            },
            Key::KeyD => {
                proof {
                    reveal_strlit("KeyD");
                    reveal_strlit("D");
                    assert(key_name(*self).take(3) =~= "Key"@);
                }
                "D"
            },
            Key::KeyE => {
                proof {
                    reveal_strlit("KeyE");
                    reveal_strlit("E");
                    assert(key_name(*self).take(3) =~= "Key"@);
                }
                "E"
            },
            Key::KeyF => {
                proof {
                    reveal_strlit("KeyF");
                    reveal_strlit("F");
                    assert(key_name(*self).take(3) =~= "Key"@);
                }
                "F"
            },
            Key::KeyQ => {
                proof {
                    reveal_strlit("KeyQ");
                    reveal_strlit("Q");
                    assert(key_name(*self).take(3) =~= "Key"@);
                }
                "Q"
            },
            Key::KeyB => {
                proof {
                    reveal_strlit("KeyB");
                    reveal_strlit("B");
                    assert(key_name(*self).take(3) =~= "Key"@);
                }
                "B"
            },
            Key::Space => {
                proof {
                    reveal_strlit("Space");
                    assert(key_name(*self).take(3)[0] != "Key"@[0]);
                }
                "Space"
            },
            Key::ShiftLeft => {
                proof {
                    reveal_strlit("ShiftLeft");
                    assert(key_name(*self).take(3)[0] != "Key"@[0]);
                }
                "ShiftLeft"
            },
            Key::Escape => {
                proof {
                    reveal_strlit("Escape");
                    assert(key_name(*self).take(3)[0] != "Key"@[0]);
                }
                "Escape"
            },
            Key::Digit0 => {
                proof {
                    reveal_strlit("Digit0");
                    assert(key_name(*self).take(3)[0] != "Key"@[0]);
                }
                "Digit0"
            },
        };
        s.to_owned()
    }
}

/// The key that each action is bound to by default.
pub open spec fn default_binding(a: Action) -> Key {
    match a {
        Action::Forward => Key::KeyW,
        Action::Backward => Key::KeyS,
        Action::Left => Key::KeyA,
        Action::Right => Key::KeyD,
        Action::Jump => Key::Space,
        Action::Sprint => Key::ShiftLeft,
        Action::Primary => Key::KeyE,
        Action::Secondary => Key::KeyF,
        Action::Cancel => Key::KeyQ,
        Action::Pause => Key::Escape,
        Action::Build => Key::KeyB,
    }
}

/// The key bindings.
pub struct Controls(pub fxhash::FxHashMap<Action, Key>);

impl Controls {
    /// The bindings, as a map.
    pub open spec fn view(&self) -> Map<Action, Key> {
        self.0@
    }

    /// The key bound to `a`, or `Digit0` when `a` is unbound.
    pub open spec fn key_of(&self, a: Action) -> Key {
        if self@.contains_key(a) {
            self@[a]
        } else {
            Key::Digit0
        }
    }

}

impl Default for Controls {
    /// The default bindings: every action bound to its default key.
    fn default() -> (r: Controls)
        ensures
            r@ == Map::new(|a: Action| true, |a: Action| default_binding(a)),
            r.key_of(Action::Forward) == Key::KeyW,
            r.key_of(Action::Backward) == Key::KeyS,
            r.key_of(Action::Left) == Key::KeyA,
            r.key_of(Action::Right) == Key::KeyD,
            r.key_of(Action::Jump) == Key::Space,
            r.key_of(Action::Sprint) == Key::ShiftLeft,
            r.key_of(Action::Primary) == Key::KeyE,
            r.key_of(Action::Secondary) == Key::KeyF,
            r.key_of(Action::Cancel) == Key::KeyQ,
            r.key_of(Action::Pause) == Key::Escape,
            r.key_of(Action::Build) == Key::KeyB,
    {
        let mut map: fxhash::FxHashMap<Action, Key> = fxhash::FxHashMap::default();
        bind(&mut map, Action::Forward, Key::KeyW);
        bind(&mut map, Action::Backward, Key::KeyS);
        bind(&mut map, Action::Left, Key::KeyA);
        bind(&mut map, Action::Right, Key::KeyD);
        bind(&mut map, Action::Jump, Key::Space);
        bind(&mut map, Action::Sprint, Key::ShiftLeft);
        bind(&mut map, Action::Primary, Key::KeyE);
        bind(&mut map, Action::Secondary, Key::KeyF);
        bind(&mut map, Action::Cancel, Key::KeyQ);
        bind(&mut map, Action::Pause, Key::Escape);
        bind(&mut map, Action::Build, Key::KeyB);
        let r = Controls(map);
        assert(r@ =~= Map::new(|a: Action| true, |a: Action| default_binding(a)));
        r
    }
}

impl Controls {
    /// The key bound to `action`, or `Digit0` when it is unbound.
    pub fn get(&self, action: Action) -> (r: Key)
        ensures
            r == self.key_of(action),
    {
        match lookup(&self.0, &action) {
            Some(k) => *k,
            None => Key::Digit0,
        }
    }

    /// The key bound to `action`, as shown to the player.
    pub fn print(&self, action: Action) -> (r: String)
        ensures
            r@ == key_label(key_name(self.key_of(action))),
    {
        let key = self.get(action);
        key.label()
    }
}

/// The default bindings, action by action: W, S, A, D to move forward,
/// backward, left and right, Space to jump, left Shift to sprint, E and F for
/// the primary and secondary actions, Q to cancel, Escape to pause, B to build.
pub proof fn law_default_bindings()
    ensures
        default_binding(Action::Forward) == Key::KeyW,
        default_binding(Action::Backward) == Key::KeyS,
        default_binding(Action::Left) == Key::KeyA,
        default_binding(Action::Right) == Key::KeyD,
        default_binding(Action::Jump) == Key::Space,
        default_binding(Action::Sprint) == Key::ShiftLeft,
        default_binding(Action::Primary) == Key::KeyE,
        default_binding(Action::Secondary) == Key::KeyF,
        default_binding(Action::Cancel) == Key::KeyQ,
        default_binding(Action::Pause) == Key::Escape,
        default_binding(Action::Build) == Key::KeyB,
        forall|a: Action, b: Action| a != b ==> default_binding(a) != default_binding(b),
{
}

/// Whether a name begins with the three characters `K`, `e`, `y`.
pub open spec fn begins_with_key(name: Seq<char>) -> bool {
    name.len() >= 3 && name[0] == 'K' && name[1] == 'e' && name[2] == 'y'
}

/// A name that begins with `Key` is shown as its last character; any other
/// name is shown whole.
pub proof fn law_key_label(name: Seq<char>)
    ensures
        begins_with_key(name) ==> key_label(name) == seq![name.last()],
        !begins_with_key(name) ==> key_label(name) == name,
{
    reveal_strlit("Key");
    if name.len() >= 3 {
        if begins_with_key(name) {
            assert(name.take(3) =~= "Key"@);
        } else {
            assert(name.take(3)[0] == name[0] && name.take(3)[1] == name[1] && name.take(3)[2] == name[2]);
            assert(name.take(3) != "Key"@);
        }
    }
}

/// How every key is shown: letter keys as their letter, the others by name.
pub proof fn law_key_labels()
    ensures
        key_label(key_name(Key::KeyW)) == "W"@,
        key_label(key_name(Key::KeyS)) == "S"@,
        key_label(key_name(Key::KeyA)) == "A"@,
        key_label(key_name(Key::KeyD)) == "D"@,
        key_label(key_name(Key::KeyE)) == "E"@,
        key_label(key_name(Key::KeyF)) == "F"@,
        key_label(key_name(Key::KeyQ)) == "Q"@,
        key_label(key_name(Key::KeyB)) == "B"@,
        key_label(key_name(Key::Space)) == "Space"@,
        key_label(key_name(Key::ShiftLeft)) == "ShiftLeft"@,
        key_label(key_name(Key::Escape)) == "Escape"@,
        key_label(key_name(Key::Digit0)) == "Digit0"@,
{
    reveal_strlit("KeyW");
    reveal_strlit("KeyS");
    reveal_strlit("KeyA");
    reveal_strlit("KeyD");
    reveal_strlit("KeyE");
    reveal_strlit("KeyF");
    reveal_strlit("KeyQ");
    reveal_strlit("KeyB");
    reveal_strlit("Space");
    reveal_strlit("ShiftLeft");
    reveal_strlit("Escape");
    reveal_strlit("Digit0");
    reveal_strlit("W");
    reveal_strlit("S");
    reveal_strlit("A");
    reveal_strlit("D");
    reveal_strlit("E");
    reveal_strlit("F");
    reveal_strlit("Q");
    reveal_strlit("B");
    law_key_label(key_name(Key::KeyW));
    law_key_label(key_name(Key::KeyS));
    law_key_label(key_name(Key::KeyA));
    law_key_label(key_name(Key::KeyD));
    law_key_label(key_name(Key::KeyE));
    law_key_label(key_name(Key::KeyF));
    law_key_label(key_name(Key::KeyQ));
    law_key_label(key_name(Key::KeyB));
    law_key_label(key_name(Key::Space));
    law_key_label(key_name(Key::ShiftLeft));
    law_key_label(key_name(Key::Escape));
    law_key_label(key_name(Key::Digit0));
    assert(seq!["KeyW"@.last()] =~= "W"@);
    assert(seq!["KeyS"@.last()] =~= "S"@);
    assert(seq!["KeyA"@.last()] =~= "A"@);
    assert(seq!["KeyD"@.last()] =~= "D"@);
    assert(seq!["KeyE"@.last()] =~= "E"@);
    assert(seq!["KeyF"@.last()] =~= "F"@);
    assert(seq!["KeyQ"@.last()] =~= "Q"@);
    assert(seq!["KeyB"@.last()] =~= "B"@);
}

/// Calls `HashMap::insert` on bindings hashed with `fxhash`'s `FxHasher`.
/// Stated: the contents map `a` to `k` afterwards and are otherwise unchanged.
/// This rests on `Action`'s derived `Hash` and `Eq` agreeing, as they do for an
/// enum without fields.
#[verifier::external_body]
fn bind(m: &mut fxhash::FxHashMap<Action, Key>, a: Action, k: Key)
    ensures
        final(m)@ == old(m)@.insert(a, k),
{
    m.insert(a, k);
}

/// Calls `HashMap::get` on bindings hashed with `fxhash`'s `FxHasher`. Stated:
/// the result is the key that the contents map `a` to, if any. This rests on
/// `Action`'s derived `Hash` and `Eq` agreeing.
#[verifier::external_body]
fn lookup<'a>(m: &'a fxhash::FxHashMap<Action, Key>, a: &Action) -> (r: Option<&'a Key>)
    ensures
        r == if m@.contains_key(*a) {
            Some(&m@[*a])
        } else {
            None::<&Key>
        },
{
    m.get(a)
}

} // verus!
