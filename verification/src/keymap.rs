//! The modifier keys, and a key together with the modifiers held with it.

use vstd::prelude::*;
use vstd::std_specs::cmp::PartialEqSpecImpl;
use vstd::string::*;
use crate::text::str_eq;

verus! {

/// Which modifier keys are held.
#[derive(Debug, Clone, Copy, PartialEq, Eq, Structural)]
pub struct Modifiers {
    pub ctrl: bool,
    pub alt: bool,
    pub shift: bool,
    pub caps_lock: bool,
    pub logo: bool,
    pub num_lock: bool,
}

impl Modifiers {
    /// No modifier key held.
    pub open spec fn spec_none() -> Modifiers {
        Modifiers {
            ctrl: false,
            alt: false,
            shift: false,
            caps_lock: false,
            logo: false,
            num_lock: false,
        }
    }

    /// No modifier key held.
    #[verifier::when_used_as_spec(spec_none)]
    pub fn none() -> (m: Modifiers)
        ensures
            m == Modifiers::spec_none(),
    {
        Modifiers {
            ctrl: false,
            alt: false,
            shift: false,
            caps_lock: false,
            logo: false,
            num_lock: false,
        }
    }

    /// Whether control, alt, shift and logo are held alike in both; the
    /// lock keys do not count.
    pub open spec fn spec_same_keys(&self, other: &Modifiers) -> bool {
        self.ctrl == other.ctrl && self.alt == other.alt && self.shift == other.shift && self.logo
            == other.logo
    }

    /// Whether control, alt, shift and logo are held alike in both.
    #[verifier::when_used_as_spec(spec_same_keys)]
    pub fn same_keys(&self, other: &Modifiers) -> (r: bool)
        ensures
            r == self.spec_same_keys(other),
    {
        self.ctrl == other.ctrl && self.alt == other.alt && self.shift == other.shift && self.logo
            == other.logo
    }
}

/// A key, by its symbol, together with the modifiers held with it.
#[derive(Debug, Clone, Copy)]
pub struct KeyMap {
    pub key: u32,
    pub modifier: Modifiers,
}

impl KeyMap {
    /// Whether two are the same: the keys are, and control, alt, shift and
    /// logo are held alike; the lock keys do not count.
    pub open spec fn same(self, other: KeyMap) -> bool {
        self.key == other.key && self.modifier.spec_same_keys(&other.modifier)
    }

    /// A key with modifiers.
    pub fn new(key: u32, modifier: Modifiers) -> (map: KeyMap)
        ensures
            map.key == key,
            map.modifier == modifier,
    {
        KeyMap { key, modifier }
    }
}

impl PartialEq for KeyMap {
    /// Two are the same where the keys are and control, alt, shift and logo
    /// are held alike; the lock keys do not count.
    fn eq(&self, other: &KeyMap) -> (r: bool) {
        self.key == other.key && self.modifier.same_keys(&other.modifier)
    }
}

impl PartialEqSpecImpl for KeyMap {
    open spec fn obeys_eq_spec() -> bool {
        true
    }

    open spec fn eq_spec(&self, other: &KeyMap) -> bool {
        self.same(*other)
    }
}

impl Eq for KeyMap {

}

/// The symbol of the escape key.
pub const KEY_ESCAPE: u32 = 0xff1b;

/// The modifiers with the named one held too; none where the name is not
/// that of control, alt, shift or logo.
pub open spec fn with_named(m: Modifiers, name: Seq<char>) -> Option<Modifiers> {
    if name == "ctrl"@ {
        Some(Modifiers { ctrl: true, ..m })
    } else if name == "alt"@ {
        Some(Modifiers { alt: true, ..m })
    } else if name == "shift"@ {
        Some(Modifiers { shift: true, ..m })
    } else if name == "logo"@ {
        Some(Modifiers { logo: true, ..m })
    } else {
        None
    }
}

/// The modifiers that the first `n` names stand for. The first name that
/// is none of a modifier is the error, followed by the words
/// " is not a modifier".
pub open spec fn modifiers_of(names: Seq<Seq<char>>, n: nat) -> Result<Modifiers, Seq<char>>
    decreases n,
{
    if n == 0 {
        Ok(Modifiers::spec_none())
    } else {
        match modifiers_of(names, (n - 1) as nat) {
            Err(e) => Err(e),
            Ok(m) => match with_named(m, names[n - 1]) {
                Some(m) => Ok(m),
                None => Err(names[n - 1] + " is not a modifier"@),
            },
        }
    }
}

/// The characters of each of some texts.
pub open spec fn texts(names: Seq<String>) -> Seq<Seq<char>> {
    Seq::new(names.len(), |i: int| names[i]@)
}

proof fn lemma_modifiers_stop(names: Seq<Seq<char>>, n: nat, m: nat)
    requires
        n <= m,
        modifiers_of(names, n) is Err,
    ensures
        modifiers_of(names, m) == modifiers_of(names, n),
    decreases m,
{
    if n < m {
        lemma_modifiers_stop(names, n, (m - 1) as nat);
    }
}

/// Reads the modifiers from their names.
pub fn to_modifier(slice: &[String]) -> (r: Result<Modifiers, String>)
    ensures
        match r {
            Ok(m) => modifiers_of(texts(slice@), slice@.len()) == Ok::<Modifiers, Seq<char>>(m),
            Err(message) => modifiers_of(texts(slice@), slice@.len()) == Err::<
                Modifiers,
                Seq<char>,
            >(message@),
        },
{
    let mut modifiers = Modifiers::none();
    let mut i: usize = 0;
    while i < slice.len()
        invariant
            i <= slice@.len(),
            modifiers_of(texts(slice@), i as nat) == Ok::<Modifiers, Seq<char>>(modifiers),
        decreases slice@.len() - i,
    {
        let name = slice[i].as_str();
        assert(texts(slice@)[i as int] == name@);
        if str_eq(name, "ctrl") {
            modifiers.ctrl = true;
        } else if str_eq(name, "alt") {
            modifiers.alt = true;
        } else if str_eq(name, "shift") {
            modifiers.shift = true;
        } else if str_eq(name, "logo") {
            modifiers.logo = true;
        } else {
            let message = name.to_owned().concat(" is not a modifier");
            proof {
                assert(modifiers_of(texts(slice@), (i + 1) as nat) == Err::<Modifiers, Seq<char>>(
                    message@,
                ));
                lemma_modifiers_stop(texts(slice@), (i + 1) as nat, slice@.len());
            }
            return Err(message);
        }
        i += 1;
    }
    Ok(modifiers)
}

/// The names of the modifiers held, in the order control, alt, shift,
/// logo. The lock keys have no name.
pub open spec fn names_of(m: Modifiers) -> Seq<&'static str> {
    (if m.ctrl {
        seq!["ctrl"]
    } else {
        Seq::<&'static str>::empty()
    }) + (if m.alt {
        seq!["alt"]
    } else {
        Seq::<&'static str>::empty()
    }) + (if m.shift {
        seq!["shift"]
    } else {
        Seq::<&'static str>::empty()
    }) + (if m.logo {
        seq!["logo"]
    } else {
        Seq::<&'static str>::empty()
    })
}

/// The names of the modifiers held.
pub fn modifier_names(m: &Modifiers) -> (names: Vec<&'static str>)
    ensures
        names@ == names_of(*m),
{
    let mut names: Vec<&'static str> = Vec::new();
    if m.ctrl {
        names.push("ctrl");
    }
    if m.alt {
        names.push("alt");
    }
    if m.shift {
        names.push("shift");
    }
    if m.logo {
        names.push("logo");
    }
    assert(names@ =~= names_of(*m));
    names
}

} // verus!
