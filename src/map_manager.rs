//! The key map: which key runs which action, and the window-manager commands
//! that bind and unbind those keys.
use vstd::prelude::*;

use crate::rule::texts;

verus! {

/// A key binding, in the window manager's notation (`Alt+C`).
#[derive(Clone, Debug)]
pub struct KeyC {
    pub key: String,
}

/// An entry of the key map: a key and the action that it runs.
#[derive(Clone, Debug)]
pub enum Keymap {
    /// Jump back to the previously focused window.
    Last { key: KeyC },
    /// Apply the rule named `target`.
    RuleFocus { key: KeyC, target: String },
}

/// The key of an entry.
pub open spec fn key_text(k: Keymap) -> Seq<char> {
    match k {
        Keymap::Last { key } => key.key@,
        Keymap::RuleFocus { key, .. } => key.key@,
    }
}

/// The command that a bound key runs: the client, asked for the entry's
/// action.
pub open spec fn action_text(k: Keymap) -> Seq<char> {
    match k {
        Keymap::Last { .. } => "exec changeup-client last"@,
        Keymap::RuleFocus { target, .. } => "exec changeup-client rule-focus "@ + target@,
    }
}

/// The command that binds the entry's key.
pub open spec fn bind_text(k: Keymap) -> Seq<char> {
    "bindsym "@ + key_text(k) + " "@ + action_text(k)
}

/// The command that unbinds the entry's key.
pub open spec fn unbind_text(k: Keymap) -> Seq<char> {
    "unbindsym "@ + key_text(k)
}

/// The commands that bind every entry of `s`, in order.
pub open spec fn bind_cmds(s: Seq<Keymap>) -> Seq<Seq<char>> {
    s.map_values(|k: Keymap| bind_text(k))
}

/// The commands that unbind every entry of `s`, in order.
pub open spec fn unbind_cmds(s: Seq<Keymap>) -> Seq<Seq<char>> {
    s.map_values(|k: Keymap| unbind_text(k))
}

impl Keymap {
    /// The key of the entry.
    pub fn key(&self) -> (r: &str)
        ensures
            r@ == key_text(*self),
    {
        match self {
            Keymap::Last { key } => key.key.as_str(),
            Keymap::RuleFocus { key, .. } => key.key.as_str(),
        }
    }

    /// The command that binds the entry's key to its action.
    pub fn load(&self) -> (r: String)
        ensures
            r@ == bind_text(*self),
    {
        let mut s = String::from_str("bindsym ");
        s.append(self.key());
        s.append(" ");
        match self {
            Keymap::Last { .. } => {
                s.append("exec changeup-client last");
            },
            Keymap::RuleFocus { target, .. } => {
                s.append("exec changeup-client rule-focus ");
                s.append(target.as_str());
            },
        }
        s
    }

    /// The command that unbinds the entry's key.
    pub fn unload(&self) -> (r: String)
        ensures
            r@ == unbind_text(*self),
    {
        let mut s = String::from_str("unbindsym ");
        s.append(self.key());
        s
    }
}

/// The key map in force.
pub struct MapManager {
    inner: Vec<Keymap>,
}

impl View for MapManager {
    type V = Seq<Keymap>;

    closed spec fn view(&self) -> Seq<Keymap> {
        self.inner@
    }
}

impl Default for MapManager {
    fn default() -> (r: MapManager)
        ensures
            r@ == Seq::<Keymap>::empty(),
    {
        MapManager { inner: Vec::new() }
    }
}

impl MapManager {
    /// A key map without entries.
    pub fn new() -> (r: MapManager)
        ensures
            r@ == Seq::<Keymap>::empty(),
    {
        MapManager { inner: Vec::new() }
    }

    /// Appends to `out` the commands that unbind the entries of `inner`.
    fn unload(inner: &Vec<Keymap>, out: &mut Vec<String>)
        ensures
            texts(final(out)@) == texts(old(out)@) + unbind_cmds(inner@),
    {
        let ghost start = texts(out@);
        let mut i: usize = 0;
        while i < inner.len()
            invariant
                0 <= i <= inner@.len(),
                texts(out@) == start + unbind_cmds(inner@.take(i as int)),
            decreases inner@.len() - i,
        {
            let c = inner[i].unload();
            let ghost before = out@;
            out.push(c);
            proof {
                assert(texts(out@) =~= texts(before).push(c@));
                assert(unbind_cmds(inner@.take(i + 1)) =~= unbind_cmds(inner@.take(i as int)).push(
                    unbind_text(inner@[i as int]),
                ));
            }
            i = i + 1;
        }
        proof {
            assert(inner@.take(inner@.len() as int) =~= inner@);
        }
    }

    /// Appends to `out` the commands that bind the entries of `inner`.
    fn load(inner: &Vec<Keymap>, out: &mut Vec<String>)
        ensures
            texts(final(out)@) == texts(old(out)@) + bind_cmds(inner@),
    {
        let ghost start = texts(out@);
        let mut i: usize = 0;
        while i < inner.len()
            invariant
                0 <= i <= inner@.len(),
                texts(out@) == start + bind_cmds(inner@.take(i as int)),
            decreases inner@.len() - i,
        {
            let c = inner[i].load();
            let ghost before = out@;
            out.push(c);
            proof {
                assert(texts(out@) =~= texts(before).push(c@));
                assert(bind_cmds(inner@.take(i + 1)) =~= bind_cmds(inner@.take(i as int)).push(
                    bind_text(inner@[i as int]),
                ));
            }
            i = i + 1;
        }
        proof {
            assert(inner@.take(inner@.len() as int) =~= inner@);
        }
    }

    /// The commands that move the window manager from the key map `old_as`
    /// to `new_as`: every old key unbound, then every new key bound, each in
    /// list order.
    pub fn replace(old_as: &Vec<Keymap>, new_as: &Vec<Keymap>) -> (r: Vec<String>)
        ensures
            texts(r@) == unbind_cmds(old_as@) + bind_cmds(new_as@),
    {
        let mut out: Vec<String> = Vec::new();
        proof {
            assert(texts(out@) =~= Seq::empty());
        }
        MapManager::unload(old_as, &mut out);
        MapManager::load(new_as, &mut out);
        proof {
            assert(Seq::<Seq<char>>::empty() + unbind_cmds(old_as@) =~= unbind_cmds(old_as@));
        }
        out
    }

    /// Puts `actions` in force and hands back the key map it replaces.
    pub fn replace_actions(&mut self, actions: Vec<Keymap>) -> (old_as: Vec<Keymap>)
        ensures
            final(self)@ == actions@,
            old_as@ == old(self)@,
    {
        let mut taken = actions;
        std::mem::swap(&mut self.inner, &mut taken);
        taken
    }

    /// The commands that bind the key map in force again.
    pub fn reload_actions(&self) -> (r: Vec<String>)
        ensures
            texts(r@) == bind_cmds(self@),
    {
        let mut out: Vec<String> = Vec::new();
        proof {
            assert(texts(out@) =~= Seq::empty());
        }
        MapManager::load(&self.inner, &mut out);
        proof {
            assert(Seq::<Seq<char>>::empty() + bind_cmds(self@) =~= bind_cmds(self@));
        }
        out
    }

    /// The key map in force.
    pub fn actions(&self) -> (r: &Vec<Keymap>)
        ensures
            r@ == self@,
    {
        &self.inner
    }
}

} // verus!
