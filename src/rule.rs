//! Rules: for a rule name, the identities to look for, in order, and the
//! command to run when none of them has a live window.
use vstd::prelude::*;

verus! {

/// A rule: `link` lists the identities (application ids) to look for, in
/// the order in which they are checked; `fallback` is the shell command to
/// run when none of them has a live window.
#[derive(Clone, Debug)]
pub struct Rule {
    link: Vec<String>,
    fallback: Option<String>,
}

/// The mathematical value of a [`Rule`].
pub struct RuleView {
    pub links: Seq<Seq<char>>,
    pub fallback: Option<Seq<char>>,
}

/// The views of a sequence of strings.
pub open spec fn texts(v: Seq<String>) -> Seq<Seq<char>> {
    v.map_values(|s: String| s@)
}

/// The window-manager command that runs the shell command `e`.
pub open spec fn exec_command(e: Seq<char>) -> Seq<char> {
    "exec "@ + e
}

impl View for Rule {
    type V = RuleView;

    closed spec fn view(&self) -> RuleView {
        RuleView {
            links: texts(self.link@),
            fallback: match self.fallback {
                Some(e) => Some(e@),
                None => None,
            },
        }
    }
}

impl Rule {
    /// A rule that looks for `link` in order and falls back to `fallback`.
    pub fn new(link: Vec<String>, fallback: Option<String>) -> (r: Rule)
        ensures
            r@.links == texts(link@),
            r@.fallback == match fallback {
                Some(e) => Some(e@),
                None => None::<Seq<char>>,
            },
    {
        Rule { link, fallback }
    }

    /// The identities to look for, in order.
    pub fn links(&self) -> (r: &[String])
        ensures
            texts(r@) == self@.links,
    {
        self.link.as_slice()
    }

    /// The fallback command as written in the rule.
    pub fn fallback(&self) -> (r: &Option<String>)
        ensures
            match *r {
                Some(e) => self@.fallback == Some(e@),
                None => self@.fallback is None,
            },
    {
        &self.fallback
    }

    /// The window-manager command that runs the fallback, if there is one.
    pub fn exec(&self) -> (r: Option<String>)
        ensures
            match r {
                Some(c) => self@.fallback is Some && c@ == exec_command(self@.fallback->0),
                None => self@.fallback is None,
            },
    {
        match &self.fallback {
            Some(e) => {
                let mut c = String::from_str("exec ");
                c.append(e.as_str());
                Some(c)
            },
            None => None,
        }
    }
}

/// The rules by name.
pub struct RuleSet {
    rules: Vec<(String, Rule)>,
    model: Ghost<Map<Seq<char>, RuleView>>,
}

impl View for RuleSet {
    type V = Map<Seq<char>, RuleView>;

    closed spec fn view(&self) -> Map<Seq<char>, RuleView> {
        self.model@
    }
}

closed spec fn rules_ok(e: Seq<(String, Rule)>, m: Map<Seq<char>, RuleView>) -> bool {
    &&& forall|i: int, j: int| 0 <= i < j < e.len() ==> e[i].0@ != e[j].0@
    &&& forall|i: int| 0 <= i < e.len() ==> m.contains_key(#[trigger] e[i].0@) && m[e[i].0@] == e[i].1@
    &&& forall|k: Seq<char>| #[trigger]
        m.contains_key(k) ==> exists|i: int| 0 <= i < e.len() && e[i].0@ == k
}

impl RuleSet {
    #[verifier::type_invariant]
    closed spec fn inv(self) -> bool {
        rules_ok(self.rules@, self.model@)
    }

    /// A rule set without rules.
    pub fn new() -> (r: RuleSet)
        ensures
            r@ == Map::<Seq<char>, RuleView>::empty(),
    {
        RuleSet { rules: Vec::new(), model: Ghost(Map::empty()) }
    }

    /// The position of the rule named `name`, if there is one.
    fn find(&self, name: &String) -> (r: Option<usize>)
        ensures
            match r {
                Some(i) => i < self.rules@.len() && self.rules@[i as int].0@ == name@
                    && self@.contains_key(name@) && self@[name@] == self.rules@[i as int].1@,
                None => !self@.contains_key(name@),
            },
    {
        proof {
            use_type_invariant(self);
        }
        let mut i: usize = 0;
        while i < self.rules.len()
            invariant
                0 <= i <= self.rules@.len(),
                forall|j: int| 0 <= j < i ==> self.rules@[j].0@ != name@,
            decreases self.rules@.len() - i,
        {
            if self.rules[i].0 == *name {
                proof {
                    use_type_invariant(self);
                    assert(self.model@.contains_key(self.rules@[i as int].0@));
                }
                return Some(i);
            }
            i = i + 1;
        }
        None
    }

    /// The rule named `name`, if there is one.
    pub fn get(&self, name: &String) -> (r: Option<&Rule>)
        ensures
            match r {
                Some(rule) => self@.contains_key(name@) && rule@ == self@[name@],
                None => !self@.contains_key(name@),
            },
    {
        match self.find(name) {
            Some(i) => Some(&self.rules[i].1),
            None => None,
        }
    }

    /// Sets the rule named `name` to `rule`, replacing any rule of that name.
    pub fn insert(&mut self, name: String, rule: Rule)
        ensures
            final(self)@ == old(self)@.insert(name@, rule@),
    {
        proof {
            use_type_invariant(&*self);
        }
        let found = self.find(&name);
        let mut taken = RuleSet::new();
        std::mem::swap(self, &mut taken);
        let RuleSet { mut rules, model } = taken;
        let ghost m = model@;
        let ghost e = rules@;
        let ghost m2 = m.insert(name@, rule@);
        match found {
            Some(f) => {
                rules.set(f, (name, rule));
                proof {
                    let e2 = rules@;
                    assert forall|k: Seq<char>| #[trigger] m2.contains_key(k) implies exists|i: int|
                        0 <= i < e2.len() && e2[i].0@ == k by {
                        if k != e[f as int].0@ {
                            let i = choose|i: int| 0 <= i < e.len() && e[i].0@ == k;
                            assert(e2[i].0@ == k);
                        } else {
                            assert(e2[f as int].0@ == k);
                        }
                    }
                }
            },
            None => {
                rules.push((name, rule));
                proof {
                    let e2 = rules@;
                    assert forall|k: Seq<char>| #[trigger] m2.contains_key(k) implies exists|i: int|
                        0 <= i < e2.len() && e2[i].0@ == k by {
                        if m.contains_key(k) {
                            let i = choose|i: int| 0 <= i < e.len() && e[i].0@ == k;
                            assert(e2[i].0@ == k);
                        } else {
                            assert(e2[e.len() as int].0@ == k);
                        }
                    }
                }
            },
        }
        *self = RuleSet { rules, model: Ghost(m2) };
    }

    /// The named rules, each name once.
    pub fn as_slice(&self) -> (r: &[(String, Rule)])
        ensures
            forall|i: int| 0 <= i < r@.len() ==> self@.contains_key(#[trigger] r@[i].0@) && self@[r@[i].0@]
                == r@[i].1@,
            forall|k: Seq<char>| #[trigger]
                self@.contains_key(k) ==> exists|i: int| 0 <= i < r@.len() && r@[i].0@ == k,
            forall|i: int, j: int| 0 <= i < j < r@.len() ==> r@[i].0@ != r@[j].0@,
    {
        proof {
            use_type_invariant(self);
        }
        self.rules.as_slice()
    }
}

} // verus!
