//! Setting environment variables for a while and putting them back.
use vstd::prelude::*;

use std::rc::Rc;

use crate::util::name_map::{insert_entry, insert_named, named, unique_names};
use crate::viewmodel::capabilities::Capabilities;

verus! {

/// Saves the state of the environment variables that it sets, so that
/// [EnvWithRoleBack::role_back] can put them back after the commands ran.
pub struct EnvWithRoleBack {
    previous_envs: Vec<(String, Option<String>)>,
}

/// The names of the variables to set.
pub open spec fn env_names(envs: Seq<(String, String)>) -> Seq<Seq<char>> {
    envs.map_values(|e: (String, String)| e.0@)
}

/// The records after saving, name by name, the values `vals` found before
/// setting the variables `names`: each name is recorded once, with the value
/// found before it was last set.
pub open spec fn saved_after(
    s: Seq<(Seq<char>, Option<String>)>,
    names: Seq<Seq<char>>,
    vals: Seq<Option<String>>,
) -> Seq<(Seq<char>, Option<String>)>
    decreases names.len(),
{
    if names.len() == 0 || vals.len() != names.len() {
        s
    } else {
        insert_named(
            saved_after(s, names.drop_last(), vals.drop_last()),
            names.last(),
            vals.last(),
        )
    }
}

impl Default for EnvWithRoleBack {
    fn default() -> (r: Self)
        ensures
            r.saved() == Seq::<(Seq<char>, Option<String>)>::empty(),
    {
        Self::new()
    }
}

impl EnvWithRoleBack {
    #[verifier::type_invariant]
    spec fn inv(self) -> bool {
        unique_names(named(self.previous_envs@))
    }

    /// The saved variables with the value each had (`None`: unset), in order
    /// of first saving.
    pub closed spec fn saved(&self) -> Seq<(Seq<char>, Option<String>)> {
        named(self.previous_envs@)
    }

    pub fn new() -> (r: Self)
        ensures
            r.saved() == Seq::<(Seq<char>, Option<String>)>::empty(),
    {
        let r = EnvWithRoleBack { previous_envs: Vec::new() };
        assert(r.saved() =~= Seq::<(Seq<char>, Option<String>)>::empty());
        r
    }

    /// Saves the current value of a variable (what the environment gave for
    /// it) and sets it.
    pub fn set_env<C: Capabilities>(&mut self, caps: &Rc<C>, name: &str, value: &str)
        ensures
            exists|previous: Option<String>|
                final(self).saved() == #[trigger] insert_named(old(self).saved(), name@, previous)
                    && caps.env_reply(name@, crate::text::opt_view(previous)),
    {
        let previous = caps.get_env(name);
        self.save_previous(name, previous);
        caps.set_env(name, value);
    }

    /// Records `previous` as the value that the variable `name` had before it
    /// was set: the record of `name` is replaced, or added after the others.
    pub fn save_previous(&mut self, name: &str, previous: Option<String>)
        ensures
            final(self).saved() == insert_named(old(self).saved(), name@, previous),
    {
        let ghost p = previous;
        let mut entries = Vec::new();
        proof {
            use_type_invariant(&*self);
            assert(name@.push('x').len() != name@.len());
            crate::util::name_map::insert_named_law(self.saved(), name@, p, name@.push('x'));
        }
        std::mem::swap(&mut entries, &mut self.previous_envs);
        insert_entry(&mut entries, name.to_owned(), previous);
        assert(unique_names(named(entries@)));
        self.previous_envs = entries;
    }

    /// Saves the current value of each variable and sets it.
    pub fn set_envs<C: Capabilities>(&mut self, caps: &Rc<C>, envs: &Vec<(String, String)>)
        ensures
            exists|previous: Seq<Option<String>>|
                previous.len() == envs@.len() && final(self).saved() == #[trigger] saved_after(
                    old(self).saved(),
                    env_names(envs@),
                    previous,
                ) && forall|i: int|
                    0 <= i < previous.len() ==> caps.env_reply(envs@[i].0@, crate::text::opt_view(#[trigger] previous[i])),
    {
        let ghost mut vals: Seq<Option<String>> = Seq::empty();
        let mut k: usize = 0;
        while k < envs.len()
            invariant
                k <= envs@.len(),
                vals.len() == k,
                forall|i: int| 0 <= i < k ==> caps.env_reply(envs@[i].0@, crate::text::opt_view(#[trigger] vals[i])),
                self.saved() == saved_after(old(self).saved(), env_names(envs@.take(k as int)), vals),
            decreases envs@.len() - k,
        {
            let ghost before = self.saved();
            self.set_env(caps, envs[k].0.as_str(), envs[k].1.as_str());
            proof {
                let p = choose|p: Option<String>|
                    self.saved() == #[trigger] insert_named(before, envs@[k as int].0@, p)
                        && caps.env_reply(envs@[k as int].0@, crate::text::opt_view(p));
                let names = env_names(envs@.take(k + 1));
                assert(names.drop_last() == env_names(envs@.take(k as int)));
                assert(names.last() == envs@[k as int].0@);
                assert(vals.push(p).drop_last() == vals);
                vals = vals.push(p);
            }
            k = k + 1;
        }
        assert(envs@.take(envs@.len() as int) == envs@);
    }

    /// Puts every saved variable back: sets it to its saved value, or
    /// removes it where it was unset.
    pub fn role_back<C: Capabilities>(self, caps: &Rc<C>) {
        let mut i: usize = 0;
        while i < self.previous_envs.len()
            decreases self.previous_envs@.len() - i,
        {
            match &self.previous_envs[i].1 {
                Some(value) => caps.set_env(self.previous_envs[i].0.as_str(), value.as_str()),
                None => caps.remove_env(self.previous_envs[i].0.as_str()),
            }
            i = i + 1;
        }
    }
}

} // verus!
