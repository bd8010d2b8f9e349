//! [`InputResolveExt`]: an [`Input`]'s reading methods, against a
//! [`Resolution`] or an [`EnvVars`] snapshot.
use vstd::prelude::*;
use crate::binding::Env;
use crate::from_raw::FromRaw;
use crate::input::{strs_view, Input};
use crate::record::opt_view;
use crate::resolve::{EnvVars, Resolution};

verus! {

/// Every environment name a binding answers to: the primary name, then the
/// aliases.
pub open spec fn binding_names(env: Option<Env>) -> Seq<Seq<char>> {
    match env {
        Some(e) => seq![e.name@] + strs_view(e.aliases@),
        None => seq![],
    }
}

/// The value of the first of `names[j..]` that `env` sets.
pub open spec fn first_set_in(env: EnvVars, names: Seq<Seq<char>>, j: nat) -> Option<Seq<char>>
    decreases names.len() - j,
{
    if j >= names.len() {
        None
    } else {
        match env.spec_get(names[j as int]) {
            Some(v) => Some(v),
            None => first_set_in(env, names, j + 1),
        }
    }
}

/// Whether any of `names` is set in `env`.
pub open spec fn any_set(env: EnvVars, names: Seq<Seq<char>>) -> bool {
    exists|j: int| 0 <= j < names.len() && (#[trigger] env.spec_get(names[j])) is Some
}

/// `v` is what `T` reads from the raw text `raw`, if anything.
pub open spec fn reads<T: FromRaw>(raw: Option<Seq<char>>, v: Option<T>) -> bool {
    match raw {
        Some(s) => if T::spec_accepts(s) {
            v matches Some(x) && T::spec_parses_to(s, x)
        } else {
            v is None
        },
        None => v is None,
    }
}

/// The reading methods of an [`Input`].
pub trait InputResolveExt<T> {
    /// Every environment name this input answers to.
    fn env_names(&self) -> Vec<&'static str>;

    /// Read and parse from `env`. `None` means absent or invalid.
    fn get_in(&self, env: &EnvVars) -> Option<T>;

    /// Read and parse from a resolved invocation, honouring precedence
    /// across both bindings.
    fn get_from(&self, resolution: &Resolution) -> Option<T>;

    /// Whether the input is set in `env`.
    fn is_set_in(&self, env: &EnvVars) -> bool;

    /// The raw, unparsed value from `env`, if set.
    fn raw_in(&self, env: &EnvVars) -> Option<String>;
}

impl<T: FromRaw, C> InputResolveExt<T> for Input<T, C> {
    fn env_names(&self) -> (r: Vec<&'static str>)
        ensures
            strs_view(r@) == binding_names(self.env),
    {
        let mut out: Vec<&'static str> = Vec::new();
        match self.env {
            None => {},
            Some(e) => {
                out.push(e.name);
                let mut i: usize = 0;
                while i < e.aliases.len()
                    invariant
                        i <= e.aliases@.len(),
                        strs_view(out@) == seq![e.name@] + strs_view(e.aliases@.take(i as int)),
                    decreases e.aliases@.len() - i,
                {
                    let ghost before = out@;
                    out.push(e.aliases[i]);
                    assert(strs_view(out@) =~= strs_view(before).push(e.aliases@[i as int]@));
                    assert(e.aliases@.take(i + 1) =~= e.aliases@.take(i as int).push(
                        e.aliases@[i as int],
                    ));
                    assert(strs_view(e.aliases@.take(i + 1)) =~= strs_view(
                        e.aliases@.take(i as int),
                    ).push(e.aliases@[i as int]@));
                    i = i + 1;
                    assert(strs_view(out@) =~= seq![e.name@] + strs_view(e.aliases@.take(i as int)));
                }
                assert(e.aliases@.take(e.aliases@.len() as int) =~= e.aliases@);
            },
        }
        assert(strs_view(out@) =~= binding_names(self.env));
        out
    }

    fn raw_in(&self, env: &EnvVars) -> (r: Option<String>)
        ensures
            opt_view(r) == first_set_in(*env, binding_names(self.env), 0),
    {
        let names = self.env_names();
        let mut j: usize = 0;
        while j < names.len()
            invariant
                j <= names@.len(),
                strs_view(names@) == binding_names(self.env),
                first_set_in(*env, binding_names(self.env), 0) == first_set_in(
                    *env,
                    binding_names(self.env),
                    j as nat,
                ),
            decreases names@.len() - j,
        {
            let v = env.get(names[j]);
            if v.is_some() {
                return v;
            }
            j = j + 1;
        }
        None
    }

    fn is_set_in(&self, env: &EnvVars) -> (r: bool)
        ensures
            r == any_set(*env, binding_names(self.env)),
    {
        let names = self.env_names();
        let mut j: usize = 0;
        while j < names.len()
            invariant
                j <= names@.len(),
                strs_view(names@) == binding_names(self.env),
                forall|i: int| 0 <= i < j ==> (#[trigger] env.spec_get(binding_names(self.env)[i])) is None,
            decreases names@.len() - j,
        {
            if env.get(names[j]).is_some() {
                assert(env.spec_get(binding_names(self.env)[j as int]) is Some);
                return true;
            }
            j = j + 1;
        }
        false
    }

    fn get_in(&self, env: &EnvVars) -> (r: Option<T>)
        ensures
            reads(first_set_in(*env, binding_names(self.env), 0), r),
    {
        match self.raw_in(env) {
            Some(s) => T::from_raw(s.as_str()),
            None => None,
        }
    }

    fn get_from(&self, resolution: &Resolution) -> (r: Option<T>)
        ensures
            reads(
                match resolution.spec_lookup(self.key@) {
                    Some(vs) => Some(vs.0),
                    None => None,
                },
                r,
            ),
    {
        match resolution.raw(self.key) {
            Some(s) => T::from_raw(s),
            None => None,
        }
    }
}

/// Reading with a fall-back to the declared default.
pub trait InputResolveDefaultExt<T> {
    /// Read from a resolved invocation, falling back to the declared default.
    fn get_from_or_default(&self, resolution: &Resolution) -> Option<T>;
}

impl<T: FromRaw + Clone, C> InputResolveDefaultExt<T> for Input<T, C> {
    fn get_from_or_default(&self, resolution: &Resolution) -> (r: Option<T>)
        ensures
            match resolution.spec_lookup(self.key@) {
                Some(vs) if T::spec_accepts(vs.0) => r matches Some(x) && T::spec_parses_to(
                    vs.0,
                    x,
                ),
                _ => match self.default {
                    Some(d) => r matches Some(x) && cloned(d, x),
                    None => r is None,
                },
            },
    {
        match self.get_from(resolution) {
            Some(v) => Some(v),
            None => match &self.default {
                Some(d) => Some(d.clone()),
                None => None,
            },
        }
    }
}

} // verus!
