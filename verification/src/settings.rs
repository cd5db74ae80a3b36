//! Resolved runtime configuration: one immutable value combining the
//! namespace and the location it came from.

use vstd::prelude::*;
use crate::document;
use crate::document::{doc_lookup, parse_document, PairV};
use crate::errors::ConfigError;
use crate::location::{loc_eq, Location};
use crate::namespace::{default_namespace, Namespace};
use crate::text::seq_eq_nocase;

verus! {

/// One environment variable, as the caller read it from the process
/// environment.
pub struct EnvVar {
    /// The variable's name.
    pub name: String,
    /// The variable's value.
    pub value: String,
}

/// The value of the last variable whose name matches `key` up to ASCII
/// case, if any.
pub open spec fn env_lookup(vars: Seq<EnvVar>, key: Seq<char>) -> Option<Seq<char>>
    decreases vars.len(),
{
    if vars.len() == 0 {
        None
    } else if seq_eq_nocase(vars.last().name@, key) {
        Some(vars.last().value@)
    } else {
        env_lookup(vars.drop_last(), key)
    }
}

/// The environment variable that overrides the namespace field: the fixed
/// prefix and the field's name.
pub open spec fn env_namespace_key() -> Seq<char> {
    "PAASTEL_NAMESPACE"@
}

/// The namespace the layered sources name, highest precedence first: the
/// environment overrides the file; the file's root `namespace` key counts.
pub open spec fn merged_namespace(pairs: Seq<PairV>, env: Seq<EnvVar>) -> Option<Seq<char>> {
    match env_lookup(env, env_namespace_key()) {
        Some(v) => Some(v),
        None => doc_lookup(pairs, Seq::<char>::empty(), "namespace"@),
    }
}

/// Looks `key` up among the caller's environment variables, matching
/// names case-insensitively; the last match wins.
#[verifier::loop_isolation(false)]
fn env_lookup_exec(vars: &Vec<EnvVar>, key: &str) -> (r: Option<String>)
    ensures
        match env_lookup(vars@, key@) {
            None => r is None,
            Some(v) => r matches Some(s) && s@ == v,
        },
{
    let mut i: usize = vars.len();
    proof {
        assert(vars@.take(i as int) =~= vars@);
    }
    while i > 0
        invariant
            i <= vars.len(),
            env_lookup(vars@, key@) == env_lookup(vars@.take(i as int), key@),
        decreases i,
    {
        let v = &vars[i - 1];
        proof {
            assert(vars@.take(i as int).last() == vars@[i - 1]);
            assert(vars@.take(i as int).drop_last() =~= vars@.take(i - 1));
        }
        if crate::text::str_eq_nocase(v.name.as_str(), key) {
            return Some(v.value.clone());
        }
        i = i - 1;
    }
    proof {
        assert(vars@.take(0) =~= Seq::<EnvVar>::empty());
    }
    None
}

/// Resolved runtime settings: the active namespace, and the location the
/// settings came from. Immutable once resolved but for the explicit
/// bootstrap-time accessors.
#[derive(Debug)]
pub struct Settings {
    namespace: Namespace,
    location: Location,
}

impl Settings {
    /// The active namespace's identifier.
    pub closed spec fn namespace_spec(&self) -> Seq<char> {
        self.namespace@
    }

    /// The location this value was resolved from.
    pub closed spec fn location_spec(&self) -> Location {
        self.location
    }

    /// The active namespace.
    pub fn namespace(&self) -> (r: &Namespace)
        ensures
            r@ == self.namespace_spec(),
    {
        &self.namespace
    }

    /// Bootstrap-time access to the namespace; the location stays as it
    /// was.
    pub fn namespace_mut(&mut self) -> (r: &mut Namespace)
        ensures
            (*r)@ == old(self).namespace_spec(),
            final(self).namespace_spec() == (*final(r))@,
            final(self).location_spec() == old(self).location_spec(),
    {
        &mut self.namespace
    }

    /// The location this value was resolved from.
    pub fn location(&self) -> (r: &Location)
        ensures
            *r == self.location_spec(),
    {
        &self.location
    }

    /// Bootstrap-time access to the location; the namespace stays as it
    /// was.
    pub fn location_mut(&mut self) -> (r: &mut Location)
        ensures
            *r == old(self).location_spec(),
            final(self).location_spec() == *final(r),
            final(self).namespace_spec() == old(self).namespace_spec(),
    {
        &mut self.location
    }

    /// Resolves settings from a probed location, as a pure function of
    /// what the caller found there.
    ///
    /// `content` is the document read at `location` when it exists on
    /// disk, and `None` when it does not (the in-memory default never
    /// exists). `env` is the caller's process environment.
    ///
    /// An absent location resolves to the default namespace carrying the
    /// asked-for location itself: a missing default is not an error, and a
    /// missing explicit file is a location to be created later. Present
    /// content is layered, highest precedence first: the resolved location
    /// itself (file content never overrides where the settings say they
    /// came from), the environment's namespace override, the file's
    /// `namespace` key. A malformed document, a namespace named by no
    /// source, and an empty namespace value are each a distinct hard
    /// error, never a silent fallback, if and only if as stated.
    pub fn resolve(location: Location, content: Option<&str>, env: &Vec<EnvVar>) -> (r: Result<
        Settings,
        ConfigError,
    >)
        requires
            location is Memory ==> content is None,
            content matches Some(t) ==> t@.len() < usize::MAX,
        ensures
            content is None ==> (r matches Ok(s) && loc_eq(s.location_spec(), location)
                && s.namespace_spec() == default_namespace()),
            content matches Some(t) ==> match parse_document(t@) {
                Err(line) => r matches Err(e) && e matches ConfigError::Malformed { line: l } && l
                    as nat == line,
                Ok(ps) => match merged_namespace(ps, env@) {
                    None => r == Err::<Settings, ConfigError>(ConfigError::MissingField),
                    Some(v) => if v.len() == 0 {
                        r == Err::<Settings, ConfigError>(ConfigError::EmptyNamespace)
                    } else {
                        r matches Ok(s) && s.namespace_spec() == v && loc_eq(
                            s.location_spec(),
                            location,
                        )
                    },
                },
            },
    {
        match content {
            None => Ok(Settings { namespace: Namespace::default(), location }),
            Some(text) => {
                let pairs = match document::parse(text) {
                    Ok(p) => p,
                    Err(e) => {
                        return Err(e);
                    },
                };
                let from_env = env_lookup_exec(env, "PAASTEL_NAMESPACE");
                let named: Option<String> = match from_env {
                    Some(v) => Some(v),
                    None => {
                        proof {
                            reveal_strlit("");
                            assert(""@ =~= Seq::<char>::empty());
                        }
                        document::lookup(&pairs, "", "namespace")
                    },
                };
                match named {
                    None => Err(ConfigError::MissingField),
                    Some(value) => match Namespace::new(value) {
                        Ok(namespace) => Ok(Settings { namespace, location }),
                        Err(e) => Err(e),
                    },
                }
            },
        }
    }
}

impl Default for Settings {
    /// The default settings: the default namespace, resolved from the
    /// in-memory default location.
    fn default() -> (r: Self)
        ensures
            r.namespace_spec() == default_namespace(),
            r.location_spec() is Memory,
    {
        Settings { namespace: Namespace::default(), location: Location::Memory }
    }
}

} // verus!
