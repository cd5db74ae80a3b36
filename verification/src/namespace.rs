//! The validated logical grouping identifier that scopes directory lookups.

use vstd::prelude::*;
use crate::errors::ConfigError;

verus! {

/// The namespace every process starts in when no source names another.
pub open spec fn default_namespace() -> Seq<char> {
    "workspace"@
}

/// A validated, non-empty scoping identifier for directory queries.
#[derive(Debug)]
pub struct Namespace {
    value: String,
}

impl View for Namespace {
    type V = Seq<char>;

    closed spec fn view(&self) -> Seq<char> {
        self.value@
    }
}

impl Namespace {
    /// A namespace value is never empty.
    #[verifier::type_invariant]
    pub closed spec fn wf(self) -> bool {
        self.value@.len() > 0
    }

    /// Validates `value` as a namespace: any non-empty string is accepted,
    /// the empty string is rejected, if and only if.
    pub fn new(value: String) -> (r: Result<Namespace, ConfigError>)
        ensures
            value@.len() > 0 <==> r is Ok,
            r matches Ok(n) ==> n@ == value@,
            r is Err ==> r == Err::<Namespace, ConfigError>(ConfigError::EmptyNamespace),
    {
        if value.as_str().unicode_len() == 0 {
            Err(ConfigError::EmptyNamespace)
        } else {
            Ok(Namespace { value })
        }
    }

    /// The identifier itself.
    pub fn as_str(&self) -> (r: &str)
        ensures
            r@ == self@,
    {
        self.value.as_str()
    }

}

impl Default for Namespace {
    /// The default namespace, `workspace`.
    fn default() -> (r: Self)
        ensures
            r@ == default_namespace(),
    {
        proof {
            reveal_strlit("workspace");
        }
        Namespace { value: String::from_str("workspace") }
    }
}

} // verus!
