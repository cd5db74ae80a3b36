//! Where settings data originates: the in-memory default, or a file path.

use vstd::prelude::*;
use crate::errors::ConfigError;

verus! {

/// Origin of settings data. `Memory` is the process's default, in-memory
/// origin and never exists on disk; `File` names a path whose existence is
/// checked by the caller, never assumed.
#[derive(Debug)]
pub enum Location {
    /// The in-memory default origin.
    Memory,
    /// A settings file at `path`.
    File { path: String },
}

/// Two locations are the same origin: both in-memory, or files at the
/// same path.
pub open spec fn loc_eq(a: Location, b: Location) -> bool {
    match (a, b) {
        (Location::Memory, Location::Memory) => true,
        (Location::File { path: p }, Location::File { path: q }) => p@ == q@,
        _ => false,
    }
}

/// Index of the last `/` in `s`, if any.
pub open spec fn last_slash(s: Seq<char>) -> Option<int>
    decreases s.len(),
{
    if s.len() == 0 {
        None
    } else if s.last() == '/' {
        Some(s.len() - 1)
    } else {
        last_slash(s.drop_last())
    }
}

/// The parent directory of `path` under the crate's path convention:
/// everything before the last `/`, or `/` itself when the last `/` is the
/// leading one. `None` when the path holds no `/` at all.
pub open spec fn parent_of(path: Seq<char>) -> Option<Seq<char>> {
    match last_slash(path) {
        None => None,
        Some(k) => if k == 0 {
            Some(path.take(1))
        } else {
            Some(path.take(k))
        },
    }
}

impl Location {
    /// Whether this location is the process's default one.
    pub open spec fn spec_is_default(self) -> bool {
        self is Memory
    }

    /// Whether this location is the process's default one. The in-memory
    /// origin is the default; any file path is an explicit choice.
    pub fn is_default(&self) -> (r: bool)
        ensures
            r == self.spec_is_default(),
    {
        match self {
            Location::Memory => true,
            Location::File { .. } => false,
        }
    }

    /// The directory that must exist (or be created) before a file can be
    /// written at this location: the path up to its last `/`. The in-memory
    /// origin, and a path without any `/`, have no parent directory; that
    /// is a distinct error from a file that is merely absent.
    #[verifier::loop_isolation(false)]
    pub fn parent_dir<'a>(&'a self) -> (r: Result<&'a str, ConfigError>)
        ensures
            match *self {
                Location::Memory => r == Err::<&'a str, ConfigError>(ConfigError::NoParent),
                Location::File { path } => match parent_of(path@) {
                    None => r == Err::<&'a str, ConfigError>(ConfigError::NoParent),
                    Some(p) => r matches Ok(d) && d@ == p,
                },
            },
    {
        match self {
            Location::Memory => Err(ConfigError::NoParent),
            Location::File { path } => {
                let s: &str = path.as_str();
                let n: usize = s.unicode_len();
                proof {
                    assert(s@.take(n as int) =~= s@);
                }
                let mut i: usize = n;
                while i > 0
                    invariant
                        i <= n,
                        n == s@.len(),
                        last_slash(s@) == last_slash(s@.take(i as int)),
                    decreases i,
                {
                    if s.get_char(i - 1) == '/' {
                        proof {
                            assert(s@.take(i as int).last() == '/');
                            assert(last_slash(s@.take(i as int)) == Some(i - 1));
                        }
                        if i == 1 {
                            return Ok(s.substring_char(0, 1));
                        } else {
                            return Ok(s.substring_char(0, i - 1));
                        }
                    }
                    proof {
                        assert(s@.take(i as int).drop_last() =~= s@.take(i - 1));
                    }
                    i = i - 1;
                }
                proof {
                    assert(s@.take(0) =~= Seq::<char>::empty());
                }
                Err(ConfigError::NoParent)
            },
        }
    }
}

impl Default for Location {
    /// The default origin of settings data is the in-memory one.
    fn default() -> (r: Self)
        ensures
            r is Memory,
    {
        Location::Memory
    }
}

} // verus!
