//! The command-line client's settings: the richer record its settings
//! file holds, decoded from and encoded to the document grammar.
//!
//! The credential field travels as stored (the client keeps it encoded in
//! the file); encoding and decoding of credential material is the
//! caller's concern, outside this crate.

use vstd::prelude::*;
use crate::document;
use crate::document::{doc_lookup, parse_document, PairV};
use crate::errors::ConfigError;

verus! {

/// The client's settings record. Every field is a root key of the
/// settings file; all are required when the file exists.
#[derive(Debug)]
pub struct Settings {
    /// Base URL of the API endpoint.
    pub api: String,
    /// The active namespace.
    pub namespace: String,
    /// Credential material, as stored in the file.
    pub password: String,
    /// The account name.
    pub username: String,
    /// Base URL of the streaming endpoint.
    pub wss: String,
    /// The path the settings were loaded from.
    pub location: String,
}

/// The value of a root key among parsed pairs.
pub open spec fn root_value(ps: Seq<PairV>, key: Seq<char>) -> Option<Seq<char>> {
    doc_lookup(ps, Seq::<char>::empty(), key)
}

/// A parsed document that names every required field.
pub open spec fn complete(ps: Seq<PairV>) -> bool {
    root_value(ps, "api"@) is Some && root_value(ps, "namespace"@) is Some && root_value(
        ps,
        "password"@,
    ) is Some && root_value(ps, "username"@) is Some && root_value(ps, "wss"@) is Some
        && root_value(ps, "location"@) is Some
}

/// The text `to_text` renders a record to: one root pair per field, in a
/// fixed order, each value quoted verbatim.
pub open spec fn rendered(s: Settings) -> Seq<char> {
    "api = \""@ + s.api@ + "\"\nnamespace = \""@ + s.namespace@ + "\"\npassword = \""@
        + s.password@ + "\"\nusername = \""@ + s.username@ + "\"\nwss = \""@ + s.wss@
        + "\"\nlocation = \""@ + s.location@ + "\"\n"@
}

impl Settings {
    /// Decodes a settings document: the last root pair for each field
    /// wins. A document that does not fit the grammar is a hard error
    /// carrying its first offending line; one that fits but misses a
    /// required field is a `MissingField` error; if and only if.
    pub fn from_text(text: &str) -> (r: Result<Settings, ConfigError>)
        requires
            text@.len() < usize::MAX,
        ensures
            match parse_document(text@) {
                Err(line) => r matches Err(e) && e matches ConfigError::Malformed { line: l } && l
                    as nat == line,
                Ok(ps) => if complete(ps) {
                    r matches Ok(s) && s.api@ == root_value(ps, "api"@)->0 && s.namespace@
                        == root_value(ps, "namespace"@)->0 && s.password@ == root_value(
                        ps,
                        "password"@,
                    )->0 && s.username@ == root_value(ps, "username"@)->0 && s.wss@ == root_value(
                        ps,
                        "wss"@,
                    )->0 && s.location@ == root_value(ps, "location"@)->0
                } else {
                    r == Err::<Settings, ConfigError>(ConfigError::MissingField)
                },
            },
    {
        let pairs = match document::parse(text) {
            Ok(p) => p,
            Err(e) => {
                return Err(e);
            },
        };
        proof {
            reveal_strlit("");
            assert(""@ =~= Seq::<char>::empty());
        }
        let api = document::lookup(&pairs, "", "api");
        let namespace = document::lookup(&pairs, "", "namespace");
        let password = document::lookup(&pairs, "", "password");
        let username = document::lookup(&pairs, "", "username");
        let wss = document::lookup(&pairs, "", "wss");
        let location = document::lookup(&pairs, "", "location");
        match (api, namespace, password, username, wss, location) {
            (Some(api), Some(namespace), Some(password), Some(username), Some(wss), Some(
                location,
            )) => Ok(Settings { api, namespace, password, username, wss, location }),
            _ => Err(ConfigError::MissingField),
        }
    }

    /// Encodes the record back to a settings document, one root pair per
    /// field. A value holding a quote, a backslash or a line break does
    /// not fit the grammar's quoted strings, so only clean values read
    /// back.
    pub fn to_text(&self) -> (r: String)
        ensures
            r@ == rendered(*self),
    {
        let mut out = String::from_str("api = \"");
        out.append(self.api.as_str());
        out.append("\"\nnamespace = \"");
        out.append(self.namespace.as_str());
        out.append("\"\npassword = \"");
        out.append(self.password.as_str());
        out.append("\"\nusername = \"");
        out.append(self.username.as_str());
        out.append("\"\nwss = \"");
        out.append(self.wss.as_str());
        out.append("\"\nlocation = \"");
        out.append(self.location.as_str());
        out.append("\"\n");
        proof {
            assert(out@ =~= rendered(*self));
        }
        out
    }
}

impl Default for Settings {
    /// The default record: the default namespace, every other field
    /// empty.
    fn default() -> (r: Self)
        ensures
            r.api@ =~= Seq::<char>::empty(),
            r.namespace@ == crate::namespace::default_namespace(),
            r.password@ =~= Seq::<char>::empty(),
            r.username@ =~= Seq::<char>::empty(),
            r.wss@ =~= Seq::<char>::empty(),
            r.location@ =~= Seq::<char>::empty(),
    {
        proof {
            reveal_strlit("workspace");
        }
        Settings {
            api: String::new(),
            namespace: String::from_str("workspace"),
            password: String::new(),
            username: String::new(),
            wss: String::new(),
            location: String::new(),
        }
    }
}

} // verus!
