//! The giveaway-code data model: an unclaimed entry as read from the store,
//! the recoverable repository errors, and the rendering of one entry.

use vstd::prelude::*;
use vstd::string::*;

verus! {

/// An unclaimed giveaway entry: a description, a free-form category, and the
/// opaque key under which it can be claimed. Immutable once read.
#[derive(Clone, Debug)]
pub struct Code {
    pub description: String,
    pub code_type: String,
    pub key: String,
}

/// A storage or protocol failure while querying the repository. Recoverable:
/// handlers log it and produce no reply.
#[derive(Clone, Copy, Debug, PartialEq, Eq, Structural)]
pub struct QueryError;

/// Why a single-entry lookup produced no entry: no unclaimed row matches the
/// key (a benign race with the claimer), or the query itself failed.
#[derive(Clone, Copy, Debug, PartialEq, Eq, Structural)]
pub enum LookupError {
    NotFound,
    Query(QueryError),
}

/// The rendering of one entry: its description, its category in
/// parentheses, and its claim link under the configured codefall URL.
pub open spec fn code_line(c: Code, codefall_url: Seq<char>) -> Seq<char> {
    c.description@ + " ("@ + c.code_type@ + ") "@ + codefall_url + "/"@ + c.key@
}

impl Code {
    pub fn new(description: String, code_type: String, key: String) -> (c: Code)
        ensures
            c.description == description,
            c.code_type == code_type,
            c.key == key,
    {
        Code { description, code_type, key }
    }

    /// Renders the entry as it appears in replies and announcements.
    pub fn render(&self, codefall_url: &str) -> (r: String)
        ensures
            r@ == code_line(*self, codefall_url@),
    {
        let mut s = String::new();
        s.append(self.description.as_str());
        s.append(" (");
        s.append(self.code_type.as_str());
        s.append(") ");
        s.append(codefall_url);
        s.append("/");
        s.append(self.key.as_str());
        proof {
            assert(s@ =~= code_line(*self, codefall_url@));
        }
        s
    }
}

} // verus!
