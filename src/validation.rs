use vstd::prelude::*;

use crate::text::{decimal, decimal_text};

verus! {

/// A step of the path to a value: a member name or an element index.
#[derive(Debug)]
pub enum PathMember {
    Key(String),
    Index(usize),
}

/// The text of a path step: the member name, or the index in decimal.
pub open spec fn member_text(m: PathMember) -> Seq<char> {
    match m {
        PathMember::Key(k) => k@,
        PathMember::Index(i) => decimal(i as nat),
    }
}

/// A place where an output does not fit the schema, and why.
#[derive(Debug)]
pub struct OutputValidationError {
    pub message: String,
    pub path: Vec<String>,
}

impl OutputValidationError {
    /// An error with its message and the path to the offending value.
    pub fn new(message: String, path: Vec<PathMember>) -> (r: OutputValidationError)
        ensures
            r.message == message,
            r.path@.len() == path@.len(),
            forall|i: int| 0 <= i < path@.len() ==> #[trigger] r.path@[i]@ == member_text(path@[i]),
    {
        let mut texts: Vec<String> = Vec::new();
        let mut path = path;
        let ghost members = path@;
        let mut i: usize = 0;
        while i < path.len()
            invariant
                i <= path.len(),
                path@ == members,
                texts@.len() == i,
                forall|l: int| 0 <= l < i ==> #[trigger] texts@[l]@ == member_text(members[l]),
            decreases path.len() - i,
        {
            let t = match &path[i] {
                PathMember::Key(k) => k.clone(),
                PathMember::Index(n) => decimal_text(*n as u128),
            };
            texts.push(t);
            i = i + 1;
        }
        OutputValidationError { message, path: texts }
    }
}

} // verus!
