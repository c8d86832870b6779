//! Absolute paths of streams.
use crate::error::Error;
use crate::error::ErrorView;
use vstd::prelude::*;
use vstd::string::*;

verus! {

/// An absolute stream path.
#[derive(Debug, PartialEq, Eq, Hash)]
pub struct StreamPath(String);

/// What is wrong with `path` as a stream path, if anything is.
pub open spec fn path_fault(path: Seq<char>) -> Option<Seq<char>> {
    if path.len() == 0 {
        Some("path cannot be empty"@)
    } else if path[0] != '/' {
        Some("path must start with `/`"@)
    } else {
        None
    }
}

/// The outcome of reading `path` as a stream path.
pub open spec fn path_outcome(path: Seq<char>) -> Result<Seq<char>, ErrorView> {
    match path_fault(path) {
        Some(reason) => Err(ErrorView::InvalidStreamPath { path, reason }),
        None => Ok(path),
    }
}

/// The outcome `r`, seen through the views of its values.
pub open spec fn path_result(r: Result<StreamPath, Error>) -> Result<Seq<char>, ErrorView> {
    match r {
        Ok(path) => Ok(path@),
        Err(error) => Err(error@),
    }
}

impl View for StreamPath {
    type V = Seq<char>;

    closed spec fn view(&self) -> Seq<char> {
        self.0@
    }
}

impl Clone for StreamPath {
    fn clone(&self) -> (r: StreamPath)
        ensures
            r@ == self@,
    {
        proof {
            use_type_invariant(self);
        }
        StreamPath(self.0.clone())
    }
}

impl StreamPath {
    #[verifier::type_invariant]
    spec fn well_formed(self) -> bool {
        path_fault(self.0@) is None
    }

    /// Checks and makes a stream path: it is not empty, and it starts with a slash.
    pub fn new(path: &str) -> (r: Result<StreamPath, Error>)
        ensures
            path_result(r) == path_outcome(path@),
    {
        if path.is_empty() {
            return Err(
                Error::InvalidStreamPath {
                    path: path.to_owned(),
                    reason: "path cannot be empty".to_owned(),
                },
            );
        }
        if path.get_char(0) != '/' {
            return Err(
                Error::InvalidStreamPath {
                    path: path.to_owned(),
                    reason: "path must start with `/`".to_owned(),
                },
            );
        }
        Ok(StreamPath(path.to_owned()))
    }

    /// The path as text; it is absolute.
    #[must_use]
    pub fn as_str(&self) -> (r: &str)
        ensures
            r@ == self@,
            path_fault(self@) is None,
    {
        proof {
            use_type_invariant(self);
        }
        self.0.as_str()
    }
}

impl TryFrom<&str> for StreamPath {
    type Error = Error;

    fn try_from(value: &str) -> (r: Result<StreamPath, Error>)
        ensures
            path_result(r) == path_outcome(value@),
    {
        StreamPath::new(value)
    }
}

impl vstd::std_specs::convert::TryFromSpecImpl<&str> for StreamPath {
    open spec fn obeys_try_from_spec() -> bool {
        false
    }

    open spec fn try_from_spec(value: &str) -> Result<StreamPath, Error> {
        arbitrary()
    }
}

impl TryFrom<String> for StreamPath {
    type Error = Error;

    fn try_from(value: String) -> (r: Result<StreamPath, Error>)
        ensures
            path_result(r) == path_outcome(value@),
    {
        StreamPath::new(value.as_str())
    }
}

impl vstd::std_specs::convert::TryFromSpecImpl<String> for StreamPath {
    open spec fn obeys_try_from_spec() -> bool {
        false
    }

    open spec fn try_from_spec(value: String) -> Result<StreamPath, Error> {
        arbitrary()
    }
}

} // verus!
