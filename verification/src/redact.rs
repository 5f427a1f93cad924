//! Wrapper for sensitive values (cookies, passwords, tokens, raw download
//! links): its debug text is always `[redacted]`, whatever it holds, while
//! the value stays usable through `Deref` and `.0`.

use vstd::prelude::*;

verus! {

/// A value that must not appear in logs.
#[derive(Clone, PartialEq, Eq)]
pub struct Redacted<T>(pub T);

impl<T> Redacted<T> {
    /// The debug text of any redacted value.
    pub fn debug_string(&self) -> (r: String)
        ensures
            r@ == "[redacted]"@,
    {
        String::from_str("[redacted]")
    }
}

impl<T> core::ops::Deref for Redacted<T> {
    type Target = T;

    fn deref(&self) -> (r: &T)
        ensures
            *r == self.0,
    {
        &self.0
    }
}

impl<T> From<T> for Redacted<T> {
    fn from(v: T) -> (r: Self)
        ensures
            r.0 == v,
    {
        Redacted(v)
    }
}

impl<T> vstd::std_specs::convert::FromSpecImpl<T> for Redacted<T> {
    open spec fn obeys_from_spec() -> bool {
        true
    }

    open spec fn from_spec(v: T) -> Self {
        Redacted(v)
    }
}

} // verus!
