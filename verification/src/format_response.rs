//! A response value together with the output format (JSON or TOON) that the
//! client asked for.

use vstd::prelude::*;

verus! {

/// A response that is serialized to either JSON or TOON.
pub struct FormatResponse<T> {
    data: T,
    use_toon: bool,
}

impl<T> FormatResponse<T> {
    /// The value to send.
    pub closed spec fn data(&self) -> T {
        self.data
    }

    /// Whether TOON output was asked for.
    pub closed spec fn uses_toon(&self) -> bool {
        self.use_toon
    }

    /// A response that will use JSON.
    pub fn json(data: T) -> (r: Self)
        ensures
            r.data() == data,
            !r.uses_toon(),
    {
        Self { data, use_toon: false }
    }

    /// A response that will use TOON.
    pub fn toon(data: T) -> (r: Self)
        ensures
            r.data() == data,
            r.uses_toon(),
    {
        Self { data, use_toon: true }
    }

    /// A response with the given format.
    pub fn with_format(data: T, use_toon: bool) -> (r: Self)
        ensures
            r.data() == data,
            r.uses_toon() == use_toon,
    {
        Self { data, use_toon }
    }

    /// The value and the format flag.
    pub fn into_parts(self) -> (r: (T, bool))
        ensures
            r.0 == self.data(),
            r.1 == self.uses_toon(),
    {
        (self.data, self.use_toon)
    }
}

} // verus!
