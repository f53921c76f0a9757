//! The position encodings negotiated with a client.

use vstd::prelude::*;

use super::strings::str_equal;

verus! {

/// A position encoding supported by this crate.
#[derive(Debug, Clone, Copy, PartialEq, Eq, Hash, Structural)]
pub enum Encoding {
    /// Character offsets count UTF-8 code units.
    UTF8,
    /// Character offsets count UTF-16 code units: the protocol's default.
    UTF16,
    /// Character offsets count UTF-32 code units (code points).
    UTF32,
}

/// The wire name of an encoding.
pub open spec fn encoding_name(encoding: Encoding) -> Seq<char> {
    match encoding {
        Encoding::UTF8 => "utf-8"@,
        Encoding::UTF16 => "utf-16"@,
        Encoding::UTF32 => "utf-32"@,
    }
}

/// The encoding whose wire name is `name`, if any.
pub open spec fn encoding_named(name: Seq<char>) -> Option<Encoding> {
    if name == "utf-8"@ {
        Some(Encoding::UTF8)
    } else if name == "utf-16"@ {
        Some(Encoding::UTF16)
    } else if name == "utf-32"@ {
        Some(Encoding::UTF32)
    } else {
        None
    }
}

impl Default for Encoding {
    /// The protocol default, used when a client negotiates nothing.
    fn default() -> (r: Self)
        ensures
            r == Encoding::UTF16,
    {
        Encoding::UTF16
    }
}

impl Encoding {
    /// Returns the wire representation of the encoding (`utf-8`, `utf-16`,
    /// or `utf-32`).
    pub fn as_str(&self) -> (r: &'static str)
        ensures
            r@ == encoding_name(*self),
    {
        match self {
            Encoding::UTF8 => "utf-8",
            Encoding::UTF16 => "utf-16",
            Encoding::UTF32 => "utf-32",
        }
    }

    /// The encoding of a protocol position-encoding kind, given by its wire
    /// name, if it is one of UTF-8, UTF-16 or UTF-32.
    ///
    /// Clients may announce kinds this crate does not know; those give
    /// `None`, so that negotiation ignores them instead of failing.
    pub fn try_from_name(name: &str) -> (r: Option<Self>)
        ensures
            r == encoding_named(name@),
    {
        if str_equal(name, "utf-8") {
            Some(Encoding::UTF8)
        } else if str_equal(name, "utf-16") {
            Some(Encoding::UTF16)
        } else if str_equal(name, "utf-32") {
            Some(Encoding::UTF32)
        } else {
            None
        }
    }

    /// The encoding of a position-encoding kind that is known to be one of
    /// UTF-8, UTF-16 or UTF-32.
    pub fn from_name(name: &str) -> (r: Self)
        requires
            encoding_named(name@) is Some,
        ensures
            Some(r) == encoding_named(name@),
    {
        match Self::try_from_name(name) {
            Some(encoding) => encoding,
            None => Encoding::UTF16,
        }
    }
}

/// The wire names of the three encodings are one-to-one with them: the name
/// of an encoding reads back as that encoding.
pub proof fn law_encoding_name_round_trip(encoding: Encoding)
    ensures
        encoding_named(encoding_name(encoding)) == Some(encoding),
{
    reveal_strlit("utf-8");
    reveal_strlit("utf-16");
    reveal_strlit("utf-32");
    assert("utf-8"@.len() != "utf-16"@.len());
    assert("utf-8"@.len() != "utf-32"@.len());
    assert("utf-16"@[4] != "utf-32"@[4]);
}

} // verus!
