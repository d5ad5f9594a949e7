use vstd::prelude::*;

use crate::clock::{decimal, push_decimal};
use crate::text::string_of;

verus! {

/// A four-part version number.
#[derive(Clone, Copy, Debug, Default, PartialEq, Eq, Structural)]
pub struct Version {
    pub major: u32,
    pub minor: u32,
    pub patch: u32,
    pub build: u32,
}

/// `major.minor.patch.build`.
pub open spec fn version_text(v: Version) -> Seq<char> {
    decimal(v.major as nat) + seq!['.'] + decimal(v.minor as nat) + seq!['.'] + decimal(
        v.patch as nat,
    ) + seq!['.'] + decimal(v.build as nat)
}

impl Version {
    pub fn new(major: u32, minor: u32, patch: u32, build: u32) -> (r: Version)
        ensures
            r == (Version { major, minor, patch, build }),
    {
        Version { major, minor, patch, build }
    }

    /// The version as `major.minor.patch.build`.
    pub fn to_text(&self) -> (r: String)
        ensures
            r@ == version_text(*self),
    {
        let mut v: Vec<char> = Vec::new();
        push_decimal(&mut v, self.major);
        v.push('.');
        push_decimal(&mut v, self.minor);
        v.push('.');
        push_decimal(&mut v, self.patch);
        v.push('.');
        push_decimal(&mut v, self.build);
        string_of(&v)
    }
}

/// The version of this program.
pub fn current_version() -> (r: Version)
    ensures
        r == (Version { major: 0, minor: 2, patch: 0, build: 0 }),
{
    Version::new(0, 2, 0, 0)
}

} // verus!
