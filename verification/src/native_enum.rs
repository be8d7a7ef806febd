//! The error of converting a native integer into a mirrored enum.

use vstd::prelude::*;
use crate::text::{int_text, int_to_text};

verus! {

/// The error returned when an integer cannot be matched to any variant of
/// an enum that mirrors a native enum.
#[derive(Debug)]
pub struct NativeParsingError {
    struct_name: &'static str,
    value: i64,
}

impl NativeParsingError {
    pub fn new(struct_name: &'static str, value: i64) -> (r: Self)
        ensures
            r.struct_name() == struct_name@,
            r.value() == value,
    {
        Self { struct_name, value }
    }

    pub closed spec fn struct_name(&self) -> Seq<char> {
        self.struct_name@
    }

    pub closed spec fn value(&self) -> i64 {
        self.value
    }

    /// The message this error displays as.
    pub fn message(&self) -> (r: String)
        ensures
            r@ == "Failed to convert native value "@ + int_text(self.value() as int) + " into "@
                + self.struct_name(),
    {
        let mut r = "Failed to convert native value ".to_owned();
        let v = int_to_text(self.value);
        r.append(v.as_str());
        r.append(" into ");
        r.append(self.struct_name);
        r
    }
}

} // verus!
