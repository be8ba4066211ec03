//! A string shown as a run of one mask character, such as a password.
use vstd::prelude::*;

use crate::strings::repeat_char;

verus! {

/// A string that is displayed masked: each of its characters shows as the
/// mask character. Its debug form is the string itself.
#[derive(Clone)]
pub struct Masked {
    inner: String,
    mask_char: char,
}

/// The masked form of `s`: one `mask` per character.
pub open spec fn masked_chars(s: Seq<char>, mask: char) -> Seq<char> {
    Seq::new(s.len(), |_i: int| mask)
}

impl Masked {
    /// The string being masked.
    pub closed spec fn inner_view(&self) -> Seq<char> {
        self.inner@
    }

    /// The character each of its characters shows as.
    pub closed spec fn mask_view(&self) -> char {
        self.mask_char
    }

    pub fn new(s: &str, mask_char: char) -> (r: Masked)
        ensures
            r.inner_view() == s@,
            r.mask_view() == mask_char,
    {
        Masked { inner: s.to_owned(), mask_char }
    }

    /// The character used for masking.
    pub fn mask_char(&self) -> (r: char)
        ensures
            r == self.mask_view(),
    {
        self.mask_char
    }

    /// The string with every character masked.
    pub fn value(&self) -> (r: String)
        ensures
            r@ == masked_chars(self.inner_view(), self.mask_view()),
    {
        let n = self.inner.as_str().unicode_len();
        repeat_char(self.mask_char, n)
    }

    /// The displayed form: the masked string.
    pub fn to_string(&self) -> (r: String)
        ensures
            r@ == masked_chars(self.inner_view(), self.mask_view()),
    {
        self.value()
    }

    /// The debug form: the underlying string.
    pub fn debug_string(&self) -> (r: String)
        ensures
            r@ == self.inner_view(),
    {
        self.inner.clone()
    }
}

impl<'a> From<&'a Masked> for String {
    fn from(masked: &'a Masked) -> (r: String)
        ensures
            r@ == masked_chars(masked.inner_view(), masked.mask_view()),
    {
        masked.value()
    }
}

// No spec-level `String` can be built from a character sequence, so the
// conversions make no claim here; their result is stated by `from` itself.
impl<'a> vstd::std_specs::convert::FromSpecImpl<&'a Masked> for String {
    open spec fn obeys_from_spec() -> bool {
        false
    }

    open spec fn from_spec(masked: &'a Masked) -> String {
        arbitrary()
    }
}

impl From<Masked> for String {
    fn from(masked: Masked) -> (r: String)
        ensures
            r@ == masked_chars(masked.inner_view(), masked.mask_view()),
    {
        masked.value()
    }
}

impl vstd::std_specs::convert::FromSpecImpl<Masked> for String {
    open spec fn obeys_from_spec() -> bool {
        false
    }

    open spec fn from_spec(masked: Masked) -> String {
        arbitrary()
    }
}

} // verus!
