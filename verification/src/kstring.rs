//! Key strings: immutable strings optimised for map keys.
//!
//! Short strings (1 to 16 bytes) are kept in their own compact variant,
//! `'static` strings are kept by reference, everything else is owned.

use std::borrow::Cow;
use vstd::prelude::*;

verus! {

/// Longest string, in bytes, that is stored in the compact variant.
pub const MAX_INLINE: usize = 16;

/// A UTF-8 encoded, immutable string.
#[derive(Debug)]
pub struct KString {
    inner: KStringInner,
}

#[derive(Debug)]
enum KStringInner {
    Owned(String),
    Singleton(&'static str),
    Inline(String),
}

/// A borrowed key string.
#[derive(Debug)]
pub enum KStringRef<'s> {
    /// Borrowed from a longer-lived string.
    Borrowed(&'s str),
    /// A `'static` string.
    Singleton(&'static str),
}

impl<'s> View for KStringRef<'s> {
    type V = Seq<char>;

    open spec fn view(&self) -> Seq<char> {
        match self {
            KStringRef::Borrowed(s) => s@,
            KStringRef::Singleton(s) => s@,
        }
    }
}

impl<'s> KStringRef<'s> {
    /// The characters of the string.
    pub fn as_str(&self) -> (r: &str)
        ensures
            r@ == self@,
    {
        match self {
            KStringRef::Borrowed(s) => s,
            KStringRef::Singleton(s) => s,
        }
    }
}

impl View for KString {
    type V = Seq<char>;

    closed spec fn view(&self) -> Seq<char> {
        match self.inner {
            KStringInner::Owned(s) => s@,
            KStringInner::Singleton(s) => s@,
            KStringInner::Inline(s) => s@,
        }
    }
}

/// Number of bytes in the UTF-8 encoding of `s`.
pub open spec fn utf8_len(s: Seq<char>) -> nat {
    vstd::utf8::encode_utf8(s).len()
}

/// `Box::<str>::from(&str)`: the box holds the same characters.
#[verifier::external_body]
fn box_str(s: &str) -> (b: Box<str>)
    ensures
        b@ == s@,
{
    Box::from(s)
}

/// `String::into_boxed_str`: the box holds the same characters.
#[verifier::external_body]
fn string_into_box(s: String) -> (b: Box<str>)
    ensures
        b@ == s@,
{
    s.into_boxed_str()
}

/// `str::into_string` on a boxed string: the string holds the same characters.
#[verifier::external_body]
fn box_into_string(b: Box<str>) -> (s: String)
    ensures
        s@ == b@,
{
    b.into_string()
}

/// Only the empty string has an empty UTF-8 encoding.
pub proof fn lemma_utf8_len_zero(s: Seq<char>)
    ensures
        (utf8_len(s) == 0) == (s.len() == 0),
{
    if s.len() > 0 {
        assert(vstd::utf8::encode_utf8(s) == vstd::utf8::encode_scalar(s[0] as u32)
            + vstd::utf8::encode_utf8(s.drop_first()));
    }
}

impl KString {
    /// Whether the string is stored by `'static` reference.
    pub closed spec fn is_static(&self) -> bool {
        self.inner is Singleton
    }

    /// Whether the string is stored in the compact variant for short strings.
    pub closed spec fn is_inline(&self) -> bool {
        self.inner is Inline
    }

    /// Create a new empty `KString`.
    pub fn new() -> (r: Self)
        ensures
            r@ == Seq::<char>::empty(),
            r.is_static(),
    {
        let empty: &'static str = "";
        proof {
            reveal_strlit("");
        }
        KString::from_static(empty)
    }

    /// Create an owned `KString`.
    pub fn from_boxed(other: Box<str>) -> (r: Self)
        ensures
            r@ == other@,
            !r.is_static() && !r.is_inline(),
    {
        KString { inner: KStringInner::Owned(box_into_string(other)) }
    }

    /// Create an owned `KString`.
    pub fn from_string(other: String) -> (r: Self)
        ensures
            r@ == other@,
            !r.is_static() && !r.is_inline(),
    {
        KString { inner: KStringInner::Owned(other) }
    }

    /// Create an owned `KString` optimally from a reference: the empty string
    /// becomes a static reference, 1 to 16 bytes go to the compact variant,
    /// longer strings are owned.
    pub fn from_ref(other: &str) -> (r: Self)
        ensures
            r@ == other@,
            r.is_static() <==> utf8_len(other@) == 0,
            r.is_inline() <==> 0 < utf8_len(other@) <= MAX_INLINE,
    {
        let len = other.as_bytes().len();
        if len == 0 {
            proof {
                lemma_utf8_len_zero(other@);
            }
            let empty: &'static str = "";
            proof {
                reveal_strlit("");
            }
            assert(empty@ =~= other@);
            KString { inner: KStringInner::Singleton(empty) }
        } else if len <= MAX_INLINE {
            proof {
                lemma_utf8_len_zero(other@);
            }
            KString { inner: KStringInner::Inline(other.to_owned()) }
        } else {
            proof {
                lemma_utf8_len_zero(other@);
            }
            KString { inner: KStringInner::Owned(other.to_owned()) }
        }
    }

    /// Create a reference to a `'static` data.
    pub fn from_static(other: &'static str) -> (r: Self)
        ensures
            r@ == other@,
            r.is_static(),
    {
        KString { inner: KStringInner::Singleton(other) }
    }

    /// Get a reference to the `KString`.
    pub fn as_ref(&self) -> (r: KStringRef<'_>)
        ensures
            r@ == self@,
    {
        match &self.inner {
            KStringInner::Owned(s) => KStringRef::Borrowed(s.as_str()),
            KStringInner::Singleton(s) => KStringRef::Singleton(s),
            KStringInner::Inline(s) => KStringRef::Borrowed(s.as_str()),
        }
    }

    /// Extracts a string slice containing the entire `KString`.
    pub fn as_str(&self) -> (r: &str)
        ensures
            r@ == self@,
    {
        match &self.inner {
            KStringInner::Owned(s) => s.as_str(),
            KStringInner::Singleton(s) => s,
            KStringInner::Inline(s) => s.as_str(),
        }
    }

    /// Convert to a mutable string type, cloning the data if necessary.
    pub fn into_string(self) -> (r: String)
        ensures
            r@ == self@,
    {
        match self.inner {
            KStringInner::Owned(s) => s,
            KStringInner::Singleton(s) => s.to_owned(),
            KStringInner::Inline(s) => s,
        }
    }

    /// Convert to a boxed string, cloning the data if necessary.
    pub fn into_boxed_str(self) -> (r: Box<str>)
        ensures
            r@ == self@,
    {
        match self.inner {
            KStringInner::Owned(s) => string_into_box(s),
            KStringInner::Singleton(s) => box_str(s),
            KStringInner::Inline(s) => string_into_box(s),
        }
    }

    /// Convert to a `Cow` string: `'static` strings stay borrowed.
    pub fn into_cow_str(self) -> (r: Cow<'static, str>)
        ensures
            r@ == self@,
            (r is Borrowed) == self.is_static(),
    {
        match self.inner {
            KStringInner::Owned(s) => Cow::Owned(s),
            KStringInner::Singleton(s) => Cow::Borrowed(s),
            KStringInner::Inline(s) => Cow::Owned(s),
        }
    }

    /// A copy of the string, in the same storage variant.
    pub fn duplicate(&self) -> (r: Self)
        ensures
            r == *self,
    {
        match &self.inner {
            KStringInner::Owned(s) => KString { inner: KStringInner::Owned(s.clone()) },
            KStringInner::Singleton(s) => KString { inner: KStringInner::Singleton(s) },
            KStringInner::Inline(s) => KString { inner: KStringInner::Inline(s.clone()) },
        }
    }

    /// Whether two key strings hold the same characters.
    pub fn eq_str(&self, other: &str) -> (r: bool)
        ensures
            r == (self@ == other@),
    {
        crate::text::str_eq(self.as_str(), other)
    }
}

impl Clone for KString {
    fn clone(&self) -> (r: Self)
        ensures
            r == *self,
    {
        self.duplicate()
    }
}

} // verus!
