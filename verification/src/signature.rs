//! Authorship records: a name, an email address, and a timestamp.

use crate::bytes::{
    clone_opt_bytes, decode_bytes, opt_bytes_view, spec_decoded_opt,
};
use vstd::prelude::*;
use vstd::string::StrSliceExecFns;
use vstd::utf8::encode_utf8;

verus! {

/// A point in time: seconds since the epoch, with the author's preferred
/// time zone as an offset from UTC in minutes.
#[derive(Clone, Copy, Debug, PartialEq, Eq, Structural)]
pub struct Time {
    /// Seconds since the epoch.
    pub seconds: i64,
    /// Offset from UTC, in minutes.
    pub offset_minutes: i32,
}

impl Time {
    /// Build a time from seconds since the epoch and a UTC offset in minutes.
    pub fn new(seconds: i64, offset_minutes: i32) -> (r: Time)
        ensures
            r.seconds() == seconds,
            r.offset_minutes() == offset_minutes,
    {
        Time { seconds, offset_minutes }
    }

    /// Seconds since the epoch.
    #[verifier::allow_in_spec]
    pub fn seconds(&self) -> i64
        returns
            self.seconds,
    {
        self.seconds
    }

    /// Offset from UTC, in minutes.
    #[verifier::allow_in_spec]
    pub fn offset_minutes(&self) -> i32
        returns
            self.offset_minutes,
    {
        self.offset_minutes
    }
}

/// What a signature holds: optional raw name and email bytes, and a time.
#[verifier::ext_equal]
pub struct SignatureView {
    pub name: Option<Seq<u8>>,
    pub email: Option<Seq<u8>>,
    pub when: Time,
}

/// An immutable authorship record attached to a commit. The name and email
/// are raw bytes that may be absent or not valid UTF-8; the typed accessors
/// surface an absent value when decoding fails, never an error.
#[derive(Debug)]
pub struct Signature {
    name: Option<Vec<u8>>,
    email: Option<Vec<u8>>,
    when: Time,
}

impl View for Signature {
    type V = SignatureView;

    closed spec fn view(&self) -> SignatureView {
        SignatureView {
            name: opt_bytes_view(self.name),
            email: opt_bytes_view(self.email),
            when: self.when,
        }
    }
}

impl Signature {
    /// Build a signature from text: the raw forms are the UTF-8 bytes.
    pub fn new(name: &str, email: &str, when: Time) -> (r: Signature)
        ensures
            r@ == (SignatureView {
                name: Some(encode_utf8(name@)),
                email: Some(encode_utf8(email@)),
                when,
            }),
    {
        Signature { name: Some(name.as_bytes_vec()), email: Some(email.as_bytes_vec()), when }
    }

    /// Build a signature from raw, possibly absent, possibly non-UTF-8 parts.
    pub fn from_bytes(name: Option<Vec<u8>>, email: Option<Vec<u8>>, when: Time) -> (r: Signature)
        ensures
            r@ == (SignatureView {
                name: opt_bytes_view(name),
                email: opt_bytes_view(email),
                when,
            }),
    {
        Signature { name, email, when }
    }

    /// The raw bytes of the name, if one was recorded.
    pub fn name_bytes(&self) -> (r: Option<&[u8]>)
        ensures
            match r {
                Some(b) => self@.name == Some(b@),
                None => self@.name is None,
            },
    {
        match &self.name {
            Some(v) => Some(v.as_slice()),
            None => None,
        }
    }

    /// The raw bytes of the email, if one was recorded.
    pub fn email_bytes(&self) -> (r: Option<&[u8]>)
        ensures
            match r {
                Some(b) => self@.email == Some(b@),
                None => self@.email is None,
            },
    {
        match &self.email {
            Some(v) => Some(v.as_slice()),
            None => None,
        }
    }

    /// The name as text; absent when no name was recorded or its bytes are
    /// not valid UTF-8.
    pub fn name(&self) -> (r: Option<String>)
        ensures
            r is Some <==> spec_decoded_opt(self@.name) is Some,
            r matches Some(s) ==> Some(s@) == spec_decoded_opt(self@.name),
    {
        match &self.name {
            Some(v) => decode_bytes(v.as_slice()),
            None => None,
        }
    }

    /// The email as text; absent when no email was recorded or its bytes are
    /// not valid UTF-8.
    pub fn email(&self) -> (r: Option<String>)
        ensures
            r is Some <==> spec_decoded_opt(self@.email) is Some,
            r matches Some(s) ==> Some(s@) == spec_decoded_opt(self@.email),
    {
        match &self.email {
            Some(v) => decode_bytes(v.as_slice()),
            None => None,
        }
    }

    /// When the signature was made.
    pub fn when(&self) -> (r: Time)
        ensures
            r == self@.when,
    {
        self.when
    }

    /// An owned copy with the same contents.
    pub(crate) fn duplicate(&self) -> (r: Signature)
        ensures
            r@ == self@,
    {
        Signature {
            name: clone_opt_bytes(&self.name),
            email: clone_opt_bytes(&self.email),
            when: self.when,
        }
    }
}

} // verus!
