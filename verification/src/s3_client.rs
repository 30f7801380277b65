//! The client of the object store: where an object is found and what the
//! answer to a request for its size means. Signing and sending a request
//! is left to the caller.

use vstd::prelude::*;
use vstd::string::StringExecFns;
use crate::errno::Errno;
use crate::text::{decimal_digits, push_decimal_wide};

verus! {

#[derive(Debug, Default)]
pub struct S3ObjectInfo {
    pub bucket: String,
    pub name: String,
    pub size: u64,
}

pub struct S3Client {
    pub region: String,
    pub endpoint: String,
    /// Access key.
    pub ak: String,
    /// Secret key.
    pub sk: String,
}

/// The path of an object: a slash, the bucket, a slash, the object.
pub open spec fn object_path(bucket: Seq<char>, object: Seq<char>) -> Seq<char> {
    seq!['/'] + bucket + seq!['/'] + object
}

/// The number that `str::parse::<u64>` reads from a text, if it reads one.
pub uninterp spec fn parsed_u64(text: Seq<char>) -> Option<u64>;

/// Reads a number with `str::parse::<u64>`; `None` where it fails.
#[verifier::external_body]
fn parse_u64(text: &str) -> (n: Option<u64>)
    ensures
        n == parsed_u64(text@),
{
    text.parse::<u64>().ok()
}

/// What the status of an answer to a request for an object's size means.
pub open spec fn head_status_errno(status: u16) -> Errno {
    if status == 403 {
        Errno::Eaccess
    } else if status == 404 {
        Errno::Enotf
    } else if status >= 300 {
        Errno::Eintr
    } else {
        Errno::Esucc
    }
}

/// What the answer to a request for an object's size gives: without an
/// answer `Eintr`; with a status that refuses, that status's error; with
/// no length, or one that is no number, `Eintr`; otherwise the size `n`.
pub open spec fn head_outcome(status: Option<u16>, length: Option<Option<u64>>) -> Result<
    u64,
    Errno,
> {
    match status {
        None => Err(Errno::Eintr),
        Some(s) => if head_status_errno(s) != Errno::Esucc {
            Err(head_status_errno(s))
        } else {
            match length {
                Some(Some(n)) => Ok(n),
                _ => Err(Errno::Eintr),
            }
        },
    }
}

impl S3Client {
    pub fn new(region: &str, endpoint: &str, ak: &str, sk: &str) -> (c: S3Client)
        ensures
            c.region@ == region@,
            c.endpoint@ == endpoint@,
            c.ak@ == ak@,
            c.sk@ == sk@,
    {
        S3Client {
            region: String::from_str(region),
            endpoint: String::from_str(endpoint),
            ak: String::from_str(ak),
            sk: String::from_str(sk),
        }
    }

    /// The path of `object` in `bucket`.
    pub fn path_of(bucket: &str, object: &str) -> (path: String)
        ensures
            path@ == object_path(bucket@, object@),
    {
        proof {
            reveal_strlit("/");
        }
        let mut path = String::from_str("/");
        path.append(bucket);
        path.append("/");
        path.append(object);
        assert(path@ =~= object_path(bucket@, object@));
        path
    }

    /// The URL of `object` in `bucket`.
    pub fn object_url(&self, bucket: &str, object: &str) -> (url: String)
        ensures
            url@ == "http://"@ + self.endpoint@ + object_path(bucket@, object@),
    {
        let mut url = String::from_str("http://");
        url.append(self.endpoint.as_str());
        let path = Self::path_of(bucket, object);
        url.append(path.as_str());
        url
    }

    /// The URL that appends to `object` in `bucket` at `append_position`.
    pub fn append_url(&self, bucket: &str, object: &str, append_position: u128) -> (url: String)
        ensures
            url@ == "http://"@ + self.endpoint@ + object_path(bucket@, object@) + "?append"@
                + "&position="@ + decimal_digits(append_position as nat),
    {
        let mut url = self.object_url(bucket, object);
        url.append("?append");
        url.append("&position=");
        push_decimal_wide(&mut url, append_position);
        url
    }

    /// What the status of an answer to a request for an object's size
    /// means.
    pub fn head_status(status: u16) -> (e: Errno)
        ensures
            e == head_status_errno(status),
    {
        if status == 403 {
            Errno::Eaccess
        } else if status == 404 {
            Errno::Enotf
        } else if status >= 300 {
            Errno::Eintr
        } else {
            Errno::Esucc
        }
    }

    /// The outcome of a request for an object's size, given the status of
    /// the answer and the number read from its length header.
    pub fn head_object_with(
        &self,
        bucket: &String,
        object: &String,
        status: Option<u16>,
        length: Option<Option<u64>>,
    ) -> (r: Result<S3ObjectInfo, Errno>)
        ensures
            match head_outcome(status, length) {
                Ok(n) => r matches Ok(info) && info.size == n && info.bucket@ == bucket@
                    && info.name@ == object@,
                Err(e) => r matches Err(d) && d == e,
            },
    {
        let s = match status {
            Some(s) => s,
            None => {
                return Err(Errno::Eintr);
            },
        };
        let e = Self::head_status(s);
        if !e.is_success() {
            return Err(e);
        }
        match length {
            Some(Some(n)) => Ok(
                S3ObjectInfo { bucket: bucket.clone(), name: object.clone(), size: n },
            ),
            _ => Err(Errno::Eintr),
        }
    }

    /// The outcome of a request for the size of `object` in `bucket`,
    /// given the status of the answer and its length header.
    pub fn head_object(
        &self,
        bucket: &String,
        object: &String,
        status: Option<u16>,
        content_length: Option<&str>,
    ) -> (r: Result<S3ObjectInfo, Errno>)
        ensures
            match head_outcome(
                status,
                match content_length {
                    Some(text) => Some(parsed_u64(text@)),
                    None => None,
                },
            ) {
                Ok(n) => r matches Ok(info) && info.size == n && info.bucket@ == bucket@
                    && info.name@ == object@,
                Err(e) => r matches Err(d) && d == e,
            },
    {
        let length = match content_length {
            Some(text) => Some(parse_u64(text)),
            None => None,
        };
        self.head_object_with(bucket, object, status, length)
    }
}

} // verus!
