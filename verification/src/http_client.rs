//! What the HTTP transport decides: how often a request is tried, and how
//! the body of an answer is gathered.

use vstd::prelude::*;
use std::collections::HashMap;

verus! {

#[derive(Clone, Copy, Debug, PartialEq, Eq, Structural)]
pub enum HttpMethod {
    Get,
    Put,
    Post,
    Delete,
}

/// An answer with its body as text.
#[derive(Debug, Default)]
pub struct RespText {
    pub status: u16,
    pub headers: HashMap<String, String>,
    pub body: String,
}

/// How one attempt to send a request ended.
#[derive(Clone, Copy, Debug, PartialEq, Eq, Structural)]
pub enum Attempt {
    /// The request could not be built from the URL and the body.
    RequestInvalid,
    /// The request was not answered.
    SendFailed,
    /// An answer came, but its body is not text.
    BodyInvalid,
    /// An answer came.
    Answered,
}

/// What to do after an attempt.
#[derive(Clone, Copy, Debug, PartialEq, Eq, Structural)]
pub enum Verdict {
    /// Try once more; this many attempts are left after that one.
    TryAgain(u32),
    /// Give the answer to the caller.
    Succeed,
    /// Report a failure to the caller.
    Fail,
}

/// The verdict on an attempt after which `left` attempts are left: an
/// answer is final, so is a request or a body that cannot be used; a
/// request that was not answered is tried again while attempts are left.
pub open spec fn verdict(left: u32, attempt: Attempt) -> Verdict {
    match attempt {
        Attempt::Answered => Verdict::Succeed,
        Attempt::RequestInvalid => Verdict::Fail,
        Attempt::BodyInvalid => Verdict::Fail,
        Attempt::SendFailed => if left > 0 {
            Verdict::TryAgain((left - 1) as u32)
        } else {
            Verdict::Fail
        },
    }
}

/// The number of attempts made when every one ends with `SendFailed` and
/// `left` are left after the current one.
pub open spec fn attempts_until_failure(left: u32) -> nat
    decreases left,
{
    match verdict(left, Attempt::SendFailed) {
        Verdict::TryAgain(rest) => 1 + attempts_until_failure(rest),
        _ => 1,
    }
}

/// A request that is never answered is tried exactly once more than
/// attempts are left after the first.
pub proof fn lemma_attempts_until_failure(left: u32)
    ensures
        attempts_until_failure(left) == left + 1,
    decreases left,
{
    if left > 0 {
        lemma_attempts_until_failure((left - 1) as u32);
    }
}

/// The policy of the transport: a request is sent up to `retry_times`
/// times, one attempt after the other without a pause.
#[derive(Clone, Copy, Debug, PartialEq, Eq, Structural)]
pub struct HttpClient {
    pub retry_times: u32,
}

impl HttpClient {
    pub fn new(retry_times: u32) -> (c: HttpClient)
        ensures
            c.retry_times == retry_times,
    {
        HttpClient { retry_times }
    }

    /// Whether a first attempt is made, and how many are left after it. A
    /// transport with no attempts fails every request.
    pub fn first_attempt(&self) -> (left: Option<u32>)
        ensures
            left == if self.retry_times > 0 {
                Some((self.retry_times - 1) as u32)
            } else {
                None::<u32>
            },
    {
        if self.retry_times > 0 {
            Some(self.retry_times - 1)
        } else {
            None
        }
    }

    /// What to do after an attempt that ended with `attempt`, when `left`
    /// attempts are left.
    pub fn after_attempt(&self, left: u32, attempt: Attempt) -> (v: Verdict)
        ensures
            v == verdict(left, attempt),
    {
        match attempt {
            Attempt::Answered => Verdict::Succeed,
            Attempt::RequestInvalid => Verdict::Fail,
            Attempt::BodyInvalid => Verdict::Fail,
            Attempt::SendFailed => if left > 0 {
                Verdict::TryAgain(left - 1)
            } else {
                Verdict::Fail
            },
        }
    }
}

#[verifier::external_type_specification]
#[verifier::external_body]
pub struct ExBytes(bytes::Bytes);

/// The bytes that a buffer still holds, first to last.
pub uninterp spec fn bytes_left(b: bytes::Bytes) -> Seq<u8>;

/// `bytes::Buf::remaining` on `bytes::Bytes`: the number of bytes that the
/// buffer still holds.
#[verifier::external_body]
fn buf_remaining(b: &bytes::Bytes) -> (n: usize)
    ensures
        n == bytes_left(*b).len(),
{
    bytes::Buf::remaining(b)
}

/// `bytes::Buf::chunk` on `bytes::Bytes`: all the bytes that the buffer
/// still holds, as one slice.
#[verifier::external_body]
fn buf_chunk(b: &bytes::Bytes) -> (d: &[u8])
    ensures
        d@ == bytes_left(*b),
{
    bytes::Buf::chunk(b)
}

/// `bytes::Buf::advance` on `bytes::Bytes`: drops the first `cnt` bytes.
/// It panics when the buffer holds fewer.
#[verifier::external_body]
fn buf_advance(b: &mut bytes::Bytes, cnt: usize)
    requires
        cnt <= bytes_left(*old(b)).len(),
    ensures
        bytes_left(*final(b)) == bytes_left(*old(b)).skip(cnt as int),
{
    bytes::Buf::advance(b, cnt)
}

/// Gathers the body of an answer: all the bytes of `body`, in order. The
/// buffer is empty afterwards.
pub fn collect_body(body: &mut bytes::Bytes) -> (data: Vec<u8>)
    ensures
        data@ == bytes_left(*old(body)),
        bytes_left(*final(body)).len() == 0,
{
    let mut data: Vec<u8> = Vec::new();
    while buf_remaining(body) > 0
        invariant
            data@ + bytes_left(*body) == bytes_left(*old(body)),
        decreases bytes_left(*body).len(),
    {
        let ghost before = bytes_left(*body);
        let s: usize;
        {
            let d = buf_chunk(body);
            data.extend_from_slice(d);
            s = d.len();
        }
        buf_advance(body, s);
        assert(bytes_left(*body) =~= Seq::<u8>::empty());
        assert(data@ =~= bytes_left(*old(body)));
    }
    assert(bytes_left(*body) =~= Seq::<u8>::empty());
    data
}

} // verus!
