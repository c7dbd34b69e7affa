//! The prefix sniffer: the bytes of a client's first read, and the verdict
//! they earn against a marker.

use crate::text::{decode_lossy, lossy_text, starts_with, text_match_is_byte_match};
use vstd::prelude::*;
use vstd::slice::slice_subrange;
use vstd::utf8::*;

verus! {

/// How many bytes of a client's stream the sniffer looks at, at most.
pub const PREFIX_CAPACITY: usize = 32;

/// The decision on one connection.
#[derive(Clone, Copy, Debug, PartialEq, Eq, Structural)]
pub enum Verdict {
    /// The prefix carries the marker: the connection is dropped.
    Reject,
    /// Anything else: the connection is relayed.
    Admit,
}

/// The verdict on a text: `Reject` exactly when it begins with the marker.
pub open spec fn verdict_of(text: Seq<char>, marker: Seq<char>) -> Verdict {
    if marker.is_prefix_of(text) {
        Verdict::Reject
    } else {
        Verdict::Admit
    }
}

/// The verdict on the bytes of a prefix: that on their lossy text.
pub open spec fn verdict_on(bytes: Seq<u8>, marker: Seq<char>) -> Verdict {
    verdict_of(lossy_text(bytes), marker)
}

/// The result of a client's first read: a buffer of fixed capacity and the
/// count of bytes that the read filled.
#[derive(Clone, Copy, Debug)]
pub struct PrefixBuffer {
    buf: [u8; PREFIX_CAPACITY],
    filled: usize,
}

impl View for PrefixBuffer {
    type V = Seq<u8>;

    /// The bytes that were read, in order, without the unused rest of the
    /// buffer.
    closed spec fn view(&self) -> Seq<u8> {
        self.buf@.subrange(0, self.filled as int)
    }
}

impl PrefixBuffer {
    #[verifier::type_invariant]
    spec fn filled_fits(self) -> bool {
        self.filled <= PREFIX_CAPACITY
    }

    /// Takes the buffer that a read filled and the count that the read
    /// returned. A count beyond the capacity is no result of a read into this
    /// buffer and gives `None`.
    pub fn from_read(buf: [u8; PREFIX_CAPACITY], count: usize) -> (prefix: Option<PrefixBuffer>)
        ensures
            prefix is Some <==> count <= PREFIX_CAPACITY,
            prefix matches Some(p) ==> p@ == buf@.subrange(0, count as int),
    {
        if count <= PREFIX_CAPACITY {
            Some(PrefixBuffer { buf, filled: count })
        } else {
            None
        }
    }

    /// The count of bytes read.
    pub fn len(&self) -> (n: usize)
        ensures
            n == self@.len(),
            n <= PREFIX_CAPACITY,
    {
        proof {
            use_type_invariant(self);
        }
        self.filled
    }

    /// Whether the read returned no bytes.
    pub fn is_empty(&self) -> (none: bool)
        ensures
            none == (self@.len() == 0),
    {
        proof {
            use_type_invariant(self);
        }
        self.filled == 0
    }

    /// The bytes read, cut to the count: what an admitted client is owed
    /// upstream.
    pub fn consumed(&self) -> (bytes: &[u8])
        ensures
            bytes@ == self@,
    {
        proof {
            use_type_invariant(self);
        }
        slice_subrange(self.buf.as_slice(), 0, self.filled)
    }
}

/// The verdict on a decoded prefix.
pub fn judge(text: &str, marker: &str) -> (verdict: Verdict)
    ensures
        verdict == verdict_of(text@, marker@),
{
    if starts_with(text, marker) {
        Verdict::Reject
    } else {
        Verdict::Admit
    }
}

/// The verdict on a prefix as it was read: the bytes are decoded lossily and
/// the text is matched against the marker.
pub fn sniff(prefix: &PrefixBuffer, marker: &str) -> (verdict: Verdict)
    ensures
        verdict == verdict_on(prefix@, marker@),
{
    let text = decode_lossy(prefix.consumed());
    judge(text.as_str(), marker)
}

/// A text shorter than the marker cannot begin with it: it is admitted.
pub proof fn short_text_is_admitted(text: Seq<char>, marker: Seq<char>)
    requires
        text.len() < marker.len(),
    ensures
        verdict_of(text, marker) == Verdict::Admit,
{
}

/// On a prefix of valid UTF-8 the verdict is a match on the bytes read: the
/// client is rejected exactly when its bytes begin with the bytes of the
/// marker.
pub proof fn valid_prefix_is_matched_by_bytes(bytes: Seq<u8>, marker: Seq<char>)
    requires
        valid_utf8(bytes),
    ensures
        verdict_on(bytes, marker) == Verdict::Reject <==> encode_utf8(marker).is_prefix_of(bytes),
{
    text_match_is_byte_match(bytes, marker);
}

/// A prefix of valid UTF-8 with fewer bytes than the marker is admitted: the
/// match uses only the bytes that are there.
pub proof fn short_prefix_is_admitted(bytes: Seq<u8>, marker: Seq<char>)
    requires
        valid_utf8(bytes),
        bytes.len() < encode_utf8(marker).len(),
    ensures
        verdict_on(bytes, marker) == Verdict::Admit,
{
    text_match_is_byte_match(bytes, marker);
}

/// A read that returned nothing is admitted under every marker but the empty
/// one.
pub proof fn empty_prefix_is_admitted(marker: Seq<char>)
    requires
        marker.len() > 0,
    ensures
        verdict_on(Seq::<u8>::empty(), marker) == Verdict::Admit,
{
}

/// The empty marker is carried by every prefix: all connections are rejected.
pub proof fn empty_marker_rejects_all(bytes: Seq<u8>)
    ensures
        verdict_on(bytes, Seq::<char>::empty()) == Verdict::Reject,
{
    assert(Seq::<char>::empty() =~= lossy_text(bytes).subrange(0, 0));
}

} // verus!
