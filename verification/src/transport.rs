//! The request/reply transport that servers run over.

use vstd::prelude::*;

verus! {

/// A transport of frames. `sent` is what has been sent so far, `received` what
/// has been received; `incoming` is how many frames the peer has yet to deliver
/// before it closes. These are ghost: a transport that is not verified itself
/// leaves them open.
pub trait Transport {
    closed spec fn sent(&self) -> Seq<Seq<u8>> {
        arbitrary()
    }

    closed spec fn received(&self) -> Seq<Seq<u8>> {
        arbitrary()
    }

    closed spec fn incoming(&self) -> nat {
        arbitrary()
    }

    /// Whether the peer has closed.
    closed spec fn closed(&self) -> bool {
        arbitrary()
    }

    /// Receives one request frame into `buf` and returns its length, or `None`
    /// once the peer has closed.
    fn recv(&mut self, buf: &mut [u8]) -> (n: Option<usize>)
        ensures
            final(self).sent() == old(self).sent(),
            final(buf)@.len() == old(buf)@.len(),
            match n {
                Some(len) => {
                    &&& len <= old(buf)@.len()
                    &&& final(self).incoming() < old(self).incoming()
                    &&& final(self).received() == old(self).received().push(
                        final(buf)@.subrange(0, len as int),
                    )
                },
                None => final(self).received() == old(self).received() && final(self).closed(),
            },
    ;

    /// Sends one reply frame.
    fn send(&mut self, frame: &[u8])
        ensures
            final(self).sent() == old(self).sent().push(frame@),
            final(self).received() == old(self).received(),
            final(self).incoming() == old(self).incoming(),
    ;
}

/// The frames that were received between two moments.
pub open spec fn since(before: Seq<Seq<u8>>, after: Seq<Seq<u8>>) -> Seq<Seq<u8>> {
    after.subrange(before.len() as int, after.len() as int)
}

/// Frames add up: what was received since a moment grows by the frame that arrives.
pub proof fn frames_add_up(before: Seq<Seq<u8>>, after: Seq<Seq<u8>>, frame: Seq<u8>)
    requires
        before.is_prefix_of(after),
    ensures
        before.is_prefix_of(after.push(frame)),
        since(before, after.push(frame)) == since(before, after).push(frame),
{
    assert(since(before, after.push(frame)) =~= since(before, after).push(frame));
    assert(after.push(frame).subrange(0, before.len() as int) =~= before);
}

} // verus!
