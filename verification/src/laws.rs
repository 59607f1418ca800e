//! Laws of the connection state machine that span several operations:
//! publisher-confirm resolution and content assembly.
//!
//! Each law is stated over the same specification functions the operations'
//! contracts use, so what is proved here holds of every run of the
//! executable state machine.

use vstd::prelude::*;
use crate::codec::concat_chunks;
use crate::connection::{
    covered, confirm_keep, confirm_take, Connection, ChannelStatus, ConnectionState,
    peer_close_applied, channel_usable, unusable_error,
};
use crate::Error;

verus! {

/// One broker confirmation: an ack or nack for `tag`, possibly covering
/// every outstanding tag up to it.
pub struct ConfirmEvent {
    pub tag: u64,
    pub multiple: bool,
    pub negative: bool,
}

/// The outstanding set after a run of confirmations, mirroring what
/// `handle_frame` does to `unacked` on each inbound ack or nack.
pub open spec fn run_confirms(u: Seq<u64>, es: Seq<ConfirmEvent>) -> Seq<u64>
    decreases es.len(),
{
    if es.len() == 0 {
        u
    } else {
        run_confirms(confirm_keep(u, es[0].tag, es[0].multiple), es.skip(1))
    }
}

/// Membership in what an ack keeps: exactly the uncovered tags.
pub proof fn lemma_keep_member(u: Seq<u64>, tag: u64, multiple: bool, x: u64)
    ensures
        confirm_keep(u, tag, multiple).contains(x) <==> (u.contains(x) && !covered(
            x,
            tag,
            multiple,
        )),
    decreases u.len(),
{
    if u.len() > 0 {
        lemma_keep_member(u.skip(1), tag, multiple, x);
        if u[0] == x {
            assert(u.contains(x)) by {
                assert(u[0] == x);
            };
        }
        if !covered(u[0], tag, multiple) {
            let rest = confirm_keep(u.skip(1), tag, multiple);
            assert(confirm_keep(u, tag, multiple) == seq![u[0]] + rest);
            assert forall|y: u64| (seq![u[0]] + rest).contains(y)
                implies y == u[0] || rest.contains(y) by {
                let j = choose|j: int|
                    0 <= j < (seq![u[0]] + rest).len() && (seq![u[0]] + rest)[j] == y;
                if j > 0 {
                    assert(rest[j - 1] == y);
                }
            }
            if rest.contains(x) || x == u[0] {
                assert((seq![u[0]] + rest).contains(x)) by {
                    if x == u[0] {
                        assert((seq![u[0]] + rest)[0] == x);
                    } else {
                        let j = choose|j: int| 0 <= j < rest.len() && rest[j] == x;
                        assert((seq![u[0]] + rest)[j + 1] == x);
                    }
                };
            }
        }
        if u.contains(x) {
            let j = choose|j: int| 0 <= j < u.len() && u[j] == x;
            if j > 0 {
                assert(u.skip(1)[j - 1] == x);
                assert(u.skip(1).contains(x));
            }
        }
    }
}

/// Membership in what an ack resolves: exactly the covered tags.
pub proof fn lemma_take_member(u: Seq<u64>, tag: u64, multiple: bool, x: u64)
    ensures
        confirm_take(u, tag, multiple).contains(x) <==> (u.contains(x) && covered(
            x,
            tag,
            multiple,
        )),
    decreases u.len(),
{
    if u.len() > 0 {
        lemma_take_member(u.skip(1), tag, multiple, x);
        if covered(u[0], tag, multiple) {
            let rest = confirm_take(u.skip(1), tag, multiple);
            assert(confirm_take(u, tag, multiple) == seq![u[0]] + rest);
            assert forall|y: u64| (seq![u[0]] + rest).contains(y)
                implies y == u[0] || rest.contains(y) by {
                let j = choose|j: int|
                    0 <= j < (seq![u[0]] + rest).len() && (seq![u[0]] + rest)[j] == y;
                if j > 0 {
                    assert(rest[j - 1] == y);
                }
            }
            if rest.contains(x) || x == u[0] {
                assert((seq![u[0]] + rest).contains(x)) by {
                    if x == u[0] {
                        assert((seq![u[0]] + rest)[0] == x);
                    } else {
                        let j = choose|j: int| 0 <= j < rest.len() && rest[j] == x;
                        assert((seq![u[0]] + rest)[j + 1] == x);
                    }
                };
            }
            if u[0] == x {
                assert(u.contains(x)) by {
                    assert(u[0] == x);
                };
            }
        }
        if u.contains(x) {
            let j = choose|j: int| 0 <= j < u.len() && u[j] == x;
            if j > 0 {
                assert(u.skip(1)[j - 1] == x);
                assert(u.skip(1).contains(x));
            }
        }
    }
}

/// Each confirmation partitions the outstanding set: every tag either stays
/// outstanding or is resolved, never both.  With the disjointness that
/// `conn_wf` maintains over `unacked`, `acked` and `nacked`, a publish
/// therefore resolves at most once.
pub proof fn lemma_confirm_partition(u: Seq<u64>, tag: u64, multiple: bool, x: u64)
    ensures
        u.contains(x) <==> (confirm_keep(u, tag, multiple).contains(x) || confirm_take(
            u,
            tag,
            multiple,
        ).contains(x)),
        !(confirm_keep(u, tag, multiple).contains(x) && confirm_take(u, tag, multiple).contains(
            x,
        )),
{
    lemma_keep_member(u, tag, multiple, x);
    lemma_take_member(u, tag, multiple, x);
}

/// Tags never reappear: whatever survives a run of confirmations was
/// outstanding at the start.
pub proof fn lemma_run_confirms_member(u: Seq<u64>, es: Seq<ConfirmEvent>, x: u64)
    ensures
        run_confirms(u, es).contains(x) <==> (u.contains(x) && forall|j: int|
            0 <= j < es.len() ==> !covered(x, es[j].tag, es[j].multiple)),
    decreases es.len(),
{
    if es.len() > 0 {
        let u1 = confirm_keep(u, es[0].tag, es[0].multiple);
        lemma_keep_member(u, es[0].tag, es[0].multiple, x);
        lemma_run_confirms_member(u1, es.skip(1), x);
        assert(forall|j: int| 0 <= j < es.skip(1).len() ==> es.skip(1)[j] == es[j + 1]);
        if run_confirms(u, es).contains(x) {
            assert forall|j: int| 0 <= j < es.len()
                implies !covered(x, es[j].tag, es[j].multiple) by {
                if j == 0 {
                } else {
                    assert(es.skip(1)[j - 1] == es[j]);
                }
            }
        }
        if u.contains(x) && (forall|j: int| 0 <= j < es.len()
            ==> !covered(x, es[j].tag, es[j].multiple)) {
            assert(!covered(x, es[0].tag, es[0].multiple));
            assert forall|j: int| 0 <= j < es.skip(1).len()
                implies !covered(x, es.skip(1)[j].tag, es.skip(1)[j].multiple) by {
                assert(es.skip(1)[j] == es[j + 1]);
            }
        }
    }
}

/// For any sequence of publishes followed by confirmations, in any legal
/// order and with `multiple` batches allowed: once every outstanding tag is
/// covered by some confirmation, nothing remains outstanding.
pub proof fn lemma_confirms_drain(u: Seq<u64>, es: Seq<ConfirmEvent>)
    requires
        forall|i: int| 0 <= i < u.len() ==> exists|j: int|
            0 <= j < es.len() && covered(#[trigger] u[i], es[j].tag, es[j].multiple),
    ensures
        run_confirms(u, es).len() == 0,
{
    let fin = run_confirms(u, es);
    if fin.len() > 0 {
        let x = fin[0];
        assert(fin.contains(x)) by {
            assert(fin[0] == x);
        };
        lemma_run_confirms_member(u, es, x);
        assert(u.contains(x));
        let i = choose|i: int| 0 <= i < u.len() && u[i] == x;
        assert(exists|j: int| 0 <= j < es.len() && covered(u[i], es[j].tag, es[j].multiple));
        assert(false);
    }
}

// ---------------------------------------------------------------------------
// Content assembly
// ---------------------------------------------------------------------------

/// The payload accumulated by appending body fragments one by one, as the
/// body-frame handler does to the scratch delivery.
pub open spec fn assemble_payload(data: Seq<u8>, frags: Seq<Seq<u8>>) -> Seq<u8>
    decreases frags.len(),
{
    if frags.len() == 0 {
        data
    } else {
        assemble_payload(data + frags[0], frags.skip(1))
    }
}

/// Appending body fragments in order accumulates exactly their
/// concatenation.  Together with the body handler's contract — the message
/// completes exactly when the fragments' total reaches the header's body
/// size, moving one delivery into the FIFO — a delivery's payload is the
/// concatenation of its fragments in arrival order.
pub proof fn lemma_content_assembly(data: Seq<u8>, frags: Seq<Seq<u8>>)
    ensures
        assemble_payload(data, frags) == data + concat_chunks(frags),
    decreases frags.len(),
{
    if frags.len() == 0 {
        assert(data + concat_chunks(frags) =~= data);
    } else {
        lemma_content_assembly(data + frags[0], frags.skip(1));
        assert((data + frags[0]) + concat_chunks(frags.skip(1))
            =~= data + (frags[0] + concat_chunks(frags.skip(1))));
    }
}

/// A delivery assembled from scratch carries exactly the concatenation of
/// its fragments.
pub proof fn lemma_payload_is_concat(frags: Seq<Seq<u8>>)
    ensures
        assemble_payload(Seq::empty(), frags) == concat_chunks(frags),
{
    lemma_content_assembly(Seq::empty(), frags);
    assert(Seq::<u8>::empty() + concat_chunks(frags) =~= concat_chunks(frags));
}

// ---------------------------------------------------------------------------
// Channel isolation after a broker-side close
// ---------------------------------------------------------------------------

/// After the broker closes a channel, the channel can take no further
/// requests: it is not usable, and the error every request operation
/// reports for it is `ChannelClosed` with the broker's own code and reason.
/// Other channels are untouched by the close (`peer_close_applied` keeps
/// them equal), and a rejected request leaves the connection unchanged, so
/// no request id is allocated.
pub proof fn lemma_closed_channel_rejects(
    pre: Connection,
    post: Connection,
    c: u16,
    code: u16,
    reason: Seq<u8>,
    class_id: u16,
    method_id: u16,
    e: Error,
)
    requires
        peer_close_applied(&pre, &post, c, code, reason, class_id, method_id),
        pre.state == ConnectionState::Connected,
        (c as int) < pre.channels@.len(),
        code != 0,
    ensures
        !channel_usable(&post, c),
        unusable_error(&post, c, e) ==> (e matches Error::ChannelClosed { code: cc, reason: rr }
            && cc == code && rr@ == reason),
{
    assert(post.channels@[c as int].state == ChannelStatus::Closed);
}

} // verus!
