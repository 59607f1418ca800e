//! The transport's compute half: binding the codec to the connection state
//! machine.  Socket reads and writes stay outside; callers append received
//! bytes to a buffer and hand them in, and take serialized frames out.

use vstd::prelude::*;
use crate::Error;
use crate::frame::Frame;
use crate::frame::FrameV;
use crate::codec::{parse_frame, frame_wf, frame_bytes, FrameParse, drain, drain_frames};
use crate::codec_laws::{lemma_parse_frame_len, lemma_drain_fuel};
use crate::decode::decode;
use crate::encode::encode_frame;
use crate::connection::{Connection, conn_wf, handle_frame_post};

verus! {

/// The frame codec, parameterized by the negotiated frame size bound.
pub struct AMQPCodec {
    pub frame_max: u32,
}

impl AMQPCodec {
    /// Consume zero or one whole frame from the front of the buffer, as
    /// `decode` does.
    pub fn decode(&self, buf: &mut Vec<u8>) -> (r: Result<Option<Frame>, Error>)
        ensures
            match parse_frame(old(buf)@) {
                FrameParse::Incomplete => r == Ok::<Option<Frame>, Error>(None)
                    && final(buf)@ == old(buf)@,
                FrameParse::Malformed => r == Err::<Option<Frame>, Error>(Error::ParseError)
                    && final(buf)@ == old(buf)@,
                FrameParse::Parsed(fv, c) => {
                    &&& match r {
                        Ok(Some(f)) => f@ == fv,
                        _ => false,
                    }
                    &&& final(buf)@ == old(buf)@.skip(c as int)
                },
            },
    {
        decode(buf)
    }

    /// Append exactly one serialized frame, or reject it unchanged.
    pub fn encode(&self, f: &Frame, buf: &mut Vec<u8>) -> (r: Result<(), Error>)
        ensures
            match r {
                Ok(()) => frame_wf(f@) && final(buf)@ == old(buf)@ + frame_bytes(f@),
                Err(e) => {
                    &&& !frame_wf(f@)
                    &&& final(buf)@ == old(buf)@
                    &&& e == Error::SerializeError
                },
            },
    {
        encode_frame(f, buf)
    }
}

/// The views of a sequence of frames.
pub open spec fn frames_v(fs: Seq<Frame>) -> Seq<FrameV> {
    fs.map_values(|f: Frame| f@)
}

/// The frames of `fs` were handed to `handle_frame` in order, each accepted,
/// taking the connection from `pre` to `post` through the intermediate
/// states.
pub open spec fn frames_dispatched(pre: Connection, post: Connection, fs: Seq<Frame>) -> bool
    decreases fs.len(),
{
    if fs.len() == 0 {
        post == pre
    } else {
        exists|mid: Connection|
            #[trigger] handle_frame_post(&pre, &mid, fs[0]@, Ok(()))
                && frames_dispatched(mid, post, fs.skip(1))
    }
}

proof fn lemma_frames_dispatched_snoc(
    pre: Connection,
    mid: Connection,
    post: Connection,
    fs: Seq<Frame>,
    f: Frame,
)
    requires
        frames_dispatched(pre, mid, fs),
        handle_frame_post(&mid, &post, f@, Ok(())),
    ensures
        frames_dispatched(pre, post, fs.push(f)),
    decreases fs.len(),
{
    if fs.len() == 0 {
        assert(mid == pre);
        assert(fs.push(f)[0] == f);
        assert(fs.push(f).skip(1) =~= Seq::<Frame>::empty());
        assert(frames_dispatched(post, post, fs.push(f).skip(1)));
        assert(handle_frame_post(&pre, &post, fs.push(f)[0]@, Ok(())));
    } else {
        let m0 = choose|m: Connection|
            #[trigger] handle_frame_post(&pre, &m, fs[0]@, Ok(()))
                && frames_dispatched(m, mid, fs.skip(1));
        lemma_frames_dispatched_snoc(m0, mid, post, fs.skip(1), f);
        assert(fs.push(f).skip(1) =~= fs.skip(1).push(f));
        assert(fs.push(f)[0] == fs[0]);
        assert(handle_frame_post(&pre, &m0, fs.push(f)[0]@, Ok(()))
            && frames_dispatched(m0, post, fs.push(f).skip(1)));
    }
}

/// The whole buffer's drain is the already-dispatched frames followed by the
/// drain of what is still buffered.
pub open spec fn drain_extends(whole: Seq<u8>, done: Seq<FrameV>, rest_buf: Seq<u8>) -> bool {
    drain(whole) == (match drain(rest_buf) {
        None => None::<(Seq<FrameV>, Seq<u8>)>,
        Some((fs2, leftover)) => Some((done + fs2, leftover)),
    })
}

proof fn lemma_drain_step(buf0: Seq<u8>, done: Seq<FrameV>, b1: Seq<u8>, b2: Seq<u8>, fv: FrameV)
    requires
        drain_extends(buf0, done, b1),
        parse_frame(b1) matches FrameParse::Parsed(pv, c) && pv == fv && b2 == b1.skip(c as int),
    ensures
        drain_extends(buf0, done.push(fv), b2),
{
    match parse_frame(b1) {
        FrameParse::Parsed(pv, c) => {
            lemma_parse_frame_len(b1);
            lemma_drain_fuel(b2, (b1.len() - 1) as nat, b2.len());
            assert(drain(b1) == (match drain(b2) {
                None => None::<(Seq<FrameV>, Seq<u8>)>,
                Some((fs2, rest)) => Some((seq![fv] + fs2, rest)),
            }));
            match drain(b2) {
                None => {},
                Some((fs2, rest)) => {
                    assert(done.push(fv) + fs2 =~= done + (seq![fv] + fs2));
                },
            }
        },
        _ => {},
    }
}

proof fn lemma_drain_finish(buf0: Seq<u8>, done: Seq<FrameV>, b: Seq<u8>)
    requires
        drain_extends(buf0, done, b),
        parse_frame(b) is Incomplete,
    ensures
        drain(buf0) == Some((done, b)),
{
    assert(drain_frames(b, b.len()) == Some((Seq::<FrameV>::empty(), b)));
    assert(done + Seq::<FrameV>::empty() =~= done);
}

proof fn lemma_drain_dead(buf0: Seq<u8>, done: Seq<FrameV>, b: Seq<u8>)
    requires
        drain_extends(buf0, done, b),
        parse_frame(b) is Malformed,
    ensures
        drain(buf0) is None,
{
    assert(drain_frames(b, b.len()) is None);
}

/// Drain every whole frame from the front of `buf` into the state machine,
/// in arrival order.  On `Ok(n)` the `n` decoded frames were all accepted,
/// the buffer keeps exactly the drain's leftover (so no whole frame remains),
/// and the connection went through exactly those frames' transitions.  `Err`
/// comes from precisely two sources: a structurally invalid stream
/// (`ParseError`, the connection as the already-dispatched frames left it) or
/// `handle_frame` rejecting a decoded frame.
#[verifier::spinoff_prover]
#[verifier::rlimit(100)]
pub fn process_incoming(conn: &mut Connection, buf: &mut Vec<u8>) -> (r: Result<usize, Error>)
    requires
        conn_wf(old(conn)),
    ensures
        conn_wf(final(conn)),
        r is Ok ==> parse_frame(final(buf)@) is Incomplete,
        match r {
            Ok(n) => exists|fs: Seq<Frame>| {
                &&& #[trigger] frames_dispatched(*old(conn), *final(conn), fs)
                &&& drain(old(buf)@) == Some((frames_v(fs), final(buf)@))
                &&& n as int == fs.len()
            },
            Err(e) => exists|fs: Seq<Frame>, mid: Connection| {
                &&& #[trigger] frames_dispatched(*old(conn), mid, fs)
                &&& ({
                    ||| (*final(conn) == mid && e == Error::ParseError
                        && drain(old(buf)@) is None
                        && parse_frame(final(buf)@) is Malformed)
                    ||| (exists|f: Frame| {
                        &&& #[trigger] handle_frame_post(&mid, final(conn), f@, Err(e))
                        &&& match drain(old(buf)@) {
                            None => true,
                            Some((all, _)) => fs.len() < all.len() && frames_v(fs)
                                == all.take(fs.len() as int) && f@ == all[fs.len() as int],
                        }
                    })
                })
            },
        },
{
    let ghost conn0 = *conn;
    let ghost buf0 = buf@;
    let initial_len = buf.len();
    proof {
        assert(buf0.len() == initial_len as int);
    }
    let mut count: usize = 0;
    let ghost mut fs_done: Seq<Frame> = Seq::empty();
    proof {
        assert(frames_dispatched(conn0, *conn, fs_done));
        assert(frames_v(fs_done) =~= Seq::<FrameV>::empty());
        assert(drain_extends(buf0, frames_v(fs_done), buf@)) by {
            match drain(buf0) {
                None => {},
                Some((fs2, leftover)) => {
                    assert(frames_v(fs_done) + fs2 =~= fs2);
                },
            }
        };
    }
    loop
        invariant
            conn_wf(conn),
            conn0 == *old(conn),
            buf0 == old(buf)@,
            frames_dispatched(conn0, *conn, fs_done),
            count as int == fs_done.len(),
            drain_extends(buf0, frames_v(fs_done), buf@),
            fs_done.len() * 8 + buf@.len() <= buf0.len(),
            buf0.len() <= usize::MAX,
        decreases buf@.len(),
    {
        let ghost b1 = buf@;
        let ghost pre_conn = *conn;
        match decode(buf) {
            Ok(Some(f)) => {
                let ghost fg = f;
                proof {
                    lemma_parse_frame_len(b1);
                    lemma_drain_step(buf0, frames_v(fs_done), b1, buf@, fg@);
                }
                match conn.handle_frame(f) {
                    Ok(()) => {
                        proof {
                            lemma_frames_dispatched_snoc(conn0, pre_conn, *conn, fs_done, fg);
                            let prev = fs_done;
                            fs_done = fs_done.push(fg);
                            assert(frames_v(fs_done) =~= frames_v(prev).push(fg@));
                        }
                        count = count + 1;
                    },
                    Err(e) => {
                        proof {
                            assert(handle_frame_post(&pre_conn, conn, fg@, Err(e)));
                            match drain(buf0) {
                                None => {},
                                Some((all, rest2)) => {
                                    assert(drain(b1) matches Some((fs2, _)));
                                    match drain(b1) {
                                        None => {},
                                        Some((fs2, _)) => {
                                            assert(all == frames_v(fs_done) + fs2);
                                            assert(fs2[0] == fg@);
                                            assert(all[fs_done.len() as int] == fg@);
                                            assert(frames_v(fs_done)
                                                =~= all.take(fs_done.len() as int));
                                        },
                                    }
                                },
                            }
                            assert(frames_dispatched(conn0, pre_conn, fs_done)
                                && (exists|f2: Frame| {
                                    &&& #[trigger] handle_frame_post(&pre_conn, conn, f2@,
                                        Err(e))
                                    &&& match drain(buf0) {
                                        None => true,
                                        Some((all, _)) => fs_done.len() < all.len()
                                            && frames_v(fs_done) == all.take(
                                            fs_done.len() as int,
                                        ) && f2@ == all[fs_done.len() as int],
                                    }
                                })) by {
                                assert(handle_frame_post(&pre_conn, conn, fg@, Err(e)));
                            };
                        }
                        return Err(e);
                    },
                }
            },
            Ok(None) => {
                proof {
                    lemma_drain_finish(buf0, frames_v(fs_done), buf@);
                    assert(frames_dispatched(conn0, *conn, fs_done)
                        && drain(buf0) == Some((frames_v(fs_done), buf@))
                        && count as int == fs_done.len());
                }
                return Ok(count);
            },
            Err(e) => {
                proof {
                    lemma_drain_dead(buf0, frames_v(fs_done), buf@);
                    assert(frames_dispatched(conn0, *conn, fs_done));
                }
                return Err(e);
            },
        }
    }
}

/// Serialize the oldest outbound frame into `out`.  `Ok(true)` when a frame
/// was written, `Ok(false)` when the queue was empty; a frame the serializer
/// refuses is dropped and reported, leaving the connection usable.
pub fn next_outgoing(conn: &mut Connection, out: &mut Vec<u8>) -> (r: Result<bool, Error>)
    requires
        conn_wf(old(conn)),
    ensures
        conn_wf(final(conn)),
        old(conn).frame_queue@.len() == 0 ==> r == Ok::<bool, Error>(false)
            && final(out)@ == old(out)@ && *final(conn) == *old(conn),
        old(conn).frame_queue@.len() > 0 ==> {
            &&& final(conn).frame_queue@ == old(conn).frame_queue@.skip(1)
            &&& final(conn).channels == old(conn).channels
            &&& final(conn).requests == old(conn).requests
            &&& if frame_wf(old(conn).frame_queue@[0]@) {
                r == Ok::<bool, Error>(true) && final(out)@ == old(out)@ + frame_bytes(
                    old(conn).frame_queue@[0]@,
                )
            } else {
                r == Err::<bool, Error>(Error::SerializeError) && final(out)@ == old(out)@
            }
        },
{
    match conn.next_frame() {
        None => Ok(false),
        Some(f) => match encode_frame(&f, out) {
            Ok(()) => Ok(true),
            Err(e) => Err(e),
        },
    }
}

} // verus!
