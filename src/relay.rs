//! The decisions of the full-duplex relay: each direction copies until its
//! reader ends, and the whole relay ends with the first direction to end.
use vstd::prelude::*;

verus! {

/// The size of each direction's copy buffer.
pub const RELAY_BUFFER_SIZE: usize = 4096;

/// What a copy loop does with the result of one read.
#[derive(Clone, Copy, Debug, PartialEq, Eq)]
pub enum CopyAction {
    /// Write these many bytes to the other side, then read again.
    Forward(usize),
    /// The reader ended: this direction, and so the relay, is done.
    Finish,
}

/// A read of `len` bytes is forwarded; an empty read ends the direction.
pub open spec fn copy_action(len: usize) -> CopyAction {
    if len == 0 {
        CopyAction::Finish
    } else {
        CopyAction::Forward(len)
    }
}

/// Decides what follows a read of `len` bytes.
pub fn copy_step(len: usize) -> (r: CopyAction)
    ensures
        r == copy_action(len),
{
    if len == 0 {
        CopyAction::Finish
    } else {
        CopyAction::Forward(len)
    }
}

/// Where a relay stands after some reads: the direction that ended it, if
/// any, and the bytes forwarded each way before that.
pub ghost struct RelayRun {
    pub finished: Option<bool>,
    pub forwarded_a: nat,
    pub forwarded_b: nat,
}

/// The relay over the reads `events`, in the order in which they
/// completed on either side: `(true, n)` is a read of `n` bytes from the
/// first connection, `(false, n)` one from the second.
pub open spec fn relay_run(events: Seq<(bool, usize)>) -> RelayRun
    decreases events.len(),
{
    if events.len() == 0 {
        RelayRun { finished: None, forwarded_a: 0, forwarded_b: 0 }
    } else {
        let (dir, len) = events[0];
        match copy_action(len) {
            CopyAction::Finish => RelayRun { finished: Some(dir), forwarded_a: 0, forwarded_b: 0 },
            CopyAction::Forward(n) => {
                let rest = relay_run(events.drop_first());
                RelayRun {
                    finished: rest.finished,
                    forwarded_a: if dir {
                        rest.forwarded_a + n as nat
                    } else {
                        rest.forwarded_a
                    },
                    forwarded_b: if dir {
                        rest.forwarded_b
                    } else {
                        rest.forwarded_b + n as nat
                    },
                }
            },
        }
    }
}

/// The bytes that the reads of direction `dir` among `events` delivered.
pub open spec fn delivered(events: Seq<(bool, usize)>, dir: bool) -> nat
    decreases events.len(),
{
    if events.len() == 0 {
        0
    } else {
        (if events[0].0 == dir {
            events[0].1 as nat
        } else {
            0
        }) + delivered(events.drop_first(), dir)
    }
}

/// When direction `dir` reaches its end at read `k`, and no read before
/// that ended either direction (the other one never closes), the relay
/// finishes there: it has forwarded in that direction every byte its
/// reads delivered, and nothing that happens afterwards on the other
/// side, however long it goes on, holds it up.
pub proof fn lemma_relay_ends_with_first_eof(events: Seq<(bool, usize)>, dir: bool, k: int)
    requires
        0 <= k < events.len(),
        events[k] == (dir, 0usize),
        forall|i: int| 0 <= i < k ==> events[i].1 > 0,
    ensures
        relay_run(events).finished == Some(dir),
        dir ==> relay_run(events).forwarded_a == delivered(events.take(k), true),
        !dir ==> relay_run(events).forwarded_b == delivered(events.take(k), false),
        relay_run(events) == relay_run(events.take(k + 1)),
    decreases k,
{
    if k > 0 {
        let rest = events.drop_first();
        lemma_relay_ends_with_first_eof(rest, dir, k - 1);
        assert(events.take(k).drop_first() =~= rest.take(k - 1));
        assert(events.take(k + 1).drop_first() =~= rest.take(k));
        assert(events.take(k)[0] == events[0]);
        assert(events.take(k + 1)[0] == events[0]);
    }
}

} // verus!
