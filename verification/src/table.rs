use vstd::prelude::*;

use crate::ids::Snowflake;

verus! {

/// How long the table waits for a Discord call, in milliseconds.
pub const ANNOUNCE_TIMEOUT_MS: u64 = 5000;

/// How long the table waits after the first correct answer for an earlier one to arrive.
pub const SETTLE_WINDOW_MS: u64 = 250;

/// What came of a request to end a round early.
#[derive(Debug, Clone, Copy, PartialEq, Eq, Structural)]
pub enum CancelOutcome {
    Cancelled,
    Refused,
    AlreadyOver,
}

/// The round running in a channel: its number, and the message of the earliest correct
/// answer heard so far.
#[derive(Debug, Clone, Copy, PartialEq, Eq, Structural)]
pub struct Active {
    pub number: u64,
    pub leader: Option<Snowflake>,
}

/// A channel's seat at the table: the round running there, if any.
#[derive(Debug, Clone, Copy, PartialEq, Eq, Structural)]
pub struct Seat {
    pub active: Option<Active>,
}

/// What hearing a correct answer did.
#[derive(Debug, Clone, Copy, PartialEq, Eq, Structural)]
pub struct Heard {
    /// The round the answer was for.
    pub number: u64,
    /// Whether it was the round's first correct answer, which starts the settle window.
    pub first: bool,
    /// Whether it is now the round's earliest correct answer.
    pub leads: bool,
}

/// Whether an answer in `message` comes before the current leader's.
pub open spec fn leads(leader: Option<Snowflake>, message: Snowflake) -> bool {
    match leader {
        None => true,
        Some(leader) => message@ < leader@,
    }
}

/// The leader after hearing `messages`, in that order, starting from `leader`.
pub open spec fn leader_after(leader: Option<Snowflake>, messages: Seq<Snowflake>) -> Option<
    Snowflake,
>
    decreases messages.len(),
{
    if messages.len() == 0 {
        leader
    } else {
        let before = leader_after(leader, messages.drop_last());
        if leads(before, messages.last()) {
            Some(messages.last())
        } else {
            before
        }
    }
}

/// Whether `number` is the seat's round and nobody has answered it yet.
pub open spec fn open_round(seat: Seat, number: u64) -> bool {
    match seat.active {
        Some(active) => active.number == number && active.leader is None,
        None => false,
    }
}

/// The seat after a request to end round `number`, and the outcome; `allowed` says whether
/// the player may end the round running there.
pub open spec fn cancelled(seat: Seat, number: u64, allowed: bool) -> (Seat, CancelOutcome) {
    if !open_round(seat, number) {
        (seat, CancelOutcome::AlreadyOver)
    } else if !allowed {
        (seat, CancelOutcome::Refused)
    } else {
        (Seat { active: None }, CancelOutcome::Cancelled)
    }
}

/// The seat after round `number`'s time runs out, and whether that ended it.
pub open spec fn timed_out(seat: Seat, number: u64) -> (Seat, bool) {
    if open_round(seat, number) {
        (Seat { active: None }, true)
    } else {
        (seat, false)
    }
}

/// The seat once round `number`'s settle window closes, and, when it was the seat's round,
/// the message of its winning answer.
pub open spec fn settled(seat: Seat, number: u64) -> (Seat, Option<Option<Snowflake>>) {
    match seat.active {
        Some(active) => if active.number == number {
            (Seat { active: None }, Some(active.leader))
        } else {
            (seat, None)
        },
        None => (seat, None),
    }
}

impl Seat {
    /// A seat with no round.
    pub fn new() -> (seat: Seat)
        ensures
            seat.active is None,
    {
        Seat { active: None }
    }

    /// Whether a round is running here, so that another cannot start.
    pub fn busy(&self) -> (busy: bool)
        ensures
            busy == self.active is Some,
    {
        self.active.is_some()
    }

    /// Starts round `number`.
    pub fn begin(&mut self, number: u64)
        requires
            old(self).active is None,
        ensures
            final(self).active == Some(Active { number, leader: None }),
    {
        self.active = Some(Active { number, leader: None });
    }

    /// Hears an answer in `message`: a correct one, not from a bot, counts for the running
    /// round and becomes its leader when it came first.
    pub fn hear(&mut self, message: Snowflake, from_bot: bool, correct: bool) -> (heard: Option<
        Heard,
    >)
        ensures
            from_bot || !correct || old(self).active is None ==> heard is None && *final(self)
                == *old(self),
            !from_bot && correct && old(self).active is Some ==> {
                let active = old(self).active->0;
                &&& heard == Some(
                    Heard {
                        number: active.number,
                        first: active.leader is None,
                        leads: leads(active.leader, message),
                    },
                )
                &&& final(self).active == Some(
                    Active {
                        number: active.number,
                        leader: leader_after(active.leader, seq![message]),
                    },
                )
            },
    {
        if from_bot || !correct {
            return None;
        }
        match self.active {
            None => None,
            Some(active) => {
                let first = active.leader.is_none();
                let earlier = match active.leader {
                    None => true,
                    Some(leader) => message.get() < leader.get(),
                };
                assert(seq![message].drop_last() =~= Seq::<Snowflake>::empty());
                assert(leader_after(active.leader, Seq::empty()) == active.leader);
                if earlier {
                    self.active = Some(Active { number: active.number, leader: Some(message) });
                }
                Some(Heard { number: active.number, first, leads: earlier })
            },
        }
    }

    /// Whether round `number` should still get its hint.
    pub fn hint_due(&self, number: u64) -> (due: bool)
        ensures
            due == open_round(*self, number),
    {
        match self.active {
            Some(active) => active.number == number && active.leader.is_none(),
            None => false,
        }
    }

    /// Ends round `number` on a player's request when it is still open and `allowed`.
    pub fn cancel(&mut self, number: u64, allowed: bool) -> (outcome: CancelOutcome)
        ensures
            (*final(self), outcome) == cancelled(*old(self), number, allowed),
    {
        if !self.hint_due(number) {
            return CancelOutcome::AlreadyOver;
        }
        if !allowed {
            return CancelOutcome::Refused;
        }
        self.active = None;
        CancelOutcome::Cancelled
    }

    /// Ends round `number` when its time is up and nobody has answered it.
    pub fn time_out(&mut self, number: u64) -> (ended: bool)
        ensures
            (*final(self), ended) == timed_out(*old(self), number),
    {
        if self.hint_due(number) {
            self.active = None;
            true
        } else {
            false
        }
    }

    /// Ends round `number` once its settle window closes, giving its winning message.
    pub fn settle(&mut self, number: u64) -> (winner: Option<Option<Snowflake>>)
        ensures
            (*final(self), winner) == settled(*old(self), number),
    {
        match self.active {
            Some(active) => {
                if active.number == number {
                    self.active = None;
                    Some(active.leader)
                } else {
                    None
                }
            },
            None => None,
        }
    }
}

// ---------------------------------------------------------------------------
// Laws.

/// Whatever order correct answers arrive in, the round's leader is the earliest of them: one
/// of the answers, and no later than any of them.
pub proof fn law_leader_is_earliest(messages: Seq<Snowflake>)
    requires
        messages.len() > 0,
    ensures
        leader_after(None, messages) matches Some(leader) && messages.contains(leader) && forall|
            i: int,
        |
            0 <= i < messages.len() ==> leader@ <= #[trigger] messages[i]@,
    decreases messages.len(),
{
    let earlier = messages.drop_last();
    if earlier.len() == 0 {
        assert(messages[0] == messages.last());
    } else {
        law_leader_is_earliest(earlier);
        let before = leader_after(None, earlier);
        let leader = leader_after(None, messages);
        assert forall|i: int| 0 <= i < messages.len() implies leader->0@ <= #[trigger] messages[i]@ by {
            if i < messages.len() - 1 {
                assert(messages[i] == earlier[i]);
            }
        }
        if leads(before, messages.last()) {
            assert(messages.contains(messages.last()));
        } else {
            let l = before->0;
            let k = choose|k: int| 0 <= k < earlier.len() && earlier[k] == l;
            assert(messages[k] == l);
        }
    }
}

/// A round ends once: after a cancel, a time-out or a settle ends it, the seat is free for a
/// new round, and every later attempt to end any round there finds it already over.
pub proof fn law_round_ends_once(seat: Seat, number: u64, allowed: bool, later: u64, allowed_later: bool)
    ensures
        cancelled(seat, number, allowed).1 == CancelOutcome::Cancelled ==> {
            let after = cancelled(seat, number, allowed).0;
            &&& after.active is None
            &&& cancelled(after, later, allowed_later).1 == CancelOutcome::AlreadyOver
            &&& !timed_out(after, later).1
            &&& settled(after, later).1 is None
        },
        timed_out(seat, number).1 ==> {
            let after = timed_out(seat, number).0;
            &&& after.active is None
            &&& cancelled(after, later, allowed_later).1 == CancelOutcome::AlreadyOver
            &&& !timed_out(after, later).1
            &&& settled(after, later).1 is None
        },
        settled(seat, number).1 is Some ==> {
            let after = settled(seat, number).0;
            &&& after.active is None
            &&& cancelled(after, later, allowed_later).1 == CancelOutcome::AlreadyOver
            &&& !timed_out(after, later).1
            &&& settled(after, later).1 is None
        },
{
}

/// A round that has a correct answer is never cancelled nor timed out: only its settle ends
/// it, with that answer's winner.
pub proof fn law_answered_round_settles(seat: Seat, number: u64, allowed: bool)
    requires
        seat.active matches Some(active) && active.number == number && active.leader is Some,
    ensures
        cancelled(seat, number, allowed) == (seat, CancelOutcome::AlreadyOver),
        timed_out(seat, number) == (seat, false),
        settled(seat, number) == (Seat { active: None }, Some(seat.active->0.leader)),
{
}

} // verus!
