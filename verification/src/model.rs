//! The device and the threads that use it, as a transition system.
//!
//! The host's lock puts the passes of all readers and the signals of all
//! writers into one order. A `World` is what that order has led to: the flag,
//! where each thread stands, and how many writes and completed reads there
//! have been. Each `Event` is one critical section, taken as a whole, in which
//! the host does what `read` or `write` answers. The condition variable is
//! trusted to give the lock up and to put the thread to sleep in one step, and
//! to wake the threads it is told to wake.
use vstd::prelude::*;
use crate::endpoint::ReadStep;
use crate::endpoint::read_step;
use crate::endpoint::write_done;
use crate::state::Wake;

verus! {

/// Where a thread stands with respect to `read`.
pub enum Phase {
    /// Not inside `read`.
    Outside,
    /// Inside `read`, asleep on the condition variable.
    Parked,
    /// Inside `read`, woken and about to take the lock for another pass.
    Woken,
}

/// One critical section, or one act of the condition variable.
pub enum Event {
    /// The thread takes the lock and makes one pass of `read`: its first, if
    /// it stood outside, or the next one after it was woken. A thread that is
    /// asleep cannot do so, and the event then changes nothing.
    Pass(nat),
    /// Some thread that is not blocked in `read` takes the lock and calls
    /// `write` with a source buffer of that many bytes.
    Write(nat),
    /// The condition variable wakes the thread although nobody signalled.
    SpuriousWake(nat),
}

/// The phase of a thread once it has been told to wake.
pub open spec fn roused(phase: Phase) -> Phase {
    if phase == Phase::Parked {
        Phase::Woken
    } else {
        phase
    }
}

/// Whether thread `t` is asleep.
pub open spec fn asleep(phases: Map<nat, Phase>, t: nat) -> bool {
    phases.dom().contains(t) && phases[t] == Phase::Parked
}

/// The threads after the condition variable has woken those that `wake`
/// names: every sleeper, or one of them if there is any.
pub open spec fn woken(phases: Map<nat, Phase>, wake: Wake) -> Map<nat, Phase> {
    match wake {
        Wake::All => phases.map_values(|phase: Phase| roused(phase)),
        Wake::One => if exists|t: nat| asleep(phases, t) {
            phases.insert(choose|t: nat| asleep(phases, t), Phase::Woken)
        } else {
            phases
        },
    }
}

/// The number of signals that wait to be consumed: one while the flag is
/// cleared, none while it is armed.
pub open spec fn pending(armed: bool) -> nat {
    if armed {
        0
    } else {
        1
    }
}

/// The passes of the threads in `order`, one after the other.
pub open spec fn passes(order: Seq<nat>) -> Seq<Event> {
    Seq::new(order.len(), |i: int| Event::Pass(order[i]))
}

/// The device and its threads at one moment.
pub struct World {
    /// The flag.
    pub armed: bool,
    /// The phase of each thread that has ever called `read`.
    pub phases: Map<nat, Phase>,
    /// How many calls of `write` there have been.
    pub writes: nat,
    /// How many calls of `read` have returned.
    pub returns: nat,
}

impl World {
    /// The device as it is set up: armed, unused.
    pub open spec fn initial() -> World {
        World { armed: true, phases: Map::empty(), writes: 0, returns: 0 }
    }

    /// Where thread `t` stands.
    pub open spec fn phase(self, t: nat) -> Phase {
        if self.phases.dom().contains(t) {
            self.phases[t]
        } else {
            Phase::Outside
        }
    }

    /// No thread sleeps while a signal is pending.
    pub open spec fn no_lost_wakeup(self) -> bool {
        !self.armed ==> forall|t: nat| self.phase(t) != Phase::Parked
    }

    /// The world after one event. A pass leaves the flag armed and does what
    /// `read` answers: the thread goes to sleep, or its read returns. A write
    /// leaves the flag cleared and wakes the threads that `write` names.
    pub open spec fn step(self, event: Event) -> World {
        match event {
            Event::Pass(t) => if self.phase(t) == Phase::Parked {
                self
            } else {
                match read_step(self.armed) {
                    ReadStep::Park => World {
                        armed: true,
                        phases: self.phases.insert(t, Phase::Parked),
                        ..self
                    },
                    ReadStep::Done(_) => World {
                        armed: true,
                        phases: self.phases.insert(t, Phase::Outside),
                        returns: self.returns + 1,
                        ..self
                    },
                }
            },
            Event::Write(len) => World {
                armed: false,
                phases: woken(self.phases, write_done(len).wake),
                writes: self.writes + 1,
                ..self
            },
            Event::SpuriousWake(t) => if self.phase(t) == Phase::Parked {
                World { phases: self.phases.insert(t, Phase::Woken), ..self }
            } else {
                self
            },
        }
    }

    /// The world after a sequence of events, the first of them first.
    pub open spec fn run(self, events: Seq<Event>) -> World
        decreases events.len(),
    {
        if events.len() == 0 {
            self
        } else {
            self.run(events.drop_last()).step(events.last())
        }
    }
}

/// An event changes the returns and the pending signal together by no more
/// than it changes the writes.
proof fn lemma_step_accounts(w: World, event: Event)
    ensures
        w.step(event).writes >= w.writes,
        w.step(event).returns >= w.returns,
        w.step(event).returns + pending(w.step(event).armed) - w.step(event).writes
            <= w.returns + pending(w.armed) - w.writes,
{
}

/// Every read that returns has consumed a signal of its own: over any
/// sequence of events, from any world, the reads that return and the signal
/// left pending at the end are together no more than the writes made and the
/// signal that was pending at the start.
pub proof fn law_returns_are_paid_by_writes(w: World, events: Seq<Event>)
    ensures
        w.run(events).writes >= w.writes,
        w.run(events).returns >= w.returns,
        (w.run(events).returns - w.returns) + pending(w.run(events).armed)
            <= (w.run(events).writes - w.writes) + pending(w.armed),
    decreases events.len(),
{
    if events.len() > 0 {
        law_returns_are_paid_by_writes(w, events.drop_last());
        lemma_step_accounts(w.run(events.drop_last()), events.last());
    }
}

/// On a device that starts armed, no more reads have returned at any moment
/// than writes have been made up to then. So no reader returns before the
/// first write.
pub proof fn law_returns_never_exceed_writes(events: Seq<Event>)
    ensures
        World::initial().run(events).returns <= World::initial().run(events).writes,
        World::initial().run(events).writes == 0 ==> World::initial().run(events).returns == 0,
{
    law_returns_are_paid_by_writes(World::initial(), events);
}

/// While the flag is armed a reader cannot get through without a writer: if
/// any read returns in the course of `events`, a write was made in it too.
pub proof fn law_armed_reader_needs_a_write(w: World, events: Seq<Event>)
    requires
        w.armed,
    ensures
        w.run(events).writes == w.writes ==> w.run(events).returns == w.returns,
        w.run(events).returns - w.returns <= w.run(events).writes - w.writes,
{
    law_returns_are_paid_by_writes(w, events);
}

/// A reader that is blocked while the flag is armed gets out only through a
/// write. Let thread `t` be inside `read`, asleep or woken, and the flag armed.
/// If after `events` the thread stands outside again, its read has returned,
/// and a write was made in the meantime.
pub proof fn law_blocked_reader_returns_after_a_write(w: World, t: nat, events: Seq<Event>)
    requires
        w.armed,
        w.phase(t) != Phase::Outside,
    ensures
        w.run(events).phase(t) == Phase::Outside ==> w.run(events).returns > w.returns
            && w.run(events).writes > w.writes,
    decreases events.len(),
{
    law_returns_are_paid_by_writes(w, events);
    if events.len() > 0 {
        let before = w.run(events.drop_last());
        law_blocked_reader_returns_after_a_write(w, t, events.drop_last());
        law_returns_are_paid_by_writes(w, events.drop_last());
        match events.last() {
            Event::Write(_) => {
                assert(before.step(events.last()).phase(t) == roused(before.phase(t)));
            },
            _ => {},
        }
    }
}

/// One event keeps `no_lost_wakeup`.
proof fn lemma_step_keeps_sleepers_signalled(w: World, event: Event)
    requires
        w.no_lost_wakeup(),
    ensures
        w.step(event).no_lost_wakeup(),
{
    let after = w.step(event);
    if !after.armed {
        assert forall|t: nat| after.phase(t) != Phase::Parked by {
            match event {
                Event::Write(_) => {
                    assert(after.phase(t) == roused(w.phase(t)));
                },
                _ => {
                    assert(!w.armed);
                    assert(w.phase(t) != Phase::Parked);
                },
            }
        }
    }
}

/// From the device as it is set up, no sequence of events leaves a thread
/// asleep while a signal is pending: a wakeup is never lost.
pub proof fn law_no_wakeup_is_lost(events: Seq<Event>)
    ensures
        World::initial().run(events).no_lost_wakeup(),
    decreases events.len(),
{
    if events.len() > 0 {
        let before = World::initial().run(events.drop_last());
        law_no_wakeup_is_lost(events.drop_last());
        lemma_step_keeps_sleepers_signalled(before, events.last());
    }
}

/// A signal is consumed once. After a write, the next pass of a reader
/// returns, whichever thread `first` makes it; the pass after that, by the same
/// thread or by another, finds the flag armed again and must park.
pub proof fn law_signal_is_consumed_once(w: World, len: nat, first: nat, second: nat)
    ensures
        ({
            let signalled = w.step(Event::Write(len));
            let consumed = signalled.step(Event::Pass(first));
            let blocked = consumed.step(Event::Pass(second));
            &&& !signalled.armed
            &&& consumed.armed
            &&& consumed.returns == w.returns + 1
            &&& consumed.phase(first) == Phase::Outside
            &&& blocked.armed
            &&& blocked.returns == w.returns + 1
            &&& blocked.phase(second) == Phase::Parked
        }),
{
    let signalled = w.step(Event::Write(len));
    assert(signalled.phase(first) == roused(w.phase(first)));
    let consumed = signalled.step(Event::Pass(first));
    assert(consumed.phase(second) == if second == first {
        Phase::Outside
    } else {
        roused(w.phase(second))
    });
}

/// The passes of woken threads, taken in any order, after a signal: the first
/// consumes it and every later one parks again.
proof fn lemma_first_pass_wins(w: World, order: Seq<nat>)
    requires
        !w.armed,
        order.len() >= 1,
        order.no_duplicates(),
        forall|i: int| 0 <= i < order.len() ==> w.phase(#[trigger] order[i]) == Phase::Woken,
    ensures
        w.run(passes(order)).armed,
        w.run(passes(order)).returns == w.returns + 1,
        w.run(passes(order)).writes == w.writes,
        w.run(passes(order)).phase(order[0]) == Phase::Outside,
        forall|i: int|
            1 <= i < order.len() ==> w.run(passes(order)).phase(#[trigger] order[i])
                == Phase::Parked,
        forall|t: nat| !order.contains(t) ==> w.run(passes(order)).phase(t) == w.phase(t),
    decreases order.len(),
{
    let earlier = order.drop_last();
    let last = order.last();
    assert(passes(order).drop_last() =~= passes(earlier));
    assert(passes(order).last() == Event::Pass(last));
    if order.len() == 1 {
        assert(w.run(passes(earlier)) == w);
        assert(order[0] == last);
        assert forall|t: nat| !order.contains(t) implies w.run(passes(order)).phase(t) == w.phase(
            t,
        ) by {
            assert(t != order[0]);
        }
    } else {
        lemma_first_pass_wins(w, earlier);
        let before = w.run(passes(earlier));
        assert(!earlier.contains(last)) by {
            if earlier.contains(last) {
                let j = choose|j: int| 0 <= j < earlier.len() && earlier[j] == last;
                assert(order[j] == order[order.len() - 1]);
            }
        }
        assert(before.phase(last) == Phase::Woken);
        let after = before.step(Event::Pass(last));
        assert(after == w.run(passes(order)));
        assert(earlier[0] == order[0]);
        assert forall|i: int| 1 <= i < order.len() implies after.phase(#[trigger] order[i])
            == Phase::Parked by {
            if i < order.len() - 1 {
                assert(earlier[i] == order[i]);
                assert(before.phase(earlier[i]) == Phase::Parked);
            }
        }
        assert forall|t: nat| !order.contains(t) implies after.phase(t) == w.phase(t) by {
            assert(t != last);
            if earlier.contains(t) {
                let j = choose|j: int| 0 <= j < earlier.len() && earlier[j] == t;
                assert(order[j] == t);
            }
        }
    }
}

/// A write reaches every sleeper, and releases one of them. Let the threads
/// of `order` all be parked, and let one write be made. Then all of them are
/// awake, as is every other thread that slept. Let them now take the lock in
/// the order given, which may be any. The first finds the flag cleared, arms
/// it and returns; each of the others finds it armed and parks again. One read
/// has returned for the one write.
pub proof fn law_broadcast_releases_one(w: World, len: nat, order: Seq<nat>)
    requires
        order.len() >= 1,
        order.no_duplicates(),
        forall|i: int| 0 <= i < order.len() ==> w.phase(#[trigger] order[i]) == Phase::Parked,
    ensures
        forall|t: nat|
            w.phase(t) == Phase::Parked ==> w.step(Event::Write(len)).phase(t) == Phase::Woken,
        forall|t: nat| w.step(Event::Write(len)).phase(t) != Phase::Parked,
        ({
            let settled = w.step(Event::Write(len)).run(passes(order));
            &&& settled.armed
            &&& settled.writes == w.writes + 1
            &&& settled.returns == w.returns + 1
            &&& settled.phase(order[0]) == Phase::Outside
            &&& forall|i: int|
                1 <= i < order.len() ==> settled.phase(#[trigger] order[i]) == Phase::Parked
        }),
{
    let signalled = w.step(Event::Write(len));
    assert forall|t: nat| signalled.phase(t) == roused(w.phase(t)) by {}
    assert forall|i: int| 0 <= i < order.len() implies signalled.phase(#[trigger] order[i])
        == Phase::Woken by {
        assert(w.phase(order[i]) == Phase::Parked);
    }
    lemma_first_pass_wins(signalled, order);
}

/// What a write does to the device does not depend on how many bytes it
/// brings: an empty buffer signals as well as any other.
pub proof fn law_signal_ignores_payload(w: World, len: nat, other: nat)
    ensures
        w.step(Event::Write(len)) == w.step(Event::Write(other)),
{
}

} // verus!
