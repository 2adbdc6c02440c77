//! The hook itself: a session with the clock that times it.

use crate::packet::{Decision, Packet};
use crate::session::{fresh, intercepted, noticed, step, Outcome, Session};
use std::time::Instant;
use vstd::prelude::*;

verus! {

/// `std::time::Instant`: a reading of the monotonic clock, of which nothing is known here.
#[verifier::external_type_specification]
#[verifier::external_body]
pub struct ExInstant(std::time::Instant);

/// `Instant::now` reads the clock. Nothing is claimed of what it reads.
pub assume_specification[ std::time::Instant::now ]() -> (now: std::time::Instant)
;

/// `Instant::saturating_duration_since`, in nanoseconds: how long `later` lies behind `earlier`,
/// or zero if it lies before. An instant is opaque here, so this is not claimed; the result is
/// spoken of only as one that the call may give for these two instants.
#[verifier::external_body]
fn nanos_between(earlier: &Instant, later: &Instant) -> (nanos: u128) {
    later.saturating_duration_since(*earlier).as_nanos()
}

/// Calls a function that reads the clock; what it gives is what that function may give.
fn take<F: Fn() -> Instant>(clock: F) -> (instant: Instant)
    requires
        call_requires(clock, ()),
    ensures
        call_ensures(clock, (), instant),
{
    clock()
}

/// Calls a function that measures the time between two instants; what it gives is what that
/// function may give for them.
fn measure<F: Fn(&Instant, &Instant) -> u128>(between: F, earlier: &Instant, later: &Instant) -> (
    nanos: u128)
    requires
        call_requires(between, (earlier, later)),
    ensures
        call_ensures(between, (earlier, later), nanos),
{
    between(earlier, later)
}

/// The reading of a clock that is `ahead` past its epoch, or `behind` short of it. What no longer
/// fits is cut off.
pub open spec fn offset(ahead: u128, behind: u128) -> i128 {
    if ahead - behind > i128::MAX {
        i128::MAX
    } else if ahead - behind < i128::MIN {
        i128::MIN
    } else {
        (ahead - behind) as i128
    }
}

/// The reading of a clock that is `ahead` past its epoch, or `behind` short of it.
pub fn signed_offset(ahead: u128, behind: u128) -> (reading: i128)
    ensures
        reading == offset(ahead, behind),
        i128::MIN <= ahead - behind <= i128::MAX ==> reading == ahead - behind,
{
    if ahead >= behind {
        let d: u128 = ahead - behind;
        if d <= i128::MAX as u128 {
            d as i128
        } else {
            i128::MAX
        }
    } else {
        let d: u128 = behind - ahead;
        if d <= i128::MAX as u128 {
            -(d as i128)
        } else {
            i128::MIN
        }
    }
}

/// A session and its clock. The clock's readings count from the start of the session, and are
/// negative if the clock has stepped back behind it. The view is the session; `epoch` is what the
/// readings count from.
pub struct Component {
    epoch: Instant,
    session: Session,
}

impl View for Component {
    type V = Session;

    closed spec fn view(&self) -> Session {
        self.session
    }
}

/// The view is the session and nothing else. A reading is the time by which the instant lies
/// past the epoch, less the time by which it falls short of it, as far as that fits.
proof fn law_reading(c: Component, instant: Instant, ahead: u128, behind: u128)
    requires
        call_ensures(nanos_between, (&c.epoch, &instant), ahead),
        call_ensures(nanos_between, (&instant, &c.epoch), behind),
        i128::MIN <= ahead - behind <= i128::MAX,
    ensures
        c@ == c.session,
        c.epoch() == c.epoch,
        c.reads_at(instant, (ahead - behind) as i128),
{
}

/// A reading that was not cut off comes from two such measurements and from nothing else.
proof fn law_reading_is_measured(c: Component, instant: Instant, n: i128)
    requires
        c.reads_at(instant, n),
        i128::MIN < n < i128::MAX,
    ensures
        exists|ahead: u128, behind: u128|
            {
                &&& #[trigger] call_ensures(nanos_between, (&c.epoch, &instant), ahead)
                &&& #[trigger] call_ensures(nanos_between, (&instant, &c.epoch), behind)
                &&& n == ahead - behind
            },
{
}

impl Component {
    /// The instant that the clock's readings count from.
    pub closed spec fn epoch(&self) -> Instant {
        self.epoch
    }

    /// Whether `n` may be the reading at `instant`.
    pub closed spec fn reads_at(&self, instant: Instant, n: i128) -> bool {
        exists|ahead: u128, behind: u128|
            {
                &&& #[trigger] call_ensures(nanos_between, (&self.epoch, &instant), ahead)
                &&& #[trigger] call_ensures(nanos_between, (&instant, &self.epoch), behind)
                &&& n == offset(ahead, behind)
            }
    }

    /// Whether the clock may read `n`: the reading at an instant that `Instant::now` may give.
    pub open spec fn may_read(&self, n: i128) -> bool {
        exists|instant: Instant|
            call_ensures(Instant::now, (), instant) && #[trigger] self.reads_at(instant, n)
    }

    /// Reads the clock.
    fn read(&self) -> (n: i128)
        ensures
            self.may_read(n),
    {
        let instant = take(Instant::now);
        let ahead: u128 = measure(nanos_between, &self.epoch, &instant);
        let behind: u128 = measure(nanos_between, &instant, &self.epoch);
        let n: i128 = signed_offset(ahead, behind);
        assert(self.reads_at(instant, n));
        n
    }

    /// A hook that has seen no packet yet. Its clock counts from now.
    pub fn new() -> (component: Component)
        ensures
            component@ == fresh(),
            call_ensures(Instant::now, (), component.epoch()),
    {
        Component { epoch: take(Instant::now), session: Session::new() }
    }

    /// Takes a packet and says what comes of it. The clock is read only for a button event that
    /// is acted on, always against the same epoch; whatever it reads, the outcome is that of a
    /// session step with the readings.
    pub fn modify_packet(&mut self, pkt: &Packet) -> (outcome: Outcome)
        ensures
            final(self).epoch() == old(self).epoch(),
            exists|now: i128, later: i128|
                {
                    &&& (final(self)@, outcome@) == #[trigger] step(old(self)@, pkt@, now, later)
                    &&& intercepted(noticed(old(self)@, pkt@), pkt@) is Some ==> {
                        &&& old(self).may_read(now)
                        &&& old(self).may_read(later)
                    }
                },
    {
        let (notes, event) = self.session.observe(pkt);
        match event {
            Some(down) => {
                let now: i128 = self.read();
                let later: i128 = self.read();
                let outcome = self.session.act(notes, down, pkt.channel, now, later);
                assert((self@, outcome@) == step(old(self)@, pkt@, now, later));
                outcome
            },
            None => {
                let outcome = Outcome { notes, send: None, decision: Decision::Forward };
                assert((self@, outcome@) == step(old(self)@, pkt@, 0, 0));
                outcome
            },
        }
    }
}

} // verus!
