//! When a request may go out: the pacing of requests, the windows in which none does, and how
//! often a token refresh may be forced.
//!
//! Moments and durations are in nanoseconds. A moment is counted on a clock that never goes back.

use vstd::prelude::*;

verus! {

/// Nanoseconds of a second.
pub const NANOS_PER_SECOND: u128 = 1_000_000_000;

/// The longest window without requests that an answer can open: ten minutes.
pub const MAX_RETRY_AFTER: u128 = 600_000_000_000;

/// [`MAX_RETRY_AFTER`] in seconds.
pub const MAX_RETRY_AFTER_SECONDS: u64 = 600;

/// How long one forced token refresh suppresses the next one: half a minute.
pub const FORCED_REFRESH_COOLDOWN: u128 = 30_000_000_000;

/// The distance at which requests follow each other in the long run: a quarter of a second.
pub const SPOTIFY_API_MIN_INTERVAL: u128 = 250_000_000;

/// How many requests may start at once.
pub const SPOTIFY_API_BURST: u128 = 5;

/// The clock is far from its end.
pub open spec fn clock_in_range(now: u128) -> bool {
    now + MAX_RETRY_AFTER <= u128::MAX
}

/// The later of two moments.
pub open spec fn later(a: u128, b: u128) -> u128 {
    if a < b {
        b
    } else {
        a
    }
}

/// How much time has passed from one moment to another; none, where the other is not later.
pub open spec fn elapsed(from: u128, to: u128) -> u128 {
    if from <= to {
        (to - from) as u128
    } else {
        0
    }
}

/// What holds requests back: the last forced token refresh, and the window in which no request
/// goes out. All requests of a session share them.
#[derive(Clone, Copy)]
pub struct ForcedRefreshGate {
    pub last_forced_refresh: Option<u128>,
    pub cooldown: u128,
    pub rate_limited_until: Option<u128>,
}

impl ForcedRefreshGate {
    /// Limits that hold nothing back, with the given distance between forced refreshes.
    pub fn new(cooldown: u128) -> (gate: Self)
        ensures
            gate.last_forced_refresh is None,
            gate.cooldown == cooldown,
            gate.rate_limited_until is None,
    {
        ForcedRefreshGate { last_forced_refresh: None, cooldown, rate_limited_until: None }
    }

    /// What is left of the window without requests.
    pub open spec fn window_left(self, now: u128) -> Option<u128> {
        match self.rate_limited_until {
            Some(until) => if now <= until {
                Some((until - now) as u128)
            } else {
                None
            },
            None => None,
        }
    }

    /// What is left of the window without requests, where one is open.
    pub fn rate_limit_remaining(&self, now: u128) -> (left: Option<u128>)
        ensures
            left == self.window_left(now),
    {
        match self.rate_limited_until {
            Some(until) => if now <= until {
                Some(until - now)
            } else {
                None
            },
            None => None,
        }
    }

    /// The end of the window, when another one is opened.
    pub open spec fn window_end(self, window: u128, now: u128) -> u128 {
        let until = (now + if window < MAX_RETRY_AFTER {
            window
        } else {
            MAX_RETRY_AFTER
        }) as u128;
        match self.rate_limited_until {
            Some(current) => later(current, until),
            None => until,
        }
    }

    /// These limits, with a window opened or made longer.
    pub open spec fn limited(self, window: u128, now: u128) -> Self {
        ForcedRefreshGate { rate_limited_until: Some(self.window_end(window, now)), ..self }
    }

    /// Opens a window without requests. One that is open already is made longer, never shorter.
    pub fn rate_limit_for(&mut self, window: u128, now: u128)
        requires
            clock_in_range(now),
        ensures
            *final(self) == old(self).limited(window, now),
    {
        let bounded: u128 = if window < MAX_RETRY_AFTER {
            window
        } else {
            MAX_RETRY_AFTER
        };
        let until: u128 = now + bounded;
        let end: u128 = match self.rate_limited_until {
            Some(current) => if current < until {
                until
            } else {
                current
            },
            None => until,
        };
        self.rate_limited_until = Some(end);
    }

    /// A refresh may be forced: none was within the cooldown.
    pub open spec fn may_force(self, now: u128) -> bool {
        match self.last_forced_refresh {
            Some(previous) => elapsed(previous, now) >= self.cooldown,
            None => true,
        }
    }

    /// These limits, with a refresh forced at a moment.
    pub open spec fn forced(self, now: u128) -> Self {
        ForcedRefreshGate { last_forced_refresh: Some(now), ..self }
    }

    /// Claims the right to force a refresh now. Where one was forced within the cooldown the claim
    /// is refused, and the caller goes on with the token that it has.
    pub fn try_begin(&mut self, now: u128) -> (granted: bool)
        ensures
            granted == old(self).may_force(now),
            *final(self) == (if granted {
                old(self).forced(now)
            } else {
                *old(self)
            }),
    {
        match self.last_forced_refresh {
            Some(previous) => {
                let passed: u128 = if previous <= now {
                    now - previous
                } else {
                    0
                };
                if passed < self.cooldown {
                    return false;
                }
            },
            None => {},
        }
        self.last_forced_refresh = Some(now);
        true
    }

    /// Forgets the last forced refresh, so that one may be forced at once.
    pub fn reset(&mut self)
        ensures
            *final(self) == (ForcedRefreshGate { last_forced_refresh: None, ..*old(self) }),
    {
        self.last_forced_refresh = None;
    }
}

impl Default for ForcedRefreshGate {
    fn default() -> (gate: Self)
        ensures
            gate.last_forced_refresh is None,
            gate.cooldown == FORCED_REFRESH_COOLDOWN,
            gate.rate_limited_until is None,
    {
        ForcedRefreshGate::new(FORCED_REFRESH_COOLDOWN)
    }
}

/// Forgets the last forced refresh of the session: the cooldown of an earlier login says
/// nothing of a new one.
pub fn reset_forced_refresh_cooldown(gate: &mut ForcedRefreshGate)
    ensures
        *final(gate) == (ForcedRefreshGate { last_forced_refresh: None, ..*old(gate) }),
        forall|now: u128| final(gate).may_force(now),
{
    gate.reset();
}

/// A window that opens during another one never cuts it short: at no moment is less left of it.
pub proof fn lemma_window_never_shortened(
    gate: ForcedRefreshGate,
    window: u128,
    now: u128,
    moment: u128,
)
    requires
        clock_in_range(now),
        gate.window_left(moment) is Some,
    ensures
        gate.limited(window, now).window_left(moment) is Some,
        gate.limited(window, now).window_left(moment)->0 >= gate.window_left(moment)->0,
{
}

/// A window that is opened holds for its whole length, up to the longest that is allowed.
pub proof fn lemma_window_holds(gate: ForcedRefreshGate, window: u128, now: u128, moment: u128)
    requires
        clock_in_range(now),
        now <= moment,
        moment <= now + window,
        moment <= now + MAX_RETRY_AFTER,
    ensures
        gate.limited(window, now).window_left(moment) is Some,
{
}

/// No window lasts longer than the longest that is allowed, whatever an answer asks for.
pub proof fn lemma_window_bounded(gate: ForcedRefreshGate, window: u128, now: u128)
    requires
        clock_in_range(now),
        gate.window_left(now) matches Some(left) ==> left <= MAX_RETRY_AFTER,
    ensures
        gate.limited(window, now).window_left(now) matches Some(left) && left <= MAX_RETRY_AFTER,
        forall|moment: u128|
            now <= moment ==> (#[trigger] gate.limited(window, now).window_left(moment) matches Some(
                left,
            ) ==> left <= MAX_RETRY_AFTER),
{
}

/// Of two claims, the second within the cooldown of the first, at most one is granted.
pub proof fn lemma_one_forced_refresh_per_cooldown(
    gate: ForcedRefreshGate,
    first: u128,
    second: u128,
)
    requires
        first <= second,
        second - first < gate.cooldown,
    ensures
        gate.may_force(first) ==> !gate.forced(first).may_force(second),
{
}

/// Once the cooldown has passed, a refresh may be forced again.
pub proof fn lemma_refresh_after_cooldown(gate: ForcedRefreshGate, first: u128, second: u128)
    requires
        first + gate.cooldown <= second,
    ensures
        gate.forced(first).may_force(second),
{
}

/// The pacing of requests: the moment at which the next one is due, were they evenly spaced.
#[derive(Clone, Copy)]
pub struct Pacing {
    pub theoretical_arrival: Option<u128>,
}

/// How far ahead of its due moment a request may start.
pub open spec fn burst_allowance() -> int {
    SPOTIFY_API_MIN_INTERVAL * (SPOTIFY_API_BURST - 1)
}

impl Pacing {
    /// The pacing of a session without requests so far.
    pub fn new() -> (pacing: Self)
        ensures
            pacing.theoretical_arrival is None,
    {
        Pacing { theoretical_arrival: None }
    }

    /// The moment at which a request made now is due. Idle time earns no more than one burst.
    pub open spec fn due(self, now: u128) -> u128 {
        match self.theoretical_arrival {
            Some(arrival) => later(arrival, now),
            None => now,
        }
    }

    /// The moment at which a request made now may start.
    pub open spec fn start(self, now: u128) -> u128 {
        if self.due(now) - burst_allowance() > now {
            (self.due(now) - burst_allowance()) as u128
        } else {
            now
        }
    }

    /// The pacing, with a request made now.
    pub open spec fn reserved(self, now: u128) -> Self {
        Pacing { theoretical_arrival: Some((self.due(now) + SPOTIFY_API_MIN_INTERVAL) as u128) }
    }
}

/// Takes the next slot for a request, and says when it starts.
pub fn pace_spotify_api_call(pacing: &mut Pacing, now: u128) -> (start_at: u128)
    requires
        old(pacing).due(now) + SPOTIFY_API_MIN_INTERVAL <= u128::MAX,
    ensures
        start_at == old(pacing).start(now),
        *final(pacing) == old(pacing).reserved(now),
        now <= start_at,
{
    let due: u128 = match pacing.theoretical_arrival {
        Some(arrival) => if arrival < now {
            now
        } else {
            arrival
        },
        None => now,
    };
    pacing.theoretical_arrival = Some(due + SPOTIFY_API_MIN_INTERVAL);
    let allowance: u128 = SPOTIFY_API_MIN_INTERVAL * (SPOTIFY_API_BURST - 1);
    if due > allowance && due - allowance > now {
        due - allowance
    } else {
        now
    }
}

/// The pacing after requests at the given moments.
pub open spec fn paced(pacing: Pacing, moments: Seq<u128>) -> Pacing
    decreases moments.len(),
{
    if moments.len() == 0 {
        pacing
    } else {
        paced(pacing, moments.drop_last()).reserved(moments.last())
    }
}

/// The clock does not run out while requests are made at the given moments.
pub open spec fn moments_in_range(pacing: Pacing, moments: Seq<u128>) -> bool {
    forall|i: int|
        0 <= i < moments.len() ==> #[trigger] paced(pacing, moments.take(i)).due(moments[i])
            + SPOTIFY_API_MIN_INTERVAL <= u128::MAX
}

/// Of requests at whatever moments, none starts less than an interval after the fifth one before
/// it: a burst is at most five requests, and idle time never earns a second one.
pub proof fn lemma_at_most_a_burst_at_once(pacing: Pacing, moments: Seq<u128>)
    requires
        moments.len() == SPOTIFY_API_BURST + 1,
        moments_in_range(pacing, moments),
    ensures
        paced(pacing, moments.take(SPOTIFY_API_BURST as int)).start(
            moments[SPOTIFY_API_BURST as int],
        ) >= pacing.start(moments[0]) + SPOTIFY_API_MIN_INTERVAL,
{
    assert(moments.take(0) =~= Seq::<u128>::empty());
    assert(paced(pacing, moments.take(0)) == pacing);
    assert forall|i: int| 0 <= i < SPOTIFY_API_BURST implies #[trigger] paced(
        pacing,
        moments.take(i),
    ).due(moments[i]) + SPOTIFY_API_MIN_INTERVAL <= paced(pacing, moments.take(i + 1)).due(
        moments[i + 1],
    ) by {
        assert(moments.take(i + 1).drop_last() =~= moments.take(i));
        assert(moments.take(i + 1).last() == moments[i]);
    }
    let dues = |i: int| paced(pacing, moments.take(i)).due(moments[i]);
    assert(dues(0) + SPOTIFY_API_MIN_INTERVAL <= dues(1));
    assert(dues(1) + SPOTIFY_API_MIN_INTERVAL <= dues(2));
    assert(dues(2) + SPOTIFY_API_MIN_INTERVAL <= dues(3));
    assert(dues(3) + SPOTIFY_API_MIN_INTERVAL <= dues(4));
    assert(dues(4) + SPOTIFY_API_MIN_INTERVAL <= dues(5));
}

/// A session that was idle may start a burst of requests at one moment, all of them at once.
pub proof fn lemma_burst_starts_at_once(pacing: Pacing, now: u128, made: nat)
    requires
        pacing.theoretical_arrival matches Some(arrival) ==> arrival <= now,
        made < SPOTIFY_API_BURST,
        now + burst_allowance() <= u128::MAX,
    ensures
        paced(pacing, Seq::new(made, |i: int| now)).start(now) == now,
{
    lemma_burst_due(pacing, now, made);
}

proof fn lemma_burst_due(pacing: Pacing, now: u128, made: nat)
    requires
        pacing.theoretical_arrival matches Some(arrival) ==> arrival <= now,
        made < SPOTIFY_API_BURST,
        now + burst_allowance() <= u128::MAX,
    ensures
        paced(pacing, Seq::new(made, |i: int| now)).due(now) == now + made
            * SPOTIFY_API_MIN_INTERVAL,
    decreases made,
{
    let moments = Seq::new(made, |i: int| now);
    if made > 0 {
        lemma_burst_due(pacing, now, (made - 1) as nat);
        assert(moments.drop_last() =~= Seq::new((made - 1) as nat, |i: int| now));
    }
}

/// How long ago an access token was issued: from when it expires and for how long it is good.
/// A token that is issued in the future has no age.
pub fn token_age(expires_at: Option<i128>, expires_in: i128, now: i128) -> (age: Option<u128>)
    requires
        expires_at matches Some(at) ==> {
            &&& i128::MIN <= at - expires_in <= i128::MAX
            &&& now - (at - expires_in) <= i128::MAX
            &&& i128::MIN <= now - (at - expires_in)
        },
    ensures
        age == (match expires_at {
            Some(at) => if now - (at - expires_in) >= 0 {
                Some((now - (at - expires_in)) as u128)
            } else {
                None
            },
            None => None,
        }),
{
    match expires_at {
        Some(at) => {
            let issued_at: i128 = at - expires_in;
            let passed: i128 = now - issued_at;
            if passed >= 0 {
                Some(passed as u128)
            } else {
                None
            }
        },
        None => None,
    }
}

/// The limits of a session: a forced refresh of the token once in half a minute, a window without
/// requests for ten minutes at most, and in the long run four requests a second, five of them at once.
pub proof fn lemma_limits_of_a_session()
    ensures
        NANOS_PER_SECOND == 1_000_000_000,
        FORCED_REFRESH_COOLDOWN == 30 * NANOS_PER_SECOND,
        MAX_RETRY_AFTER_SECONDS == 600,
        MAX_RETRY_AFTER == MAX_RETRY_AFTER_SECONDS * NANOS_PER_SECOND,
        4 * SPOTIFY_API_MIN_INTERVAL == NANOS_PER_SECOND,
        SPOTIFY_API_BURST == 5,
{
}

/// Of requests that an idle session is to make at one moment, the first five start at once, and each
/// further one a quarter of a second after the one before it.
pub proof fn lemma_requests_are_spaced(pacing: Pacing, now: u128, made: nat)
    requires
        pacing.theoretical_arrival matches Some(arrival) ==> arrival <= now,
        now + made * 250_000_000 <= u128::MAX,
    ensures
        paced(pacing, Seq::new(made, |i: int| now)).due(now) == now + made * 250_000_000,
        paced(pacing, Seq::new(made, |i: int| now)).start(now) == (if made < 5 {
            now as int
        } else {
            now + (made - 4) * 250_000_000
        }),
    decreases made,
{
    let moments = Seq::new(made, |i: int| now);
    if made > 0 {
        let fewer = (made - 1) as nat;
        assert(fewer * 250_000_000 <= made * 250_000_000) by (nonlinear_arith)
            requires
                fewer <= made,
        ;
        lemma_requests_are_spaced(pacing, now, fewer);
        assert(moments.drop_last() =~= Seq::new(fewer, |i: int| now));
        assert(moments.last() == now);
        assert(made * 250_000_000 == fewer * 250_000_000 + 250_000_000) by (nonlinear_arith)
            requires
                made == fewer + 1,
        ;
    }
}

/// A window of so many nanoseconds is over when they are over, and not before: what is left of it goes
/// down with the time. A window that is longer than ten minutes ends after ten.
pub proof fn lemma_window_runs_down(cooldown: u128, window: u128, now: u128, passed: u128)
    requires
        clock_in_range(now),
        passed <= MAX_RETRY_AFTER,
    ensures
        ({
            let gate = ForcedRefreshGate {
                last_forced_refresh: None,
                cooldown,
                rate_limited_until: None,
            };
            let left = gate.limited(window, now).window_left((now + passed) as u128);
            &&& window <= 600_000_000_000 && passed <= window ==> left == Some(
                (window - passed) as u128,
            )
            &&& passed > window ==> left is None
            &&& window > 600_000_000_000 ==> left == Some((600_000_000_000 - passed) as u128)
        }),
{
}

} // verus!
