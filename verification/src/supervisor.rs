//! When to start a listener again that has stopped.
use crate::text;
use crate::text::push_decimal;
use vstd::prelude::*;
use vstd::string::StringExecFns;

verus! {

/// The first pause, in seconds.
pub const INITIAL_BACKOFF: u64 = 1;

/// The longest pause, in seconds.
pub const MAX_BACKOFF: u64 = 30;

/// A run of at least this many seconds was healthy: what ended it is a fresh
/// problem, for which the pauses start over.
pub const HEALTHY_RUN_THRESHOLD: u64 = 60;

/// The pause after a run of `ran_for` seconds, when `backoff` was due.
pub open spec fn pause_after(backoff: nat, ran_for: nat) -> nat {
    if ran_for >= HEALTHY_RUN_THRESHOLD {
        INITIAL_BACKOFF as nat
    } else {
        backoff
    }
}

/// The pause that is due after a pause of `pause` seconds: twice as long, up to
/// the longest.
pub open spec fn next_backoff(pause: nat) -> nat {
    if pause * 2 <= MAX_BACKOFF {
        pause * 2
    } else {
        MAX_BACKOFF as nat
    }
}

/// The pause that is due after `runs`, of the given seconds each.
pub open spec fn backoff_after(runs: Seq<nat>) -> nat
    decreases runs.len(),
{
    if runs.len() == 0 {
        INITIAL_BACKOFF as nat
    } else {
        next_backoff(pause_after(backoff_after(runs.drop_last()), runs.last()))
    }
}

/// Capped exponential backoff.
pub struct Supervisor {
    backoff: u64,
}

impl View for Supervisor {
    type V = nat;

    /// The pause that is due, in seconds.
    closed spec fn view(&self) -> nat {
        self.backoff as nat
    }
}

impl Supervisor {
    #[verifier::type_invariant]
    spec fn in_range(self) -> bool {
        INITIAL_BACKOFF <= self.backoff <= MAX_BACKOFF
    }

    /// Starts with the first pause.
    pub fn new() -> (supervisor: Self)
        ensures
            supervisor@ == INITIAL_BACKOFF,
    {
        Supervisor { backoff: INITIAL_BACKOFF }
    }

    /// Takes note that the listener stopped after `ran_for` seconds. Gives the
    /// seconds to wait before it is started again.
    pub fn listener_stopped(&mut self, ran_for: u64) -> (pause: u64)
        ensures
            pause == pause_after(old(self)@, ran_for as nat),
            final(self)@ == next_backoff(pause as nat),
            INITIAL_BACKOFF <= pause <= MAX_BACKOFF,
    {
        proof {
            use_type_invariant(&*self);
        }
        let pause: u64 = if ran_for >= HEALTHY_RUN_THRESHOLD {
            INITIAL_BACKOFF
        } else {
            self.backoff
        };
        self.backoff = if pause * 2 <= MAX_BACKOFF {
            pause * 2
        } else {
            MAX_BACKOFF
        };
        pause
    }
}

/// What the service manager is told while the listener is down.
pub open spec fn down_status(pause: nat) -> Seq<char> {
    "BLE listener down, retrying in "@ + text::decimal(pause) + "s"@
}

/// Tells the service manager that the listener is down for `pause` seconds.
pub fn status_text(pause: u64) -> (status: String)
    ensures
        status@ == down_status(pause as nat),
{
    let mut status = "BLE listener down, retrying in ".to_owned();
    push_decimal(&mut status, pause);
    status.append("s");
    status
}

/// Every pause is at least the first and at most the longest one, whatever the
/// runs were.
pub proof fn law_backoff_in_range(runs: Seq<nat>)
    ensures
        INITIAL_BACKOFF <= backoff_after(runs) <= MAX_BACKOFF,
    decreases runs.len(),
{
    if runs.len() > 0 {
        law_backoff_in_range(runs.drop_last());
    }
}

/// A healthy run makes the pause behind it the first one again, whatever the
/// runs before it were.
pub proof fn law_healthy_run_starts_over(runs: Seq<nat>, healthy: nat)
    requires
        healthy >= HEALTHY_RUN_THRESHOLD,
    ensures
        pause_after(backoff_after(runs), healthy) == INITIAL_BACKOFF,
        backoff_after(runs.push(healthy)) == backoff_after(seq![healthy]),
{
    assert(runs.push(healthy).drop_last() == runs);
    assert(seq![healthy].drop_last() == Seq::<nat>::empty());
}

/// While no run is healthy, each pause is twice the one before, up to the
/// longest: after `n` such runs from the start the pause due is two to the `n`
/// seconds or the longest pause, whichever is shorter.
pub proof fn law_backoff_doubles(runs: Seq<nat>)
    requires
        forall|i: int| 0 <= i < runs.len() ==> #[trigger] runs[i] < HEALTHY_RUN_THRESHOLD,
    ensures
        backoff_after(runs) == vstd::math::min(
            vstd::arithmetic::power2::pow2(runs.len()) as int,
            MAX_BACKOFF as int,
        ),
    decreases runs.len(),
{
    if runs.len() == 0 {
        vstd::arithmetic::power2::lemma2_to64();
    } else {
        let before = runs.drop_last();
        assert forall|i: int| 0 <= i < before.len() implies #[trigger] before[i]
            < HEALTHY_RUN_THRESHOLD by {
            assert(before[i] == runs[i]);
        }
        law_backoff_doubles(before);
        vstd::arithmetic::power2::lemma_pow2_unfold(runs.len());
        assert(runs.last() < HEALTHY_RUN_THRESHOLD);
    }
}

/// After a run of at least sixty seconds the pause is one second; after a shorter
/// run it is the one that was due. After each pause twice its length is due, but
/// at most thirty seconds.
pub proof fn law_pauses_in_seconds(backoff: nat, ran_for: nat)
    ensures
        ran_for >= 60 ==> pause_after(backoff, ran_for) == 1,
        ran_for < 60 ==> pause_after(backoff, ran_for) == backoff,
        backoff <= 15 ==> next_backoff(backoff) == backoff + backoff,
        backoff > 15 ==> next_backoff(backoff) == 30,
        backoff_after(Seq::empty()) == 1,
{
}

/// What the service manager is told starts and ends with the same words for
/// every pause, and has the number of seconds in decimal between them.
pub proof fn law_status_names_the_pause(pause: nat)
    ensures
        ({
            let status = down_status(pause);
            let words = "BLE listener down, retrying in "@;
            &&& status.len() == words.len() + text::decimal(pause).len() + 1
            &&& status.take(words.len() as int) == words
            &&& status.skip(words.len() as int).drop_last() == text::decimal(pause)
            &&& status.last() == 's'
        }),
{
    reveal_strlit("s");
}

} // verus!
