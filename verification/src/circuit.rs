//! Per-backend circuit breaker with jittered exponential backoff.
//!
//! Times are milliseconds on a monotonic clock chosen by the caller;
//! durations are milliseconds.

use crate::config::FederationSettings;
use crate::snapshot::lists;
use dashmap::DashMap;
use rand::Rng;
use vstd::arithmetic::power2::{lemma2_to64, lemma_pow2_strictly_increases, pow2};
use vstd::prelude::*;

verus! {

/// Largest exponent the backoff doubles to.
pub const MAX_BACKOFF_EXPONENT: u32 = 16;

pub open spec fn capped_exponent(attempt: u32) -> nat {
    if attempt < MAX_BACKOFF_EXPONENT {
        attempt as nat
    } else {
        MAX_BACKOFF_EXPONENT as nat
    }
}

/// Backoff before jitter: `min(initial * 2^min(attempt, 16), max)`.
pub open spec fn backoff_base(settings: FederationSettings, attempt: u32) -> int {
    let doubled = settings.backoff_initial_ms * pow2(capped_exponent(attempt));
    if doubled < settings.backoff_max_ms {
        doubled
    } else {
        settings.backoff_max_ms as int
    }
}

/// Largest jitter that may be added: `min(initial, max)`.
pub open spec fn jitter_bound(settings: FederationSettings) -> int {
    if settings.backoff_initial_ms < settings.backoff_max_ms {
        settings.backoff_initial_ms as int
    } else {
        settings.backoff_max_ms as int
    }
}

/// A duration held within `u64` and never below one millisecond.
pub open spec fn held(ms: int) -> int {
    if ms > u64::MAX {
        u64::MAX as int
    } else if ms < 1 {
        1
    } else {
        ms
    }
}

/// Backoff with a given jitter: base plus jitter, held within `u64` and
/// never below one millisecond.
pub open spec fn backoff_total(settings: FederationSettings, attempt: u32, jitter: u64) -> int {
    held(backoff_base(settings, attempt) + jitter)
}

/// Longest time a circuit can be opened for under these settings.
pub open spec fn longest_backoff(settings: FederationSettings) -> int {
    held(settings.backoff_max_ms + jitter_bound(settings))
}

proof fn lemma_backoff_base_bounds(settings: FederationSettings, attempt: u32)
    ensures
        0 <= backoff_base(settings, attempt) <= settings.backoff_max_ms,
{
    let e = capped_exponent(attempt);
    let i = settings.backoff_initial_ms as int;
    vstd::arithmetic::power2::lemma_pow2_pos(e);
    assert(i * pow2(e) >= 0) by (nonlinear_arith)
        requires
            i >= 0,
            pow2(e) >= 1,
    ;
}

/// The backoff before jitter never shrinks as the attempt number grows, and
/// stays at or below the configured maximum.
pub proof fn lemma_backoff_base_monotonic(settings: FederationSettings, a: u32, b: u32)
    requires
        a <= b,
    ensures
        backoff_base(settings, a) <= backoff_base(settings, b) <= settings.backoff_max_ms,
{
    let ea = capped_exponent(a);
    let eb = capped_exponent(b);
    let i = settings.backoff_initial_ms as int;
    lemma_backoff_base_bounds(settings, b);
    if ea < eb {
        lemma_pow2_strictly_increases(ea, eb);
    }
    assert(i * pow2(ea) <= i * pow2(eb)) by (nonlinear_arith)
        requires
            i >= 0,
            pow2(ea) <= pow2(eb),
    ;
}

/// Whatever the jitter, the backoff is at least one millisecond and at
/// least the base; with the jitter within its bound it is at most the
/// longest backoff of the settings.
pub proof fn lemma_backoff_total_bounds(settings: FederationSettings, attempt: u32, jitter: u64)
    ensures
        1 <= backoff_total(settings, attempt, jitter) <= u64::MAX,
        backoff_base(settings, attempt) <= backoff_total(settings, attempt, jitter),
        jitter <= jitter_bound(settings) ==> backoff_total(settings, attempt, jitter)
            <= longest_backoff(settings),
{
    lemma_backoff_base_bounds(settings, attempt);
}

/// Draws a jitter from the thread-local generator of `rand`: `gen_range` over
/// the inclusive range from 0 to `max`. Only the range is claimed.
#[verifier::external_body]
pub(crate) fn random_jitter(max: u64) -> (jitter: u64)
    ensures
        jitter <= max,
{
    rand::thread_rng().gen_range(0..=max)
}

/// The backoff in milliseconds for `attempt` with the jitter given.
pub fn backoff_with_jitter(settings: &FederationSettings, attempt: u32, jitter: u64) -> (ms: u64)
    ensures
        ms == backoff_total(*settings, attempt, jitter),
{
    let power: u32 = if attempt < MAX_BACKOFF_EXPONENT {
        attempt
    } else {
        MAX_BACKOFF_EXPONENT
    };
    proof {
        lemma2_to64();
        if power < 16 {
            lemma_pow2_strictly_increases(power as nat, 16);
        }
        vstd::arithmetic::power2::lemma_pow2_pos(power as nat);
        vstd::bits::lemma_u64_shl_is_mul(1, power as u64);
    }
    let multiplier: u64 = 1u64 << power;
    assert(multiplier == pow2(power as nat));
    let initial = settings.backoff_initial_ms;
    assert(initial as int * multiplier as int <= 0xffff_ffff_ffff_ffff * 0x1_0000) by (nonlinear_arith)
        requires
            initial <= 0xffff_ffff_ffff_ffff,
            multiplier <= 0x1_0000,
    ;
    let doubled: u128 = (initial as u128) * (multiplier as u128);
    let backoff: u64 = if doubled < settings.backoff_max_ms as u128 {
        doubled as u64
    } else {
        settings.backoff_max_ms
    };
    let total: u64 = backoff.saturating_add(jitter);
    if total < 1 {
        1
    } else {
        total
    }
}

/// The jitter bound of the settings, as a machine integer.
pub fn jitter_limit(settings: &FederationSettings) -> (limit: u64)
    ensures
        limit == jitter_bound(*settings),
{
    if settings.backoff_initial_ms < settings.backoff_max_ms {
        settings.backoff_initial_ms
    } else {
        settings.backoff_max_ms
    }
}

/// The backoff in milliseconds for `attempt`, with a freshly drawn jitter.
/// The result is the backoff for some jitter within the bound: at least one
/// millisecond, at least the base, at most the longest backoff.
pub fn compute_backoff_duration(settings: &FederationSettings, attempt: u32) -> (ms: u64)
    ensures
        exists|jitter: u64|
            jitter <= jitter_bound(*settings) && ms == #[trigger] backoff_total(
                *settings,
                attempt,
                jitter,
            ),
        1 <= ms,
        backoff_base(*settings, attempt) <= ms <= longest_backoff(*settings),
{
    let jitter = random_jitter(jitter_limit(settings));
    proof {
        lemma_backoff_total_bounds(*settings, attempt, jitter);
    }
    backoff_with_jitter(settings, attempt, jitter)
}

/// Failure and cooldown state of one backend.
#[derive(Debug, Clone, Copy)]
pub struct CircuitState {
    /// Failures counted since the last reset.
    pub failure_count: u32,
    /// Time of the latest failure, if any is remembered.
    pub last_failure: Option<u64>,
    /// End of the current cooldown, if the circuit was opened.
    pub open_until: Option<u64>,
    /// Seconds after which a remembered failure is forgiven.
    pub reset_after: u64,
}

/// The time a cooldown of `duration` that starts at `now` ends: `now +
/// duration`, held within `u64`.
pub open spec fn cooldown_end(now: u64, duration: u64) -> u64 {
    if now + duration > u64::MAX {
        u64::MAX
    } else {
        (now + duration) as u64
    }
}

/// Milliseconds from `earlier` to `now`, zero when `earlier` is not in the past.
pub open spec fn elapsed_ms(now: u64, earlier: u64) -> int {
    if now >= earlier {
        now - earlier
    } else {
        0
    }
}

impl CircuitState {
    /// Milliseconds after which a remembered failure is forgiven.
    pub open spec fn reset_after_ms(self) -> int {
        self.reset_after * 1000
    }

    /// Whether the latest failure is old enough at `now` to be forgiven.
    pub open spec fn is_stale(self, now: u64) -> bool {
        self.last_failure matches Some(last) && elapsed_ms(now, last) >= self.reset_after_ms()
    }

    /// Whether the circuit is open at `now`: a cooldown is set and has not
    /// ended.
    pub open spec fn is_open_at(self, now: u64) -> bool {
        self.open_until matches Some(until) && now < until
    }

    /// The reset window is at least one second, so that failures at one
    /// instant count up.
    pub open spec fn well_formed(self) -> bool {
        self.reset_after >= 1
    }

    /// A closed circuit that counts no failure.
    pub open spec fn fresh(reset_seconds: u64) -> CircuitState {
        CircuitState {
            failure_count: 0,
            last_failure: None,
            open_until: None,
            reset_after: if reset_seconds < 1 {
                1
            } else {
                reset_seconds
            },
        }
    }

    /// The state with an ended cooldown cleared.
    pub open spec fn closed(self) -> CircuitState {
        if self.open_until is Some {
            CircuitState { open_until: None, failure_count: 0, ..self }
        } else {
            self
        }
    }

    /// The state with a stale failure forgiven.
    pub open spec fn decayed(self, now: u64) -> CircuitState {
        if self.is_stale(now) {
            CircuitState { failure_count: 0, last_failure: None, ..self }
        } else {
            self
        }
    }

    /// The state a check at `now` leaves: untouched while open, otherwise
    /// closed and decayed.
    pub open spec fn after_check(self, now: u64) -> CircuitState {
        if self.is_open_at(now) {
            self
        } else {
            self.closed().decayed(now)
        }
    }

    /// The failure count after one more failure at `now`.
    pub open spec fn bumped_count(self, now: u64) -> int {
        let kept = if self.is_stale(now) {
            0
        } else {
            self.failure_count as int
        };
        if kept + 1 > u32::MAX {
            u32::MAX as int
        } else {
            kept + 1
        }
    }

    /// Whether a failure at `now` opens the circuit.
    pub open spec fn trips(self, now: u64, settings: FederationSettings) -> bool {
        self.bumped_count(now) >= settings.circuit_breaker_threshold
    }

    /// The attempt number handed to the backoff when a failure at `now`
    /// opens the circuit.
    pub open spec fn penalty_attempt(self, now: u64, settings: FederationSettings) -> u32 {
        (self.bumped_count(now) - settings.circuit_breaker_threshold) as u32
    }

    /// The cooldown, if any, that a failure at `now` starts with the jitter
    /// given.
    pub open spec fn failure_penalty(
        self,
        now: u64,
        settings: FederationSettings,
        jitter: u64,
    ) -> Option<u64> {
        if self.trips(now, settings) {
            Some(backoff_total(settings, self.penalty_attempt(now, settings), jitter) as u64)
        } else {
            None
        }
    }

    /// The state a failure at `now` leaves with the jitter given.
    pub open spec fn after_failure(
        self,
        now: u64,
        settings: FederationSettings,
        jitter: u64,
    ) -> CircuitState {
        CircuitState {
            failure_count: self.bumped_count(now) as u32,
            last_failure: Some(now),
            open_until: match self.failure_penalty(now, settings, jitter) {
                Some(duration) => Some(cooldown_end(now, duration)),
                None => self.open_until,
            },
            reset_after: self.reset_after,
        }
    }

    /// The state a success leaves.
    pub open spec fn after_success(self) -> CircuitState {
        CircuitState { failure_count: 0, last_failure: None, open_until: None, ..self }
    }

    /// A closed circuit that forgives failures after `reset_seconds`, or
    /// after one second when that is zero.
    pub fn new(reset_seconds: u64) -> (state: CircuitState)
        ensures
            state == CircuitState::fresh(reset_seconds),
            state.well_formed(),
    {
        CircuitState {
            failure_count: 0,
            last_failure: None,
            open_until: None,
            reset_after: if reset_seconds < 1 {
                1
            } else {
                reset_seconds
            },
        }
    }

    fn stale_at(&self, now: u64) -> (stale: bool)
        ensures
            stale == self.is_stale(now),
    {
        match self.last_failure {
            Some(last) => {
                let elapsed: u64 = if now >= last {
                    now - last
                } else {
                    0
                };
                elapsed / 1000 >= self.reset_after
            },
            None => false,
        }
    }

    /// Checks the circuit at `now`. While the cooldown runs the state is
    /// left alone and the answer is `true`. Once it has ended the cooldown
    /// and the failure count are cleared; a stale failure is forgiven.
    pub fn is_open(&mut self, now: u64) -> (open: bool)
        ensures
            open == old(self).is_open_at(now),
            *final(self) == old(self).after_check(now),
    {
        if let Some(until) = self.open_until {
            if now < until {
                return true;
            }
            self.open_until = None;
            self.failure_count = 0;
        }
        if self.stale_at(now) {
            self.failure_count = 0;
            self.last_failure = None;
        }
        false
    }

    /// Whether the circuit is open at `now`, without touching the state.
    pub fn is_open_now(&self, now: u64) -> (open: bool)
        ensures
            open == self.is_open_at(now),
    {
        match self.open_until {
            Some(until) => now < until,
            None => false,
        }
    }

    /// Records a failure at `now` with the jitter given: forgives a stale
    /// failure first, counts this one, and opens the circuit when the
    /// threshold is reached. Returns the cooldown when it opened.
    pub fn register_failure_with(
        &mut self,
        now: u64,
        settings: &FederationSettings,
        jitter: u64,
    ) -> (opened_for: Option<u64>)
        requires
            jitter <= jitter_bound(*settings),
        ensures
            opened_for == old(self).failure_penalty(now, *settings, jitter),
            *final(self) == old(self).after_failure(now, *settings, jitter),
    {
        if self.stale_at(now) {
            self.failure_count = 0;
        }
        self.failure_count = self.failure_count.saturating_add(1);
        self.last_failure = Some(now);
        let threshold: u32 = settings.circuit_breaker_threshold;
        if self.failure_count >= threshold {
            let penalty_attempt: u32 = self.failure_count - threshold;
            let duration = backoff_with_jitter(settings, penalty_attempt, jitter);
            proof {
                lemma_backoff_total_bounds(*settings, penalty_attempt, jitter);
            }
            self.open_until = Some(now.saturating_add(duration));
            Some(duration)
        } else {
            None
        }
    }

    /// Records a failure at `now` with a freshly drawn jitter. The outcome
    /// is that of [`Self::register_failure_with`] for some jitter within the
    /// bound; whether the circuit opens does not depend on the jitter.
    pub fn register_failure(&mut self, now: u64, settings: &FederationSettings) -> (opened_for:
        Option<u64>)
        ensures
            exists|jitter: u64|
                jitter <= jitter_bound(*settings) && opened_for == #[trigger] old(
                    self,
                ).failure_penalty(now, *settings, jitter) && *final(self) == old(
                    self,
                ).after_failure(now, *settings, jitter),
            opened_for is Some <==> old(self).trips(now, *settings),
    {
        let jitter = random_jitter(jitter_limit(settings));
        self.register_failure_with(now, settings, jitter)
    }

    /// Full recovery: the count, the cooldown and the remembered failure are
    /// cleared.
    pub fn register_success(&mut self)
        ensures
            *final(self) == old(self).after_success(),
    {
        self.failure_count = 0;
        self.open_until = None;
        self.last_failure = None;
    }
}

/// A check answers `true` exactly when a cooldown is set and has not ended,
/// and a check made while the circuit is open changes nothing.
pub proof fn lemma_open_iff_cooldown_runs(state: CircuitState, now: u64)
    ensures
        state.is_open_at(now) <==> (state.open_until is Some && now < state.open_until->0),
        state.is_open_at(now) ==> state.after_check(now) == state,
{
}

/// A check clears a cooldown only when the time has reached its end.
pub proof fn lemma_cooldown_clears_only_when_over(state: CircuitState, now: u64)
    requires
        state.open_until is Some,
    ensures
        state.after_check(now).open_until is None <==> now >= state.open_until->0,
        state.after_check(now).open_until is Some ==> state.after_check(now).open_until
            == state.open_until,
{
}

/// The transition to closed happens once: the first check at or after the
/// end of the cooldown clears it together with the failure count, and every
/// later check finds the circuit closed with no cooldown to clear.
pub proof fn lemma_closes_exactly_once(state: CircuitState, first: u64, later: u64)
    requires
        state.open_until is Some,
        first >= state.open_until->0,
    ensures
        !state.is_open_at(first),
        state.after_check(first).open_until is None,
        state.after_check(first).failure_count == 0,
        !state.after_check(first).is_open_at(later),
        state.after_check(first).after_check(later).open_until is None,
        state.after_check(first).after_check(later).failure_count == 0,
{
}

/// After a success the circuit is closed at every time and counts no
/// failures.
pub proof fn lemma_success_closes(state: CircuitState, now: u64)
    ensures
        !state.after_success().is_open_at(now),
        state.after_success().failure_count == 0,
        state.after_success().after_check(now) == state.after_success(),
{
}

/// A failure that opens the circuit leaves it open until the cooldown it
/// returns has passed, and blocked at every time from `now` up to then.
pub proof fn lemma_tripped_circuit_is_open(
    state: CircuitState,
    now: u64,
    settings: FederationSettings,
    jitter: u64,
    at: u64,
)
    requires
        state.trips(now, settings),
    ensures
        state.failure_penalty(now, settings, jitter) is Some,
        state.failure_penalty(now, settings, jitter)->0 >= 1,
        state.after_failure(now, settings, jitter).open_until == Some(
            cooldown_end(now, state.failure_penalty(now, settings, jitter)->0),
        ),
        state.after_failure(now, settings, jitter).is_open_at(at) <==> at < cooldown_end(
            now,
            state.failure_penalty(now, settings, jitter)->0,
        ),
        now < u64::MAX ==> state.after_failure(now, settings, jitter).is_open_at(now),
{
    lemma_backoff_total_bounds(settings, state.penalty_attempt(now, settings), jitter);
}

/// No transition changes the reset window: a circuit made by
/// [`CircuitState::new`] stays well formed.
pub proof fn lemma_reset_window_stays(
    state: CircuitState,
    now: u64,
    settings: FederationSettings,
    jitter: u64,
)
    ensures
        CircuitState::fresh(settings.circuit_breaker_reset_seconds).well_formed(),
        state.after_check(now).reset_after == state.reset_after,
        state.after_failure(now, settings, jitter).reset_after == state.reset_after,
        state.after_success().reset_after == state.reset_after,
{
}

/// A failure that follows the latest one within the reset window counts
/// on top of it, and opens the circuit exactly when the count reaches the
/// threshold. A first failure counts as one.
pub proof fn lemma_failures_count_up(
    state: CircuitState,
    now: u64,
    settings: FederationSettings,
    jitter: u64,
)
    requires
        state.well_formed(),
        state.failure_count < u32::MAX,
        state.last_failure matches Some(last) ==> elapsed_ms(now, last) < state.reset_after_ms(),
    ensures
        state.after_failure(now, settings, jitter).failure_count == state.failure_count + 1,
        state.after_failure(now, settings, jitter).last_failure == Some(now),
        state.after_failure(now, settings, jitter).well_formed(),
        state.failure_penalty(now, settings, jitter) is Some <==> state.failure_count + 1
            >= settings.circuit_breaker_threshold,
        state.failure_penalty(now, settings, jitter) is None ==> state.after_failure(
            now,
            settings,
            jitter,
        ).open_until == state.open_until,
{
}

/// The circuit states a tracker holds, by backend id.
pub uninterp spec fn circuits_held(tracker: DashMap<String, CircuitState>) -> Map<
    Seq<char>,
    CircuitState,
>;

pub open spec fn no_circuits() -> Map<Seq<char>, CircuitState> {
    Map::empty()
}

/// `DashMap::new`: a tracker that holds nothing.
#[verifier::external_body]
pub(crate) fn circuits_new() -> (tracker: DashMap<String, CircuitState>)
    ensures
        circuits_held(tracker) == no_circuits(),
{
    DashMap::new()
}

/// `DashMap::get`, the state copied out.
#[verifier::external_body]
pub(crate) fn circuits_get(tracker: &DashMap<String, CircuitState>, id: &str) -> (found: Option<
    CircuitState,
>)
    ensures
        found is Some <==> circuits_held(*tracker).contains_key(id@),
        found matches Some(state) ==> circuits_held(*tracker)[id@] == state,
{
    tracker.get(id).map(|entry| *entry.value())
}

/// `DashMap::insert`: the state under the id is added or replaced, the
/// others stay.
#[verifier::external_body]
pub(crate) fn circuits_insert(
    tracker: &mut DashMap<String, CircuitState>,
    id: String,
    state: CircuitState,
)
    ensures
        circuits_held(*final(tracker)) == circuits_held(*old(tracker)).insert(id@, state),
{
    tracker.insert(id, state);
}

/// `DashMap::iter`, each entry copied out: every entry once, in no
/// particular order.
#[verifier::external_body]
pub(crate) fn circuits_entries(tracker: &DashMap<String, CircuitState>) -> (entries: Vec<
    (String, CircuitState),
>)
    ensures
        lists(entries@, circuits_held(*tracker)),
{
    tracker.iter().map(|entry| (entry.key().clone(), *entry.value())).collect()
}

/// `DashMap::clear`: nothing is held afterwards.
#[verifier::external_body]
pub(crate) fn circuits_clear(tracker: &mut DashMap<String, CircuitState>)
    ensures
        circuits_held(*final(tracker)) == no_circuits(),
{
    tracker.clear();
}

} // verus!
