//! A limiter on requests per minute, for each account and for all accounts together.
//!
//! A request is recorded at the moment its account is selected, so that requests in flight count
//! too, and what has left the window is dropped whenever one is recorded. Times are nanoseconds on
//! one clock.
use std::collections::HashMap;
use std::time::Instant;
use vstd::prelude::*;
use vstd::std_specs::iter::IteratorSpec;

verus! {

/// The size of the sliding window, in nanoseconds.
pub const WINDOW_NANOS: u128 = 60_000_000_000;

/// Whether a request recorded at `time` counts at `now`.
pub open spec fn in_window(time: u128, now: u128) -> bool {
    time + WINDOW_NANOS >= now
}

/// The recorded times that count at `now`, in their order.
pub open spec fn live(times: Seq<u128>, now: u128) -> Seq<u128> {
    times.filter(|time: u128| in_window(time, now))
}

/// The requests recorded in one dimension.
pub struct WindowQueue {
    timestamps: Vec<u128>,
}

impl View for WindowQueue {
    type V = Seq<u128>;

    closed spec fn view(&self) -> Seq<u128> {
        self.timestamps@
    }
}

impl Default for WindowQueue {
    fn default() -> (queue: Self)
        ensures
            queue@ == Seq::<u128>::empty(),
    {
        WindowQueue { timestamps: Vec::new() }
    }
}

impl WindowQueue {
    /// Drops what has left the window and returns how many requests are in it.
    pub fn count(&mut self, now: u128) -> (requests: u64)
        ensures
            final(self)@ == live(old(self)@, now),
            requests == live(old(self)@, now).len(),
    {
        let ghost times = self.timestamps@;
        let mut kept: Vec<u128> = Vec::new();
        assert(times.take(0) =~= Seq::<u128>::empty());
        assert(live(times.take(0), now) =~= Seq::<u128>::empty()) by {
            reveal(Seq::filter);
        }
        for i in 0..self.timestamps.len()
            invariant
                times == self.timestamps@,
                kept@ == live(times.take(i as int), now),
        {
            let time: u128 = self.timestamps[i];
            proof {
                reveal(Seq::filter);
                assert(times.take(i + 1).drop_last() =~= times.take(i as int));
                assert(times.take(i + 1).last() == time);
            }
            if now <= WINDOW_NANOS || time >= now - WINDOW_NANOS {
                kept.push(time);
            }
        }
        assert(times.take(times.len() as int) =~= times);
        self.timestamps = kept;
        self.timestamps.len() as u64
    }

    /// Records a request.
    pub fn record(&mut self, now: u128)
        ensures
            final(self)@ == old(self)@.push(now),
    {
        self.timestamps.push(now);
    }
}

/// What a limiter has recorded.
pub ghost struct Recorded {
    pub by_credential: Map<u64, Seq<u128>>,
    pub global: Seq<u128>,
}

impl Recorded {
    /// Nothing recorded.
    pub open spec fn nothing() -> Recorded {
        Recorded { by_credential: Map::empty(), global: Seq::empty() }
    }

    /// The times recorded for one account.
    pub open spec fn of_credential(self, credential_id: u64) -> Seq<u128> {
        if self.by_credential.contains_key(credential_id) {
            self.by_credential[credential_id]
        } else {
            Seq::empty()
        }
    }

    /// After a request of `credential_id` at `now`: it counts for the account and for all.
    pub open spec fn with_request(self, credential_id: u64, now: u128) -> Recorded {
        Recorded {
            by_credential: self.by_credential.insert(
                credential_id,
                self.of_credential(credential_id).push(now),
            ),
            global: self.global.push(now),
        }
    }

    /// With what has left the window at `now` dropped, for each account and for all. An account
    /// that has nothing left goes.
    pub open spec fn cleaned(self, now: u128) -> Recorded {
        Recorded {
            by_credential: Map::new(
                |credential_id: u64|
                    self.by_credential.contains_key(credential_id) && live(
                        self.by_credential[credential_id],
                        now,
                    ).len() > 0,
                |credential_id: u64| live(self.by_credential[credential_id], now),
            ),
            global: live(self.global, now),
        }
    }

    /// After the window of one account was read at `now`.
    pub open spec fn credential_read(self, credential_id: u64, now: u128) -> Recorded {
        if self.by_credential.contains_key(credential_id) {
            Recorded {
                by_credential: self.by_credential.insert(
                    credential_id,
                    live(self.by_credential[credential_id], now),
                ),
                global: self.global,
            }
        } else {
            self
        }
    }

    /// After the window of all accounts was read at `now`.
    pub open spec fn global_read(self, now: u128) -> Recorded {
        Recorded { by_credential: self.by_credential, global: live(self.global, now) }
    }

    /// The requests of one account that count at `now`.
    pub open spec fn credential_count(self, credential_id: u64, now: u128) -> nat {
        live(self.of_credential(credential_id), now).len()
    }

    /// The requests of all accounts that count at `now`.
    pub open spec fn global_count(self, now: u128) -> nat {
        live(self.global, now).len()
    }
}

/// Whether `count` requests leave room under `limit`; a limit of 0 is none.
pub open spec fn under_limit(count: nat, limit: u64) -> bool {
    limit == 0 || count < limit
}

/// The later of two times.
pub open spec fn later_of(a: u128, b: u128) -> u128 {
    if a >= b {
        a
    } else {
        b
    }
}

/// A moment on the clock, of the standard library.
#[verifier::external_type_specification]
#[verifier::external_body]
pub struct ExInstant(std::time::Instant);

/// Calls `Instant::now`. Nothing is claimed of the moment.
#[verifier::external_body]
fn clock_start() -> (start: Instant) {
    Instant::now()
}

/// Calls `Instant::elapsed` and gives the time since `start` as nanoseconds. Nothing is claimed of
/// how much time has gone by.
#[verifier::external_body]
pub(crate) fn nanos_since(start: &Instant) -> (nanos: u128) {
    start.elapsed().as_nanos()
}

/// Whether `nanos` is what the clock reads, at some moment, in nanoseconds since `epoch`.
pub closed spec fn is_clock_reading(epoch: Instant, nanos: u128) -> bool {
    call_ensures(nanos_since, (&epoch,), nanos)
}

/// A limiter on requests per minute.
///
/// It needs little memory: a time for each request, once for its account and once for all, and
/// what is more than 60 seconds old is cleaned up by itself as requests are recorded.
///
/// A method that takes no time reads the clock; its twin, whose name ends in `_at`, takes the
/// reading as an argument. The readings are nanoseconds since the limiter's epoch, which stays as
/// it is. Time does not run backwards: a reading before the last time that the limiter was used at
/// is taken for that time.
pub struct RpmLimiter {
    by_credential: HashMap<u64, WindowQueue>,
    global: WindowQueue,
    start: Instant,
    last: u128,
}

impl View for RpmLimiter {
    type V = Recorded;

    closed spec fn view(&self) -> Recorded {
        Recorded {
            by_credential: self.by_credential@.map_values(|queue: WindowQueue| queue@),
            global: self.global@,
        }
    }
}

/// The accounts that a map has.
fn accounts_in(queues: &HashMap<u64, WindowQueue>) -> (accounts: Vec<u64>)
    ensures
        forall|c: u64| accounts@.contains(c) == queues@.contains_key(c),
{
    broadcast use vstd::std_specs::hash::group_hash_axioms;

    let mut accounts: Vec<u64> = Vec::new();
    let ghost keys = IteratorSpec::remaining(&queues.keys()).unref();
    for credential_id in it: queues.keys()
        invariant
            keys == it.seq().unref(),
            accounts@ == keys.take(it.index() as int),
    {
        accounts.push(*credential_id);
    }
    assert(accounts@ =~= keys);
    assert forall|c: u64| accounts@.contains(c) == queues@.contains_key(c) by {
        assert(keys.to_set().contains(c) == keys.contains(c));
    }
    accounts
}

impl RpmLimiter {
    /// The moment that the clock is read from.
    pub closed spec fn epoch(self) -> Instant {
        self.start
    }

    /// The last time that the limiter was used at, and 0 where it was not used yet.
    pub closed spec fn last(self) -> u128 {
        self.last
    }

    /// Whether a limiter has just this history behind it.
    pub open spec fn has_history(self, history: Seq<Step>) -> bool {
        self@ == recorded_after(history) && is_past(history, self.last())
    }

    /// A limiter that has recorded nothing.
    pub fn new() -> (limiter: Self)
        ensures
            limiter@ == Recorded::nothing(),
            limiter.last() == 0,
            limiter.has_history(Seq::empty()),
    {
        let limiter = RpmLimiter {
            by_credential: HashMap::new(),
            global: WindowQueue::default(),
            start: clock_start(),
            last: 0,
        };
        assert(limiter@.by_credential =~= Map::<u64, Seq<u128>>::empty());
        limiter
    }

    /// Reads the clock. The time is never before the last one.
    fn read_clock(&mut self) -> (now: u128)
        ensures
            final(self)@ == old(self)@,
            final(self).epoch() == old(self).epoch(),
            now >= old(self).last(),
            final(self).last() == now,
            exists|reading: u128| #[trigger]
                is_clock_reading(old(self).epoch(), reading) && now == later_of(
                    old(self).last(),
                    reading,
                ),
    {
        let clock = nanos_since;
        let reading: u128 = clock(&self.start);
        assert(is_clock_reading(self.epoch(), reading));
        self.note(reading);
        self.last
    }

    /// Keeps the later of a time and the last one.
    fn note(&mut self, time: u128)
        ensures
            final(self)@ == old(self)@,
            final(self).epoch() == old(self).epoch(),
            final(self).last() == later_of(old(self).last(), time),
    {
        if time > self.last {
            self.last = time;
        }
    }

    /// How many requests of an account are in the window now.
    pub fn credential_rpm(&mut self, credential_id: u64) -> (requests: u64)
        ensures
            final(self).epoch() == old(self).epoch(),
            final(self).last() >= old(self).last(),
            exists|reading: u128| #[trigger]
                is_clock_reading(old(self).epoch(), reading) && final(self).last() == later_of(
                    old(self).last(),
                    reading,
                ),
            requests == old(self)@.credential_count(credential_id, final(self).last()),
            final(self)@ == old(self)@.credential_read(credential_id, final(self).last()),
    {
        let now: u128 = self.read_clock();
        self.credential_rpm_at(credential_id, now)
    }

    /// How many requests of an account are in the window at `now`.
    pub fn credential_rpm_at(&mut self, credential_id: u64, now: u128) -> (requests: u64)
        ensures
            final(self).epoch() == old(self).epoch(),
            final(self).last() == later_of(old(self).last(), now),
            requests == old(self)@.credential_count(credential_id, now),
            final(self)@ == old(self)@.credential_read(credential_id, now),
    {
        broadcast use vstd::std_specs::hash::group_hash_axioms;

        self.note(now);
        let ghost before = self@;
        match self.by_credential.remove(&credential_id) {
            Some(queue) => {
                let mut queue = queue;
                let requests: u64 = queue.count(now);
                self.by_credential.insert(credential_id, queue);
                assert(self@.by_credential =~= before.credential_read(
                    credential_id,
                    now,
                ).by_credential);
                requests
            },
            None => {
                assert(self@.by_credential =~= before.by_credential);
                assert(live(Seq::empty(), now) =~= Seq::<u128>::empty()) by {
                    reveal(Seq::filter);
                }
                0
            },
        }
    }

    /// How many requests of all accounts are in the window now.
    pub fn global_rpm(&mut self) -> (requests: u64)
        ensures
            final(self).epoch() == old(self).epoch(),
            final(self).last() >= old(self).last(),
            exists|reading: u128| #[trigger]
                is_clock_reading(old(self).epoch(), reading) && final(self).last() == later_of(
                    old(self).last(),
                    reading,
                ),
            requests == old(self)@.global_count(final(self).last()),
            final(self)@ == old(self)@.global_read(final(self).last()),
    {
        let now: u128 = self.read_clock();
        self.global_rpm_at(now)
    }

    /// How many requests of all accounts are in the window at `now`.
    pub fn global_rpm_at(&mut self, now: u128) -> (requests: u64)
        ensures
            final(self).epoch() == old(self).epoch(),
            final(self).last() == later_of(old(self).last(), now),
            requests == old(self)@.global_count(now),
            final(self)@ == old(self)@.global_read(now),
    {
        self.note(now);
        self.global.count(now)
    }

    /// Whether an account is under `limit` now. A limit of 0 is none.
    pub fn credential_under_limit(&mut self, credential_id: u64, limit: u64) -> (under: bool)
        ensures
            final(self).epoch() == old(self).epoch(),
            final(self).last() >= old(self).last(),
            limit != 0 ==> exists|reading: u128| #[trigger]
                is_clock_reading(old(self).epoch(), reading) && final(self).last() == later_of(
                    old(self).last(),
                    reading,
                ),
            under == under_limit(
                old(self)@.credential_count(credential_id, final(self).last()),
                limit,
            ),
            limit == 0 ==> final(self)@ == old(self)@ && final(self).last() == old(self).last(),
            limit != 0 ==> final(self)@ == old(self)@.credential_read(
                credential_id,
                final(self).last(),
            ),
    {
        if limit == 0 {
            return true;
        }
        let now: u128 = self.read_clock();
        self.credential_under_limit_at(credential_id, limit, now)
    }

    /// Whether an account is under `limit` at `now`. A limit of 0 is none.
    pub fn credential_under_limit_at(&mut self, credential_id: u64, limit: u64, now: u128) -> (under:
        bool)
        ensures
            final(self).epoch() == old(self).epoch(),
            final(self).last() == if limit == 0 {
                old(self).last()
            } else {
                later_of(old(self).last(), now)
            },
            under == under_limit(old(self)@.credential_count(credential_id, now), limit),
            final(self)@ == if limit == 0 {
                old(self)@
            } else {
                old(self)@.credential_read(credential_id, now)
            },
    {
        if limit == 0 {
            return true;
        }
        self.credential_rpm_at(credential_id, now) < limit
    }

    /// Whether all accounts together are under `limit` now. A limit of 0 is none.
    pub fn global_under_limit(&mut self, limit: u64) -> (under: bool)
        ensures
            final(self).epoch() == old(self).epoch(),
            final(self).last() >= old(self).last(),
            limit != 0 ==> exists|reading: u128| #[trigger]
                is_clock_reading(old(self).epoch(), reading) && final(self).last() == later_of(
                    old(self).last(),
                    reading,
                ),
            under == under_limit(old(self)@.global_count(final(self).last()), limit),
            limit == 0 ==> final(self)@ == old(self)@ && final(self).last() == old(self).last(),
            limit != 0 ==> final(self)@ == old(self)@.global_read(final(self).last()),
    {
        if limit == 0 {
            return true;
        }
        let now: u128 = self.read_clock();
        self.global_under_limit_at(limit, now)
    }

    /// Whether all accounts together are under `limit` at `now`. A limit of 0 is none.
    pub fn global_under_limit_at(&mut self, limit: u64, now: u128) -> (under: bool)
        ensures
            final(self).epoch() == old(self).epoch(),
            final(self).last() == if limit == 0 {
                old(self).last()
            } else {
                later_of(old(self).last(), now)
            },
            under == under_limit(old(self)@.global_count(now), limit),
            final(self)@ == if limit == 0 {
                old(self)@
            } else {
                old(self)@.global_read(now)
            },
    {
        if limit == 0 {
            return true;
        }
        self.global_rpm_at(now) < limit
    }

    /// Records a request of an account now, for the account and for all accounts, and drops what has
    /// left the window.
    pub fn record(&mut self, credential_id: u64)
        ensures
            final(self).epoch() == old(self).epoch(),
            final(self).last() >= old(self).last(),
            exists|reading: u128| #[trigger]
                is_clock_reading(old(self).epoch(), reading) && final(self).last() == later_of(
                    old(self).last(),
                    reading,
                ),
            final(self)@ == old(self)@.cleaned(final(self).last()).with_request(
                credential_id,
                final(self).last(),
            ),
    {
        let now: u128 = self.read_clock();
        self.record_at(credential_id, now)
    }

    /// Records a request of an account at `now`, for the account and for all accounts, and drops
    /// what has left the window.
    pub fn record_at(&mut self, credential_id: u64, now: u128)
        ensures
            final(self).epoch() == old(self).epoch(),
            final(self).last() == later_of(old(self).last(), now),
            final(self)@ == old(self)@.cleaned(now).with_request(credential_id, now),
    {
        broadcast use vstd::std_specs::hash::group_hash_axioms;

        self.note(now);
        self.clean_at(now);
        let ghost before = self@;
        let mut queue = match self.by_credential.remove(&credential_id) {
            Some(queue) => queue,
            None => WindowQueue::default(),
        };
        queue.record(now);
        self.by_credential.insert(credential_id, queue);
        self.global.record(now);
        assert(self@.by_credential =~= before.with_request(credential_id, now).by_credential);
    }

    /// Drops what has left the window at `now`, of every account and of all together.
    fn clean_at(&mut self, now: u128)
        ensures
            final(self).epoch() == old(self).epoch(),
            final(self).last() == old(self).last(),
            final(self)@ == old(self)@.cleaned(now),
    {
        broadcast use vstd::std_specs::hash::group_hash_axioms;

        let ghost before = self@.by_credential;
        let ghost after = self@.cleaned(now).by_credential;
        let accounts = accounts_in(&self.by_credential);
        for i in 0..accounts.len()
            invariant
                self.global == old(self).global,
                self.epoch() == old(self).epoch(),
                self.last() == old(self).last(),
                before == old(self)@.by_credential,
                after == old(self)@.cleaned(now).by_credential,
                forall|c: u64|
                    #[trigger] self@.by_credential.contains_key(c) == if accounts@.take(
                        i as int,
                    ).contains(c) {
                        after.contains_key(c)
                    } else {
                        before.contains_key(c)
                    },
                forall|c: u64| #[trigger]
                    self@.by_credential.contains_key(c) ==> self@.by_credential[c]
                        == if accounts@.take(i as int).contains(c) {
                        after[c]
                    } else {
                        before[c]
                    },
        {
            let credential_id: u64 = accounts[i];
            let ghost done = accounts@.take(i as int);
            let ghost more = accounts@.take(i + 1);
            let ghost held = self@.by_credential;
            proof {
                assert(more =~= done.push(credential_id));
                assert forall|c: u64| more.contains(c) == (done.contains(c) || c == credential_id) by {
                    lemma_contains_push(done, credential_id, c);
                }
                lemma_live_again(before[credential_id], now, now);
            }
            match self.by_credential.remove(&credential_id) {
                Some(queue) => {
                    let mut queue = queue;
                    assert(held[credential_id] == queue@);
                    if queue.count(now) > 0 {
                        self.by_credential.insert(credential_id, queue);
                    }
                },
                None => {},
            }
            assert(self@.by_credential =~= if held.contains_key(credential_id) && live(
                held[credential_id],
                now,
            ).len() > 0 {
                held.insert(credential_id, live(held[credential_id], now))
            } else {
                held.remove(credential_id)
            });
            assert(held.contains_key(credential_id) ==> live(held[credential_id], now) == live(
                before[credential_id],
                now,
            ));
        }
        assert(accounts@.take(accounts.len() as int) =~= accounts@);
        assert(self@.by_credential =~= after);
        self.global.count(now);
    }
}

impl Default for RpmLimiter {
    fn default() -> (limiter: Self)
        ensures
            limiter@ == Recorded::nothing(),
            limiter.last() == 0,
            limiter.has_history(Seq::empty()),
    {
        RpmLimiter::new()
    }
}

/// Something that is done with a limiter.
pub ghost enum Operation {
    /// A request of an account is recorded.
    Record { credential_id: u64 },
    /// The window of an account is read.
    ReadCredential { credential_id: u64 },
    /// The window of all accounts is read.
    ReadGlobal,
}

/// Something that is done with a limiter at a time.
pub ghost struct Step {
    pub operation: Operation,
    pub at: u128,
}

impl Recorded {
    /// After one step.
    pub open spec fn stepped(self, step: Step) -> Recorded {
        match step.operation {
            Operation::Record { credential_id } => self.cleaned(step.at).with_request(
                credential_id,
                step.at,
            ),
            Operation::ReadCredential { credential_id } => self.credential_read(
                credential_id,
                step.at,
            ),
            Operation::ReadGlobal => self.global_read(step.at),
        }
    }
}

/// What a limiter has recorded after a history.
pub open spec fn recorded_after(history: Seq<Step>) -> Recorded
    decreases history.len(),
{
    if history.len() == 0 {
        Recorded::nothing()
    } else {
        recorded_after(history.drop_last()).stepped(history.last())
    }
}

/// The times of all the requests in a history, of those accounts that `chosen` picks.
pub open spec fn requests_in(history: Seq<Step>, chosen: spec_fn(u64) -> bool) -> Seq<u128>
    decreases history.len(),
{
    if history.len() == 0 {
        Seq::empty()
    } else {
        let before = requests_in(history.drop_last(), chosen);
        match history.last().operation {
            Operation::Record { credential_id } => if chosen(credential_id) {
                before.push(history.last().at)
            } else {
                before
            },
            _ => before,
        }
    }
}

/// Whether nothing in a history is later than `now`.
pub open spec fn is_past(history: Seq<Step>, now: u128) -> bool {
    forall|i: int| 0 <= i < history.len() ==> (#[trigger] history[i]).at <= now
}

/// The requests that count for so many accounts together.
pub open spec fn sum_of_counts(recorded: Recorded, credentials: Seq<u64>, now: u128) -> nat
    decreases credentials.len(),
{
    if credentials.len() == 0 {
        0
    } else {
        sum_of_counts(recorded, credentials.drop_last(), now) + recorded.credential_count(
            credentials.last(),
            now,
        )
    }
}

/// Whether `credentials` has every account that a history records a request of.
pub open spec fn covers(credentials: Seq<u64>, history: Seq<Step>) -> bool {
    forall|i: int|
        0 <= i < history.len() ==> ((#[trigger] history[i]).operation matches Operation::Record {
            credential_id,
        } ==> credentials.contains(credential_id))
}

/// What a sequence has once one more was pushed.
proof fn lemma_contains_push(ids: Seq<u64>, id: u64, c: u64)
    ensures
        ids.push(id).contains(c) == (ids.contains(c) || c == id),
{
    if ids.contains(c) {
        let i = choose|i: int| 0 <= i < ids.len() && ids[i] == c;
        assert(ids.push(id)[i] == c);
    }
    assert(ids.push(id)[ids.len() as int] == id);
}

/// Dropping what has left the window earlier does not change what counts later.
proof fn lemma_cleaned(recorded: Recorded, earlier: u128, now: u128)
    requires
        earlier <= now,
    ensures
        live(recorded.cleaned(earlier).global, now) == live(recorded.global, now),
        forall|c: u64|
            live(#[trigger] recorded.cleaned(earlier).of_credential(c), now) == live(
                recorded.of_credential(c),
                now,
            ),
{
    lemma_live_again(recorded.global, earlier, now);
    assert forall|c: u64|
        live(#[trigger] recorded.cleaned(earlier).of_credential(c), now) == live(
            recorded.of_credential(c),
            now,
        ) by {
        let times = recorded.of_credential(c);
        lemma_live_again(times, earlier, now);
        if recorded.by_credential.contains_key(c) && live(times, earlier).len() == 0 {
            assert(live(times, earlier) =~= Seq::<u128>::empty());
        }
    }
}

/// One more recorded time counts if it is in the window.
proof fn lemma_live_push(times: Seq<u128>, time: u128, now: u128)
    ensures
        live(times.push(time), now) == if in_window(time, now) {
            live(times, now).push(time)
        } else {
            live(times, now)
        },
{
    reveal(Seq::filter);
    assert(times.push(time).drop_last() =~= times);
}

/// What has been dropped by an earlier reading does not count later.
proof fn lemma_live_again(times: Seq<u128>, earlier: u128, now: u128)
    requires
        earlier <= now,
    ensures
        live(live(times, earlier), now) == live(times, now),
    decreases times.len(),
{
    if times.len() == 0 {
        reveal(Seq::filter);
    } else {
        let init = times.drop_last();
        let last = times.last();
        assert(times =~= init.push(last));
        lemma_live_again(init, earlier, now);
        lemma_live_push(init, last, earlier);
        lemma_live_push(init, last, now);
        lemma_live_push(live(init, earlier), last, now);
    }
}

/// What a limiter counts for an account is what was requested in the last 60 seconds: the number
/// of the account's requests in the window, whatever was read and dropped before. For all accounts
/// together it is the number of all requests in the window.
pub proof fn law_counts_are_of_the_last_minute(history: Seq<Step>, credential_id: u64, now: u128)
    requires
        is_past(history, now),
    ensures
        recorded_after(history).credential_count(credential_id, now) == live(
            requests_in(history, |c: u64| c == credential_id),
            now,
        ).len(),
        recorded_after(history).global_count(now) == live(
            requests_in(history, |c: u64| true),
            now,
        ).len(),
{
    lemma_live_requests(history, credential_id, now);
}

/// Every use becomes part of a limiter's history, at whatever time it is.
pub proof fn law_uses_become_history(
    before: RpmLimiter,
    after: RpmLimiter,
    history: Seq<Step>,
    step: Step,
)
    requires
        before.has_history(history),
        after.last() == later_of(before.last(), step.at),
        after@ == before@.stepped(step),
    ensures
        after.has_history(history.push(step)),
{
    assert(history.push(step).drop_last() =~= history);
}

/// The counts hold of the clock too. When a limiter with a history is used once more, at the time
/// that the clock gives, that use becomes part of its history, and what counts for an account and
/// for all at that time is what was requested in the last 60 seconds, before the use and after it.
pub proof fn law_the_clock_keeps_the_history(
    before: RpmLimiter,
    after: RpmLimiter,
    history: Seq<Step>,
    operation: Operation,
    credential_id: u64,
)
    requires
        before.has_history(history),
        after.last() >= before.last(),
        after@ == before@.stepped(Step { operation, at: after.last() }),
    ensures
        ({
            let now = after.last();
            let later = history.push(Step { operation, at: now });
            &&& after.has_history(later)
            &&& before@.credential_count(credential_id, now) == live(
                requests_in(history, |c: u64| c == credential_id),
                now,
            ).len()
            &&& before@.global_count(now) == live(requests_in(history, |c: u64| true), now).len()
            &&& after@.credential_count(credential_id, now) == live(
                requests_in(later, |c: u64| c == credential_id),
                now,
            ).len()
            &&& after@.global_count(now) == live(requests_in(later, |c: u64| true), now).len()
        }),
{
    let now = after.last();
    let later = history.push(Step { operation, at: now });
    law_uses_become_history(before, after, history, Step { operation, at: now });
    law_counts_are_of_the_last_minute(history, credential_id, now);
    law_counts_are_of_the_last_minute(later, credential_id, now);
}

/// What counts of what a limiter has kept is what counts of all the requests.
proof fn lemma_live_requests(history: Seq<Step>, credential_id: u64, now: u128)
    requires
        is_past(history, now),
    ensures
        live(recorded_after(history).of_credential(credential_id), now) == live(
            requests_in(history, |c: u64| c == credential_id),
            now,
        ),
        live(recorded_after(history).global, now) == live(
            requests_in(history, |c: u64| true),
            now,
        ),
    decreases history.len(),
{
    if history.len() > 0 {
        let init = history.drop_last();
        let step = history.last();
        assert forall|i: int| 0 <= i < init.len() implies (#[trigger] init[i]).at <= now by {
            assert(init[i] == history[i]);
        }
        assert(history[history.len() - 1].at <= now);
        lemma_live_requests(init, credential_id, now);
        let before = recorded_after(init);
        let after = recorded_after(history);
        match step.operation {
            Operation::Record { credential_id: recorded } => {
                let cleaned = before.cleaned(step.at);
                lemma_cleaned(before, step.at, now);
                lemma_live_push(cleaned.global, step.at, now);
                lemma_live_push(requests_in(init, |c: u64| true), step.at, now);
                lemma_live_push(cleaned.of_credential(recorded), step.at, now);
                lemma_live_push(requests_in(init, |c: u64| c == credential_id), step.at, now);
                assert(credential_id != recorded ==> after.of_credential(credential_id)
                    == cleaned.of_credential(credential_id));
            },
            Operation::ReadCredential { credential_id: read } => {
                lemma_live_again(before.of_credential(read), step.at, now);
            },
            Operation::ReadGlobal => {
                lemma_live_again(before.global, step.at, now);
            },
        }
    }
}

/// The count for all accounts is the sum of the counts for the accounts.
pub proof fn law_global_is_the_sum_of_the_accounts(
    history: Seq<Step>,
    credentials: Seq<u64>,
    now: u128,
)
    requires
        is_past(history, now),
        credentials.no_duplicates(),
        covers(credentials, history),
    ensures
        recorded_after(history).global_count(now) == sum_of_counts(
            recorded_after(history),
            credentials,
            now,
        ),
    decreases history.len(),
{
    if history.len() == 0 {
        reveal(Seq::filter);
        lemma_sum_of_nothing(credentials, now);
    } else {
        let init = history.drop_last();
        let step = history.last();
        assert forall|i: int| 0 <= i < init.len() implies (#[trigger] init[i]).at <= now by {
            assert(init[i] == history[i]);
        }
        assert(history[history.len() - 1].at <= now);
        assert(covers(credentials, init)) by {
            assert forall|i: int| 0 <= i < init.len() implies ((
            #[trigger] init[i]).operation matches Operation::Record { credential_id }
                ==> credentials.contains(credential_id)) by {
                assert(init[i] == history[i]);
            }
        }
        law_global_is_the_sum_of_the_accounts(init, credentials, now);
        let before = recorded_after(init);
        let after = recorded_after(history);
        match step.operation {
            Operation::Record { credential_id } => {
                let cleaned = before.cleaned(step.at);
                lemma_cleaned(before, step.at, now);
                lemma_live_push(cleaned.global, step.at, now);
                lemma_live_push(cleaned.of_credential(credential_id), step.at, now);
                assert forall|c: u64| c != credential_id implies #[trigger] after.credential_count(
                    c,
                    now,
                ) == before.credential_count(c, now) by {
                    assert(after.of_credential(c) == cleaned.of_credential(c));
                }
                let added: nat = if in_window(step.at, now) {
                    1
                } else {
                    0
                };
                assert(credentials.contains(credential_id));
                lemma_sum_changes(before, after, credentials, credential_id, added, now);
            },
            Operation::ReadCredential { credential_id } => {
                lemma_live_again(before.of_credential(credential_id), step.at, now);
                lemma_sum_changes(before, after, credentials, credential_id, 0, now);
            },
            Operation::ReadGlobal => {
                lemma_live_again(before.global, step.at, now);
                lemma_sum_changes(before, after, credentials, 0, 0, now);
            },
        }
    }
}

/// Where nothing is recorded nothing counts.
proof fn lemma_sum_of_nothing(credentials: Seq<u64>, now: u128)
    ensures
        sum_of_counts(Recorded::nothing(), credentials, now) == 0,
    decreases credentials.len(),
{
    if credentials.len() > 0 {
        reveal(Seq::filter);
        lemma_sum_of_nothing(credentials.drop_last(), now);
    }
}

/// Where the count of one account grows, the sum over the accounts grows with it.
proof fn lemma_sum_changes(
    before: Recorded,
    after: Recorded,
    credentials: Seq<u64>,
    changed: u64,
    added: nat,
    now: u128,
)
    requires
        credentials.no_duplicates(),
        after.credential_count(changed, now) == before.credential_count(changed, now) + added,
        forall|c: u64|
            c != changed ==> #[trigger] after.credential_count(c, now) == before.credential_count(
                c,
                now,
            ),
    ensures
        sum_of_counts(after, credentials, now) == sum_of_counts(before, credentials, now) + if credentials.contains(
        changed) {
            added
        } else {
            0
        },
    decreases credentials.len(),
{
    if credentials.len() > 0 {
        let init = credentials.drop_last();
        let last = credentials.last();
        lemma_sum_changes(before, after, init, changed, added, now);
        assert(credentials =~= init.push(last));
        if last == changed {
            assert(!init.contains(changed));
            assert(credentials[credentials.len() - 1] == changed);
        } else {
            assert(credentials.contains(changed) == init.contains(changed)) by {
                if credentials.contains(changed) {
                    let i = choose|i: int| 0 <= i < credentials.len() && credentials[i] == changed;
                    assert(init[i] == changed);
                }
                if init.contains(changed) {
                    let i = choose|i: int| 0 <= i < init.len() && init[i] == changed;
                    assert(credentials[i] == changed);
                }
            }
        }
    }
}

/// A request counts from the moment that it is recorded, for its account and for all accounts, and
/// for no other account.
pub proof fn law_requests_count_at_once(
    recorded: Recorded,
    credential_id: u64,
    other: u64,
    now: u128,
)
    requires
        other != credential_id,
    ensures
        ({
            let later = recorded.cleaned(now).with_request(credential_id, now);
            &&& later.credential_count(credential_id, now) == recorded.credential_count(
                credential_id,
                now,
            ) + 1
            &&& later.global_count(now) == recorded.global_count(now) + 1
            &&& later.credential_count(other, now) == recorded.credential_count(other, now)
        }),
{
    lemma_cleaned(recorded, now, now);
    lemma_live_push(recorded.cleaned(now).of_credential(credential_id), now, now);
    lemma_live_push(recorded.cleaned(now).global, now, now);
    assert(recorded.cleaned(now).with_request(credential_id, now).of_credential(other)
        == recorded.cleaned(now).of_credential(other));
}

/// Who asks before recording never goes over a limit: where an account, or all of them together,
/// are under it, one more request keeps the count within it.
pub proof fn law_limits_are_kept(recorded: Recorded, credential_id: u64, limit: u64, now: u128)
    requires
        limit != 0,
    ensures
        under_limit(recorded.credential_count(credential_id, now), limit) ==> recorded.cleaned(
            now,
        ).with_request(credential_id, now).credential_count(credential_id, now) <= limit,
        under_limit(recorded.global_count(now), limit) ==> recorded.cleaned(
            now,
        ).with_request(credential_id, now).global_count(now) <= limit,
{
    lemma_cleaned(recorded, now, now);
    lemma_live_push(recorded.cleaned(now).of_credential(credential_id), now, now);
    lemma_live_push(recorded.cleaned(now).global, now, now);
}

/// Old requests are cleaned up by themselves: once a request is recorded, a limiter holds the times
/// of the requests in the window and no others, for each account and for all, though nothing was
/// ever read.
pub proof fn law_old_requests_are_cleaned_up(
    history: Seq<Step>,
    recorded: u64,
    credential_id: u64,
    now: u128,
)
    requires
        is_past(history, now),
    ensures
        ({
            let request = Step {
                operation: Operation::Record { credential_id: recorded },
                at: now,
            };
            let later = history.push(request);
            let held = recorded_after(later);
            &&& held.global == live(requests_in(later, |c: u64| true), now)
            &&& held.of_credential(credential_id) == live(
                requests_in(later, |c: u64| c == credential_id),
                now,
            )
            &&& held.by_credential.contains_key(credential_id) == (held.of_credential(
                credential_id,
            ).len() > 0)
        }),
{
    let request = Step { operation: Operation::Record { credential_id: recorded }, at: now };
    let later = history.push(request);
    assert(later.drop_last() =~= history);
    let before = recorded_after(history);
    lemma_live_requests(history, credential_id, now);
    lemma_live_push(requests_in(history, |c: u64| true), now, now);
    lemma_live_push(requests_in(history, |c: u64| c == credential_id), now, now);
    assert(before.cleaned(now).of_credential(credential_id) =~= live(
        before.of_credential(credential_id),
        now,
    )) by {
        reveal(Seq::filter);
    }
}

/// A request stops counting once it is more than 60 seconds old, and no request counts again
/// after that.
pub proof fn law_requests_expire(time: u128, now: u128, later: u128)
    requires
        now <= later,
    ensures
        in_window(time, now) == (now - time <= 60_000_000_000),
        !in_window(time, now) ==> !in_window(time, later),
{
}

/// Each recorded request counts on its own: it adds one to what counts at `now` exactly where it is
/// at most 60 seconds old then, and comes after those recorded before it.
pub proof fn law_each_request_counts_for_itself(times: Seq<u128>, time: u128, now: u128)
    ensures
        live(Seq::empty(), now).len() == 0,
        live(times.push(time), now).len() == live(times, now).len() + if now - time
            <= 60_000_000_000 {
            1nat
        } else {
            0nat
        },
        now - time <= 60_000_000_000 ==> live(times.push(time), now) == live(times, now).push(time),
        now - time > 60_000_000_000 ==> live(times.push(time), now) == live(times, now),
{
    lemma_live_push(times, time, now);
    reveal(Seq::filter);
}

/// Of what is at most 60 seconds old everything counts, and of what is older nothing.
pub proof fn law_windows_hold_a_minute(times: Seq<u128>, now: u128)
    ensures
        (forall|i: int| 0 <= i < times.len() ==> now - #[trigger] times[i] <= 60_000_000_000)
            ==> live(times, now) == times,
        (forall|i: int| 0 <= i < times.len() ==> now - #[trigger] times[i] > 60_000_000_000)
            ==> live(times, now).len() == 0,
    decreases times.len(),
{
    reveal(Seq::filter);
    if times.len() > 0 {
        let init = times.drop_last();
        law_windows_hold_a_minute(init, now);
        lemma_live_push(init, times.last(), now);
        assert(times =~= init.push(times.last()));
        assert(times[times.len() - 1] == times.last());
        assert(forall|i: int| 0 <= i < init.len() ==> init[i] == times[i]);
    }
}

/// What a limiter has recorded is not later than the last time that it was used at.
proof fn lemma_requests_are_past(history: Seq<Step>, chosen: spec_fn(u64) -> bool, last: u128)
    requires
        is_past(history, last),
    ensures
        forall|i: int|
            0 <= i < requests_in(history, chosen).len() ==> #[trigger] requests_in(
                history,
                chosen,
            )[i] <= last,
    decreases history.len(),
{
    if history.len() > 0 {
        let init = history.drop_last();
        assert forall|i: int| 0 <= i < init.len() implies (#[trigger] init[i]).at <= last by {
            assert(init[i] == history[i]);
        }
        lemma_requests_are_past(init, chosen, last);
        assert(history[history.len() - 1].at <= last);
        let earlier = requests_in(init, chosen);
        let times = requests_in(history, chosen);
        assert forall|i: int| 0 <= i < times.len() implies #[trigger] times[i] <= last by {
            if i < earlier.len() {
                assert(times[i] == earlier[i]);
                assert(earlier[i] <= last);
            }
        }
    }
}

/// The clock decides. When it reads more than 60 seconds after the last use of a limiter, nothing
/// counts any more, for any account and for all together, whatever was recorded before.
pub proof fn law_a_minute_of_the_clock_clears_the_window(
    limiter: RpmLimiter,
    history: Seq<Step>,
    reading: u128,
    credential_id: u64,
)
    requires
        limiter.has_history(history),
        is_clock_reading(limiter.epoch(), reading),
        reading - limiter.last() > 60_000_000_000,
    ensures
        limiter@.credential_count(credential_id, later_of(limiter.last(), reading)) == 0,
        limiter@.global_count(later_of(limiter.last(), reading)) == 0,
{
    let now = later_of(limiter.last(), reading);
    let own = |c: u64| c == credential_id;
    let all = |c: u64| true;
    law_counts_are_of_the_last_minute(history, credential_id, now);
    lemma_requests_are_past(history, own, limiter.last());
    lemma_requests_are_past(history, all, limiter.last());
    law_windows_hold_a_minute(requests_in(history, own), now);
    law_windows_hold_a_minute(requests_in(history, all), now);
}

/// Of two times the later one is the later.
pub proof fn law_the_later_time(a: u128, b: u128)
    ensures
        later_of(a, b) >= a,
        later_of(a, b) >= b,
        later_of(a, b) == a || later_of(a, b) == b,
{
}

/// Reading a window drops what is more than 60 seconds old there, and touches nothing else: what
/// counts, for any account and for all, is the same after it.
pub proof fn law_readings_only_clean_up(recorded: Recorded, read: u64, other: u64, now: u128)
    ensures
        ({
            let after = recorded.credential_read(read, now);
            &&& after.of_credential(read) == live(recorded.of_credential(read), now)
            &&& other != read ==> after.of_credential(other) == recorded.of_credential(other)
            &&& after.global == recorded.global
            &&& after.by_credential.dom() == recorded.by_credential.dom()
            &&& recorded.global_read(now).global == live(recorded.global, now)
            &&& recorded.global_read(now).by_credential == recorded.by_credential
        }),
{
    reveal(Seq::filter);
    assert(live(Seq::empty(), now) =~= Seq::<u128>::empty());
    assert(recorded.credential_read(read, now).by_credential.dom() =~= recorded.by_credential.dom());
}

/// A limit of 0 lets everything through; any other lets through what stays below it.
pub proof fn law_limits(count: nat, limit: u64)
    ensures
        limit == 0 ==> under_limit(count, limit),
        limit >= 1 ==> (under_limit(count, limit) <==> count < limit),
{
}

/// A reading of the clock is what `nanos_since` gives for the epoch, neither scaled nor shifted.
pub(crate) proof fn law_readings_are_the_clocks(epoch: Instant, nanos: u128)
    ensures
        is_clock_reading(epoch, nanos) <==> call_ensures(nanos_since, (&epoch,), nanos),
{
}

} // verus!
