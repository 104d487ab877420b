//! How many upstream requests may be in flight at once: the limit, its changes while requests are
//! in flight, and the requests that wait for a slot.
use tokio::sync::Semaphore;
use vstd::prelude::*;

verus! {

/// The most permits that a semaphore can hold.
pub const MAX_PERMITS: usize = usize::MAX / 8;

/// A semaphore, of `tokio`.
#[verifier::external_type_specification]
#[verifier::external_body]
pub struct ExSemaphore(tokio::sync::Semaphore);

/// The permits that a semaphore has available.
pub uninterp spec fn permits_in(semaphore: Semaphore) -> nat;

/// Calls `Semaphore::new`. The contract claims that all the permits are available.
#[verifier::external_body]
fn new_semaphore(permits: usize) -> (semaphore: Semaphore)
    requires
        permits <= MAX_PERMITS,
    ensures
        permits_in(semaphore) == permits,
{
    Semaphore::new(permits)
}

/// Calls `Semaphore::available_permits`. The contract claims that it gives the number of
/// available permits.
#[verifier::external_body]
fn available_permits(semaphore: &Semaphore) -> (permits: usize)
    ensures
        permits == permits_in(*semaphore),
{
    semaphore.available_permits()
}

/// Calls `Semaphore::add_permits`. Nobody waits at a semaphore that is borrowed mutably, so the
/// contract claims that all the permits become available.
#[verifier::external_body]
fn add_permits(semaphore: &mut Semaphore, permits: usize)
    requires
        permits_in(*old(semaphore)) + permits <= MAX_PERMITS,
    ensures
        permits_in(*final(semaphore)) == permits_in(*old(semaphore)) + permits,
{
    semaphore.add_permits(permits);
}

/// Calls `Semaphore::forget_permits`. The contract claims that it takes away so many of the
/// available permits, or all of them where there are fewer, and gives the number taken.
#[verifier::external_body]
fn forget_permits(semaphore: &mut Semaphore, permits: usize) -> (taken: usize)
    ensures
        taken == if permits <= permits_in(*old(semaphore)) {
            permits as nat
        } else {
            permits_in(*old(semaphore))
        },
        permits_in(*final(semaphore)) == permits_in(*old(semaphore)) - taken,
{
    semaphore.forget_permits(permits)
}

/// A reading of how many requests are in flight and waiting.
#[derive(Debug, Clone, Copy)]
pub struct ConcurrencySnapshot {
    /// How many requests may be in flight.
    pub max: usize,
    /// How many slots are taken: those of the limit that are not available.
    pub in_use: usize,
    /// How many requests wait for a slot.
    pub waiting: usize,
    /// How many slots are available.
    pub available: usize,
}

impl ConcurrencySnapshot {
    /// Whether requests compete for slots: some wait, or every slot is taken.
    pub open spec fn contended(self) -> bool {
        self.waiting > 0 || self.in_use >= self.max
    }

    /// Whether requests compete for slots: some wait, or every slot is taken.
    pub fn is_contended(&self) -> (contended: bool)
        ensures
            contended == self.contended(),
    {
        self.waiting > 0 || self.in_use >= self.max
    }
}

/// What is left of `whole` when `part` is taken away, and 0 where `part` is more than that.
pub open spec fn rest_of(whole: nat, part: nat) -> nat {
    if whole >= part {
        (whole - part) as nat
    } else {
        0
    }
}

/// `n`, and 1 for 0.
#[verifier::inline]
pub open spec fn at_least_one(n: nat) -> nat {
    if n >= 1 {
        n
    } else {
        1
    }
}

/// How many requests may be in flight with so many accounts and so many requests for each.
#[verifier::inline]
pub open spec fn limit_for(per_account: nat, account_count: nat) -> nat {
    at_least_one(per_account) * at_least_one(account_count)
}

/// How many requests may be in flight, limited to what a machine word holds.
pub fn scaled_limit(per_account: usize, account_count: usize) -> (limit: usize)
    ensures
        limit == if limit_for(per_account as nat, account_count as nat) <= usize::MAX {
            limit_for(per_account as nat, account_count as nat)
        } else {
            usize::MAX as nat
        },
{
    let per: usize = if per_account >= 1 {
        per_account
    } else {
        1
    };
    let accounts: usize = if account_count >= 1 {
        account_count
    } else {
        1
    };
    match per.checked_mul(accounts) {
        Some(limit) => limit,
        None => usize::MAX,
    }
}

/// The state of a controller.
pub ghost struct Slots {
    /// How many requests may be in flight.
    pub max: nat,
    /// How many requests are in flight.
    pub in_flight: nat,
    /// How many requests wait for a slot.
    pub waiting: usize,
    /// How many requests may be in flight for each account.
    pub per_account: usize,
    /// Whether the limit is fixed.
    pub absolute_lock: bool,
}

impl Slots {
    /// The slots that are available: those of the limit that no request in flight takes up.
    pub open spec fn available(self) -> nat {
        rest_of(self.max, self.in_flight)
    }

    /// The requests in flight above the limit, after the limit was lowered. Their slots are not
    /// given out again when they finish.
    pub open spec fn surplus(self) -> nat {
        rest_of(self.in_flight, self.max)
    }

    /// With the limit changed; it is at least 1. Requests in flight go on.
    pub open spec fn resized(self, new_max: nat) -> Slots {
        Slots { max: at_least_one(new_max), ..self }
    }

    /// With the limit recomputed for so many accounts. A fixed limit stays.
    pub open spec fn recomputed(self, account_count: nat) -> Slots {
        if self.absolute_lock {
            self
        } else {
            self.resized(limit_for(self.per_account as nat, account_count))
        }
    }

    /// With another number of requests for each account.
    pub open spec fn with_per_account(self, per_account: usize) -> Slots {
        Slots { per_account: at_least_one(per_account as nat) as usize, ..self }
    }

    /// With another number of requests for each account, and the limit recomputed for so many
    /// accounts. With a fixed limit nothing changes.
    pub open spec fn per_account_set(self, per_account: usize, account_count: nat) -> Slots {
        if self.absolute_lock {
            self
        } else {
            self.with_per_account(per_account).recomputed(account_count)
        }
    }

    /// With one more request waiting.
    pub open spec fn waiting_begun(self) -> Slots {
        Slots { waiting: self.waiting.wrapping_add(1), ..self }
    }

    /// With one request waiting less.
    pub open spec fn waiting_ended(self) -> Slots {
        Slots { waiting: self.waiting.wrapping_sub(1), ..self }
    }

    /// With one more request in flight, if there is a slot.
    pub open spec fn acquired(self) -> Slots {
        if self.available() > 0 {
            Slots { in_flight: self.in_flight + 1, ..self }
        } else {
            self
        }
    }

    /// With one request in flight less.
    pub open spec fn released(self) -> Slots {
        Slots { in_flight: (self.in_flight - 1) as nat, ..self }
    }
}

/// Why the number of requests for each account cannot be changed.
#[derive(Debug, Clone, Copy, PartialEq, Eq, Structural)]
pub enum ConcurrencyError {
    /// The limit is fixed.
    AbsoluteLock,
}

impl ConcurrencyError {
    /// The message of the error.
    pub fn message(&self) -> (message: &'static str)
        ensures
            message@
                == "当前由 KIRO_MAX_CONCURRENT 绝对值锁定，改每账号值无效；请先移除该环境变量"@,
    {
        "当前由 KIRO_MAX_CONCURRENT 绝对值锁定，改每账号值无效；请先移除该环境变量"
    }
}

/// Marks a request that waits for a slot.
pub struct WaitingGuard {}

impl WaitingGuard {
    /// Counts a request as waiting.
    pub fn new(waiting: &mut usize) -> (guard: Self)
        ensures
            *final(waiting) == old(waiting).wrapping_add(1),
    {
        *waiting = waiting.wrapping_add(1);
        WaitingGuard {  }
    }

    /// Counts the request as waiting no more.
    pub fn finish(self, waiting: &mut usize)
        ensures
            *final(waiting) == old(waiting).wrapping_sub(1),
    {
        *waiting = waiting.wrapping_sub(1);
    }
}

/// Controls how many upstream requests are in flight at once.
///
/// A higher limit takes effect at once: the slots that it adds are given out, but for those that
/// requests in flight above the limit take up. So when the limit goes from 4 to 1 and then to 3
/// with 4 requests in flight, no slot is given out yet. A lower limit interrupts no request: where
/// more requests are in flight than it allows, no slot is given out until enough of them have
/// finished.
pub struct ConcurrencyController {
    semaphore: Semaphore,
    max: usize,
    in_flight: usize,
    waiting: usize,
    per_account: usize,
    absolute_lock: bool,
}

impl View for ConcurrencyController {
    type V = Slots;

    closed spec fn view(&self) -> Slots {
        Slots {
            max: self.max as nat,
            in_flight: self.in_flight as nat,
            waiting: self.waiting,
            per_account: self.per_account,
            absolute_lock: self.absolute_lock,
        }
    }
}

impl ConcurrencyController {
    /// The semaphore holds the slots that are available, and the limit fits it.
    pub closed spec fn wf(self) -> bool {
        &&& permits_in(self.semaphore) == self@.available()
        &&& self.max <= MAX_PERMITS
        &&& self.per_account >= 1
    }

    /// A controller with no request in flight.
    pub fn new(initial_max: usize, per_account: usize, absolute_lock: bool) -> (controller: Self)
        requires
            initial_max <= MAX_PERMITS,
        ensures
            controller.wf(),
            controller@ == (Slots {
                max: initial_max as nat,
                in_flight: 0,
                waiting: 0,
                per_account: at_least_one(per_account as nat) as usize,
                absolute_lock,
            }),
    {
        ConcurrencyController {
            semaphore: new_semaphore(initial_max),
            max: initial_max,
            in_flight: 0,
            waiting: 0,
            per_account: if per_account >= 1 {
                per_account
            } else {
                1
            },
            absolute_lock,
        }
    }

    /// How many requests may be in flight.
    pub fn max(&self) -> (max: usize)
        ensures
            max == self@.max,
    {
        self.max
    }

    /// How many requests may be in flight for each account.
    pub fn per_account(&self) -> (per_account: usize)
        ensures
            per_account == self@.per_account,
    {
        self.per_account
    }

    /// Whether the limit is fixed.
    pub fn is_absolute_lock(&self) -> (locked: bool)
        ensures
            locked == self@.absolute_lock,
    {
        self.absolute_lock
    }

    /// A reading of how many requests are in flight and waiting.
    pub fn snapshot(&self) -> (snapshot: ConcurrencySnapshot)
        requires
            self.wf(),
        ensures
            snapshot.max == self@.max,
            snapshot.available == self@.available(),
            snapshot.in_use == rest_of(self@.max, self@.available()),
            snapshot.waiting == self@.waiting,
    {
        let available: usize = available_permits(&self.semaphore);
        ConcurrencySnapshot {
            max: self.max,
            in_use: self.max.saturating_sub(available),
            waiting: self.waiting,
            available,
        }
    }

    /// Counts a request as waiting for a slot.
    pub fn begin_waiting(&mut self) -> (guard: WaitingGuard)
        ensures
            final(self).wf() == old(self).wf(),
            final(self)@ == old(self)@.waiting_begun(),
    {
        WaitingGuard::new(&mut self.waiting)
    }

    /// Counts a request as waiting no more: it has its slot, or it was given up.
    pub fn end_waiting(&mut self, guard: WaitingGuard)
        ensures
            final(self).wf() == old(self).wf(),
            final(self)@ == old(self)@.waiting_ended(),
    {
        guard.finish(&mut self.waiting);
    }

    /// Takes a slot for a request, if one is available.
    pub fn try_acquire(&mut self) -> (acquired: bool)
        requires
            old(self).wf(),
        ensures
            final(self).wf(),
            acquired == (old(self)@.available() > 0),
            final(self)@ == old(self)@.acquired(),
    {
        if forget_permits(&mut self.semaphore, 1) == 1 {
            self.in_flight += 1;
            true
        } else {
            false
        }
    }

    /// Gives back the slot of a request that has finished, and says whether it is available
    /// again. It is not while more requests are in flight than the limit allows.
    pub fn release(&mut self) -> (freed: bool)
        requires
            old(self).wf(),
            old(self)@.in_flight > 0,
        ensures
            final(self).wf(),
            freed == (old(self)@.surplus() == 0),
            final(self)@ == old(self)@.released(),
    {
        let freed: bool = self.in_flight <= self.max;
        self.in_flight -= 1;
        if freed {
            add_permits(&mut self.semaphore, 1);
        }
        freed
    }

    /// Changes the limit, which is at least 1, and gives the old and the new one.
    pub fn resize_to(&mut self, new_max: usize) -> (change: (usize, usize))
        requires
            old(self).wf(),
            new_max <= MAX_PERMITS,
        ensures
            final(self).wf(),
            final(self)@ == old(self)@.resized(new_max as nat),
            change.0 == old(self)@.max,
            change.1 == final(self)@.max,
    {
        let target: usize = if new_max >= 1 {
            new_max
        } else {
            1
        };
        let old_max: usize = self.max;
        let before: usize = old_max.saturating_sub(self.in_flight);
        let after: usize = target.saturating_sub(self.in_flight);
        if after > before {
            add_permits(&mut self.semaphore, after - before);
        } else if after < before {
            forget_permits(&mut self.semaphore, before - after);
        }
        self.max = target;
        (old_max, target)
    }

    /// Recomputes the limit for so many accounts, and gives the old and the new one. A fixed limit
    /// stays.
    pub fn recompute_for_accounts(&mut self, account_count: usize) -> (change: (usize, usize))
        requires
            old(self).wf(),
            old(self)@.absolute_lock || limit_for(
                old(self)@.per_account as nat,
                account_count as nat,
            ) <= MAX_PERMITS,
        ensures
            final(self).wf(),
            final(self)@ == old(self)@.recomputed(account_count as nat),
            change.0 == old(self)@.max,
            change.1 == final(self)@.max,
    {
        if self.absolute_lock {
            return (self.max, self.max);
        }
        let limit: usize = scaled_limit(self.per_account, account_count);
        self.resize_to(limit)
    }

    /// Changes how many requests may be in flight for each account, at least 1, and recomputes the
    /// limit for so many accounts. Gives the old limit and the new one, or an error where the
    /// limit is fixed.
    pub fn set_per_account(&mut self, per_account: usize, account_count: usize) -> (change: Result<
        (usize, usize),
        ConcurrencyError,
    >)
        requires
            old(self).wf(),
            old(self)@.absolute_lock || limit_for(per_account as nat, account_count as nat)
                <= MAX_PERMITS,
        ensures
            final(self).wf(),
            final(self)@ == old(self)@.per_account_set(per_account, account_count as nat),
            match change {
                Ok((old_max, new_max)) => {
                    &&& !old(self)@.absolute_lock
                    &&& old_max == old(self)@.max
                    &&& new_max == final(self)@.max
                },
                Err(error) => {
                    &&& error == ConcurrencyError::AbsoluteLock
                    &&& old(self)@.absolute_lock
                },
            },
    {
        if self.absolute_lock {
            return Err(ConcurrencyError::AbsoluteLock);
        }
        self.per_account = if per_account >= 1 {
            per_account
        } else {
            1
        };
        Ok(self.recompute_for_accounts(account_count))
    }
}

/// A handle on a controller, to watch it and to change its limit.
pub struct ConcurrencyMonitor<'a> {
    /// The controller.
    pub controller: &'a mut ConcurrencyController,
}

impl<'a> ConcurrencyMonitor<'a> {
    /// The state of the controller.
    pub open spec fn slots(self) -> Slots {
        self.controller@
    }

    /// Whether the controller is in order.
    pub open spec fn wf(self) -> bool {
        self.controller.wf()
    }

    /// A handle on `controller`.
    pub fn on(controller: &'a mut ConcurrencyController) -> (monitor: Self)
        ensures
            *monitor.controller == *old(controller),
            *final(monitor.controller) == *final(controller),
    {
        ConcurrencyMonitor { controller }
    }

    /// A reading of how many requests are in flight and waiting.
    pub fn snapshot(&self) -> (snapshot: ConcurrencySnapshot)
        requires
            self.wf(),
        ensures
            snapshot.max == self.slots().max,
            snapshot.available == self.slots().available(),
            snapshot.in_use == rest_of(self.slots().max, self.slots().available()),
            snapshot.waiting == self.slots().waiting,
    {
        self.controller.snapshot()
    }

    /// Changes how many requests may be in flight for each account, at least 1, and recomputes the
    /// limit for so many accounts. Gives the old limit and the new one, or an error where the
    /// limit is fixed.
    pub fn set_per_account(&mut self, per_account: usize, account_count: usize) -> (change: Result<
        (usize, usize),
        ConcurrencyError,
    >)
        requires
            old(self).wf(),
            old(self).slots().absolute_lock || limit_for(
                per_account as nat,
                account_count as nat,
            ) <= MAX_PERMITS,
        ensures
            final(self).wf(),
            *final(final(self).controller) == *final(old(self).controller),
            final(self).slots() == old(self).slots().per_account_set(
                per_account,
                account_count as nat,
            ),
            match change {
                Ok((old_max, new_max)) => {
                    &&& !old(self).slots().absolute_lock
                    &&& old_max == old(self).slots().max
                    &&& new_max == final(self).slots().max
                },
                Err(error) => {
                    &&& error == ConcurrencyError::AbsoluteLock
                    &&& old(self).slots().absolute_lock
                },
            },
    {
        self.controller.set_per_account(per_account, account_count)
    }

    /// Recomputes the limit for so many accounts, and gives the old and the new one. A fixed limit
    /// stays.
    pub fn recompute_for_accounts(&mut self, account_count: usize) -> (change: (usize, usize))
        requires
            old(self).wf(),
            old(self).slots().absolute_lock || limit_for(
                old(self).slots().per_account as nat,
                account_count as nat,
            ) <= MAX_PERMITS,
        ensures
            final(self).wf(),
            *final(final(self).controller) == *final(old(self).controller),
            final(self).slots() == old(self).slots().recomputed(account_count as nat),
            change.0 == old(self).slots().max,
            change.1 == final(self).slots().max,
    {
        self.controller.recompute_for_accounts(account_count)
    }

    /// How many requests may be in flight for each account.
    pub fn per_account(&self) -> (per_account: usize)
        ensures
            per_account == self.slots().per_account,
    {
        self.controller.per_account()
    }

    /// Whether the limit is fixed.
    pub fn is_absolute_lock(&self) -> (locked: bool)
        ensures
            locked == self.slots().absolute_lock,
    {
        self.controller.is_absolute_lock()
    }
}

/// The state after so many requests have finished.
pub open spec fn after_releases(slots: Slots, finished: nat) -> Slots
    decreases finished,
{
    if finished == 0 {
        slots
    } else {
        after_releases(slots, (finished - 1) as nat).released()
    }
}

/// So many requests fewer are in flight, and nothing else has changed.
proof fn lemma_after_releases(slots: Slots, finished: nat)
    requires
        finished <= slots.in_flight,
    ensures
        after_releases(slots, finished) == (Slots {
            in_flight: (slots.in_flight - finished) as nat,
            ..slots
        }),
    decreases finished,
{
    if finished > 0 {
        lemma_after_releases(slots, (finished - 1) as nat);
    }
}

/// A higher limit takes effect at once: the slots that it adds are available, as soon as they are
/// not needed for requests in flight above the old limit.
pub proof fn law_higher_limit_takes_effect_at_once(slots: Slots, new_max: nat)
    requires
        new_max >= slots.max,
        new_max >= 1,
    ensures
        slots.resized(new_max).available() + slots.surplus() == slots.available() + (new_max
            - slots.max) + slots.resized(new_max).surplus(),
        slots.surplus() == 0 ==> slots.resized(new_max).available() == slots.available() + (new_max
            - slots.max),
{
}

/// Changing the limit interrupts no request: those in flight and those waiting stay as they are.
pub proof fn law_resizing_interrupts_nothing(slots: Slots, new_max: nat)
    ensures
        slots.resized(new_max).in_flight == slots.in_flight,
        slots.resized(new_max).waiting == slots.waiting,
{
}

/// A lower limit is reached as requests finish: while more are in flight than it allows, no slot is
/// available and each request that finishes brings the number down by one, until it is the limit.
pub proof fn law_lower_limit_is_reached(slots: Slots, new_max: nat, finished: nat)
    requires
        finished <= slots.resized(new_max).surplus(),
    ensures
        ({
            let lowered = slots.resized(new_max);
            let later = after_releases(lowered, finished);
            &&& later.max == lowered.max
            &&& later.surplus() == lowered.surplus() - finished
            &&& lowered.surplus() > 0 ==> later.available() == 0
            &&& lowered.surplus() > 0 && finished == lowered.surplus() ==> later.in_flight
                == later.max
        }),
{
    lemma_after_releases(slots.resized(new_max), finished);
}

/// No request is let in above the limit: with every slot taken nothing changes, and requests are
/// in flight above the limit only where it was lowered.
pub proof fn law_limit_is_kept(slots: Slots)
    ensures
        slots.in_flight < slots.max ==> slots.acquired().in_flight <= slots.max,
        slots.in_flight >= slots.max ==> slots.acquired() == slots,
        slots.acquired().surplus() == slots.surplus(),
        slots.in_flight > 0 ==> slots.released().surplus() <= slots.surplus(),
{
}

/// The limit is never 0 once it was changed, and a fixed limit is the same for every number of
/// accounts.
pub proof fn law_limit_follows_the_accounts(slots: Slots, account_count: nat)
    requires
        slots.per_account >= 1,
    ensures
        slots.absolute_lock ==> slots.recomputed(account_count) == slots,
        !slots.absolute_lock ==> slots.recomputed(account_count).max == slots.per_account
            * at_least_one(account_count),
        !slots.absolute_lock ==> slots.recomputed(account_count).max >= 1,
        slots.recomputed(account_count).recomputed(account_count) == slots.recomputed(
            account_count,
        ),
{
    assert(slots.per_account * at_least_one(account_count) >= 1) by (nonlinear_arith)
        requires
            slots.per_account >= 1,
            at_least_one(account_count) >= 1,
    ;
}

/// A slot taken and given back leaves everything as it was.
pub proof fn law_release_undoes_acquire(slots: Slots)
    requires
        slots.available() > 0,
    ensures
        slots.acquired().released() == slots,
        slots.acquired().surplus() == 0,
{
}

/// What a reading gives as in use is the number of requests in flight, up to the limit.
pub proof fn law_in_use_counts_requests_in_flight(slots: Slots)
    ensures
        rest_of(slots.max, slots.available()) == if slots.in_flight <= slots.max {
            slots.in_flight
        } else {
            slots.max
        },
{
}

/// Something that is done with a controller.
pub ghost enum SlotStep {
    /// A request begins to wait.
    BeginWaiting,
    /// A request waits no more: it has its slot, or it was given up.
    EndWaiting,
    /// A slot is taken, if one is available.
    Acquire,
    /// A slot is given back.
    Release,
    /// The limit is changed.
    Resize { new_max: nat },
    /// The limit is recomputed.
    Recompute { account_count: nat },
    /// The number of requests for each account is changed.
    SetPerAccount { per_account: usize, account_count: nat },
}

impl Slots {
    /// After one step.
    pub open spec fn stepped(self, step: SlotStep) -> Slots {
        match step {
            SlotStep::BeginWaiting => self.waiting_begun(),
            SlotStep::EndWaiting => self.waiting_ended(),
            SlotStep::Acquire => self.acquired(),
            SlotStep::Release => self.released(),
            SlotStep::Resize { new_max } => self.resized(new_max),
            SlotStep::Recompute { account_count } => self.recomputed(account_count),
            SlotStep::SetPerAccount { per_account, account_count } => self.per_account_set(
                per_account,
                account_count,
            ),
        }
    }
}

/// The state after a history.
pub open spec fn slots_after(start: Slots, history: Seq<SlotStep>) -> Slots
    decreases history.len(),
{
    if history.len() == 0 {
        start
    } else {
        slots_after(start, history.drop_last()).stepped(history.last())
    }
}

/// How many requests began to wait in a history.
pub open spec fn begun_in(history: Seq<SlotStep>) -> nat
    decreases history.len(),
{
    if history.len() == 0 {
        0
    } else {
        begun_in(history.drop_last()) + if history.last() is BeginWaiting {
            1nat
        } else {
            0nat
        }
    }
}

/// How many requests stopped waiting in a history.
pub open spec fn ended_in(history: Seq<SlotStep>) -> nat
    decreases history.len(),
{
    if history.len() == 0 {
        0
    } else {
        ended_in(history.drop_last()) + if history.last() is EndWaiting {
            1nat
        } else {
            0nat
        }
    }
}

/// How many slots were given out in a history.
pub open spec fn granted_in(start: Slots, history: Seq<SlotStep>) -> nat
    decreases history.len(),
{
    if history.len() == 0 {
        0
    } else {
        granted_in(start, history.drop_last()) + if history.last() is Acquire && slots_after(
            start,
            history.drop_last(),
        ).available() > 0 {
            1nat
        } else {
            0nat
        }
    }
}

/// How many slots were given back in a history.
pub open spec fn returned_in(history: Seq<SlotStep>) -> nat
    decreases history.len(),
{
    if history.len() == 0 {
        0
    } else {
        returned_in(history.drop_last()) + if history.last() is Release {
            1nat
        } else {
            0nat
        }
    }
}

/// Whether in a history only those stop waiting that have begun to, only slots that were given out
/// are given back, and never more requests wait than a machine word can count.
pub open spec fn is_orderly(start: Slots, history: Seq<SlotStep>) -> bool
    decreases history.len(),
{
    history.len() > 0 ==> {
        let init = history.drop_last();
        &&& is_orderly(start, init)
        &&& history.last() is BeginWaiting ==> begun_in(init) - ended_in(init) < usize::MAX
        &&& history.last() is EndWaiting ==> ended_in(init) < begun_in(init)
        &&& history.last() is Release ==> returned_in(init) < granted_in(start, init)
    }
}

/// After any history of a new controller, those waiting are those that have begun to wait and have
/// not stopped since, and those in flight are those that were given a slot and have not given it
/// back. Whatever else happens, each slot given out is one request in flight until it is returned.
pub proof fn law_everyone_is_counted(start: Slots, history: Seq<SlotStep>)
    requires
        start.waiting == 0,
        start.in_flight == 0,
        is_orderly(start, history),
    ensures
        slots_after(start, history).waiting == begun_in(history) - ended_in(history),
        slots_after(start, history).in_flight == granted_in(start, history) - returned_in(history),
    decreases history.len(),
{
    if history.len() > 0 {
        law_everyone_is_counted(start, history.drop_last());
    }
}

/// One more request waiting makes no other difference to what a history does.
proof fn lemma_waiting_apart(start: Slots, history: Seq<SlotStep>)
    ensures
        slots_after(start.waiting_begun(), history) == slots_after(start, history).waiting_begun(),
    decreases history.len(),
{
    if history.len() > 0 {
        lemma_waiting_apart(start, history.drop_last());
    }
}

/// A request that is given up while it waits takes no slot and leaves no trace: whatever others do
/// meanwhile, everything is as if it had never begun to wait.
pub proof fn law_given_up_requests_leave_no_trace(start: Slots, meanwhile: Seq<SlotStep>)
    ensures
        slots_after(
            start,
            seq![SlotStep::BeginWaiting] + meanwhile + seq![SlotStep::EndWaiting],
        ) == slots_after(start, meanwhile),
{
    let begun = seq![SlotStep::BeginWaiting];
    let whole = begun + meanwhile + seq![SlotStep::EndWaiting];
    assert(whole.drop_last() =~= begun + meanwhile);
    lemma_slots_after_joined(start, begun, meanwhile);
    assert(begun.drop_last() =~= Seq::empty());
    assert(slots_after(start, begun.drop_last()) == start);
    lemma_waiting_apart(start, meanwhile);
}

/// One history after another.
pub(crate) proof fn lemma_slots_after_joined(start: Slots, first: Seq<SlotStep>, second: Seq<SlotStep>)
    ensures
        slots_after(start, first + second) == slots_after(slots_after(start, first), second),
    decreases second.len(),
{
    if second.len() == 0 {
        assert(first + second =~= first);
    } else {
        assert((first + second).drop_last() =~= first + second.drop_last());
        lemma_slots_after_joined(start, first, second.drop_last());
    }
}

/// Over any history, requests are in flight above the limit only after it was lowered: while it is
/// not, the limit is kept.
pub proof fn law_limit_is_kept_for_good(start: Slots, history: Seq<SlotStep>)
    requires
        start.surplus() == 0,
        forall|i: int|
            0 <= i < history.len() ==> match #[trigger] history[i] {
                SlotStep::BeginWaiting => true,
                SlotStep::EndWaiting => true,
                SlotStep::Acquire => true,
                SlotStep::Release => slots_after(start, history.take(i)).in_flight > 0,
                _ => slots_after(start, history.take(i)).max <= slots_after(
                    start,
                    history.take(i + 1),
                ).max,
            },
    ensures
        slots_after(start, history).in_flight <= slots_after(start, history).max,
    decreases history.len(),
{
    if history.len() > 0 {
        let init = history.drop_last();
        let last = history.len() - 1;
        assert(history.take(last) =~= init);
        assert(history.take(last + 1) =~= history);
        assert forall|i: int| 0 <= i < init.len() implies match #[trigger] init[i] {
            SlotStep::BeginWaiting => true,
            SlotStep::EndWaiting => true,
            SlotStep::Acquire => true,
            SlotStep::Release => slots_after(start, init.take(i)).in_flight > 0,
            _ => slots_after(start, init.take(i)).max <= slots_after(start, init.take(i + 1)).max,
        } by {
            assert(init[i] == history[i]);
            assert(init.take(i) =~= history.take(i));
            assert(init.take(i + 1) =~= history.take(i + 1));
        }
        law_limit_is_kept_for_good(start, init);
        assert(history[last] == history.last());
    }
}

/// Setting another number for each account takes effect whatever is in flight or waits: unless the
/// limit is fixed, the number is the one set, or 1 for 0, and the limit is that number times the
/// number of accounts, or times 1 for none. Requests in flight and waiting go on. A fixed limit
/// stays, and with it everything else.
pub proof fn law_setting_the_number_for_each_account(
    slots: Slots,
    per_account: usize,
    account_count: nat,
)
    ensures
        ({
            let after = slots.per_account_set(per_account, account_count);
            &&& after.in_flight == slots.in_flight
            &&& after.waiting == slots.waiting
            &&& after.absolute_lock == slots.absolute_lock
            &&& slots.absolute_lock ==> after.max == slots.max && after.per_account
                == slots.per_account
            &&& !slots.absolute_lock ==> {
                &&& after.per_account == if per_account >= 1 {
                    per_account
                } else {
                    1
                }
                &&& after.max == after.per_account * (if account_count >= 1 {
                    account_count
                } else {
                    1
                })
            }
        }),
{
    let per: nat = if per_account >= 1 {
        per_account as nat
    } else {
        1
    };
    let accounts: nat = if account_count >= 1 {
        account_count
    } else {
        1
    };
    assert(per * accounts >= 1) by (nonlinear_arith)
        requires
            per >= 1,
            accounts >= 1,
    ;
}

/// Recomputing the limit for so many accounts takes effect whatever is in flight or waits, and
/// changes the limit alone.
pub proof fn law_recomputing_the_limit(slots: Slots, account_count: nat)
    requires
        slots.per_account >= 1,
    ensures
        ({
            let after = slots.recomputed(account_count);
            &&& after == Slots { max: after.max, ..slots }
            &&& slots.absolute_lock ==> after.max == slots.max
            &&& !slots.absolute_lock ==> after.max == slots.per_account * (if account_count >= 1 {
                account_count
            } else {
                1
            })
        }),
{
    law_limit_follows_the_accounts(slots, account_count);
}

/// Changing the limit makes it what was asked for, or 1 for 0, and changes nothing else.
pub proof fn law_resizing_sets_the_limit(slots: Slots, new_max: nat)
    ensures
        ({
            let after = slots.resized(new_max);
            &&& after == Slots { max: after.max, ..slots }
            &&& new_max >= 1 ==> after.max == new_max
            &&& new_max == 0 ==> after.max == 1
        }),
{
}

/// Slots are what the limit leaves: those available, those taken and the surplus account for the
/// limit and for the requests in flight.
pub proof fn law_slots_are_what_the_limit_leaves(slots: Slots)
    ensures
        slots.available() + slots.in_flight == slots.max + slots.surplus(),
        slots.available() == 0 || slots.surplus() == 0,
{
}

/// Taking a slot makes one request more be in flight where fewer are than the limit allows, and
/// does nothing where they are not; giving one back makes it one less. Neither changes anything
/// else.
pub proof fn law_slots_go_one_by_one(slots: Slots)
    ensures
        slots.in_flight < slots.max ==> slots.acquired() == (Slots {
            in_flight: slots.in_flight + 1,
            ..slots
        }),
        slots.in_flight >= slots.max ==> slots.acquired() == slots,
        slots.in_flight >= 1 ==> slots.released() == (Slots {
            in_flight: (slots.in_flight - 1) as nat,
            ..slots
        }),
{
}

/// Those that begin to wait and those that stop change the number waiting alone, by one.
pub proof fn law_waiting_goes_one_by_one(slots: Slots)
    ensures
        slots.waiting < usize::MAX ==> slots.waiting_begun() == (Slots {
            waiting: (slots.waiting + 1) as usize,
            ..slots
        }),
        slots.waiting > 0 ==> slots.waiting_ended() == (Slots {
            waiting: (slots.waiting - 1) as usize,
            ..slots
        }),
        slots.waiting_begun().waiting_ended() == slots,
{
}

/// The limit for so many accounts, and when requests compete for slots.
pub proof fn law_limits_and_contention(
    per_account: nat,
    account_count: nat,
    snapshot: ConcurrencySnapshot,
)
    ensures
        per_account >= 1 && account_count >= 1 ==> limit_for(per_account, account_count)
            == per_account * account_count,
        account_count >= 1 ==> limit_for(0, account_count) == account_count,
        per_account >= 1 ==> limit_for(per_account, 0) == per_account,
        limit_for(0, 0) == 1,
        snapshot.contended() <==> snapshot.waiting >= 1 || snapshot.in_use >= snapshot.max,
{
    assert(1 * account_count == account_count);
    assert(per_account * 1 == per_account);
}

} // verus!
