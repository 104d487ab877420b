//! The settings that come from the environment, from the values of its variables.
use crate::concurrency::{at_least_one, limit_for, scaled_limit};
use crate::retry::CallKind;
use crate::text::{optional_text, parse_unsigned, trimmed, unsigned_value};
use vstd::prelude::*;

verus! {

/// How many requests may be in flight for each account where nothing else is set.
pub const DEFAULT_CONCURRENT_PER_ACCOUNT: usize = 5;

/// How many seconds the response headers may take where nothing else is set.
pub const DEFAULT_FIRST_BYTE_TIMEOUT_SECS: u64 = 32;

/// How many seconds a request may take with its response.
pub const REQUEST_TIMEOUT_SECS: u64 = 180;

/// The number that the value of a variable denotes, if the variable is set and it denotes one of
/// at most `most`. White space around the number does not matter.
#[verifier::inline]
pub open spec fn number_in(variable: Option<Seq<char>>, most: nat) -> Option<nat> {
    match variable {
        Some(value) => unsigned_value(trimmed(value), most),
        None => None,
    }
}

/// The number of at least 1 that the value of a variable denotes, if it denotes one.
#[verifier::inline]
pub open spec fn count_in(variable: Option<Seq<char>>) -> Option<nat> {
    match number_in(variable, usize::MAX as nat) {
        Some(n) => if n >= 1 {
            Some(n)
        } else {
            None
        },
        None => None,
    }
}

/// How many requests may be in flight for each account: the number in the variable, or the default
/// where it has none of at least 1.
#[verifier::inline]
pub open spec fn per_account_setting(variable: Option<Seq<char>>) -> nat {
    match count_in(variable) {
        Some(n) => n,
        None => DEFAULT_CONCURRENT_PER_ACCOUNT as nat,
    }
}

/// How many seconds the response headers may take: the number in the variable, or the default
/// where it has none. With 0 they may take any time.
pub open spec fn first_byte_timeout_setting(variable: Option<Seq<char>>) -> nat {
    match number_in(variable, u64::MAX as nat) {
        Some(n) => n,
        None => DEFAULT_FIRST_BYTE_TIMEOUT_SECS as nat,
    }
}

/// The limit on requests in flight for so many accounts, whether it is fixed, and the limit for
/// each account. A number of at least 1 in the variable `absolute` fixes the limit.
#[verifier::inline]
pub open spec fn concurrency_setting(
    account_count: nat,
    per_account: Option<Seq<char>>,
    absolute: Option<Seq<char>>,
) -> (nat, bool, nat) {
    let per = per_account_setting(per_account);
    match count_in(absolute) {
        Some(max) => (max, true, per),
        None => {
            let max = limit_for(per, account_count);
            (
                if max <= usize::MAX {
                    max
                } else {
                    usize::MAX as nat
                },
                false,
                per,
            )
        },
    }
}

/// The number of at least 1 that the value of a variable denotes, if it denotes one.
fn read_count(variable: Option<&str>) -> (count: Option<usize>)
    ensures
        match count {
            Some(n) => count_in(optional_text(variable)) == Some(n as nat),
            None => count_in(optional_text(variable)) is None,
        },
{
    match variable {
        Some(value) => match parse_unsigned(value, usize::MAX as u64) {
            Some(n) => if n >= 1 {
                Some(n as usize)
            } else {
                None
            },
            None => None,
        },
        None => None,
    }
}

/// How many requests may be in flight for each account, given the value of the variable
/// `KIRO_CONCURRENT_PER_ACCOUNT`.
pub fn concurrent_per_account(variable: Option<&str>) -> (per_account: usize)
    ensures
        per_account == per_account_setting(optional_text(variable)),
{
    match read_count(variable) {
        Some(n) => n,
        None => DEFAULT_CONCURRENT_PER_ACCOUNT,
    }
}

/// How many seconds the response headers may take, given the value of the variable
/// `KIRO_FIRST_BYTE_TIMEOUT_SECS`. With 0 they may take any time.
pub fn first_byte_timeout_secs(variable: Option<&str>) -> (secs: u64)
    ensures
        secs == first_byte_timeout_setting(optional_text(variable)),
{
    match variable {
        Some(value) => match parse_unsigned(value, u64::MAX) {
            Some(n) => n,
            None => DEFAULT_FIRST_BYTE_TIMEOUT_SECS,
        },
        None => DEFAULT_FIRST_BYTE_TIMEOUT_SECS,
    }
}

/// How many seconds the response headers of a call may take, if there is a limit. Calls of tools
/// have none, and a setting of 0 is none.
pub open spec fn first_byte_limit_of(kind: CallKind, setting: u64) -> Option<u64> {
    if kind is Api && setting > 0 {
        Some(setting)
    } else {
        None
    }
}

/// How many seconds the response headers of a call may take, if there is a limit. Calls of tools
/// have none, and a setting of 0 is none.
pub fn first_byte_limit(kind: CallKind, setting: u64) -> (limit: Option<u64>)
    ensures
        limit == first_byte_limit_of(kind, setting),
{
    match kind {
        CallKind::Api { .. } => if setting > 0 {
            Some(setting)
        } else {
            None
        },
        CallKind::Mcp => None,
    }
}

/// The limit on requests in flight for so many accounts, whether it is fixed, and the limit for
/// each account, given the values of the variables `KIRO_CONCURRENT_PER_ACCOUNT` and
/// `KIRO_MAX_CONCURRENT`.
pub fn initial_concurrency_config(
    account_count: usize,
    per_account: Option<&str>,
    absolute: Option<&str>,
) -> (config: (usize, bool, usize))
    ensures
        (config.0 as nat, config.1, config.2 as nat) == concurrency_setting(
            account_count as nat,
            optional_text(per_account),
            optional_text(absolute),
        ),
{
    let per: usize = concurrent_per_account(per_account);
    if let Some(max) = read_count(absolute) {
        return (max, true, per);
    }
    (scaled_limit(per, account_count), false, per)
}

/// Whatever the variables hold, at least one request may be in flight.
pub proof fn law_some_request_may_be_in_flight(
    account_count: nat,
    per_account: Option<Seq<char>>,
    absolute: Option<Seq<char>>,
)
    ensures
        concurrency_setting(account_count, per_account, absolute).0 >= 1,
        concurrency_setting(account_count, per_account, absolute).2 >= 1,
{
    let per = per_account_setting(per_account);
    assert(at_least_one(per) * at_least_one(account_count) >= 1) by (nonlinear_arith)
        requires
            at_least_one(per) >= 1,
            at_least_one(account_count) >= 1,
    ;
}

/// A fixed limit is the same for every number of accounts.
pub proof fn law_fixed_limit_ignores_accounts(
    some_accounts: nat,
    other_accounts: nat,
    per_account: Option<Seq<char>>,
    absolute: Option<Seq<char>>,
)
    requires
        count_in(absolute) is Some,
    ensures
        concurrency_setting(some_accounts, per_account, absolute) == concurrency_setting(
            other_accounts,
            per_account,
            absolute,
        ),
        concurrency_setting(some_accounts, per_account, absolute).1,
{
}

/// The number in a variable is the setting, and where it has none the default is: 5 requests for
/// each account, where 0 is no number either, and 32 seconds, where 0 is one.
pub proof fn law_settings_are_read(value: Seq<char>)
    ensures
        per_account_setting(None) == 5,
        first_byte_timeout_setting(None) == 32,
        match unsigned_value(trimmed(value), usize::MAX as nat) {
            Some(n) => per_account_setting(Some(value)) == if n >= 1 {
                n
            } else {
                5
            },
            None => per_account_setting(Some(value)) == 5,
        },
        match unsigned_value(trimmed(value), u64::MAX as nat) {
            Some(n) => first_byte_timeout_setting(Some(value)) == n,
            None => first_byte_timeout_setting(Some(value)) == 32,
        },
{
}

/// A number in the variable `absolute` is the limit, whatever the accounts. Otherwise the limit is
/// the number for each account times the number of accounts, and no accounts count as one; a
/// product beyond the largest machine word is that word. The number for each account is read in
/// either case.
pub proof fn law_limits_at_the_start(
    account_count: nat,
    per_account: Option<Seq<char>>,
    absolute: Option<Seq<char>>,
)
    ensures
        ({
            let (max, fixed, per) = concurrency_setting(account_count, per_account, absolute);
            let product = per * (if account_count >= 1 {
                account_count
            } else {
                1
            });
            let number = match absolute {
                Some(value) => unsigned_value(trimmed(value), usize::MAX as nat),
                None => None,
            };
            &&& per == per_account_setting(per_account)
            &&& fixed <==> (number matches Some(n) && n >= 1)
            &&& fixed ==> number == Some(max)
            &&& !fixed ==> max == if product <= usize::MAX {
                product
            } else {
                usize::MAX as nat
            }
        }),
{
}

/// The assistant is waited for as long as the setting says, and a setting of 0 says for any time.
/// Tools are waited for in any case.
pub proof fn law_first_byte_limits(kind: CallKind, setting: u64)
    ensures
        first_byte_limit_of(kind, setting) is Some <==> kind is Api && setting >= 1,
        first_byte_limit_of(kind, setting) matches Some(limit) ==> limit == setting,
{
}

} // verus!
