//! HTTP status codes, and what becomes of a response that has one.
use crate::text::decimal_digits;
use reqwest::StatusCode;
use vstd::prelude::*;

verus! {

/// How a status code is displayed: its number and its canonical reason phrase.
pub uninterp spec fn status_line(code: u16) -> Seq<char>;

/// Calls `StatusCode::from_u16` and displays the result. The contract claims that every number of
/// three digits is a status code, and that how it is displayed depends on the number alone: the
/// displayed text has the name `status_line`, and it begins with the number and a space.
#[verifier::external_body]
fn displayed(code: u16) -> (line: String)
    requires
        100 <= code <= 999,
    ensures
        line@ == status_line(code),
        line@.len() > 4,
        line@.take(4) == decimal_digits(code as nat).push(' '),
{
    StatusCode::from_u16(code).unwrap().to_string()
}

/// An HTTP status code.
#[derive(Clone, Copy)]
pub struct HttpStatus {
    code: u16,
}

impl HttpStatus {
    #[verifier::type_invariant]
    spec fn has_three_digits(self) -> bool {
        100 <= self.code <= 999
    }

    /// The number.
    pub closed spec fn number(self) -> u16 {
        self.code
    }

    /// The status code of a number, if it has three digits.
    pub fn new(code: u16) -> (status: Option<HttpStatus>)
        ensures
            match status {
                Some(s) => 100 <= code <= 999 && s.number() == code,
                None => code < 100 || code > 999,
            },
    {
        if 100 <= code && code <= 999 {
            Some(HttpStatus { code })
        } else {
            None
        }
    }

    /// The number.
    pub fn as_u16(self) -> (code: u16)
        ensures
            code == self.number(),
    {
        self.code
    }

    /// The number and the canonical reason phrase.
    pub fn line(self) -> (line: String)
        ensures
            line@ == status_line(self.number()),
            line@.take(4) == decimal_digits(self.number() as nat).push(' '),
    {
        proof {
            use_type_invariant(&self);
        }
        displayed(self.code)
    }
}

/// What becomes of a response.
#[derive(Clone, Copy, PartialEq, Eq, Structural)]
pub enum Disposition {
    /// It is what the caller asked for.
    Deliver,
    /// The account's quota is used up: another account takes over.
    ExhaustQuota,
    /// The account has failed: another account may take over.
    BlameAccount,
    /// The upstream is throttling the account: it is tried again later.
    Throttle,
    /// The upstream has failed for a passing reason: it is tried again, at no account's expense.
    Transient,
    /// The request itself is at fault: trying again is no use.
    Reject,
}

/// What becomes of a response with the status code `code`, given whether its body says that the
/// monthly quota is used up.
pub open spec fn disposition_of(code: u16, monthly_limit: bool) -> Disposition {
    if 200 <= code < 300 {
        Disposition::Deliver
    } else if code == 402 && monthly_limit {
        Disposition::ExhaustQuota
    } else if code == 401 || code == 403 {
        Disposition::BlameAccount
    } else if code == 429 {
        Disposition::Throttle
    } else if 400 <= code < 500 && code != 408 {
        Disposition::Reject
    } else {
        Disposition::Transient
    }
}

/// What becomes of a response with the status code `code`, given whether its body says that the
/// monthly quota is used up.
pub fn disposition(code: u16, monthly_limit: bool) -> (found: Disposition)
    ensures
        found == disposition_of(code, monthly_limit),
{
    if 200 <= code && code < 300 {
        return Disposition::Deliver;
    }
    if code == 402 && monthly_limit {
        return Disposition::ExhaustQuota;
    }
    if code == 400 {
        return Disposition::Reject;
    }
    if code == 401 || code == 403 {
        return Disposition::BlameAccount;
    }
    if code == 429 {
        return Disposition::Throttle;
    }
    if code == 408 || (500 <= code && code < 600) {
        return Disposition::Transient;
    }
    if 400 <= code && code < 500 {
        return Disposition::Reject;
    }
    Disposition::Transient
}

/// When each disposition is the right one. Only a code from 200 to 299 is what the caller asked
/// for; of those from 400 to 499 the account is to blame for 401 and 403, for 402 where the quota is
/// used up, and 429 and 408 are tried again; everything else may pass.
pub proof fn law_dispositions(code: u16, monthly_limit: bool)
    ensures
        ({
            let found = disposition_of(code, monthly_limit);
            &&& found is Deliver <==> 200 <= code <= 299
            &&& found is ExhaustQuota <==> code == 402 && monthly_limit
            &&& found is BlameAccount <==> code == 401 || code == 403
            &&& found is Throttle <==> code == 429
            &&& found is Transient <==> code <= 199 || 300 <= code <= 399 || code == 408 || code
                >= 500
        }),
{
}

} // verus!
