//! Calling System One over HTTP: who is called, with what credentials, and
//! what each answer means for whether to try again.
//!
//! Sending is the caller's business. Deciding is here: which status codes
//! mean the service was busy, how many attempts a call gets and how long to
//! back off between them, and what a refusal says.
use crate::credential::ApiKey;
use crate::text::trim;
use vstd::prelude::*;

verus! {

/// A client for System One.
pub struct SystemOne {
    key: ApiKey,
    endpoint: String,
    attempts: u32,
}

/// The request could not be sent, or its answer could not be read.
#[derive(Debug, Clone, PartialEq, Eq)]
pub struct TransportError(pub String);

/// A call to System One failed.
#[derive(Debug, Clone, PartialEq, Eq)]
pub enum ApiError {
    /// The request never completed, or its answer did not parse.
    Transport(TransportError),
    /// The endpoint answered with something other than success.
    Status {
        /// The HTTP status.
        code: u16,
        /// What it said, trimmed and cut short.
        detail: String,
    },
    /// The service was busy on every attempt.
    Busy {
        /// How many attempts were made.
        attempts: u32,
    },
}

/// How many attempts a call gets while the service says it is busy.
pub const ATTEMPTS: u32 = 4;

/// How much of a refusal's body is kept, in characters.
pub const DETAIL_LIMIT: usize = 400;

/// How long to wait before the second attempt, in milliseconds; each later
/// wait is twice the one before.
pub const FIRST_BACKOFF_MS: u64 = 500;

/// How long to wait after the `n`th busy answer, counting from one.
pub open spec fn backoff(n: nat) -> nat
    decreases n,
{
    if n <= 1 {
        FIRST_BACKOFF_MS as nat
    } else {
        2 * backoff((n - 1) as nat)
    }
}

/// The waits double from the first: the `n`th is `2^(n - 1)` times it, so
/// none before the thirty-second reaches `2^31` times the first.
proof fn lemma_backoff_bound(n: nat)
    requires
        1 <= n <= 31,
    ensures
        backoff(n) == FIRST_BACKOFF_MS * vstd::arithmetic::power2::pow2((n - 1) as nat),
        backoff(n) <= FIRST_BACKOFF_MS * 0x4000_0000,
    decreases n,
{
    vstd::arithmetic::power2::lemma2_to64();
    if n > 1 {
        lemma_backoff_bound((n - 1) as nat);
        vstd::arithmetic::power2::lemma_pow2_unfold((n - 1) as nat);
    }
    if n - 1 < 30 {
        vstd::arithmetic::power2::lemma_pow2_strictly_increases((n - 1) as nat, 30);
    }
}

/// Whether a status means the service is busy rather than refusing.
pub open spec fn busy(code: u16) -> bool {
    code == 429 || code == 529 || code == 503
}

/// Whether a status means the service is busy rather than refusing.
pub fn is_busy(code: u16) -> (r: bool)
    ensures
        r == busy(code),
{
    code == 429 || code == 529 || code == 503
}

/// What to do after an attempt.
#[derive(Debug, Clone, Copy, PartialEq, Eq, Structural)]
pub enum Next {
    /// Wait this long, in milliseconds, and try again.
    Retry(u64),
    /// Give up: the service was busy on every attempt.
    GiveUp,
    /// Hand back what the attempt produced.
    Done,
}

impl SystemOne {
    /// A client for the default endpoint, with this key.
    pub fn new(key: ApiKey) -> (c: SystemOne)
        ensures
            c.endpoint() == crate::client::ENDPOINT@,
            c.attempts() == ATTEMPTS,
            c.key()@ == key@,
    {
        SystemOne { key, endpoint: String::from_str(crate::client::ENDPOINT), attempts: ATTEMPTS }
    }

    /// The same client, calling `endpoint` instead.
    pub fn at(self, endpoint: String) -> (c: SystemOne)
        ensures
            c.endpoint() == endpoint@,
            c.attempts() == self.attempts(),
            c.key()@ == self.key()@,
    {
        SystemOne { endpoint, ..self }
    }

    /// Where this client sends requests.
    pub closed spec fn endpoint(&self) -> Seq<char> {
        self.endpoint@
    }

    /// How many attempts a call gets.
    pub closed spec fn attempts(&self) -> u32 {
        self.attempts
    }

    /// The key this client sends.
    pub closed spec fn key(&self) -> ApiKey {
        self.key
    }

    /// Where this client sends requests.
    pub fn endpoint_url(&self) -> (r: &str)
        ensures
            r@ == self.endpoint(),
    {
        self.endpoint.as_str()
    }

    /// The `Authorization` header's value.
    pub fn authorization(&self) -> (r: String)
        ensures
            r@ == "Bearer "@ + self.key()@,
    {
        let mut s = String::from_str("Bearer ");
        crate::text::push_str(&mut s, self.key.expose());
        s
    }

    /// What to do after attempt number `attempt`, counting from one, which
    /// answered with `status` when it got as far as an answer with a status
    /// other than success.
    ///
    /// A busy service is waited out, the wait doubling each time, until the
    /// attempts run out; anything else is final.
    pub fn after_attempt(&self, attempt: u32, status: Option<u16>) -> (n: Next)
        requires
            1 <= attempt <= self.attempts(),
            self.attempts() <= 32,
        ensures
            match status {
                Some(code) if busy(code) => if attempt < self.attempts() {
                    n == Next::Retry(backoff(attempt as nat) as u64)
                } else {
                    n == Next::GiveUp
                },
                _ => n == Next::Done,
            },
    {
        match status {
            Some(code) => {
                if is_busy(code) {
                    if attempt < self.attempts {
                        let mut wait: u64 = FIRST_BACKOFF_MS;
                        let mut k: u32 = 1;
                        while k < attempt
                            invariant
                                1 <= k <= attempt <= 32,
                                wait == backoff(k as nat),
                            decreases attempt - k,
                        {
                            proof {
                                lemma_backoff_bound(k as nat);
                            }
                            wait = wait * 2;
                            k = k + 1;
                        }
                        return Next::Retry(wait);
                    }
                    return Next::GiveUp;
                }
                Next::Done
            },
            None => Next::Done,
        }
    }

    /// The refusal a call ends with when the service was busy throughout.
    pub fn busy_error(&self) -> (e: ApiError)
        ensures
            e == (ApiError::Busy { attempts: self.attempts() }),
    {
        ApiError::Busy { attempts: self.attempts }
    }
}

/// What a refusal's body is kept as: trimmed, and no longer than
/// [`DETAIL_LIMIT`] characters.
pub open spec fn detail_of(body: Seq<char>) -> Seq<char> {
    let t = trim(body);
    if t.len() > DETAIL_LIMIT {
        t.take(DETAIL_LIMIT as int)
    } else {
        t
    }
}

/// The detail a refusal carries.
pub fn detail(body: &str) -> (r: String)
    ensures
        r@ == detail_of(body@),
{
    let chars = crate::text::chars_of(body);
    let t = crate::text::trim_chars(chars.as_slice());
    let end = if t.len() > DETAIL_LIMIT {
        DETAIL_LIMIT
    } else {
        t.len()
    };
    assert(t@.subrange(0, end as int) =~= detail_of(body@));
    crate::text::string_between(t.as_slice(), 0, end)
}

impl ApiError {
    /// What went wrong, for a person to read.
    pub fn message(&self) -> (s: String)
        ensures
            s@ == match self {
                ApiError::Transport(inner) => "transport error: "@ + inner.0@,
                ApiError::Status { code, detail } => if detail@.len() == 0 {
                    if *code == 401 {
                        "rejected (401): the API key is missing or not valid"@
                    } else {
                        "rejected ("@ + crate::text::decimal(*code as nat) + ")"@
                    }
                } else {
                    "rejected ("@ + crate::text::decimal(*code as nat) + "): "@ + detail@
                },
                ApiError::Busy { attempts } => "the service was busy on all "@ + crate::text::decimal(
                    *attempts as nat,
                ) + " attempts"@,
            },
    {
        match self {
            ApiError::Transport(inner) => {
                let mut s = String::from_str("transport error: ");
                crate::text::push_str(&mut s, inner.0.as_str());
                s
            },
            ApiError::Status { code, detail } => {
                if detail.as_str().unicode_len() == 0 {
                    if *code == 401 {
                        return String::from_str("rejected (401): the API key is missing or not valid");
                    }
                    let mut s = String::from_str("rejected (");
                    crate::text::push_decimal(&mut s, *code as u64);
                    crate::text::push_str(&mut s, ")");
                    s
                } else {
                    let mut s = String::from_str("rejected (");
                    crate::text::push_decimal(&mut s, *code as u64);
                    crate::text::push_str(&mut s, "): ");
                    crate::text::push_str(&mut s, detail.as_str());
                    s
                }
            },
            ApiError::Busy { attempts } => {
                let mut s = String::from_str("the service was busy on all ");
                crate::text::push_decimal(&mut s, *attempts as u64);
                crate::text::push_str(&mut s, " attempts");
                s
            },
        }
    }
}

} // verus!
