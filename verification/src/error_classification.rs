//! Sorting transfer errors into categories and choosing how to retry them.

use vstd::prelude::*;
use vstd::arithmetic::power2::{pow2, lemma_pow2_unfold, lemma_pow2_strictly_increases};
use crate::text::{
    contains_seq, lowercase, to_lowercase, chars_of, contains_chars, is_ascii_seq, ascii_lower_seq,
    ascii_upper_seq, lemma_ascii_case_folds,
};

verus! {

/// Category of a transfer error.
#[derive(Debug, Clone, Copy, PartialEq, Eq, Structural)]
pub enum ErrorCategory {
    /// Network connection errors (DNS, refused connection, ...).
    Connection,
    /// Timeouts.
    Timeout,
    /// Server errors (4xx, 5xx).
    Server,
    /// Client errors (416 range not satisfiable, ...).
    Client,
    /// File system errors.
    FileSystem,
    /// Anything else.
    Unknown,
}

/// How an error category is retried.
#[derive(Debug, Clone, Copy, PartialEq, Eq, Structural)]
pub struct RetryStrategy {
    /// Whether to retry at all.
    pub should_retry: bool,
    /// Seconds to wait before retrying.
    pub retry_delay: u64,
    /// Maximum number of retries.
    pub max_retries: usize,
    /// Whether the wait doubles with each attempt.
    pub use_exponential_backoff: bool,
}

/// `m` mentions one of `words`.
pub open spec fn mentions(m: Seq<char>, words: Seq<Seq<char>>) -> bool {
    exists|i: int| 0 <= i < words.len() && contains_seq(m, #[trigger] words[i])
}

pub open spec fn timeout_words() -> Seq<Seq<char>> {
    seq!["timeout"@, "超时"@]
}

pub open spec fn connection_words() -> Seq<Seq<char>> {
    seq!["connection"@, "连接"@, "connect"@, "dns"@, "network"@, "网络"@]
}

pub open spec fn server_words() -> Seq<Seq<char>> {
    seq!["403"@, "404"@, "500"@, "502"@, "503"@, "status"@, "状态码"@]
}

pub open spec fn client_words() -> Seq<Seq<char>> {
    seq!["416"@, "range"@, "范围"@]
}

pub open spec fn file_system_words() -> Seq<Seq<char>> {
    seq!["文件"@, "file"@, "disk"@, "磁盘"@, "permission"@, "权限"@]
}

/// Category of an already lowercased error message: the first group of key
/// words it mentions, in the order timeout, connection, server, client,
/// file system.
pub open spec fn classify_lowered(m: Seq<char>) -> ErrorCategory {
    if mentions(m, timeout_words()) {
        ErrorCategory::Timeout
    } else if mentions(m, connection_words()) {
        ErrorCategory::Connection
    } else if mentions(m, server_words()) {
        ErrorCategory::Server
    } else if mentions(m, client_words()) {
        ErrorCategory::Client
    } else if mentions(m, file_system_words()) {
        ErrorCategory::FileSystem
    } else {
        ErrorCategory::Unknown
    }
}

fn mentions_any(m: &Vec<char>, words: &Vec<&str>) -> (b: bool)
    ensures
        b == exists|i: int| 0 <= i < words@.len() && contains_seq(m@, #[trigger] words@[i]@),
{
    let mut i: usize = 0;
    while i < words.len()
        invariant
            i <= words.len(),
            forall|k: int| 0 <= k < i ==> !contains_seq(m@, #[trigger] words@[k]@),
        decreases words.len() - i,
    {
        let w = chars_of(words[i]);
        if contains_chars(m, &w) {
            return true;
        }
        i = i + 1;
    }
    false
}

proof fn lemma_mentions(m: Seq<char>, words: Seq<&str>, specw: Seq<Seq<char>>)
    requires
        words.len() == specw.len(),
        forall|i: int| 0 <= i < words.len() ==> (#[trigger] words[i])@ == specw[i],
    ensures
        mentions(m, specw) == exists|i: int| 0 <= i < words.len() && contains_seq(m, #[trigger] words[i]@),
{
    if mentions(m, specw) {
        let i = choose|i: int| 0 <= i < specw.len() && contains_seq(m, #[trigger] specw[i]);
        assert(contains_seq(m, words[i]@));
    }
    if exists|i: int| 0 <= i < words.len() && contains_seq(m, #[trigger] words[i]@) {
        let i = choose|i: int| 0 <= i < words.len() && contains_seq(m, #[trigger] words[i]@);
        assert(contains_seq(m, specw[i]));
    }
}

/// Category of a message that is already lowercase.
pub fn classify_lowercase_message(msg: &str) -> (c: ErrorCategory)
    ensures
        c == classify_lowered(msg@),
{
    let m = chars_of(msg);
    let t = vec!["timeout", "超时"];
    let c = vec!["connection", "连接", "connect", "dns", "network", "网络"];
    let s = vec!["403", "404", "500", "502", "503", "status", "状态码"];
    let l = vec!["416", "range", "范围"];
    let f = vec!["文件", "file", "disk", "磁盘", "permission", "权限"];
    proof {
        lemma_mentions(m@, t@, timeout_words());
        lemma_mentions(m@, c@, connection_words());
        lemma_mentions(m@, s@, server_words());
        lemma_mentions(m@, l@, client_words());
        lemma_mentions(m@, f@, file_system_words());
    }
    if mentions_any(&m, &t) {
        ErrorCategory::Timeout
    } else if mentions_any(&m, &c) {
        ErrorCategory::Connection
    } else if mentions_any(&m, &s) {
        ErrorCategory::Server
    } else if mentions_any(&m, &l) {
        ErrorCategory::Client
    } else if mentions_any(&m, &f) {
        ErrorCategory::FileSystem
    } else {
        ErrorCategory::Unknown
    }
}

/// Category of an error message, matched case-insensitively.
pub fn classify_error(error_message: &str) -> (c: ErrorCategory)
    ensures
        c == classify_lowered(lowercase(error_message@)),
        is_ascii_seq(error_message@) ==> c == classify_lowered(ascii_lower_seq(error_message@)),
{
    let msg = to_lowercase(error_message);
    classify_lowercase_message(msg.as_str())
}

/// Law: the key words that decide the category of a lowercased message, in
/// order of precedence: `timeout`/`超时` make a timeout; else `connection`,
/// `连接`, `connect`, `dns`, `network`, `网络` a connection error; else `403`,
/// `404`, `500`, `502`, `503`, `status`, `状态码` a server error; else `416`,
/// `range`, `范围` a client error; else `文件`, `file`, `disk`, `磁盘`,
/// `permission`, `权限` a file-system error; anything else is unknown.
pub proof fn lemma_classification_words(m: Seq<char>)
    ensures
        ({
            let t = contains_seq(m, "timeout"@) || contains_seq(m, "超时"@);
            let c = contains_seq(m, "connection"@) || contains_seq(m, "连接"@) || contains_seq(m, "connect"@)
                || contains_seq(m, "dns"@) || contains_seq(m, "network"@) || contains_seq(m, "网络"@);
            let sv = contains_seq(m, "403"@) || contains_seq(m, "404"@) || contains_seq(m, "500"@)
                || contains_seq(m, "502"@) || contains_seq(m, "503"@) || contains_seq(m, "status"@)
                || contains_seq(m, "状态码"@);
            let cl = contains_seq(m, "416"@) || contains_seq(m, "range"@) || contains_seq(m, "范围"@);
            let f = contains_seq(m, "文件"@) || contains_seq(m, "file"@) || contains_seq(m, "disk"@)
                || contains_seq(m, "磁盘"@) || contains_seq(m, "permission"@) || contains_seq(m, "权限"@);
            classify_lowered(m) == if t {
                ErrorCategory::Timeout
            } else if c {
                ErrorCategory::Connection
            } else if sv {
                ErrorCategory::Server
            } else if cl {
                ErrorCategory::Client
            } else if f {
                ErrorCategory::FileSystem
            } else {
                ErrorCategory::Unknown
            }
        }),
{
    let tw = timeout_words();
    let cw = connection_words();
    let sw = server_words();
    let lw = client_words();
    let fw = file_system_words();
    assert(tw[0] == "timeout"@ && tw[1] == "超时"@);
    assert(cw[0] == "connection"@ && cw[1] == "连接"@ && cw[2] == "connect"@ && cw[3] == "dns"@
        && cw[4] == "network"@ && cw[5] == "网络"@);
    assert(sw[0] == "403"@ && sw[1] == "404"@ && sw[2] == "500"@ && sw[3] == "502"@ && sw[4] == "503"@
        && sw[5] == "status"@ && sw[6] == "状态码"@);
    assert(lw[0] == "416"@ && lw[1] == "range"@ && lw[2] == "范围"@);
    assert(fw[0] == "文件"@ && fw[1] == "file"@ && fw[2] == "disk"@ && fw[3] == "磁盘"@
        && fw[4] == "permission"@ && fw[5] == "权限"@);
}

/// Law: classification ignores letter case. An ASCII message, its ASCII
/// upper-case form and its ASCII lower-case form are all ASCII and fall in
/// the same category.
pub proof fn lemma_classification_ignores_case(s: Seq<char>)
    requires
        is_ascii_seq(s),
    ensures
        is_ascii_seq(ascii_upper_seq(s)),
        is_ascii_seq(ascii_lower_seq(s)),
        classify_lowered(ascii_lower_seq(ascii_upper_seq(s))) == classify_lowered(ascii_lower_seq(s)),
        classify_lowered(ascii_lower_seq(ascii_lower_seq(s))) == classify_lowered(ascii_lower_seq(s)),
{
    lemma_ascii_case_folds(s);
}

/// `a.max(b)`.
pub open spec fn max_usize(a: usize, b: usize) -> usize {
    if a >= b {
        a
    } else {
        b
    }
}

/// The retry strategy of each category.
pub open spec fn retry_strategy_spec(category: ErrorCategory, default_max_retry: usize) -> RetryStrategy {
    match category {
        ErrorCategory::Connection => RetryStrategy {
            should_retry: true,
            retry_delay: 2,
            max_retries: max_usize(default_max_retry, 3),
            use_exponential_backoff: true,
        },
        ErrorCategory::Timeout => RetryStrategy {
            should_retry: true,
            retry_delay: 5,
            max_retries: max_usize(default_max_retry, 3),
            use_exponential_backoff: false,
        },
        ErrorCategory::Server => RetryStrategy {
            should_retry: true,
            retry_delay: 3,
            max_retries: max_usize(default_max_retry, 2),
            use_exponential_backoff: true,
        },
        ErrorCategory::Client | ErrorCategory::FileSystem => RetryStrategy {
            should_retry: false,
            retry_delay: 0,
            max_retries: 0,
            use_exponential_backoff: false,
        },
        ErrorCategory::Unknown => RetryStrategy {
            should_retry: true,
            retry_delay: 3,
            max_retries: max_usize(default_max_retry, 2),
            use_exponential_backoff: true,
        },
    }
}

fn max_of(a: usize, b: usize) -> (r: usize)
    ensures
        r == max_usize(a, b),
{
    if a >= b {
        a
    } else {
        b
    }
}

/// Retry strategy for an error category.
pub fn get_retry_strategy(error_category: ErrorCategory, default_max_retry: usize) -> (s: RetryStrategy)
    ensures
        s == retry_strategy_spec(error_category, default_max_retry),
{
    match error_category {
        ErrorCategory::Connection => RetryStrategy {
            should_retry: true,
            retry_delay: 2,
            max_retries: max_of(default_max_retry, 3),
            use_exponential_backoff: true,
        },
        ErrorCategory::Timeout => RetryStrategy {
            should_retry: true,
            retry_delay: 5,
            max_retries: max_of(default_max_retry, 3),
            use_exponential_backoff: false,
        },
        ErrorCategory::Server => RetryStrategy {
            should_retry: true,
            retry_delay: 3,
            max_retries: max_of(default_max_retry, 2),
            use_exponential_backoff: true,
        },
        ErrorCategory::Client => RetryStrategy {
            should_retry: false,
            retry_delay: 0,
            max_retries: 0,
            use_exponential_backoff: false,
        },
        ErrorCategory::FileSystem => RetryStrategy {
            should_retry: false,
            retry_delay: 0,
            max_retries: 0,
            use_exponential_backoff: false,
        },
        ErrorCategory::Unknown => RetryStrategy {
            should_retry: true,
            retry_delay: 3,
            max_retries: max_of(default_max_retry, 2),
            use_exponential_backoff: true,
        },
    }
}

/// `2u64.pow(e)`.
pub fn pow2_u64(e: u32) -> (r: u64)
    requires
        e < 64,
    ensures
        r == pow2(e as nat),
{
    let mut r: u64 = 1;
    let mut i: u32 = 0;
    proof {
        vstd::arithmetic::power2::lemma2_to64();
    }
    while i < e
        invariant
            i <= e < 64,
            r == pow2(i as nat),
        decreases e - i,
    {
        proof {
            lemma_pow2_unfold((i + 1) as nat);
            lemma_pow2_strictly_increases((i + 1) as nat, 64);
            lemma_pow2_64();
        }
        r = r * 2;
        i = i + 1;
    }
    r
}

proof fn lemma_pow2_64()
    ensures
        pow2(64) == 0x1_0000_0000_0000_0000,
{
    vstd::arithmetic::power2::lemma2_to64();
}

/// Wait before retry `attempt`: with backoff `retry_delay * 2^attempt`
/// seconds capped at 60; otherwise `retry_delay` seconds.
pub open spec fn retry_delay_secs_spec(attempt: usize, strategy: RetryStrategy) -> int {
    if strategy.use_exponential_backoff {
        let d = strategy.retry_delay * pow2(attempt as nat);
        if d < 60 { d } else { 60 }
    } else {
        strategy.retry_delay as int
    }
}

/// From six doublings on, any positive base delay is past the 60 s cap.
proof fn lemma_backoff_past_cap(attempt: usize, base: u64)
    requires
        attempt >= 6,
        base >= 1,
    ensures
        base * pow2(attempt as nat) >= 64,
{
    vstd::arithmetic::power2::lemma2_to64();
    if attempt > 6 {
        lemma_pow2_strictly_increases(6, attempt as nat);
    }
    let p = pow2(attempt as nat);
    assert(base * p >= p) by (nonlinear_arith)
        requires
            base >= 1,
            p >= 0,
    ;
}

/// Seconds to wait before retry `attempt`. The product is never formed past
/// the cap, so every attempt has a wait.
pub fn calculate_retry_delay_secs(attempt: usize, strategy: &RetryStrategy) -> (secs: u64)
    ensures
        secs == retry_delay_secs_spec(attempt, *strategy),
        strategy.use_exponential_backoff ==> secs <= 60,
{
    if strategy.use_exponential_backoff {
        let base = strategy.retry_delay;
        if base == 0 {
            assert(0 * pow2(attempt as nat) == 0);
            0
        } else if attempt >= 6 {
            proof {
                lemma_backoff_past_cap(attempt, base);
            }
            60
        } else {
            proof {
                vstd::arithmetic::power2::lemma2_to64();
                if attempt < 5 {
                    lemma_pow2_strictly_increases(attempt as nat, 5);
                }
            }
            let p = pow2_u64(attempt as u32);
            assert(p <= 32);
            assert((base as u128) * (p as u128) <= 0xFFFF_FFFF_FFFF_FFFFu128 * 32) by (nonlinear_arith)
                requires
                    p <= 32,
            ;
            let delay: u128 = (base as u128) * (p as u128);
            if delay < 60 {
                delay as u64
            } else {
                60
            }
        }
    } else {
        strategy.retry_delay
    }
}

/// The `Duration` of `secs` whole seconds, as `Duration::from_secs` builds it.
pub uninterp spec fn duration_of_secs(secs: u64) -> std::time::Duration;

/// `Duration::from_secs` (std): a duration of `secs` seconds. `Duration` is
/// opaque here, so the contract names the result (`duration_of_secs`), a
/// function of `secs` alone.
#[verifier::external_body]
fn duration_from_secs(secs: u64) -> (d: std::time::Duration)
    ensures
        d == duration_of_secs(secs),
{
    std::time::Duration::from_secs(secs)
}

/// Wait before retry `attempt`, as a `Duration` of
/// `calculate_retry_delay_secs(attempt, strategy)` seconds.
pub fn calculate_retry_delay(attempt: usize, strategy: &RetryStrategy) -> (d: std::time::Duration)
    ensures
        d == duration_of_secs(retry_delay_secs_spec(attempt, *strategy) as u64),
{
    duration_from_secs(calculate_retry_delay_secs(attempt, strategy))
}

/// Categories that give up at once: client and file system errors always,
/// server errors from the third attempt on.
pub open spec fn fast_fail_spec(category: ErrorCategory, attempt: usize) -> bool {
    match category {
        ErrorCategory::Client => true,
        ErrorCategory::FileSystem => true,
        ErrorCategory::Server => attempt >= 2,
        _ => false,
    }
}

/// Whether to stop retrying now.
pub fn should_fast_fail(error_category: ErrorCategory, attempt: usize) -> (b: bool)
    ensures
        b == fast_fail_spec(error_category, attempt),
{
    match error_category {
        ErrorCategory::Client => true,
        ErrorCategory::FileSystem => true,
        ErrorCategory::Server => attempt >= 2,
        _ => false,
    }
}

/// Law: the retry policy of each category. Connection errors are retried
/// after 2 s with exponential backoff, at least 3 times; timeouts after a
/// fixed 5 s, at least 3 times; server and unknown errors after 3 s with
/// exponential backoff, at least twice; client and file-system errors are
/// never retried. "At least" means the configured count when it is larger.
pub proof fn lemma_retry_policy(category: ErrorCategory, default_max_retry: usize)
    ensures
        retry_strategy_spec(category, default_max_retry).use_exponential_backoff <==> (category
            == ErrorCategory::Connection || category == ErrorCategory::Server || category
            == ErrorCategory::Unknown),
        retry_strategy_spec(category, default_max_retry).should_retry <==> !(category == ErrorCategory::Client
            || category == ErrorCategory::FileSystem),
        category == ErrorCategory::Connection ==> retry_strategy_spec(category, default_max_retry).retry_delay
            == 2 && retry_strategy_spec(category, default_max_retry).max_retries == (if default_max_retry
            >= 3 {
            default_max_retry
        } else {
            3
        }),
        category == ErrorCategory::Timeout ==> retry_strategy_spec(category, default_max_retry).retry_delay
            == 5 && retry_strategy_spec(category, default_max_retry).max_retries == (if default_max_retry
            >= 3 {
            default_max_retry
        } else {
            3
        }),
        (category == ErrorCategory::Server || category == ErrorCategory::Unknown) ==> retry_strategy_spec(
            category,
            default_max_retry,
        ).retry_delay == 3 && retry_strategy_spec(category, default_max_retry).max_retries == (if default_max_retry
            >= 2 {
            default_max_retry
        } else {
            2
        }),
        (category == ErrorCategory::Client || category == ErrorCategory::FileSystem) ==> retry_strategy_spec(
            category,
            default_max_retry,
        ).retry_delay == 0 && retry_strategy_spec(category, default_max_retry).max_retries == 0,
{
}

/// Law: client and file-system errors fail fast at once, server errors from
/// the third attempt on, and no other error ever does.
pub proof fn lemma_fast_fail_policy(category: ErrorCategory, attempt: usize)
    ensures
        fast_fail_spec(category, attempt) <==> (category == ErrorCategory::Client || category
            == ErrorCategory::FileSystem || (category == ErrorCategory::Server && attempt >= 2)),
{
}

/// Law: on the first two attempts an error fails fast exactly when its
/// category's strategy does not retry it.
pub proof fn lemma_fast_fail_agrees_with_strategy(category: ErrorCategory, attempt: usize, default_max_retry: usize)
    requires
        attempt < 2,
    ensures
        fast_fail_spec(category, attempt) == !retry_strategy_spec(category, default_max_retry).should_retry,
{
}

/// Law: a strategy that does not retry waits for nothing and allows no
/// retry; one that retries allows at least two retries and at least the
/// configured number, and waits at least two seconds.
pub proof fn lemma_strategy_shape(category: ErrorCategory, default_max_retry: usize)
    ensures
        !retry_strategy_spec(category, default_max_retry).should_retry ==> {
            &&& retry_strategy_spec(category, default_max_retry).retry_delay == 0
            &&& retry_strategy_spec(category, default_max_retry).max_retries == 0
        },
        retry_strategy_spec(category, default_max_retry).should_retry ==> {
            &&& retry_strategy_spec(category, default_max_retry).max_retries >= 2
            &&& retry_strategy_spec(category, default_max_retry).max_retries >= default_max_retry
            &&& retry_strategy_spec(category, default_max_retry).retry_delay >= 2
        },
{
}

/// Law: with backoff the wait never exceeds 60 seconds and never shrinks
/// from one attempt to the next.
pub proof fn lemma_backoff_capped_and_monotone(a: usize, b: usize, strategy: RetryStrategy)
    requires
        strategy.use_exponential_backoff,
        a <= b,
    ensures
        retry_delay_secs_spec(a, strategy) <= 60,
        retry_delay_secs_spec(a, strategy) <= retry_delay_secs_spec(b, strategy),
{
    if a < b {
        lemma_pow2_strictly_increases(a as nat, b as nat);
    }
    let pa = pow2(a as nat);
    let pb = pow2(b as nat);
    assert(pa <= pb);
    assert(strategy.retry_delay * pa <= strategy.retry_delay * pb) by (nonlinear_arith)
        requires
            pa <= pb,
    ;
}

} // verus!
