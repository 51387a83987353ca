//! When to ask the platform for a download link again. Links and credentials come
//! from the runtime; the core only decides whether another request is worth it.

use vstd::prelude::*;

use crate::text::str_chars;

verus! {

/// How many times a link is requested before the last error is reported.
pub const LINK_ATTEMPTS: u32 = 3;

/// Whether `s` starts with `p`.
pub open spec fn spec_starts_with(s: Seq<char>, p: Seq<char>) -> bool {
    p.len() <= s.len() && s.take(p.len() as int) == p
}

/// Whether a link error is temporary: the platforms' messages for network,
/// read and parse failures start with these prefixes.
pub open spec fn spec_is_retryable_link_error(error: Seq<char>) -> bool {
    spec_starts_with(error, "网络错误"@) || spec_starts_with(error, "读取响应失败"@)
        || spec_starts_with(error, "解析响应失败"@)
}

/// Whether `s` starts with the characters of `p`.
pub fn starts_with(s: &[char], p: &str) -> (r: bool)
    ensures
        r == spec_starts_with(s@, p@),
{
    let pc = str_chars(p);
    if pc.len() > s.len() {
        return false;
    }
    let mut i: usize = 0;
    while i < pc.len()
        invariant
            i <= pc.len(),
            pc.len() <= s.len(),
            pc@ == p@,
            forall|k: int| 0 <= k < i ==> s@[k] == pc@[k],
        decreases pc.len() - i,
    {
        if s[i] != pc[i] {
            assert(s@.take(pc.len() as int)[i as int] != p@[i as int]);
            return false;
        }
        i = i + 1;
    }
    assert(s@.take(pc.len() as int) =~= p@);
    true
}

/// Classifies a link error by the platforms' message prefixes, keeping the
/// client's retry behaviour.
pub fn is_retryable_link_error(error: &str) -> (r: bool)
    ensures
        r == spec_is_retryable_link_error(error@),
{
    let chars = str_chars(error);
    starts_with(chars.as_slice(), "网络错误") || starts_with(chars.as_slice(), "读取响应失败")
        || starts_with(chars.as_slice(), "解析响应失败")
}

/// What follows one request for a link.
#[derive(Debug)]
pub enum LinkAttemptDecision {
    /// The request sequence ends with this result.
    Finish(Result<(String, String), String>),
    /// Wait this many seconds, then request again.
    RetryAfter(u64),
}

/// Decides after request number `attempt` (from 0): a link is returned, a
/// definite refusal is returned at once, and a temporary error is retried after
/// 1 and then 2 seconds; the error of the third request is final.
pub fn after_link_attempt(attempt: u32, result: Result<(String, String), String>) -> (r: LinkAttemptDecision)
    requires
        attempt < LINK_ATTEMPTS,
    ensures
        match result {
            Ok(link) => r matches LinkAttemptDecision::Finish(Ok(l)) && l.0@ == link.0@ && l.1@ == link.1@,
            Err(e) => if spec_is_retryable_link_error(e@) && attempt + 1 < LINK_ATTEMPTS {
                r == LinkAttemptDecision::RetryAfter(if attempt == 0 {
                    1u64
                } else {
                    2u64
                })
            } else {
                r matches LinkAttemptDecision::Finish(Err(m)) && m@ == e@
            },
        },
{
    match result {
        Ok(link) => LinkAttemptDecision::Finish(Ok(link)),
        Err(error) => {
            if is_retryable_link_error(error.as_str()) && attempt + 1 < LINK_ATTEMPTS {
                let wait: u64 = if attempt == 0 {
                    1
                } else {
                    2
                };
                LinkAttemptDecision::RetryAfter(wait)
            } else {
                LinkAttemptDecision::Finish(Err(error))
            }
        },
    }
}

} // verus!
