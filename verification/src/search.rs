//! Error classification shared by the agentic search loop.
use vstd::prelude::*;
use crate::text::{chars_of, contains, contains_str, lower, lower_exec, occurs_at};

verus! {

broadcast use vstd::string::group_string_axioms;

/// Number of substrings that mark an error message as transient.
pub const TRANSIENT_MARKER_COUNT: usize = 16;

/// The `i`-th transient-error marker (matched against the lowercased
/// message): Unix/BSD wording, then Windows wording and WSA error codes.
pub open spec fn transient_marker_spec(i: int) -> Seq<char> {
    if i == 0 { "connection refused"@ }
    else if i == 1 { "connection reset"@ }
    else if i == 2 { "timed out"@ }
    else if i == 3 { "timeout"@ }
    else if i == 4 { "dns"@ }
    else if i == 5 { "broken pipe"@ }
    else if i == 6 { "actively refused"@ }
    else if i == 7 { "host is unreachable"@ }
    else if i == 8 { "no route to host"@ }
    else if i == 9 { "network is unreachable"@ }
    else if i == 10 { "forcibly closed"@ }
    else if i == 11 { "(os error 10061)"@ }
    else if i == 12 { "(os error 10060)"@ }
    else if i == 13 { "(os error 10054)"@ }
    else if i == 14 { "(os error 10051)"@ }
    else { "(os error 10065)"@ }
}

/// The `i`-th transient-error marker.
pub fn transient_marker(i: usize) -> (p: &'static str)
    requires
        i < TRANSIENT_MARKER_COUNT,
    ensures
        p@ == transient_marker_spec(i as int),
{
    match i {
        0 => "connection refused",
        1 => "connection reset",
        2 => "timed out",
        3 => "timeout",
        4 => "dns",
        5 => "broken pipe",
        6 => "actively refused",
        7 => "host is unreachable",
        8 => "no route to host",
        9 => "network is unreachable",
        10 => "forcibly closed",
        11 => "(os error 10061)",
        12 => "(os error 10060)",
        13 => "(os error 10054)",
        14 => "(os error 10051)",
        _ => "(os error 10065)",
    }
}

/// Whether an error message denotes a transient connection fault.
pub open spec fn is_transient_spec(msg: Seq<char>) -> bool {
    exists|i: int| 0 <= i < TRANSIENT_MARKER_COUNT && contains(lower(msg), #[trigger] transient_marker_spec(i))
}

/// Classifies an error message as transient (worth a single retry):
/// connection faults, timeouts, DNS failures and broken pipes, in both
/// Unix and Windows wording, case-insensitively.
pub fn is_transient_connect_error(msg: &str) -> (b: bool)
    ensures
        b == is_transient_spec(msg@),
{
    let m = lower_exec(&chars_of(msg));
    let mut i: usize = 0;
    while i < TRANSIENT_MARKER_COUNT
        invariant
            i <= TRANSIENT_MARKER_COUNT,
            m@ == lower(msg@),
            forall|k: int| 0 <= k < i ==> !contains(m@, #[trigger] transient_marker_spec(k)),
        decreases TRANSIENT_MARKER_COUNT - i,
    {
        if contains_str(&m, transient_marker(i)) {
            return true;
        }
        i = i + 1;
    }
    false
}

/// What a retrying caller does after an attempt.
#[derive(Clone, Copy, Debug, PartialEq, Eq, Structural)]
pub enum RetryStep {
    /// Return the result of the attempt that just ran.
    Finish,
    /// Wait the retry delay, then run the operation again.
    RetryAfterDelay,
}

/// The single-retry rule: after a first attempt that failed, wait and try
/// once more; in every other case return what the last attempt gave.
pub open spec fn retry_step_spec(attempts_made: u32, succeeded: bool) -> RetryStep {
    if attempts_made == 1 && !succeeded {
        RetryStep::RetryAfterDelay
    } else {
        RetryStep::Finish
    }
}

/// Decides what follows an attempt of a retried operation.
pub fn retry_step(attempts_made: u32, succeeded: bool) -> (r: RetryStep)
    ensures
        r == retry_step_spec(attempts_made, succeeded),
{
    if attempts_made == 1 && !succeeded {
        RetryStep::RetryAfterDelay
    } else {
        RetryStep::Finish
    }
}

/// The operation runs at most twice, and a success is never retried:
/// after the second attempt, or after any success, the caller finishes.
pub proof fn law_at_most_two_attempts(attempts_made: u32, succeeded: bool)
    ensures
        attempts_made >= 2 ==> retry_step_spec(attempts_made, succeeded) == RetryStep::Finish,
        succeeded ==> retry_step_spec(attempts_made, succeeded) == RetryStep::Finish,
{
}

/// ASCII uppercase of a character (`char::to_ascii_uppercase`).
pub open spec fn upper_char(c: char) -> char {
    if 'a' <= c && c <= 'z' {
        ((c as u32) - 32) as char
    } else {
        c
    }
}

/// ASCII uppercase of a string (`str::to_ascii_uppercase`).
pub open spec fn upper(s: Seq<char>) -> Seq<char> {
    Seq::new(s.len(), |i: int| upper_char(s[i]))
}

/// An occurrence in `a` is an occurrence in `a` with text before or after
/// it.
proof fn lemma_contains_in_concat(a: Seq<char>, b: Seq<char>, p: Seq<char>)
    requires
        contains(a, p),
    ensures
        contains(b + a, p),
        contains(a + b, p),
{
    let i = choose|i: int| occurs_at(a, p, i);
    assert((b + a).subrange(b.len() + i, b.len() + i + p.len()) =~= a.subrange(i, i + p.len()));
    assert(occurs_at(b + a, p, b.len() + i));
    assert((a + b).subrange(i, i + p.len()) =~= a.subrange(i, i + p.len()));
    assert(occurs_at(a + b, p, i));
}

/// Transient errors are told apart case-insensitively and by substring:
/// lowercasing or uppercasing a message keeps its class, and text around
/// a transient message keeps it transient.
pub proof fn law_transient_case_and_substring(m: Seq<char>, b: Seq<char>)
    ensures
        is_transient_spec(lower(m)) == is_transient_spec(m),
        is_transient_spec(upper(m)) == is_transient_spec(m),
        is_transient_spec(m) ==> is_transient_spec(b + m) && is_transient_spec(m + b),
{
    assert(lower(lower(m)) =~= lower(m));
    assert forall|i: int| 0 <= i < m.len() implies lower(upper(m))[i] == lower(m)[i] by {
        let c = m[i];
        if 'a' <= c && c <= 'z' {
            assert(((((c as u32) - 32) as char) as u32) == (c as u32) - 32);
        }
    }
    assert(lower(upper(m)) =~= lower(m));
    if is_transient_spec(m) {
        let k = choose|k: int| 0 <= k < TRANSIENT_MARKER_COUNT && contains(lower(m), #[trigger] transient_marker_spec(k));
        assert(lower(b + m) =~= lower(b) + lower(m));
        assert(lower(m + b) =~= lower(m) + lower(b));
        lemma_contains_in_concat(lower(m), lower(b), transient_marker_spec(k));
        assert(contains(lower(b + m), transient_marker_spec(k)));
        assert(contains(lower(m + b), transient_marker_spec(k)));
    }
}


/// Which messages count as transient, stated with the wording itself: a
/// message whose ASCII-lowercased text contains `connection refused`,
/// `connection reset`, `timed out`, `timeout`, `dns`, `broken pipe`,
/// `actively refused`, `host is unreachable`, `no route to host`,
/// `network is unreachable`, `forcibly closed` or one of the WSA codes
/// `(os error 10061)`, `(os error 10060)`, `(os error 10054)`,
/// `(os error 10051)`, `(os error 10065)` is transient; and a transient
/// message contains one of them.
pub proof fn law_transient_wording(m: Seq<char>, k: Seq<char>)
    ensures
        ((
            k == "connection refused"@ || k == "connection reset"@
            || k == "timed out"@ || k == "timeout"@ || k == "dns"@ || k == "broken pipe"@
            || k == "actively refused"@ || k == "host is unreachable"@
            || k == "no route to host"@ || k == "network is unreachable"@
            || k == "forcibly closed"@ || k == "(os error 10061)"@
            || k == "(os error 10060)"@ || k == "(os error 10054)"@
            || k == "(os error 10051)"@ || k == "(os error 10065)"@
        ) && contains(lower(m), k)) ==> is_transient_spec(m),
        is_transient_spec(m) ==> (contains(lower(m), "connection refused"@)
            || contains(lower(m), "connection reset"@)
            || contains(lower(m), "timed out"@)
            || contains(lower(m), "timeout"@)
            || contains(lower(m), "dns"@)
            || contains(lower(m), "broken pipe"@)
            || contains(lower(m), "actively refused"@)
            || contains(lower(m), "host is unreachable"@)
            || contains(lower(m), "no route to host"@)
            || contains(lower(m), "network is unreachable"@)
            || contains(lower(m), "forcibly closed"@)
            || contains(lower(m), "(os error 10061)"@)
            || contains(lower(m), "(os error 10060)"@)
            || contains(lower(m), "(os error 10054)"@)
            || contains(lower(m), "(os error 10051)"@)
            || contains(lower(m), "(os error 10065)"@)),
{
    if (
        k == "connection refused"@ || k == "connection reset"@
        || k == "timed out"@ || k == "timeout"@ || k == "dns"@ || k == "broken pipe"@
        || k == "actively refused"@ || k == "host is unreachable"@
        || k == "no route to host"@ || k == "network is unreachable"@
        || k == "forcibly closed"@ || k == "(os error 10061)"@
        || k == "(os error 10060)"@ || k == "(os error 10054)"@
        || k == "(os error 10051)"@ || k == "(os error 10065)"@
    ) && contains(lower(m), k) {
        let i: int = if k == "connection refused"@ { 0 }
        else if k == "connection reset"@ { 1 }
        else if k == "timed out"@ { 2 }
        else if k == "timeout"@ { 3 }
        else if k == "dns"@ { 4 }
        else if k == "broken pipe"@ { 5 }
        else if k == "actively refused"@ { 6 }
        else if k == "host is unreachable"@ { 7 }
        else if k == "no route to host"@ { 8 }
        else if k == "network is unreachable"@ { 9 }
        else if k == "forcibly closed"@ { 10 }
        else if k == "(os error 10061)"@ { 11 }
        else if k == "(os error 10060)"@ { 12 }
        else if k == "(os error 10054)"@ { 13 }
        else if k == "(os error 10051)"@ { 14 }
        else { 15 };
        assert(transient_marker_spec(i) == k);
    }
    if is_transient_spec(m) {
        let i = choose|i: int| 0 <= i < TRANSIENT_MARKER_COUNT && contains(lower(m), #[trigger] transient_marker_spec(i));
        assert(contains(lower(m), transient_marker_spec(i)));
    }
}

} // verus!
