//! The text pieces of a report and the summaries it cites.

use vstd::prelude::*;
use crate::data::{phase_token, Phase, Summary};

verus! {

/// `a` and `b` agree before `k` and differ at `k`.
pub open spec fn first_difference(a: Seq<char>, b: Seq<char>, k: int) -> bool {
    &&& 0 <= k < a.len()
    &&& k < b.len()
    &&& a[k] != b[k]
    &&& forall|i: int| 0 <= i < k ==> a[i] == b[i]
}

/// One of `a` and `b` is a prefix of the other.
pub open spec fn no_difference(a: Seq<char>, b: Seq<char>) -> bool {
    forall|i: int| 0 <= i < a.len() && i < b.len() ==> a[i] == b[i]
}

/// Where the shared prefix of `a` and `b` ends: the first position at which
/// they differ, or zero where they do not differ, one being a prefix of the
/// other.
pub fn shared_prefix_end(a: &str, b: &str) -> (r: usize)
    ensures
        first_difference(a@, b@, r as int) || (r == 0 && no_difference(a@, b@)),
{
    let n = a.unicode_len();
    let m = b.unicode_len();
    let mut i: usize = 0;
    while i < n && i < m
        invariant
            n == a@.len(),
            m == b@.len(),
            i <= n,
            i <= m,
            forall|k: int| 0 <= k < i ==> a@[k] == b@[k],
        decreases n - i,
    {
        if a.get_char(i) != b.get_char(i) {
            return i;
        }
        i = i + 1;
    }
    0
}

/// Both engine names without their shared prefix, so that a common path is
/// not printed twice.
pub fn trim_shared_prefix(a: &str, b: &str) -> (r: (String, String))
    ensures
        exists|k: int|
            (first_difference(a@, b@, k) || (k == 0 && no_difference(a@, b@))) && r.0@
                == a@.subrange(k, a@.len() as int) && r.1@ == b@.subrange(k, b@.len() as int),
{
    let k = shared_prefix_end(a, b);
    let na = a.unicode_len();
    let nb = b.unicode_len();
    let ta = a.substring_char(k, na).to_owned();
    let tb = b.substring_char(k, nb).to_owned();
    assert(first_difference(a@, b@, k as int) || (k == 0 && no_difference(a@, b@)));
    (ta, tb)
}

/// An engine's printed name: its trimmed path, then its flags, with one space
/// between them only where both are present.
pub open spec fn label_text(name: Seq<char>, flags: Seq<char>) -> Seq<char> {
    if name.len() > 0 && flags.len() > 0 {
        name + seq![' '] + flags
    } else {
        name + flags
    }
}

/// The printed name of an engine.
pub fn engine_label(name: &str, flags: &str) -> (r: String)
    ensures
        r@ == label_text(name@, flags@),
{
    let mut r = name.to_owned();
    if !name.is_empty() && !flags.is_empty() {
        proof {
            reveal_strlit(" ");
        }
        r.append(" ");
    }
    r.append(flags);
    r
}

/// The separator between the fields of an entry's heading.
pub open spec fn heading_separator() -> Seq<char> {
    seq![' ', ':', ':', ' ']
}

/// The heading of an entry: phase, event and benchmark program.
pub open spec fn heading_text(phase: Phase, event: Seq<char>, wasm: Seq<char>) -> Seq<char> {
    phase_token(phase) + heading_separator() + event + heading_separator() + wasm
}

/// The heading line of a report entry, without its line break.
pub fn entry_heading(phase: Phase, event: &str, wasm: &str) -> (r: String)
    ensures
        r@ == heading_text(phase, event@, wasm@),
{
    let mut r = phase.as_str().to_owned();
    proof {
        reveal_strlit(" :: ");
    }
    r.append(" :: ");
    r.append(event);
    r.append(" :: ");
    r.append(wasm);
    r
}

/// No summary for the engine and group of a report entry.
#[derive(Clone, Debug)]
pub struct MissingSummary {
    /// The engine whose summary is missing.
    pub engine: String,
    /// Its flags.
    pub engine_flags: String,
    /// The Wasm benchmark program.
    pub wasm: String,
    /// The phase.
    pub phase: Phase,
    /// The event.
    pub event: String,
}

/// `s` summarizes `engine` with `flags` on `wasm`, `phase` and `event`.
pub open spec fn summarizes(
    s: Summary,
    engine: Seq<char>,
    flags: Seq<char>,
    wasm: Seq<char>,
    phase: Phase,
    event: Seq<char>,
) -> bool {
    s.engine@ == engine && s.engine_flags@ == flags && s.wasm@ == wasm && s.phase == phase
        && s.event@ == event
}

/// The position of the first summary of `engine` with `flags` on `wasm`,
/// `phase` and `event`.
pub fn find_summary(
    summaries: &Vec<Summary>,
    engine: &String,
    flags: &String,
    wasm: &String,
    phase: Phase,
    event: &String,
) -> (r: Result<usize, MissingSummary>)
    ensures
        r matches Ok(i) ==> i < summaries.len() && summarizes(
            summaries[i as int],
            engine@,
            flags@,
            wasm@,
            phase,
            event@,
        ) && forall|j: int|
            0 <= j < i ==> !summarizes(
                #[trigger] summaries[j],
                engine@,
                flags@,
                wasm@,
                phase,
                event@,
            ),
        r is Err <==> forall|j: int|
            0 <= j < summaries.len() ==> !summarizes(
                #[trigger] summaries[j],
                engine@,
                flags@,
                wasm@,
                phase,
                event@,
            ),
        r matches Err(e) ==> e.engine@ == engine@ && e.engine_flags@ == flags@ && e.wasm@
            == wasm@ && e.phase == phase && e.event@ == event@,
{
    let mut i: usize = 0;
    while i < summaries.len()
        invariant
            i <= summaries.len(),
            forall|j: int|
                0 <= j < i ==> !summarizes(
                    #[trigger] summaries[j],
                    engine@,
                    flags@,
                    wasm@,
                    phase,
                    event@,
                ),
        decreases summaries.len() - i,
    {
        let s = &summaries[i];
        if s.engine == *engine && s.engine_flags == *flags && s.wasm == *wasm && s.phase == phase
            && s.event == *event {
            return Ok(i);
        }
        i = i + 1;
    }
    Err(
        MissingSummary {
            engine: engine.clone(),
            engine_flags: flags.clone(),
            wasm: wasm.clone(),
            phase,
            event: event.clone(),
        },
    )
}

/// The character of a decimal digit.
pub open spec fn digit_char(d: nat) -> char {
    if d == 0 {
        '0'
    } else if d == 1 {
        '1'
    } else if d == 2 {
        '2'
    } else if d == 3 {
        '3'
    } else if d == 4 {
        '4'
    } else if d == 5 {
        '5'
    } else if d == 6 {
        '6'
    } else if d == 7 {
        '7'
    } else if d == 8 {
        '8'
    } else {
        '9'
    }
}

/// The decimal digits of `n`, most significant first, without leading zeros.
pub open spec fn decimal_text(n: nat) -> Seq<char>
    decreases n,
{
    if n < 10 {
        seq![digit_char(n)]
    } else {
        decimal_text(n / 10).push(digit_char(n % 10))
    }
}

/// Relies on `u64`'s `Display` through `ToString::to_string`: the decimal
/// digits of the number, without sign, padding or leading zeros.
#[verifier::external_body]
fn decimal(n: u64) -> (r: String)
    ensures
        r@ == decimal_text(n as nat),
{
    n.to_string()
}

/// A context line of an entry: the summary's minimum, mean and maximum, and
/// the engine's trimmed name.
pub open spec fn summary_line_text(min: u64, mean: Seq<char>, max: u64, name: Seq<char>) -> Seq<
    char,
> {
    seq![' ', ' ', '['] + decimal_text(min as nat) + seq![' '] + mean + seq![' '] + decimal_text(
        max as nat,
    ) + seq![']', ' '] + name
}

/// The context line of `summary`, with its mean already printed as
/// `mean_text`.
pub fn summary_line(summary: &Summary, mean_text: &str, name: &str) -> (r: String)
    ensures
        r@ == summary_line_text(summary.min, mean_text@, summary.max, name@),
{
    proof {
        reveal_strlit("  [");
        reveal_strlit(" ");
        reveal_strlit("] ");
    }
    let mut r = "  [".to_owned();
    r.append(decimal(summary.min).as_str());
    r.append(" ");
    r.append(mean_text);
    r.append(" ");
    r.append(decimal(summary.max).as_str());
    r.append("] ");
    r.append(name);
    proof {
        assert(r@ =~= summary_line_text(summary.min, mean_text@, summary.max, name@));
    }
    r
}

/// The line of an entry whose difference is not significant.
pub open spec fn no_difference_text() -> Seq<char> {
    "  No difference in performance."@
}

/// The line that an entry without a significant difference prints.
pub fn no_difference_line() -> (r: &'static str)
    ensures
        r@ == no_difference_text(),
{
    "  No difference in performance."
}

/// The sentence of a significant entry: how much faster the fast engine is.
pub open spec fn speedup_text(
    fast: Seq<char>,
    fast_flags: Seq<char>,
    low: Seq<char>,
    high: Seq<char>,
    slow: Seq<char>,
    slow_flags: Seq<char>,
) -> Seq<char> {
    seq![' ', ' '] + label_text(fast, fast_flags) + " is "@ + low + "x to "@ + high
        + "x faster than "@ + label_text(slow, slow_flags) + seq!['!']
}

/// The sentence "`fast` is `low`x to `high`x faster than `slow`!", with the
/// ratios already printed.
pub fn speedup_line(
    fast: &str,
    fast_flags: &str,
    low: &str,
    high: &str,
    slow: &str,
    slow_flags: &str,
) -> (r: String)
    ensures
        r@ == speedup_text(fast@, fast_flags@, low@, high@, slow@, slow_flags@),
{
    proof {
        reveal_strlit("  ");
        reveal_strlit(" is ");
        reveal_strlit("x to ");
        reveal_strlit("x faster than ");
        reveal_strlit("!");
    }
    let mut r = "  ".to_owned();
    r.append(engine_label(fast, fast_flags).as_str());
    r.append(" is ");
    r.append(low);
    r.append("x to ");
    r.append(high);
    r.append("x faster than ");
    r.append(engine_label(slow, slow_flags).as_str());
    r.append("!");
    proof {
        assert(r@ =~= speedup_text(fast@, fast_flags@, low@, high@, slow@, slow_flags@));
    }
    r
}

/// The line of a significant entry that gives the difference of the means.
pub open spec fn delta_text(delta: Seq<char>, half_width: Seq<char>, confidence: Seq<char>) -> Seq<
    char,
> {
    "  \u{394} = "@ + delta + " \u{b1} "@ + half_width + " (confidence = "@ + confidence + "%)"@
}

/// The line "Δ = `delta` ± `half_width` (confidence = `confidence`%)", with
/// the numbers already printed.
pub fn delta_line(delta: &str, half_width: &str, confidence: &str) -> (r: String)
    ensures
        r@ == delta_text(delta@, half_width@, confidence@),
{
    proof {
        reveal_strlit("  \u{394} = ");
        reveal_strlit(" \u{b1} ");
        reveal_strlit(" (confidence = ");
        reveal_strlit("%)");
    }
    let mut r = "  \u{394} = ".to_owned();
    r.append(delta);
    r.append(" \u{b1} ");
    r.append(half_width);
    r.append(" (confidence = ");
    r.append(confidence);
    r.append("%)");
    proof {
        assert(r@ =~= delta_text(delta@, half_width@, confidence@));
    }
    r
}

} // verus!
