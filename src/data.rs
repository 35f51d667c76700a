//! The records that the comparison reads.

use vstd::prelude::*;

verus! {

/// A phase in a Wasm program's lifecycle.
#[derive(Clone, Copy, Debug, PartialEq, Eq, Structural, PartialOrd, Ord, Hash)]
pub enum Phase {
    /// Wasm bytes are translated into native machine code.
    Compilation,
    /// Imports are provided and memories, globals and tables are initialized.
    Instantiation,
    /// Functions are called and instructions are executed.
    Execution,
}

/// A phase token that names no phase.
#[derive(Clone, Debug, PartialEq, Eq)]
pub struct PhaseError;

/// The lower-case token of a phase.
pub open spec fn phase_token(p: Phase) -> Seq<char> {
    match p {
        Phase::Compilation => seq!['c', 'o', 'm', 'p', 'i', 'l', 'a', 't', 'i', 'o', 'n'],
        Phase::Instantiation => seq![
            'i', 'n', 's', 't', 'a', 'n', 't', 'i', 'a', 't', 'i', 'o', 'n'
        ],
        Phase::Execution => seq!['e', 'x', 'e', 'c', 'u', 't', 'i', 'o', 'n'],
    }
}

/// The token with its first letter in upper case.
pub open spec fn phase_title(p: Phase) -> Seq<char> {
    match p {
        Phase::Compilation => seq!['C', 'o', 'm', 'p', 'i', 'l', 'a', 't', 'i', 'o', 'n'],
        Phase::Instantiation => seq![
            'I', 'n', 's', 't', 'a', 'n', 't', 'i', 'a', 't', 'i', 'o', 'n'
        ],
        Phase::Execution => seq!['E', 'x', 'e', 'c', 'u', 't', 'i', 'o', 'n'],
    }
}

/// `c` is `t`, or the ASCII upper-case letter whose lower case is `t`.
pub open spec fn same_ignoring_case(c: char, t: char) -> bool {
    c == t || ('A' <= c && c <= 'Z' && c as u32 + 32 == t as u32)
}

/// `s` equals the lower-case `token` when ASCII case is ignored in `s`.
pub open spec fn equals_ignoring_case(s: Seq<char>, token: Seq<char>) -> bool {
    &&& s.len() == token.len()
    &&& forall|i: int| 0 <= i < s.len() ==> same_ignoring_case(#[trigger] s[i], token[i])
}

fn char_matches(c: char, t: char) -> (r: bool)
    ensures
        r == same_ignoring_case(c, t),
{
    c == t || ('A' <= c && c <= 'Z' && (c as u32) + 32 == t as u32)
}

fn token_matches(s: &str, token: &str) -> (r: bool)
    ensures
        r == equals_ignoring_case(s@, token@),
{
    let n = s.unicode_len();
    if n != token.unicode_len() {
        return false;
    }
    let mut i: usize = 0;
    while i < n
        invariant
            n == s@.len(),
            n == token@.len(),
            i <= n,
            forall|j: int| 0 <= j < i ==> same_ignoring_case(#[trigger] s@[j], token@[j]),
        decreases n - i,
    {
        if !char_matches(s.get_char(i), token.get_char(i)) {
            return false;
        }
        i = i + 1;
    }
    true
}

impl Phase {
    /// The lower-case token of this phase, as a report prints it.
    pub fn as_str(&self) -> (r: &'static str)
        ensures
            r@ == phase_token(*self),
    {
        match self {
            Phase::Compilation => {
                proof {
                    reveal_strlit("compilation");
                }
                "compilation"
            },
            Phase::Instantiation => {
                proof {
                    reveal_strlit("instantiation");
                }
                "instantiation"
            },
            Phase::Execution => {
                proof {
                    reveal_strlit("execution");
                }
                "execution"
            },
        }
    }

    /// The capitalized name of this phase, as a tabular export writes it.
    pub fn title(&self) -> (r: &'static str)
        ensures
            r@ == phase_title(*self),
    {
        match self {
            Phase::Compilation => {
                proof {
                    reveal_strlit("Compilation");
                }
                "Compilation"
            },
            Phase::Instantiation => {
                proof {
                    reveal_strlit("Instantiation");
                }
                "Instantiation"
            },
            Phase::Execution => {
                proof {
                    reveal_strlit("Execution");
                }
                "Execution"
            },
        }
    }

    /// Reads a phase from its token, ignoring ASCII case.
    pub fn parse(s: &str) -> (r: Result<Phase, PhaseError>)
        ensures
            r matches Ok(p) ==> equals_ignoring_case(s@, phase_token(p)),
            r is Err <==> forall|p: Phase| !equals_ignoring_case(s@, #[trigger] phase_token(p)),
    {
        let c = Phase::Compilation.as_str();
        let i = Phase::Instantiation.as_str();
        let e = Phase::Execution.as_str();
        if token_matches(s, c) {
            Ok(Phase::Compilation)
        } else if token_matches(s, i) {
            Ok(Phase::Instantiation)
        } else if token_matches(s, e) {
            Ok(Phase::Execution)
        } else {
            proof {
                assert forall|p: Phase| !equals_ignoring_case(s@, #[trigger] phase_token(p)) by {
                    match p {
                        Phase::Compilation => {},
                        Phase::Instantiation => {},
                        Phase::Execution => {},
                    }
                }
            }
            Err(PhaseError)
        }
    }
}

impl std::str::FromStr for Phase {
    type Err = PhaseError;

    fn from_str(s: &str) -> Result<Phase, PhaseError> {
        Phase::parse(s)
    }
}

/// A single measurement, for example the cycles spent executing a Wasm
/// module once.
#[derive(Clone, Debug)]
pub struct Measurement {
    /// The CPU architecture, for example "aarch64" or "x86_64".
    pub arch: String,
    /// The path of the engine library that recorded this measurement.
    pub engine: String,
    /// The flags passed to that engine.
    pub engine_flags: String,
    /// The path of the Wasm benchmark program.
    pub wasm: String,
    /// The id of the process within which this measurement was taken.
    pub process: u32,
    /// This was the `n`th measurement of this phase within its process.
    pub iteration: u32,
    /// The lifecycle phase that was measured.
    pub phase: Phase,
    /// The event that was measured: cycles, wall time, cache misses, ...
    pub event: String,
    /// The event count.
    pub count: u64,
}

/// The engine identity of a measurement: its engine and its flags.
pub open spec fn identity(m: Measurement) -> (Seq<char>, Seq<char>) {
    (m.engine@, m.engine_flags@)
}

impl Measurement {
    /// The combination of engine and flags used for this measurement.
    pub fn engine_and_flags(&self) -> (r: (&str, &str))
        ensures
            (r.0@, r.1@) == identity(*self),
    {
        (self.engine.as_str(), self.engine_flags.as_str())
    }
}

/// Statistics computed ahead of time for the measurements of one engine in
/// one group; the integer part of them, which the report prints as it is.
#[derive(Clone, Debug)]
pub struct Summary {
    /// The CPU architecture.
    pub arch: String,
    /// The path of the engine library.
    pub engine: String,
    /// The flags passed to the engine.
    pub engine_flags: String,
    /// The path of the Wasm benchmark program.
    pub wasm: String,
    /// The lifecycle phase.
    pub phase: Phase,
    /// The event that was measured.
    pub event: String,
    /// The smallest count.
    pub min: u64,
    /// The largest count.
    pub max: u64,
    /// The median count.
    pub median: u64,
}

impl Summary {
    /// The order of the three statistics holds.
    pub open spec fn wf(&self) -> bool {
        self.min <= self.median <= self.max
    }
}

} // verus!
