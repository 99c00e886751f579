use vstd::prelude::*;
use crate::error::EscapeError;

verus! {

/// How much the program logs.
#[derive(Clone, Copy, Debug, PartialEq, Eq, Structural)]
pub enum Verbosity {
    Off,
    Error,
    Warn,
    Info,
    Debug,
    Trace,
}

impl Default for Verbosity {
    fn default() -> (r: Verbosity)
        ensures
            r == Verbosity::Info,
    {
        Verbosity::Info
    }
}

/// The level that a lower-case name stands for.
pub open spec fn verbosity_named(s: Seq<char>) -> Option<Verbosity> {
    if s == "off"@ {
        Some(Verbosity::Off)
    } else if s == "error"@ {
        Some(Verbosity::Error)
    } else if s == "warn"@ {
        Some(Verbosity::Warn)
    } else if s == "info"@ {
        Some(Verbosity::Info)
    } else if s == "debug"@ {
        Some(Verbosity::Debug)
    } else if s == "trace"@ {
        Some(Verbosity::Trace)
    } else {
        None
    }
}

/// Whether the two texts are the same.
fn same_text(a: &str, b: &str) -> (r: bool)
    ensures
        r == (a@ == b@),
{
    let n = a.unicode_len();
    if n != b.unicode_len() {
        return false;
    }
    let mut i: usize = 0;
    while i < n
        invariant
            i <= n,
            n == a@.len(),
            n == b@.len(),
            forall|j: int| 0 <= j < i ==> a@[j] == b@[j],
        decreases n - i,
    {
        if a.get_char(i) != b.get_char(i) {
            return false;
        }
        i = i + 1;
    }
    assert(a@ =~= b@);
    true
}

impl Verbosity {
    /// Reads a level from its lower-case name: off, error, warn, info,
    /// debug or trace. Any other text is a `VerbosityParse` error that
    /// carries it.
    pub fn parse(s: &str) -> (r: Result<Verbosity, EscapeError>)
        ensures
            verbosity_named(s@) matches Some(v) ==> r == Ok::<Verbosity, EscapeError>(v),
            verbosity_named(s@) is None ==> (r matches Err(EscapeError::VerbosityParse(t))
                && t@ == s@),
    {
        if same_text(s, "off") {
            Ok(Verbosity::Off)
        } else if same_text(s, "error") {
            Ok(Verbosity::Error)
        } else if same_text(s, "warn") {
            Ok(Verbosity::Warn)
        } else if same_text(s, "info") {
            Ok(Verbosity::Info)
        } else if same_text(s, "debug") {
            Ok(Verbosity::Debug)
        } else if same_text(s, "trace") {
            Ok(Verbosity::Trace)
        } else {
            Err(EscapeError::VerbosityParse(s.to_owned()))
        }
    }
}

impl std::str::FromStr for Verbosity {
    type Err = EscapeError;

    fn from_str(s: &str) -> Result<Verbosity, EscapeError> {
        Verbosity::parse(s)
    }
}

} // verus!
