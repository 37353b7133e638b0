use vstd::prelude::*;

verus! {

/// Severity of a record, most severe first.
///
/// The ordering index follows slog: `Critical` is 1 and `Trace` is 6, so a
/// smaller index means a more severe record. Index 0 is kept for a threshold
/// that lets nothing through.
#[derive(Clone, Copy, Debug, PartialEq, Eq, Structural)]
pub enum Severity {
    Critical,
    Error,
    Warning,
    Info,
    Debug,
    Trace,
}

/// The most permissive threshold: every severity passes it.
pub const MAX_THRESHOLD: u8 = 6;

impl Severity {
    pub open spec fn index(self) -> nat {
        match self {
            Severity::Critical => 1,
            Severity::Error => 2,
            Severity::Warning => 3,
            Severity::Info => 4,
            Severity::Debug => 5,
            Severity::Trace => 6,
        }
    }

    pub fn as_index(&self) -> (r: u8)
        ensures
            r as nat == self.index(),
            1 <= r <= MAX_THRESHOLD,
    {
        match self {
            Severity::Critical => 1,
            Severity::Error => 2,
            Severity::Warning => 3,
            Severity::Info => 4,
            Severity::Debug => 5,
            Severity::Trace => 6,
        }
    }

    /// Whether a record of this severity passes `threshold` (0 lets nothing pass).
    pub open spec fn passes(self, threshold: nat) -> bool {
        self.index() <= threshold
    }

    pub fn passes_threshold(&self, threshold: u8) -> (r: bool)
        ensures
            r == self.passes(threshold as nat),
    {
        self.as_index() <= threshold
    }
}

/// What slog's level-name parser makes of a name: the threshold index of the
/// level it names, or nothing.
pub uninterp spec fn filter_level_of(name: Seq<char>) -> Option<u8>;

/// Relies on slog's `FromStr` for `FilterLevel` and on `FilterLevel::as_usize`:
/// a level name (long or short form, any case) becomes its index, 0 for
/// "off" up to 6 for "trace"; anything else is refused.
#[verifier::external_body]
pub(crate) fn parse_filter_level(name: &str) -> (r: Option<u8>)
    ensures
        r == filter_level_of(name@),
        r matches Some(k) ==> k <= MAX_THRESHOLD,
{
    name.parse::<slog::FilterLevel>().ok().map(|l| l.as_usize() as u8)
}

} // verus!
