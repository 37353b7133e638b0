use crate::level::{filter_level_of, parse_filter_level, Severity, MAX_THRESHOLD};
use vstd::prelude::*;

verus! {

/// A threshold for the scopes that start with `scope`.
pub struct Override {
    pub scope: String,
    pub threshold: u8,
}

/// Per-scope severity filter: a default threshold, and overrides that apply
/// to every scope they are a prefix of. The longest matching override wins;
/// among matching overrides of equal length, the one added last.
pub struct LevelFilter {
    pub default: u8,
    pub overrides: Vec<Override>,
}

pub struct FilterView {
    pub default: nat,
    pub overrides: Seq<(Seq<char>, nat)>,
}

pub open spec fn override_view(o: Override) -> (Seq<char>, nat) {
    (o.scope@, o.threshold as nat)
}

impl View for LevelFilter {
    type V = FilterView;

    open spec fn view(&self) -> FilterView {
        FilterView {
            default: self.default as nat,
            overrides: self.overrides@.map_values(|o: Override| override_view(o)),
        }
    }
}

pub open spec fn is_prefix_of(p: Seq<char>, s: Seq<char>) -> bool {
    p.len() <= s.len() && s.subrange(0, p.len() as int) == p
}

/// The length and threshold of the override that decides `scope`, among
/// `ov`: the longest prefix of `scope`, the last one among equals.
pub open spec fn best_override(ov: Seq<(Seq<char>, nat)>, scope: Seq<char>) -> Option<(nat, nat)>
    decreases ov.len(),
{
    if ov.len() == 0 {
        None
    } else {
        let prev = best_override(ov.drop_last(), scope);
        let o = ov.last();
        if is_prefix_of(o.0, scope) && (prev matches Some(p) ==> p.0 <= o.0.len()) {
            Some((o.0.len(), o.1))
        } else {
            prev
        }
    }
}

impl FilterView {
    /// The threshold that applies to records of `scope`.
    pub open spec fn threshold_for(self, scope: Seq<char>) -> nat {
        match best_override(self.overrides, scope) {
            Some(b) => b.1,
            None => self.default,
        }
    }

    pub open spec fn admits(self, scope: Seq<char>, level: Severity) -> bool {
        level.passes(self.threshold_for(scope))
    }

    pub open spec fn valid(self) -> bool {
        &&& self.default <= MAX_THRESHOLD
        &&& forall|i: int| 0 <= i < self.overrides.len() ==> #[trigger] self.overrides[i].1 <= MAX_THRESHOLD
    }
}

fn starts_with(s: &str, p: &str) -> (r: bool)
    ensures
        r == is_prefix_of(p@, s@),
{
    let n = p.unicode_len();
    if n > s.unicode_len() {
        return false;
    }
    let mut i: usize = 0;
    while i < n
        invariant
            n == p@.len(),
            n <= s@.len(),
            i <= n,
            forall|j: int| 0 <= j < i ==> s@[j] == p@[j],
        decreases n - i,
    {
        if s.get_char(i) != p.get_char(i) {
            assert(s@.subrange(0, n as int)[i as int] != p@[i as int]);
            return false;
        }
        i = i + 1;
    }
    assert(s@.subrange(0, n as int) =~= p@);
    true
}

impl LevelFilter {
    /// A filter with one threshold for every scope.
    pub fn new(default: u8) -> (r: LevelFilter)
        ensures
            r@.default == default as nat,
            r@.overrides.len() == 0,
    {
        let r = LevelFilter { default, overrides: Vec::new() };
        assert(r@.overrides =~= Seq::<(Seq<char>, nat)>::empty());
        r
    }

    /// Adds an override for the scopes that start with `scope`.
    pub fn add_override(&mut self, scope: String, threshold: u8)
        ensures
            final(self)@.default == old(self)@.default,
            final(self)@.overrides == old(self)@.overrides.push((scope@, threshold as nat)),
    {
        self.overrides.push(Override { scope, threshold });
        assert(final(self)@.overrides =~= old(self)@.overrides.push((scope@, threshold as nat)));
    }

    /// The threshold that applies to records of `scope`.
    pub fn threshold_for(&self, scope: &str) -> (r: u8)
        ensures
            r as nat == self@.threshold_for(scope@),
    {
        let ghost ov = self@.overrides;
        let mut best: Option<(usize, u8)> = None;
        let n = self.overrides.len();
        for i in 0..n
            invariant
                n == ov.len(),
                ov == self@.overrides,
                best_override(ov.take(i as int), scope@) == (match best {
                    Some(b) => Some((b.0 as nat, b.1 as nat)),
                    None => None::<(nat, nat)>,
                }),
        {
            let o = &self.overrides[i];
            assert(ov.take(i + 1).drop_last() =~= ov.take(i as int));
            assert(ov.take(i + 1).last() == override_view(*o));
            if starts_with(scope, o.scope.as_str()) {
                let len = o.scope.unicode_len();
                let better = match best {
                    Some(b) => b.0 <= len,
                    None => true,
                };
                if better {
                    best = Some((len, o.threshold));
                }
            }
        }
        assert(ov.take(n as int) =~= ov);
        match best {
            Some(b) => b.1,
            None => self.default,
        }
    }

    /// Whether a record of `level` emitted from `scope` passes the filter.
    pub fn should_emit(&self, scope: &str, level: Severity) -> (r: bool)
        ensures
            r == self@.admits(scope@, level),
    {
        level.passes_threshold(self.threshold_for(scope))
    }
}


/// `s` cut at every `sep`; there is always at least one piece.
pub open spec fn split_spec(s: Seq<char>, sep: char) -> Seq<Seq<char>>
    decreases s.len(),
{
    if s.len() == 0 {
        seq![Seq::empty()]
    } else {
        let p = split_spec(s.drop_last(), sep);
        if s.last() == sep {
            p.push(Seq::empty())
        } else {
            p.update(p.len() - 1, p.last().push(s.last()))
        }
    }
}

pub proof fn lemma_split_nonempty(s: Seq<char>, sep: char)
    ensures
        split_spec(s, sep).len() >= 1,
    decreases s.len(),
{
    if s.len() > 0 {
        lemma_split_nonempty(s.drop_last(), sep);
    }
}

/// What one comma-separated directive means: a scope (empty for all scopes)
/// and its threshold, or nothing when it is malformed. A bare level name sets
/// the threshold of all scopes; a bare scope, or `scope=`, lets everything of
/// that scope through; `scope=level` sets that scope's threshold.
pub open spec fn directive_of(piece: Seq<char>) -> Option<(Seq<char>, nat)> {
    let parts = split_spec(piece, '=');
    if piece.len() == 0 {
        None
    } else if parts.len() == 1 {
        match filter_level_of(piece) {
            Some(k) => Some((Seq::empty(), k as nat)),
            None => Some((piece, MAX_THRESHOLD as nat)),
        }
    } else if parts.len() == 2 {
        if parts[1].len() == 0 {
            Some((parts[0], MAX_THRESHOLD as nat))
        } else {
            match filter_level_of(parts[1]) {
                Some(k) => Some((parts[0], k as nat)),
                None => None,
            }
        }
    } else {
        None
    }
}

/// The directives of `pieces`: the last threshold for all scopes, the scoped
/// ones in order, and whether there was any directive at all.
pub open spec fn fold_directives(pieces: Seq<Seq<char>>) -> (Option<nat>, Seq<(Seq<char>, nat)>, bool)
    decreases pieces.len(),
{
    if pieces.len() == 0 {
        (None, Seq::empty(), false)
    } else {
        let prev = fold_directives(pieces.drop_last());
        match directive_of(pieces.last()) {
            None => prev,
            Some(d) => if d.0.len() == 0 {
                (Some(d.1), prev.1, true)
            } else {
                (prev.0, prev.1.push(d), true)
            },
        }
    }
}

/// The threshold of scopes that no directive names when the expression has
/// no directive at all: errors and worse.
pub const FALLBACK_THRESHOLD: u8 = 2;

/// The filter that a directive expression such as `info,app::db=debug`
/// describes. Scopes that no directive covers get nothing through, unless the
/// expression holds no directive at all, in which case errors still pass.
pub open spec fn parse_filter_spec(s: Seq<char>) -> FilterView {
    let f = fold_directives(split_spec(s, ','));
    FilterView {
        default: match f.0 {
            Some(k) => k,
            None => if f.2 {
                0
            } else {
                FALLBACK_THRESHOLD as nat
            },
        },
        overrides: f.1,
    }
}

/// Cuts `s` at every `sep`.
pub fn split(s: &str, sep: char) -> (r: Vec<String>)
    ensures
        r@.map_values(|p: String| p@) == split_spec(s@, sep),
{
    let n = s.unicode_len();
    let mut parts: Vec<String> = Vec::new();
    let mut start: usize = 0;
    assert(s@.take(0) =~= Seq::<char>::empty());
    assert(parts@.map_values(|p: String| p@).push(s@.subrange(0, 0)) =~= seq![Seq::<char>::empty()]);
    for i in 0..n
        invariant
            n == s@.len(),
            start <= i,
            split_spec(s@.take(i as int), sep) == parts@.map_values(|p: String| p@).push(
                s@.subrange(start as int, i as int),
            ),
    {
        let c = s.get_char(i);
        assert(s@.take(i + 1).drop_last() =~= s@.take(i as int));
        assert(s@.take(i + 1).last() == c);
        if c == sep {
            let ghost before = parts@.map_values(|p: String| p@);
            let ghost old_start = start;
            let piece = s.substring_char(start, i).to_owned();
            parts.push(piece);
            start = i + 1;
            assert(parts@.map_values(|p: String| p@) =~= before.push(s@.subrange(old_start as int, i as int)));
            assert(s@.subrange(start as int, i + 1) =~= Seq::<char>::empty());
        } else {
            assert(s@.subrange(start as int, i as int).push(c) =~= s@.subrange(start as int, i + 1));
        }
    }
    let last = s.substring_char(start, n).to_owned();
    parts.push(last);
    assert(s@.take(n as int) =~= s@);
    parts
}

/// Reads one comma-separated directive (see `directive_of`).
fn parse_directive(piece: &str) -> (r: Option<(String, u8)>)
    ensures
        r matches Some(d) ==> directive_of(piece@) == Some((d.0@, d.1 as nat)) && d.1 <= MAX_THRESHOLD,
        r is None ==> directive_of(piece@) is None,
{
    if piece.unicode_len() == 0 {
        return None;
    }
    let parts = split(piece, '=');
    proof {
        lemma_split_nonempty(piece@, '=');
    }
    let ghost pv = parts@.map_values(|p: String| p@);
    if parts.len() == 1 {
        match parse_filter_level(piece) {
            Some(k) => Some((String::new(), k)),
            None => Some((piece.to_owned(), MAX_THRESHOLD)),
        }
    } else if parts.len() == 2 {
        assert(pv[0] == parts@[0]@ && pv[1] == parts@[1]@);
        let level = parts[1].as_str();
        if level.unicode_len() == 0 {
            Some((parts[0].clone(), MAX_THRESHOLD))
        } else {
            match parse_filter_level(level) {
                Some(k) => Some((parts[0].clone(), k)),
                None => None,
            }
        }
    } else {
        None
    }
}

impl LevelFilter {
    /// Reads a directive expression such as `info,app::db=debug` (see
    /// `parse_filter_spec`). Malformed directives are skipped.
    pub fn parse(spec: &str) -> (r: LevelFilter)
        ensures
            r@ == parse_filter_spec(spec@),
            r@.valid(),
    {
        let pieces = split(spec, ',');
        let ghost pv = pieces@.map_values(|p: String| p@);
        let mut global: Option<u8> = None;
        let mut any = false;
        let mut filter = LevelFilter::new(0);
        let n = pieces.len();
        for i in 0..n
            invariant
                n == pieces@.len(),
                pv == pieces@.map_values(|p: String| p@),
                filter@.default == 0,
                forall|j: int| 0 <= j < filter@.overrides.len() ==> #[trigger] filter@.overrides[j].1 <= MAX_THRESHOLD,
                global matches Some(k) ==> k <= MAX_THRESHOLD,
                fold_directives(pv.take(i as int)) == (
                    match global {
                        Some(k) => Some(k as nat),
                        None => None::<nat>,
                    },
                    filter@.overrides,
                    any,
                ),
        {
            assert(pv.take(i + 1).drop_last() =~= pv.take(i as int));
            assert(pv.take(i + 1).last() == pieces@[i as int]@);
            match parse_directive(pieces[i].as_str()) {
                None => {},
                Some(d) => {
                    any = true;
                    if d.0.as_str().unicode_len() == 0 {
                        global = Some(d.1);
                    } else {
                        filter.add_override(d.0, d.1);
                    }
                },
            }
        }
        assert(pv.take(n as int) =~= pv);
        filter.default = match global {
            Some(k) => k,
            None => if any {
                0
            } else {
                FALLBACK_THRESHOLD
            },
        };
        filter
    }
}

} // verus!
