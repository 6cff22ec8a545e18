//! Prefix stripping for nested routes.
//!
//! When a table is nested under a mount path, the endpoints inside it must
//! see request paths relative to the mount point. `strip_prefix` removes a
//! matched prefix from a request path: both path and prefix are split into
//! `/`-separated segments (the empty segment before the leading `/` is
//! ignored) and walked in lockstep. A prefix segment that is a single
//! capture (`{name}`, but not a wildcard `{*name}` nor escaped braces)
//! matches any path segment; other segments must be equal; an empty prefix
//! segment (a prefix ending in `/`) ends the walk successfully. If the path
//! runs out before the prefix, there is no match. On success the matched
//! byte count is removed from the front of the path, a leading `/` is
//! restored when missing, and the query string is reattached verbatim.

use vstd::prelude::*;
use crate::text::{chars_to_string, str_to_chars};

verus! {

/// The views of a sequence of character vectors.
pub open spec fn views_of(gs: Seq<Vec<char>>) -> Seq<Seq<char>> {
    gs.map_values(|v: Vec<char>| v@)
}

/// Splitting a character sequence on `/`. The result always has at least one
/// element; splitting an empty sequence gives one empty segment.
pub open spec fn spec_split(s: Seq<char>) -> Seq<Seq<char>>
    decreases s.len(),
{
    if s.len() == 0 {
        seq![Seq::<char>::empty()]
    } else if s[0] == '/' {
        seq![Seq::<char>::empty()] + spec_split(s.skip(1))
    } else {
        let r = spec_split(s.skip(1));
        seq![seq![s[0]] + r[0]] + r.skip(1)
    }
}

/// The segments of a path: everything after the part that precedes the first
/// `/`. For a path with a leading `/` this drops exactly the empty segment
/// the leading `/` produces.
pub open spec fn spec_segments(s: Seq<char>) -> Seq<Seq<char>> {
    spec_split(s).skip(1)
}

/// How many characters a segment list occupies in the original path: each
/// segment is preceded by one `/` separator.
pub open spec fn spec_joined_len(gs: Seq<Seq<char>>) -> int
    decreases gs.len(),
{
    if gs.len() == 0 {
        0
    } else {
        1 + gs[0].len() + spec_joined_len(gs.skip(1))
    }
}

/// A segment that is a single (non-wildcard, non-escaped) capture.
pub open spec fn seg_is_capture(f: Seq<char>) -> bool {
    &&& f.len() >= 1
    &&& f[0] == '{'
    &&& f[f.len() - 1] == '}'
    &&& !(f.len() >= 2 && f[1] == '{')
    &&& !(f.len() >= 2 && f[f.len() - 2] == '}')
    &&& !(f.len() >= 2 && f[1] == '*')
}

/// The lockstep walk over path and prefix segments. `Some(n)` means the
/// prefix matched and occupies `n` characters of the path (separators
/// included); `None` means the prefix does not match. Every step pays one
/// character for the separator; a capture or equal segment also pays the
/// path segment's length; an empty prefix segment or an exhausted prefix
/// stops the walk successfully.
pub open spec fn spec_match_len(path_segs: Seq<Seq<char>>, prefix_segs: Seq<Seq<char>>) -> Option<
    int,
>
    decreases path_segs.len() + prefix_segs.len(),
{
    if prefix_segs.len() == 0 && path_segs.len() == 0 {
        Some(0)
    } else if prefix_segs.len() == 0 {
        Some(1)
    } else if path_segs.len() == 0 {
        None
    } else {
        let p = path_segs[0];
        let f = prefix_segs[0];
        if seg_is_capture(f) || p == f {
            match spec_match_len(path_segs.skip(1), prefix_segs.skip(1)) {
                Some(m) => Some(1 + p.len() + m),
                None => None,
            }
        } else if f.len() == 0 {
            Some(1)
        } else {
            None
        }
    }
}

/// The stripped form of `path` under `prefix`: the characters after the
/// matched length, with a leading `/` restored when the remainder lacks one.
pub open spec fn spec_strip_prefix(path: Seq<char>, prefix: Seq<char>) -> Option<Seq<char>> {
    match spec_match_len(spec_segments(path), spec_segments(prefix)) {
        None => None,
        Some(m) => {
            let after = path.skip(m);
            if after.len() > 0 && after[0] == '/' {
                Some(after)
            } else {
                Some(seq!['/'] + after)
            }
        },
    }
}

/// A split always yields at least one segment.
pub proof fn lemma_split_nonempty(s: Seq<char>)
    ensures
        spec_split(s).len() >= 1,
    decreases s.len(),
{
    if s.len() > 0 {
        lemma_split_nonempty(s.skip(1));
    }
}

/// A segment list never occupies a negative number of characters.
pub proof fn lemma_joined_nonneg(gs: Seq<Seq<char>>)
    ensures
        spec_joined_len(gs) >= 0,
    decreases gs.len(),
{
    if gs.len() > 0 {
        lemma_joined_nonneg(gs.skip(1));
    }
}

/// A path consists of the part before its first `/` followed by its
/// segments, each preceded by one separator.
pub proof fn lemma_split_sum(s: Seq<char>)
    ensures
        s.len() == spec_split(s)[0].len() + spec_joined_len(spec_segments(s)),
    decreases s.len(),
{
    if s.len() == 0 {
        assert(spec_segments(s) =~~= Seq::<Seq<char>>::empty());
    } else {
        lemma_split_sum(s.skip(1));
        lemma_split_nonempty(s.skip(1));
        let r = spec_split(s.skip(1));
        if s[0] == '/' {
            assert(spec_segments(s) =~~= r);
            assert(r =~~= seq![r[0]] + r.skip(1));
            assert(spec_joined_len(seq![r[0]] + r.skip(1)) == 1 + r[0].len() + spec_joined_len(
                (seq![r[0]] + r.skip(1)).skip(1),
            ));
            assert((seq![r[0]] + r.skip(1)).skip(1) =~~= r.skip(1));
        } else {
            assert(spec_split(s) =~~= seq![seq![s[0]] + r[0]] + r.skip(1));
            assert(spec_segments(s) =~~= r.skip(1));
        }
    }
}

/// A successful walk consumes at least zero and at most the whole segment
/// list of the path.
pub proof fn lemma_match_len_bound(path_segs: Seq<Seq<char>>, prefix_segs: Seq<Seq<char>>)
    ensures
        match spec_match_len(path_segs, prefix_segs) {
            Some(m) => 0 <= m <= spec_joined_len(path_segs),
            None => true,
        },
    decreases path_segs.len() + prefix_segs.len(),
{
    lemma_joined_nonneg(path_segs);
    if path_segs.len() > 0 {
        lemma_joined_nonneg(path_segs.skip(1));
    }
    if prefix_segs.len() > 0 && path_segs.len() > 0 {
        lemma_match_len_bound(path_segs.skip(1), prefix_segs.skip(1));
    }
}

/// Compares two character vectors.
fn vec_eq(a: &Vec<char>, b: &Vec<char>) -> (r: bool)
    ensures
        r == (a@ == b@),
{
    if a.len() != b.len() {
        return false;
    }
    let mut i: usize = 0;
    while i < a.len()
        invariant
            a@.len() == b@.len(),
            i <= a@.len(),
            forall|j: int| 0 <= j < i ==> a@[j] == b@[j],
        decreases a@.len() - i,
    {
        if a[i] != b[i] {
            return false;
        }
        i = i + 1;
    }
    proof {
        assert(a@ =~= b@);
    }
    true
}

/// Whether a segment is a single (non-wildcard, non-escaped) capture.
pub fn is_capture(segment: &Vec<char>) -> (r: bool)
    ensures
        r == seg_is_capture(segment@),
{
    let n = segment.len();
    if n == 0 {
        return false;
    }
    if segment[0] != '{' {
        return false;
    }
    if segment[n - 1] != '}' {
        return false;
    }
    if n >= 2 && (segment[1] == '{' || segment[1] == '*' || segment[n - 2] == '}') {
        return false;
    }
    true
}

/// Splits a path into its `/`-separated segments, ignoring the part before
/// the first separator.
pub fn segments(s: &Vec<char>) -> (r: Vec<Vec<char>>)
    ensures
        views_of(r@) == spec_segments(s@),
{
    let mut segs: Vec<Vec<char>> = Vec::new();
    let mut cur: Vec<char> = Vec::new();
    let mut i: usize = 0;
    proof {
        lemma_split_nonempty(s@);
        assert(s@.skip(0) =~= s@);
        assert(views_of(segs@) + seq![cur@ + spec_split(s@)[0]] + spec_split(s@).skip(1) =~~= seq![
            spec_split(s@)[0],
        ] + spec_split(s@).skip(1));
        assert(seq![spec_split(s@)[0]] + spec_split(s@).skip(1) =~~= spec_split(s@));
    }
    while i < s.len()
        invariant
            i <= s@.len(),
            spec_split(s@) == views_of(segs@) + seq![cur@ + spec_split(s@.skip(i as int))[0]]
                + spec_split(s@.skip(i as int)).skip(1),
        decreases s@.len() - i,
    {
        let ghost suffix = s@.skip(i as int);
        let ghost rest = s@.skip(i + 1);
        proof {
            assert(suffix[0] == s@[i as int]);
            assert(suffix.skip(1) =~= rest);
            lemma_split_nonempty(rest);
        }
        let c = s[i];
        if c == '/' {
            let ghost segs0 = segs@;
            let ghost cur0 = cur@;
            let finished = cur;
            cur = Vec::new();
            segs.push(finished);
            proof {
                assert(views_of(segs@) =~~= views_of(segs0).push(cur0));
                assert(cur0 + spec_split(suffix)[0] =~= cur0);
                assert(spec_split(suffix).skip(1) =~~= spec_split(rest));
                assert(views_of(segs0).push(cur0) + seq![cur@ + spec_split(rest)[0]] + spec_split(
                    rest,
                ).skip(1) =~~= views_of(segs0) + seq![cur0] + (seq![spec_split(rest)[0]]
                    + spec_split(rest).skip(1)));
                assert(seq![spec_split(rest)[0]] + spec_split(rest).skip(1) =~~= spec_split(rest));
            }
        } else {
            let ghost cur0 = cur@;
            cur.push(c);
            proof {
                let r = spec_split(rest);
                assert(spec_split(suffix) =~~= seq![seq![suffix[0]] + r[0]] + r.skip(1));
                assert(cur@ + r[0] =~= cur0 + (seq![c] + r[0]));
                assert(spec_split(suffix).skip(1) =~~= r.skip(1));
            }
        }
        i = i + 1;
    }
    proof {
        assert(s@.skip(s@.len() as int) =~= Seq::<char>::empty());
        assert(cur@ + spec_split(s@.skip(s@.len() as int))[0] =~= cur@);
    }
    segs.push(cur);
    proof {
        assert(views_of(segs@) =~~= spec_split(s@));
    }
    let ghost before = segs@;
    let _first = segs.remove(0);
    proof {
        assert(views_of(segs@) =~~= views_of(before).skip(1));
        assert(views_of(before).skip(1) =~~= spec_segments(s@));
    }
    segs
}

/// The lockstep walk over already-split segments, returning how many
/// characters of the path the prefix occupies.
fn match_walk(ps: &Vec<Vec<char>>, fs: &Vec<Vec<char>>) -> (r: Option<usize>)
    requires
        spec_joined_len(views_of(ps@)) <= usize::MAX,
    ensures
        match r {
            Some(m) => spec_match_len(views_of(ps@), views_of(fs@)) == Some(m as int),
            None => spec_match_len(views_of(ps@), views_of(fs@)) is None,
        },
{
    let ghost pv = views_of(ps@);
    let ghost fv = views_of(fs@);
    let mut k: usize = 0;
    let mut acc: usize = 0;
    proof {
        assert(pv.skip(0) =~~= pv);
        assert(fv.skip(0) =~~= fv);
    }
    loop
        invariant
            k <= ps@.len(),
            k <= fs@.len(),
            pv == views_of(ps@),
            fv == views_of(fs@),
            acc + spec_joined_len(pv.skip(k as int)) == spec_joined_len(pv),
            spec_joined_len(pv) <= usize::MAX,
            spec_match_len(pv, fv) == match spec_match_len(pv.skip(k as int), fv.skip(k as int)) {
                Some(m) => Some(acc + m),
                None => None::<int>,
            },
        decreases ps@.len() - k,
    {
        let ghost psuf = pv.skip(k as int);
        let ghost fsuf = fv.skip(k as int);
        proof {
            lemma_joined_nonneg(psuf);
            if k < ps@.len() {
                assert(psuf[0] == pv[k as int]);
                assert(psuf.skip(1) =~~= pv.skip(k + 1));
                lemma_joined_nonneg(psuf.skip(1));
            }
            if k < fs@.len() {
                assert(fsuf[0] == fv[k as int]);
                assert(fsuf.skip(1) =~~= fv.skip(k + 1));
            }
        }
        if k == fs.len() && k == ps.len() {
            return Some(acc);
        }
        if k == fs.len() {
            return Some(acc + 1);
        }
        if k == ps.len() {
            return None;
        }
        let p = &ps[k];
        let f = &fs[k];
        if is_capture(f) || vec_eq(p, f) {
            proof {
                lemma_match_len_bound(psuf.skip(1), fsuf.skip(1));
            }
            acc = acc + 1 + p.len();
            k = k + 1;
        } else if f.len() == 0 {
            return Some(acc + 1);
        } else {
            return None;
        }
    }
}

/// Strips `prefix` from the front of `path`, preserving `query` verbatim.
/// `None` means the prefix does not match and the caller must keep the
/// original path.
pub fn strip_prefix(path: &str, query: Option<&str>, prefix: &str) -> (r: Option<String>)
    ensures
        match r {
            Some(out) => spec_strip_prefix(path@, prefix@) is Some && out@ == match query {
                Some(q) => spec_strip_prefix(path@, prefix@).unwrap() + seq!['?'] + q@,
                None => spec_strip_prefix(path@, prefix@).unwrap(),
            },
            None => spec_strip_prefix(path@, prefix@) is None,
        },
{
    let pc = str_to_chars(path);
    let fc = str_to_chars(prefix);
    let ps = segments(&pc);
    let fs = segments(&fc);
    let path_chars: usize = pc.len();
    proof {
        lemma_split_sum(path@);
        lemma_split_nonempty(path@);
        lemma_joined_nonneg(views_of(ps@));
        assert(spec_joined_len(views_of(ps@)) <= path_chars as int);
    }
    let matched = match match_walk(&ps, &fs) {
        Some(m) => m,
        None => {
            return None;
        },
    };
    proof {
        lemma_match_len_bound(views_of(ps@), views_of(fs@));
        lemma_split_sum(path@);
    }
    let mut out: Vec<char> = Vec::new();
    if matched == pc.len() || pc[matched] != '/' {
        out.push('/');
    }
    let mut j: usize = matched;
    while j < pc.len()
        invariant
            matched <= j <= pc@.len(),
            pc@ == path@,
            out@ == if pc@.len() > matched && pc@[matched as int] == '/' {
                pc@.subrange(matched as int, j as int)
            } else {
                seq!['/'] + pc@.subrange(matched as int, j as int)
            },
        decreases pc@.len() - j,
    {
        out.push(pc[j]);
        proof {
            assert(pc@.subrange(matched as int, j + 1) =~= pc@.subrange(matched as int, j as int)
                + seq![pc@[j as int]]);
        }
        j = j + 1;
    }
    proof {
        assert(pc@.subrange(matched as int, pc@.len() as int) =~= path@.skip(matched as int));
        let after = path@.skip(matched as int);
        let stripped = spec_strip_prefix(path@, prefix@).unwrap();
        if after.len() > 0 && after[0] == '/' {
            assert(out@ =~= stripped);
        } else {
            assert(out@ =~= stripped);
        }
    }
    match query {
        Some(q) => {
            let ghost out0 = out@;
            out.push('?');
            let qc = str_to_chars(q);
            let mut t: usize = 0;
            while t < qc.len()
                invariant
                    t <= qc@.len(),
                    out@ == out0 + seq!['?'] + qc@.take(t as int),
                decreases qc@.len() - t,
            {
                out.push(qc[t]);
                proof {
                    assert(qc@.take(t + 1) =~= qc@.take(t as int) + seq![qc@[t as int]]);
                    assert(out@ =~= out0 + seq!['?'] + qc@.take(t + 1));
                }
                t = t + 1;
            }
            proof {
                assert(qc@.take(qc@.len() as int) =~= q@);
            }
            Some(chars_to_string(&out))
        },
        None => Some(chars_to_string(&out)),
    }
}

/// Splitting distributes over concatenation at a `/` boundary: when the
/// second part starts with `/`, the split of the whole is the split of the
/// first part followed by the second part's segments.
proof fn lemma_split_concat(a: Seq<char>, b: Seq<char>)
    requires
        b.len() > 0,
        b[0] == '/',
    ensures
        spec_split(a + b) == spec_split(a) + spec_split(b).skip(1),
    decreases a.len(),
{
    lemma_split_nonempty(a);
    lemma_split_nonempty(b.skip(1));
    if a.len() == 0 {
        assert(a + b =~= b);
        assert(spec_split(b).skip(1) =~~= spec_split(b.skip(1)));
        assert(spec_split(a) + spec_split(b).skip(1) =~~= seq![Seq::<char>::empty()] + spec_split(
            b.skip(1),
        ));
    } else {
        assert((a + b)[0] == a[0]);
        assert((a + b).skip(1) =~= a.skip(1) + b);
        lemma_split_concat(a.skip(1), b);
        lemma_split_nonempty(a.skip(1));
        let q = spec_split(a.skip(1));
        let r = spec_split(a.skip(1) + b);
        if a[0] == '/' {
            assert(spec_split(a + b) =~~= seq![Seq::<char>::empty()] + r);
            assert(seq![Seq::<char>::empty()] + (q + spec_split(b).skip(1)) =~~= (seq![
                Seq::<char>::empty(),
            ] + q) + spec_split(b).skip(1));
        } else {
            assert(r[0] == q[0]);
            assert(spec_split(a + b) =~~= seq![seq![a[0]] + r[0]] + r.skip(1));
            assert(r.skip(1) =~~= q.skip(1) + spec_split(b).skip(1));
            assert(seq![seq![a[0]] + q[0]] + (q.skip(1) + spec_split(b).skip(1)) =~~= (seq![
                seq![a[0]] + q[0],
            ] + q.skip(1)) + spec_split(b).skip(1));
            assert(spec_split(a) =~~= seq![seq![a[0]] + q[0]] + q.skip(1));
        }
    }
}

/// Walking a segment list against itself (followed by anything) consumes
/// exactly its own characters, plus the separator before whatever follows.
proof fn lemma_match_len_self(fs: Seq<Seq<char>>, ts: Seq<Seq<char>>)
    ensures
        spec_match_len(fs + ts, fs) == if ts.len() == 0 {
            Some(spec_joined_len(fs))
        } else {
            Some(spec_joined_len(fs) + 1int)
        },
    decreases fs.len(),
{
    if fs.len() == 0 {
        assert(fs + ts =~~= ts);
    } else {
        assert((fs + ts)[0] == fs[0]);
        assert((fs + ts).skip(1) =~~= fs.skip(1) + ts);
        lemma_match_len_self(fs.skip(1), ts);
    }
}

/// Nesting coherence: a request path formed by prepending a mount prefix to
/// an inner path strips back to exactly that inner path, so an endpoint
/// registered at `prefix + inner` observes `inner` — the path it had in its
/// own table. (An inner path whose own first segment is empty, one starting
/// `//`, strips to its single-slash form instead and is left out here.)
pub proof fn lemma_strip_recovers_inner(p: Seq<char>, t: Seq<char>)
    requires
        p.len() > 0,
        p[0] == '/',
        t.len() > 0,
        t[0] == '/',
        t.len() > 1 ==> t[1] != '/',
    ensures
        spec_strip_prefix(p + t, p) == Some(t),
{
    lemma_split_concat(p, t);
    lemma_split_nonempty(p);
    lemma_split_nonempty(t.skip(1));
    assert(spec_segments(p + t) =~~= spec_segments(p) + spec_segments(t)) by {
        assert(spec_split(p + t) == spec_split(p) + spec_split(t).skip(1));
    }
    assert(spec_segments(t) =~~= spec_split(t.skip(1)));
    assert(spec_segments(t).len() >= 1);
    lemma_match_len_self(spec_segments(p), spec_segments(t));
    lemma_split_sum(p);
    assert(spec_split(p)[0] =~= Seq::<char>::empty());
    assert(spec_match_len(spec_segments(p + t), spec_segments(p)) == Some(p.len() + 1int));
    let after = (p + t).skip(p.len() + 1int);
    assert(after =~= t.skip(1));
    if t.len() == 1 {
        assert(t =~= seq!['/']);
        assert(seq!['/'] + after =~= t);
    } else {
        assert(after[0] == t[1]);
        assert(seq!['/'] + after =~= t);
    }
}

/// A middleware blueprint made by the nest operation: endpoints wrapped with
/// it see request paths with `prefix` stripped (by [`strip_prefix`]) before
/// they run.
pub struct StripPrefixLayer {
    prefix: String,
}

impl View for StripPrefixLayer {
    type V = Seq<char>;

    closed spec fn view(&self) -> Seq<char> {
        self.prefix@
    }
}

impl StripPrefixLayer {
    /// Remembers the prefix to strip.
    pub fn new(prefix: &str) -> (r: Self)
        ensures
            r@ == prefix@,
    {
        StripPrefixLayer { prefix: prefix.to_owned() }
    }

    /// The prefix this layer strips.
    pub fn prefix(&self) -> (r: &str)
        ensures
            r@ == self@,
    {
        self.prefix.as_str()
    }
}

} // verus!
