//! Release versions: `vX.Y.Z` tags, versioned setup file names on the LAN
//! share, and the order in which they are compared.

use vstd::prelude::*;
use crate::encoding::{spec_to_lowercase, to_lowercase};
use crate::text::{
    chars_of, is_ascii_digit, parse_u32, spec_parse_u32, split_chars, split_on, views_of,
};

verus! {

/// The version of this build.
pub const CURRENT_VERSION: &'static str = "1.2.4";

/// A `major.minor.patch` version.
pub type Version3 = (u32, u32, u32);

/// A `major.minor.patch.build` version of a setup file on the share.
pub type Version4 = (u32, u32, u32, u32);

/// `s` with every leading `v` removed (`trim_start_matches('v')`).
pub open spec fn trim_leading_v(s: Seq<char>) -> Seq<char>
    decreases s.len(),
{
    if s.len() > 0 && s[0] == 'v' {
        trim_leading_v(s.drop_first())
    } else {
        s
    }
}

/// A version string: any number of leading `v`s, then exactly three
/// dot-separated numbers, each as `str::parse::<u32>` accepts it.
pub open spec fn spec_parse_version(s: Seq<char>) -> Option<Version3> {
    let parts = split_on(trim_leading_v(s), '.');
    if parts.len() == 3 {
        match (spec_parse_u32(parts[0]), spec_parse_u32(parts[1]), spec_parse_u32(parts[2])) {
            (Some(a), Some(b), Some(c)) => Some((a, b, c)),
            _ => None,
        }
    } else {
        None
    }
}

/// Lexicographic "strictly greater" on three-part versions.
pub open spec fn version3_gt(a: Version3, b: Version3) -> bool {
    a.0 > b.0 || (a.0 == b.0 && (a.1 > b.1 || (a.1 == b.1 && a.2 > b.2)))
}

/// Lexicographic "strictly greater" on four-part versions.
pub open spec fn version4_gt(a: Version4, b: Version4) -> bool {
    a.0 > b.0 || (a.0 == b.0 && (a.1 > b.1 || (a.1 == b.1 && (a.2 > b.2 || (a.2 == b.2
        && a.3 > b.3)))))
}

/// Whether `a` is a strictly newer three-part version than `b`.
pub fn version3_newer(a: Version3, b: Version3) -> (r: bool)
    ensures
        r == version3_gt(a, b),
{
    a.0 > b.0 || (a.0 == b.0 && (a.1 > b.1 || (a.1 == b.1 && a.2 > b.2)))
}

/// Whether `a` is a strictly newer four-part version than `b`.
pub fn version4_newer(a: Version4, b: Version4) -> (r: bool)
    ensures
        r == version4_gt(a, b),
{
    a.0 > b.0 || (a.0 == b.0 && (a.1 > b.1 || (a.1 == b.1 && (a.2 > b.2 || (a.2 == b.2 && a.3
        > b.3)))))
}

/// Index of the first character of `s` that is not `v`.
fn skip_leading_v(s: &[char]) -> (k: usize)
    ensures
        k <= s@.len(),
        s@.skip(k as int) == trim_leading_v(s@),
{
    let mut k: usize = 0;
    assert(s@.skip(0) =~= s@);
    while k < s.len() && s[k] == 'v'
        invariant
            k <= s@.len(),
            trim_leading_v(s@) == trim_leading_v(s@.skip(k as int)),
        decreases s@.len() - k,
    {
        assert(s@.skip(k as int).drop_first() =~= s@.skip(k + 1));
        k = k + 1;
    }
    k
}

/// Parse a release version such as `v1.2.3` or `1.2.3`.
pub fn parse_version(version: &str) -> (r: Option<Version3>)
    ensures
        r == spec_parse_version(version@),
{
    let chars = chars_of(version);
    parse_version_chars(chars.as_slice())
}

/// `parse_version` on the characters of a version string.
pub fn parse_version_chars(chars: &[char]) -> (r: Option<Version3>)
    ensures
        r == spec_parse_version(chars@),
{
    let k = skip_leading_v(chars);
    let rest = &chars[k..chars.len()];
    assert(rest@ =~= chars@.skip(k as int));
    let parts = split_chars(rest, '.');
    if parts.len() != 3 {
        return None;
    }
    let ghost pv = views_of(parts@);
    assert(pv[0] == parts@[0]@ && pv[1] == parts@[1]@ && pv[2] == parts@[2]@);
    let a = parse_u32(parts[0].as_slice());
    let b = parse_u32(parts[1].as_slice());
    let c = parse_u32(parts[2].as_slice());
    match (a, b, c) {
        (Some(a), Some(b), Some(c)) => Some((a, b, c)),
        _ => None,
    }
}

/// The version of this build, as a tuple.
pub open spec fn spec_current_version() -> Option<Version3> {
    spec_parse_version(CURRENT_VERSION@)
}

/// Whether a release tag names a strictly newer version than this build.
/// An unparseable tag is never newer.
pub open spec fn spec_update_is_newer(latest: Seq<char>) -> bool {
    match (spec_parse_version(latest), spec_current_version()) {
        (Some(l), Some(c)) => version3_gt(l, c),
        _ => false,
    }
}

/// Whether `latest` is a strictly newer release than this build.
pub fn update_is_newer(latest: &str) -> (r: bool)
    ensures
        r == spec_update_is_newer(latest@),
{
    match (parse_version(latest), parse_version(CURRENT_VERSION)) {
        (Some(l), Some(c)) => version3_newer(l, c),
        _ => false,
    }
}

/// Law: leading `v`s do not change what a version string means.
pub proof fn lemma_leading_v_ignored(s: Seq<char>)
    ensures
        spec_parse_version(seq!['v'] + s) == spec_parse_version(s),
{
    assert((seq!['v'] + s).drop_first() =~= s);
    assert(trim_leading_v(seq!['v'] + s) == trim_leading_v(s));
}

/// Law: "strictly newer" is a strict total order on versions: irreflexive,
/// transitive, and any two distinct versions are ordered one way.
pub proof fn lemma_version3_order(a: Version3, b: Version3, c: Version3)
    ensures
        !version3_gt(a, a),
        version3_gt(a, b) && version3_gt(b, c) ==> version3_gt(a, c),
        version3_gt(a, b) ==> !version3_gt(b, a),
        a != b ==> version3_gt(a, b) || version3_gt(b, a),
{
}

/// Law: "newer" on three-part versions is the lexicographic order on
/// (major, minor, patch): the first differing part decides, and equal
/// versions are not newer.
pub proof fn lemma_version3_lexicographic(a: Version3, b: Version3)
    ensures
        a.0 > b.0 ==> version3_gt(a, b),
        a.0 < b.0 ==> !version3_gt(a, b),
        a.0 == b.0 && a.1 > b.1 ==> version3_gt(a, b),
        a.0 == b.0 && a.1 < b.1 ==> !version3_gt(a, b),
        a.0 == b.0 && a.1 == b.1 && a.2 > b.2 ==> version3_gt(a, b),
        a.0 == b.0 && a.1 == b.1 && a.2 <= b.2 ==> !version3_gt(a, b),
{
}

/// Law: "newer" on four-part versions is the lexicographic order on
/// (major, minor, patch, build): the first differing part decides, and
/// equal versions are not newer.
pub proof fn lemma_version4_lexicographic(a: Version4, b: Version4)
    ensures
        a.0 > b.0 ==> version4_gt(a, b),
        a.0 < b.0 ==> !version4_gt(a, b),
        a.0 == b.0 && a.1 > b.1 ==> version4_gt(a, b),
        a.0 == b.0 && a.1 < b.1 ==> !version4_gt(a, b),
        a.0 == b.0 && a.1 == b.1 && a.2 > b.2 ==> version4_gt(a, b),
        a.0 == b.0 && a.1 == b.1 && a.2 < b.2 ==> !version4_gt(a, b),
        a.0 == b.0 && a.1 == b.1 && a.2 == b.2 && a.3 > b.3 ==> version4_gt(a, b),
        a.0 == b.0 && a.1 == b.1 && a.2 == b.2 && a.3 <= b.3 ==> !version4_gt(a, b),
{
}

/// Law: a release is newer only if its version is strictly greater than
/// this build's; in particular this build's own version is never newer.
pub proof fn lemma_update_is_newer_exactly(latest: Seq<char>)
    ensures
        spec_update_is_newer(latest) <==> (spec_parse_version(latest) matches Some(l)
            && spec_current_version() matches Some(c) && version3_gt(l, c)),
        !spec_update_is_newer(CURRENT_VERSION@),
{
}

/// The version of this build as a four-part version, with build number 0;
/// all zeros if it could not be parsed.
pub open spec fn spec_current_version_tuple() -> Version4 {
    match spec_current_version() {
        Some((a, b, c)) => (a, b, c, 0),
        None => (0, 0, 0, 0),
    }
}

/// The running build as `(major, minor, patch, 0)`.
pub fn current_version_tuple() -> (r: Version4)
    ensures
        r == spec_current_version_tuple(),
{
    match parse_version(CURRENT_VERSION) {
        Some((major, minor, patch)) => (major, minor, patch, 0),
        None => (0, 0, 0, 0),
    }
}

// ---------------------------------------------------------------------------
// Versioned setup file names: `TaskbarIP_Setup_v1.2.4(.0).exe`
// ---------------------------------------------------------------------------

/// Position `i` starts a version marker: `_` or `-`, then `v`, then a digit.
pub open spec fn is_version_marker(s: Seq<char>, i: int) -> bool {
    0 <= i && i + 2 < s.len() && (s[i] == '_' || s[i] == '-') && s[i + 1] == 'v'
        && is_ascii_digit(s[i + 2])
}

/// The last version marker that starts before position `n`.
pub open spec fn last_marker_below(s: Seq<char>, n: int) -> Option<int>
    decreases n,
{
    if n <= 0 {
        None
    } else if is_version_marker(s, n - 1) {
        Some(n - 1)
    } else {
        last_marker_below(s, n - 1)
    }
}

/// The maximal runs of consecutive ASCII digits in `s`, left to right.
pub open spec fn digit_runs(s: Seq<char>) -> Seq<Seq<char>>
    decreases s.len(),
{
    if s.len() == 0 {
        Seq::empty()
    } else {
        let r = digit_runs(s.drop_last());
        let c = s.last();
        if !is_ascii_digit(c) {
            r
        } else if s.len() >= 2 && is_ascii_digit(s[s.len() - 2]) {
            r.update(r.len() - 1, r.last().push(c))
        } else {
            r.push(seq![c])
        }
    }
}

/// A string that ends in a digit has at least one digit run.
pub proof fn lemma_digit_runs_nonempty(s: Seq<char>)
    requires
        s.len() > 0,
        is_ascii_digit(s.last()),
    ensures
        digit_runs(s).len() > 0,
    decreases s.len(),
{
    if s.len() >= 2 && is_ascii_digit(s[s.len() - 2]) {
        assert(s.drop_last().last() == s[s.len() - 2]);
        lemma_digit_runs_nonempty(s.drop_last());
    }
}

/// The four-part version that a lower-cased setup file name carries: the
/// digit runs after the last marker give major, minor and patch (all three
/// required) and an optional build number (0 when absent or too large).
pub open spec fn spec_version_in_lowercase_name(lower: Seq<char>) -> Option<Version4> {
    match last_marker_below(lower, lower.len() as int) {
        None => None,
        Some(i) => {
            let runs = digit_runs(lower.skip(i + 2));
            if runs.len() >= 3 {
                match (spec_parse_u32(runs[0]), spec_parse_u32(runs[1]), spec_parse_u32(runs[2])) {
                    (Some(a), Some(b), Some(c)) => {
                        let d = if runs.len() >= 4 {
                            match spec_parse_u32(runs[3]) {
                                Some(d) => d,
                                None => 0u32,
                            }
                        } else {
                            0u32
                        };
                        Some((a, b, c, d))
                    },
                    _ => None,
                }
            } else {
                None
            }
        },
    }
}

/// The version in a setup file name, read from its lower-cased form.
pub open spec fn spec_parse_smb_filename_version(name: Seq<char>) -> Option<Version4> {
    spec_version_in_lowercase_name(spec_to_lowercase(name))
}

/// The maximal digit runs of `s`.
pub fn digit_runs_of(s: &[char]) -> (out: Vec<Vec<char>>)
    ensures
        views_of(out@) == digit_runs(s@),
{
    let mut out: Vec<Vec<char>> = Vec::new();
    let mut i: usize = 0;
    assert(s@.take(0) =~= Seq::<char>::empty());
    while i < s.len()
        invariant
            i <= s@.len(),
            views_of(out@) == digit_runs(s@.take(i as int)),
        decreases s@.len() - i,
    {
        let c = s[i];
        let ghost prev = s@.take(i as int);
        let ghost next = s@.take(i + 1);
        assert(next.drop_last() =~= prev);
        assert(next.last() == c);
        if '0' <= c && c <= '9' {
            if i > 0 && '0' <= s[i - 1] && s[i - 1] <= '9' {
                assert(next[next.len() - 2] == s@[i - 1]);
                proof {
                    assert(prev.last() == s@[i - 1]);
                    lemma_digit_runs_nonempty(prev);
                }
                let ghost before = views_of(out@);
                let mut last = out.pop().unwrap();
                assert(last@ == before.last());
                last.push(c);
                out.push(last);
                assert(views_of(out@) =~= before.update(before.len() - 1, before.last().push(c)));
            } else {
                let ghost before = views_of(out@);
                let mut run: Vec<char> = Vec::new();
                run.push(c);
                out.push(run);
                assert(views_of(out@) =~= before.push(seq![c]));
            }
        }
        i = i + 1;
    }
    assert(s@.take(s@.len() as int) =~= s@);
    out
}

/// The start of the last version marker in `s`, if any.
fn find_last_marker(s: &[char]) -> (r: Option<usize>)
    ensures
        match r {
            Some(i) => last_marker_below(s@, s@.len() as int) == Some(i as int)
                && is_version_marker(s@, i as int),
            None => last_marker_below(s@, s@.len() as int) is None,
        },
{
    let n = s.len();
    let mut found: Option<usize> = None;
    let mut i: usize = 0;
    while i < n
        invariant
            i <= n,
            n == s@.len(),
            match found {
                Some(k) => last_marker_below(s@, i as int) == Some(k as int)
                    && is_version_marker(s@, k as int),
                None => last_marker_below(s@, i as int) is None,
            },
        decreases n - i,
    {
        if n - i > 2 && (s[i] == '_' || s[i] == '-') && s[i + 1] == 'v' && '0' <= s[i + 2]
            && s[i + 2] <= '9' {
            found = Some(i);
        }
        i = i + 1;
    }
    found
}

/// The version a lower-cased setup file name carries.
pub fn version_in_lowercase_name(lower: &[char]) -> (r: Option<Version4>)
    ensures
        r == spec_version_in_lowercase_name(lower@),
{
    let n = lower.len();
    let start = match find_last_marker(lower) {
        Some(i) => {
            assert(i + 2 < n);
            i + 2
        },
        None => return None,
    };
    let tail = &lower[start..n];
    assert(tail@ =~= lower@.skip(start as int));
    let runs = digit_runs_of(tail);
    if runs.len() < 3 {
        return None;
    }
    let ghost rv = views_of(runs@);
    assert(rv[0] == runs@[0]@ && rv[1] == runs@[1]@ && rv[2] == runs@[2]@);
    let a = parse_u32(runs[0].as_slice());
    let b = parse_u32(runs[1].as_slice());
    let c = parse_u32(runs[2].as_slice());
    match (a, b, c) {
        (Some(a), Some(b), Some(c)) => {
            let d = if runs.len() >= 4 {
                assert(rv[3] == runs@[3]@);
                match parse_u32(runs[3].as_slice()) {
                    Some(d) => d,
                    None => 0,
                }
            } else {
                0
            };
            Some((a, b, c, d))
        },
        _ => None,
    }
}

/// Parse `TaskbarIP_Setup_v1.2.4(.0).exe` style names into
/// `(major, minor, patch, build)`; the name is compared in lower case.
pub fn parse_smb_filename_version(name: &str) -> (r: Option<Version4>)
    ensures
        r == spec_parse_smb_filename_version(name@),
{
    let lower = to_lowercase(name);
    let chars = chars_of(lower.as_str());
    version_in_lowercase_name(chars.as_slice())
}

} // verus!
