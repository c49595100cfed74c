//! Semantic version triples with strict parsing, canonical formatting and
//! a total order.
//!
//! A version is a triple `(major, minor, patch)` of bytes. Parsing splits the
//! input on `.` into at most three components, left to right; missing
//! trailing components default to 0; components past the third are ignored;
//! a non-numeric or out-of-range component is rejected, and so is the
//! sentinel triple `0.0.0`, which stands for "no version".

use crate::error::Error;
use crate::text::{
    all_digits, chunk_value, digits_of, is_digit_char, lemma_chunk_value_push,
    lemma_digits_of_value, lemma_sep_or_end_bounds, lemma_sep_or_end_is, scan_to, sep_or_end,
    u8_to_string,
};
use vstd::prelude::*;

verus! {

/// An immutable `(major, minor, patch)` triple.
#[derive(Clone, Copy, Debug, PartialEq, Eq, Structural)]
pub struct Version {
    pub major: u8,
    pub minor: u8,
    pub patch: u8,
}

// ---------------------------------------------------------------------------
// Specification of parsing
// ---------------------------------------------------------------------------

/// A parsable version component: non-empty, all digits, value at most 255.
pub open spec fn valid_component(s: Seq<char>) -> bool {
    s.len() > 0 && all_digits(s) && chunk_value(s) <= 255
}

/// End of the first dot-separated component.
pub open spec fn dot0(s: Seq<char>) -> int {
    sep_or_end(s, 0, '.')
}

/// End of the second dot-separated component (the length if there is none).
pub open spec fn dot1(s: Seq<char>) -> int {
    if dot0(s) < s.len() {
        sep_or_end(s, dot0(s) + 1, '.')
    } else {
        s.len() as int
    }
}

/// End of the third dot-separated component (the length if there is none).
pub open spec fn dot2(s: Seq<char>) -> int {
    if dot1(s) < s.len() {
        sep_or_end(s, dot1(s) + 1, '.')
    } else {
        s.len() as int
    }
}

/// True when every component present (up to the third) is parsable.
pub open spec fn spec_components_ok(s: Seq<char>) -> bool {
    &&& valid_component(s.subrange(0, dot0(s)))
    &&& dot0(s) < s.len() ==> valid_component(s.subrange(dot0(s) + 1, dot1(s)))
    &&& dot1(s) < s.len() ==> valid_component(s.subrange(dot1(s) + 1, dot2(s)))
}

pub open spec fn spec_major(s: Seq<char>) -> int {
    chunk_value(s.subrange(0, dot0(s)))
}

pub open spec fn spec_minor(s: Seq<char>) -> int {
    if dot0(s) < s.len() {
        chunk_value(s.subrange(dot0(s) + 1, dot1(s)))
    } else {
        0
    }
}

pub open spec fn spec_patch(s: Seq<char>) -> int {
    if dot1(s) < s.len() {
        chunk_value(s.subrange(dot1(s) + 1, dot2(s)))
    } else {
        0
    }
}

/// What parsing a version string yields: `None` exactly when some component
/// is unparsable or the triple is the reserved sentinel `0.0.0`.
pub open spec fn spec_parse(s: Seq<char>) -> Option<Version> {
    if !spec_components_ok(s) {
        None
    } else if spec_major(s) == 0 && spec_minor(s) == 0 && spec_patch(s) == 0 {
        None
    } else {
        Some(
            Version {
                major: spec_major(s) as u8,
                minor: spec_minor(s) as u8,
                patch: spec_patch(s) as u8,
            },
        )
    }
}

/// The canonical `major.minor.patch` character sequence of a version.
pub open spec fn spec_version_str(v: Version) -> Seq<char> {
    digits_of(v.major as nat) + seq!['.'] + digits_of(v.minor as nat) + seq!['.'] + digits_of(
        v.patch as nat,
    )
}

/// The message of the error reporting an unparsable version string.
pub open spec fn invalid_version_message(s: Seq<char>) -> Seq<char> {
    "The version \""@ + s + "\" is invalid"@
}

/// The message [`Version::parse`] reports when it rejects `s`: the sentinel
/// message when the components parsed but were all zero, otherwise the
/// message naming the input.
pub open spec fn parse_error_message(s: Seq<char>) -> Seq<char> {
    if spec_components_ok(s) {
        invalid_version_message("0.0.0"@)
    } else {
        invalid_version_message(s)
    }
}

// ---------------------------------------------------------------------------
// Ordering
// ---------------------------------------------------------------------------

/// Lexicographic order on `(major, minor, patch)`, major most significant.
pub open spec fn spec_lt(a: Version, b: Version) -> bool {
    ||| a.major < b.major
    ||| (a.major == b.major && a.minor < b.minor)
    ||| (a.major == b.major && a.minor == b.minor && a.patch < b.patch)
}

impl PartialOrd for Version {
    fn partial_cmp(&self, other: &Version) -> (r: Option<core::cmp::Ordering>) {
        if self.major != other.major {
            if self.major < other.major {
                Some(core::cmp::Ordering::Less)
            } else {
                Some(core::cmp::Ordering::Greater)
            }
        } else if self.minor != other.minor {
            if self.minor < other.minor {
                Some(core::cmp::Ordering::Less)
            } else {
                Some(core::cmp::Ordering::Greater)
            }
        } else if self.patch != other.patch {
            if self.patch < other.patch {
                Some(core::cmp::Ordering::Less)
            } else {
                Some(core::cmp::Ordering::Greater)
            }
        } else {
            Some(core::cmp::Ordering::Equal)
        }
    }
}

impl vstd::std_specs::cmp::PartialOrdSpecImpl for Version {
    open spec fn obeys_partial_cmp_spec() -> bool {
        true
    }

    open spec fn partial_cmp_spec(&self, other: &Version) -> Option<core::cmp::Ordering> {
        if spec_lt(*self, *other) {
            Some(core::cmp::Ordering::Less)
        } else if spec_lt(*other, *self) {
            Some(core::cmp::Ordering::Greater)
        } else {
            Some(core::cmp::Ordering::Equal)
        }
    }
}

// ---------------------------------------------------------------------------
// Executable functions
// ---------------------------------------------------------------------------

impl Version {
    /// Builds a version from its three components.
    pub fn new(major: u8, minor: u8, patch: u8) -> (r: Version)
        ensures
            r == (Version { major, minor, patch }),
    {
        Version { major, minor, patch }
    }

    /// Parses a version string.
    ///
    /// Returns the parsed version exactly when [`spec_parse`] accepts the
    /// input; otherwise the error's message names the offending input (or
    /// the sentinel `0.0.0` when the components parsed but were all zero).
    pub fn parse(input: &str) -> (r: Result<Version, Error>)
        ensures
            match r {
                Ok(v) => spec_parse(input@) == Some(v),
                Err(e) => {
                    &&& spec_parse(input@) is None
                    &&& e@ == parse_error_message(input@)
                },
            },
    {
        let ghost s = input@;
        let n = input.unicode_len();
        let (comp0, e0) = scan_component(input, 0);
        let major = match comp0 {
            Some(value) => value,
            None => {
                return Err(invalid_error(input));
            },
        };
        let mut minor: u8 = 0;
        let mut patch: u8 = 0;
        if e0 < n {
            let (comp1, e1) = scan_component(input, e0 + 1);
            minor = match comp1 {
                Some(value) => value,
                None => {
                    return Err(invalid_error(input));
                },
            };
            if e1 < n {
                let (comp2, _e2) = scan_component(input, e1 + 1);
                patch = match comp2 {
                    Some(value) => value,
                    None => {
                        return Err(invalid_error(input));
                    },
                };
            }
        }
        if major == 0 && minor == 0 && patch == 0 {
            proof {
                reveal_strlit("The version \"");
                reveal_strlit("\" is invalid");
                reveal_strlit("The version \"0.0.0\" is invalid");
                reveal_strlit("0.0.0");
                assert("The version \"0.0.0\" is invalid"@ =~= invalid_version_message("0.0.0"@));
            }
            return Err(Error::generic("The version \"0.0.0\" is invalid"));
        }
        Ok(Version { major, minor, patch })
    }

    /// Renders the canonical `major.minor.patch` form.
    pub fn to_string(&self) -> (r: String)
        ensures
            r@ == spec_version_str(*self),
    {
        proof {
            reveal_strlit(".");
        }
        let mut s = u8_to_string(self.major);
        s.append(".");
        let minor = u8_to_string(self.minor);
        s.append(minor.as_str());
        s.append(".");
        let patch = u8_to_string(self.patch);
        s.append(patch.as_str());
        proof {
            assert(s@ =~= spec_version_str(*self));
        }
        s
    }
}

/// Builds the error reported for an unparsable version string.
fn invalid_error(input: &str) -> (r: Error)
    ensures
        r@ == invalid_version_message(input@),
{
    proof {
        reveal_strlit("The version \"");
        reveal_strlit("\" is invalid");
    }
    let mut m = String::from_str("The version \"");
    m.append(input);
    m.append("\" is invalid");
    proof {
        assert(m@ =~= invalid_version_message(input@));
    }
    Error::from_message(m)
}

/// Scans one dot-separated component starting at `start`: returns its value
/// if it is parsable, and the index of the dot (or the end) that terminates
/// it.
fn scan_component(s: &str, start: usize) -> (r: (Option<u8>, usize))
    requires
        start <= s@.len(),
    ensures
        r.1 == sep_or_end(s@, start as int, '.'),
        start <= r.1 <= s@.len(),
        (r.0 is Some) == valid_component(s@.subrange(start as int, r.1 as int)),
        r.0 is Some ==> r.0.unwrap() as int == chunk_value(s@.subrange(start as int, r.1 as int)),
{
    let end = scan_to(s, start, '.');
    if end == start {
        assert(s@.subrange(start as int, end as int).len() == 0);
        return (None, end);
    }
    let mut i = start;
    let mut value: u32 = 0;
    let mut ok = true;
    while i < end
        invariant
            start <= i <= end <= s@.len(),
            ok == all_digits(s@.subrange(start as int, i as int)),
            ok ==> value == if chunk_value(s@.subrange(start as int, i as int)) <= 255 {
                chunk_value(s@.subrange(start as int, i as int))
            } else {
                256
            },
        decreases end - i,
    {
        let ghost prev = s@.subrange(start as int, i as int);
        let c = s.get_char(i);
        let u = c as u32;
        proof {
            assert(s@.subrange(start as int, i as int + 1) =~= prev.push(s@[i as int]));
            lemma_chunk_value_push(prev, s@[i as int]);
        }
        if 48 <= u && u <= 57 {
            if value > 255 {
                value = 256;
            } else {
                value = value * 10 + (u - 48);
                if value > 255 {
                    value = 256;
                }
            }
        } else {
            ok = false;
        }
        i = i + 1;
    }
    let ghost comp = s@.subrange(start as int, end as int);
    if ok && value <= 255 {
        assert(valid_component(comp));
        (Some(value as u8), end)
    } else {
        assert(!valid_component(comp)) by {
            if ok {
                assert(chunk_value(comp) > 255);
            }
        }
        (None, end)
    }
}

// ---------------------------------------------------------------------------
// Sorting
// ---------------------------------------------------------------------------

/// Ascending order, duplicates allowed.
pub open spec fn sorted(s: Seq<Version>) -> bool {
    forall|i: int, j: int| 0 <= i < j < s.len() ==> !spec_lt(s[j], s[i])
}

/// The position at which `x` can be inserted while keeping `v` sorted.
fn find_insert_pos(v: &Vec<Version>, x: Version) -> (i: usize)
    requires
        sorted(v@),
    ensures
        i <= v@.len(),
        forall|j: int| 0 <= j < i ==> !spec_lt(x, v@[j]),
        forall|j: int| i <= j < v@.len() ==> !spec_lt(v@[j], x),
{
    let n = v.len();
    let mut i: usize = 0;
    loop
        invariant
            i <= n,
            n == v@.len(),
            sorted(v@),
            forall|j: int| 0 <= j < i ==> !spec_lt(x, v@[j]),
        ensures
            i <= n,
            forall|j: int| 0 <= j < i ==> !spec_lt(x, v@[j]),
            i == n || spec_lt(x, v@[i as int]),
        decreases n - i,
    {
        if i == n {
            break;
        }
        if v[i] > x {
            break;
        }
        i = i + 1;
    }
    proof {
        assert forall|j: int| i <= j < v@.len() implies !spec_lt(v@[j], x) by {
            if spec_lt(v@[j], x) {
                lemma_lt_transitive(v@[j], x, v@[i as int]);
            }
        }
    }
    i
}

/// A sorted sequence stays sorted when `x` lands between everything that
/// is no greater and everything that is no smaller.
proof fn lemma_sorted_after_insert(before: Seq<Version>, i: int, x: Version)
    requires
        sorted(before),
        0 <= i <= before.len(),
        forall|j: int| 0 <= j < i ==> !spec_lt(x, before[j]),
        forall|j: int| i <= j < before.len() ==> !spec_lt(before[j], x),
    ensures
        sorted(before.insert(i, x)),
{
    let after = before.insert(i, x);
    before.insert_ensures(i, x);
    assert forall|p: int, q: int| 0 <= p < q < after.len() implies !spec_lt(after[q], after[p]) by {
        if q < i {
            assert(after[p] == before[p] && after[q] == before[q]);
        } else if p < i && q == i {
            assert(after[p] == before[p] && after[q] == x);
        } else if p < i && q > i {
            assert(after[p] == before[p] && after[q] == before[q - 1]);
        } else if p == i {
            assert(after[p] == x && after[q] == before[q - 1]);
        } else {
            assert(after[p] == before[p - 1] && after[q] == before[q - 1]);
        }
    }
}

/// Inserts `x` into the sorted vector `v`, keeping it sorted.
pub fn insert_sorted(v: &mut Vec<Version>, x: Version)
    requires
        sorted(old(v)@),
    ensures
        sorted(final(v)@),
        final(v)@.len() == old(v)@.len() + 1,
        final(v)@.to_multiset() == old(v)@.to_multiset().insert(x),
{
    let i = find_insert_pos(v, x);
    let ghost before = v@;
    v.insert(i, x);
    proof {
        before.insert_ensures(i as int, x);
        vstd::seq_lib::to_multiset_insert(before, i as int, x);
        lemma_sorted_after_insert(before, i as int, x);
    }
}

/// Sorts the given versions ascending; the result holds the same versions.
pub fn sort_versions(input: &Vec<Version>) -> (r: Vec<Version>)
    ensures
        sorted(r@),
        r@.to_multiset() == input@.to_multiset(),
        r@.len() == input@.len(),
{
    let mut r: Vec<Version> = Vec::new();
    let mut k: usize = 0;
    proof {
        assert(input@.subrange(0, 0) =~= Seq::<Version>::empty());
        assert(r@.to_multiset() =~= Seq::<Version>::empty().to_multiset());
    }
    while k < input.len()
        invariant
            k <= input@.len(),
            sorted(r@),
            r@.len() == k,
            r@.to_multiset() == input@.subrange(0, k as int).to_multiset(),
        decreases input@.len() - k,
    {
        let ghost prefix = input@.subrange(0, k as int);
        insert_sorted(&mut r, input[k]);
        proof {
            assert(input@.subrange(0, k as int + 1) =~= prefix.push(input@[k as int]));
            vstd::seq_lib::to_multiset_build(prefix, input@[k as int]);
        }
        k = k + 1;
    }
    proof {
        assert(input@.subrange(0, input@.len() as int) =~= input@);
    }
    r
}

// ---------------------------------------------------------------------------
// Laws
// ---------------------------------------------------------------------------

/// Formatting a valid version and parsing the result gives the version back.
pub proof fn lemma_parse_format_round_trip(v: Version)
    requires
        !(v.major == 0 && v.minor == 0 && v.patch == 0),
    ensures
        spec_parse(spec_version_str(v)) == Some(v),
{
    let a = digits_of(v.major as nat);
    let b = digits_of(v.minor as nat);
    let c = digits_of(v.patch as nat);
    let s = spec_version_str(v);
    lemma_digits_of_value(v.major as nat);
    lemma_digits_of_value(v.minor as nat);
    lemma_digits_of_value(v.patch as nat);
    let la = a.len() as int;
    let lb = b.len() as int;
    let lc = c.len() as int;
    assert(s.len() == la + 1 + lb + 1 + lc);
    assert forall|i: int| 0 <= i < la implies s[i] != '.' by {
        assert(s[i] == a[i]);
        assert(is_digit_char(a[i]));
    }
    assert(s[la] == '.');
    lemma_sep_or_end_is(s, 0, '.', la);
    assert(s.subrange(0, la) =~= a);
    assert forall|i: int| la + 1 <= i < la + 1 + lb implies s[i] != '.' by {
        assert(s[i] == b[i - la - 1]);
        assert(is_digit_char(b[i - la - 1]));
    }
    assert(s[la + 1 + lb] == '.');
    lemma_sep_or_end_is(s, la + 1, '.', la + 1 + lb);
    assert(s.subrange(la + 1, la + 1 + lb) =~= b);
    assert forall|i: int| la + 1 + lb + 1 <= i < s.len() implies s[i] != '.' by {
        assert(s[i] == c[i - la - 1 - lb - 1]);
        assert(is_digit_char(c[i - la - 1 - lb - 1]));
    }
    lemma_sep_or_end_is(s, la + 1 + lb + 1, '.', s.len() as int);
    assert(s.subrange(la + 1 + lb + 1, s.len() as int) =~= c);
    assert(dot0(s) == la);
    assert(dot1(s) == la + 1 + lb);
    assert(dot2(s) == s.len() as int);
    assert(spec_major(s) == v.major as int);
    assert(spec_minor(s) == v.minor as int);
    assert(spec_patch(s) == v.patch as int);
    assert(spec_components_ok(s));
}


/// Dot-separated groups past the third are ignored: parsing an input that
/// goes on after its third group yields whatever the input up to the end of
/// that group yields.
pub proof fn lemma_extra_groups_ignored(u: Seq<char>)
    requires
        dot2(u) < u.len(),
    ensures
        spec_parse(u) == spec_parse(u.subrange(0, dot2(u))),
{
    let k = dot2(u);
    let s = u.subrange(0, k);
    lemma_sep_or_end_bounds(u, 0, '.');
    assert(dot0(u) < u.len());
    lemma_sep_or_end_bounds(u, dot0(u) + 1, '.');
    assert(dot1(u) < u.len());
    lemma_sep_or_end_bounds(u, dot1(u) + 1, '.');
    assert(dot0(u) < dot1(u) < k);
    assert(u[k] == '.');
    lemma_sep_or_end_is(s, 0, '.', dot0(u));
    assert(dot0(s) == dot0(u));
    lemma_sep_or_end_is(s, dot0(u) + 1, '.', dot1(u));
    assert(dot1(s) == dot1(u));
    lemma_sep_or_end_is(s, dot1(u) + 1, '.', k);
    assert(dot2(s) == k);
    assert(s.subrange(0, dot0(u)) =~= u.subrange(0, dot0(u)));
    assert(s.subrange(dot0(u) + 1, dot1(u)) =~= u.subrange(dot0(u) + 1, dot1(u)));
    assert(s.subrange(dot1(u) + 1, k) =~= u.subrange(dot1(u) + 1, k));
    assert(spec_components_ok(s) == spec_components_ok(u));
    assert(spec_major(s) == spec_major(u));
    assert(spec_minor(s) == spec_minor(u));
    assert(spec_patch(s) == spec_patch(u));
}

/// The order on versions is irreflexive.
pub proof fn lemma_lt_irreflexive(a: Version)
    ensures
        !spec_lt(a, a),
{
}

/// The order on versions is transitive.
pub proof fn lemma_lt_transitive(a: Version, b: Version, c: Version)
    requires
        spec_lt(a, b),
        spec_lt(b, c),
    ensures
        spec_lt(a, c),
{
}

/// Any two versions are related in exactly one way: less, equal, or greater.
pub proof fn lemma_lt_trichotomy(a: Version, b: Version)
    ensures
        spec_lt(a, b) || a == b || spec_lt(b, a),
        spec_lt(a, b) ==> !(a == b) && !spec_lt(b, a),
        a == b ==> !spec_lt(a, b) && !spec_lt(b, a),
{
}

} // verus!

