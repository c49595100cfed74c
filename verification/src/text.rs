//! Character-level text utilities: decimal digits, scanning for a separator,
//! whitespace trimming, line splitting and path joining.
//!
//! All executable functions here are verified against spec functions over
//! `Seq<char>`; the rest of the library states its contracts in terms of
//! these spec functions.

use vstd::prelude::*;

verus! {

// ---------------------------------------------------------------------------
// Digits
// ---------------------------------------------------------------------------

/// True for the ASCII digit characters `'0'` through `'9'`.
pub open spec fn is_digit_char(c: char) -> bool {
    48 <= c as u32 <= 57
}

/// The numeric value of an ASCII digit character.
pub open spec fn digit_val(c: char) -> int {
    c as u32 - 48
}

/// The digit character for a value between 0 and 9.
pub open spec fn char_of_digit(d: int) -> char {
    if d == 0 {
        '0'
    } else if d == 1 {
        '1'
    } else if d == 2 {
        '2'
    } else if d == 3 {
        '3'
    } else if d == 4 {
        '4'
    } else if d == 5 {
        '5'
    } else if d == 6 {
        '6'
    } else if d == 7 {
        '7'
    } else if d == 8 {
        '8'
    } else {
        '9'
    }
}

/// The canonical decimal digit sequence of a non-negative integer,
/// most significant digit first, without leading zeros (except for 0 itself).
pub open spec fn digits_of(n: nat) -> Seq<char>
    decreases n,
{
    if n < 10 {
        seq![char_of_digit(n as int)]
    } else {
        digits_of(n / 10).push(char_of_digit((n % 10) as int))
    }
}

/// The numeric value of a sequence of digit characters, read in base 10.
pub open spec fn chunk_value(s: Seq<char>) -> int
    decreases s.len(),
{
    if s.len() == 0 {
        0
    } else {
        chunk_value(s.drop_last()) * 10 + digit_val(s.last())
    }
}

/// True when every character of `s` is an ASCII digit.
pub open spec fn all_digits(s: Seq<char>) -> bool {
    forall|i: int| 0 <= i < s.len() ==> is_digit_char(s[i])
}

pub proof fn lemma_chunk_value_nonneg(s: Seq<char>)
    requires
        all_digits(s),
    ensures
        chunk_value(s) >= 0,
    decreases s.len(),
{
    if s.len() > 0 {
        assert(all_digits(s.drop_last()));
        lemma_chunk_value_nonneg(s.drop_last());
    }
}

/// Appending one more digit multiplies the value by ten and adds the digit.
pub proof fn lemma_chunk_value_push(s: Seq<char>, c: char)
    ensures
        chunk_value(s.push(c)) == chunk_value(s) * 10 + digit_val(c),
{
    assert(s.push(c).drop_last() =~= s);
}

/// The digit expansion of `n` consists of digits and reads back as `n`.
pub proof fn lemma_digits_of_value(n: nat)
    ensures
        digits_of(n).len() >= 1,
        all_digits(digits_of(n)),
        chunk_value(digits_of(n)) == n,
    decreases n,
{
    if n < 10 {
        assert(chunk_value(digits_of(n)) == chunk_value(Seq::<char>::empty()) * 10 + n) by {
            assert(digits_of(n).drop_last() =~= Seq::<char>::empty());
        }
    } else {
        lemma_digits_of_value(n / 10);
        lemma_chunk_value_push(digits_of(n / 10), char_of_digit((n % 10) as int));
        assert(forall|i: int|
            0 <= i < digits_of(n).len() ==> is_digit_char(#[trigger] digits_of(n)[i])) by {
            assert(digits_of(n) == digits_of(n / 10).push(char_of_digit((n % 10) as int)));
        }
    }
}

/// A one-character `&str` for each digit value, with a known view.
pub fn digit_str(d: u8) -> (r: &'static str)
    requires
        d < 10,
    ensures
        r@ =~= seq![char_of_digit(d as int)],
{
    proof {
        reveal_strlit("0");
        reveal_strlit("1");
        reveal_strlit("2");
        reveal_strlit("3");
        reveal_strlit("4");
        reveal_strlit("5");
        reveal_strlit("6");
        reveal_strlit("7");
        reveal_strlit("8");
        reveal_strlit("9");
    }
    match d {
        0 => "0",
        1 => "1",
        2 => "2",
        3 => "3",
        4 => "4",
        5 => "5",
        6 => "6",
        7 => "7",
        8 => "8",
        _ => "9",
    }
}

/// Renders a `u8` in decimal, matching `digits_of`.
pub fn u8_to_string(n: u8) -> (r: String)
    ensures
        r@ == digits_of(n as nat),
{
    let mut s = String::new();
    if n < 10 {
        s.append(digit_str(n));
        assert(s@ =~= digits_of(n as nat));
    } else {
        let q: u8 = n / 10;
        let r0: u8 = n % 10;
        proof {
            assert(digits_of(n as nat) == digits_of(n as nat / 10).push(
                char_of_digit((n as nat % 10) as int),
            ));
            assert(q as nat == n as nat / 10);
        }
        if q < 10 {
            s.append(digit_str(q));
            s.append(digit_str(r0));
            assert(digits_of(q as nat) == seq![char_of_digit(q as int)]);
            assert(s@ =~= digits_of(n as nat));
        } else {
            let d2: u8 = q / 10;
            let d1: u8 = q % 10;
            proof {
                assert(digits_of(q as nat) == digits_of(q as nat / 10).push(
                    char_of_digit((q as nat % 10) as int),
                ));
                assert(digits_of(d2 as nat) == seq![char_of_digit(d2 as int)]);
            }
            s.append(digit_str(d2));
            s.append(digit_str(d1));
            s.append(digit_str(r0));
            assert(s@ =~= digits_of(n as nat));
        }
    }
    s
}

/// The digit values of `ds`, last first, as characters.
///
/// Collecting the digits of a number by repeated division yields them least
/// significant first; reading the collection backwards restores the usual
/// order.
pub open spec fn rev_digit_chars(ds: Seq<u8>) -> Seq<char>
    decreases ds.len(),
{
    if ds.len() == 0 {
        Seq::empty()
    } else {
        seq![char_of_digit(ds.last() as int)] + rev_digit_chars(ds.drop_last())
    }
}

/// Peeling the first digit off the collection appends its character.
pub proof fn lemma_rev_digit_chars_drop_first(ds: Seq<u8>)
    requires
        ds.len() > 0,
    ensures
        rev_digit_chars(ds) == rev_digit_chars(ds.drop_first()) + seq![
            char_of_digit(ds.first() as int),
        ],
    decreases ds.len(),
{
    if ds.len() == 1 {
        assert(ds.drop_first() =~= Seq::<u8>::empty());
        assert(ds.drop_last() =~= Seq::<u8>::empty());
        assert(rev_digit_chars(ds) =~= rev_digit_chars(ds.drop_first()) + seq![
            char_of_digit(ds.first() as int),
        ]);
    } else {
        lemma_rev_digit_chars_drop_first(ds.drop_last());
        assert(ds.drop_last().drop_first() =~= ds.drop_first().drop_last());
        assert(ds.drop_first().last() == ds.last());
        assert(rev_digit_chars(ds) =~= rev_digit_chars(ds.drop_first()) + seq![
            char_of_digit(ds.first() as int),
        ]);
    }
}

/// Renders a `u64` in decimal, matching `digits_of`.
pub fn u64_to_string(n: u64) -> (r: String)
    ensures
        r@ == digits_of(n as nat),
{
    let mut m = n;
    let mut ds: Vec<u8> = Vec::new();
    while m >= 10
        invariant
            digits_of(n as nat) == digits_of(m as nat) + rev_digit_chars(ds@),
            forall|i: int| 0 <= i < ds@.len() ==> ds@[i] < 10,
        decreases m,
    {
        let ghost prev = ds@;
        let d: u8 = (m % 10) as u8;
        ds.push(d);
        proof {
            assert(ds@.drop_last() =~= prev);
            assert(rev_digit_chars(ds@) == seq![char_of_digit(d as int)] + rev_digit_chars(prev));
            assert(digits_of(m as nat) == digits_of(m as nat / 10).push(
                char_of_digit((m as nat % 10) as int),
            ));
            assert(digits_of(m as nat / 10).push(char_of_digit(d as int)) + rev_digit_chars(prev)
                =~= digits_of(m as nat / 10) + (seq![char_of_digit(d as int)] + rev_digit_chars(
                prev,
            )));
        }
        m = m / 10;
    }
    let ghost before_last = ds@;
    ds.push(m as u8);
    proof {
        assert(ds@.drop_last() =~= before_last);
        assert(rev_digit_chars(ds@) == seq![char_of_digit(m as int)] + rev_digit_chars(
            before_last,
        ));
        assert(digits_of(m as nat) == seq![char_of_digit(m as int)]);
        assert(digits_of(n as nat) =~= rev_digit_chars(ds@));
    }
    let mut s = String::new();
    let mut j = ds.len();
    proof {
        assert(ds@.subrange(j as int, ds@.len() as int) =~= Seq::<u8>::empty());
    }
    while j > 0
        invariant
            j <= ds@.len(),
            forall|i: int| 0 <= i < ds@.len() ==> ds@[i] < 10,
            s@ == rev_digit_chars(ds@.subrange(j as int, ds@.len() as int)),
        decreases j,
    {
        let ghost tail = ds@.subrange(j as int, ds@.len() as int);
        s.append(digit_str(ds[j - 1]));
        proof {
            let full = ds@.subrange(j as int - 1, ds@.len() as int);
            lemma_rev_digit_chars_drop_first(full);
            assert(full.drop_first() =~= tail);
            assert(full.first() == ds@[j as int - 1]);
        }
        j = j - 1;
    }
    proof {
        assert(ds@.subrange(0, ds@.len() as int) =~= ds@);
    }
    s
}

/// The decimal rendering of a possibly negative integer.
pub open spec fn spec_int_str(n: int) -> Seq<char> {
    if n < 0 {
        seq!['-'] + digits_of((-n) as nat)
    } else {
        digits_of(n as nat)
    }
}

/// Renders an `i32` in decimal, with a leading `-` when negative.
pub fn i32_to_string(n: i32) -> (r: String)
    ensures
        r@ == spec_int_str(n as int),
{
    if n >= 0 {
        u64_to_string(n as u64)
    } else {
        proof {
            reveal_strlit("-");
        }
        let mag: u64 = (-(n as i64)) as u64;
        let digits = u64_to_string(mag);
        let mut s = String::new();
        s.append("-");
        s.append(digits.as_str());
        proof {
            assert(s@ =~= spec_int_str(n as int));
        }
        s
    }
}

// ---------------------------------------------------------------------------
// Scanning for a separator
// ---------------------------------------------------------------------------

/// The index of the first occurrence of `sep` in `s` at or after `from`,
/// or the length of `s` if there is none.
pub open spec fn sep_or_end(s: Seq<char>, from: int, sep: char) -> int
    decreases s.len() - from when 0 <= from <= s.len()
{
    if from >= s.len() {
        s.len() as int
    } else if s[from] == sep {
        from
    } else {
        sep_or_end(s, from + 1, sep)
    }
}

pub proof fn lemma_sep_or_end_bounds(s: Seq<char>, from: int, sep: char)
    requires
        0 <= from <= s.len(),
    ensures
        from <= sep_or_end(s, from, sep) <= s.len(),
        sep_or_end(s, from, sep) < s.len() ==> s[sep_or_end(s, from, sep)] == sep,
        forall|i: int| from <= i < sep_or_end(s, from, sep) ==> s[i] != sep,
    decreases s.len() - from,
{
    if from < s.len() && s[from] != sep {
        lemma_sep_or_end_bounds(s, from + 1, sep);
    }
}

/// If no separator occurs in `[from, k)` and `k` is the end or a separator,
/// then `k` is exactly where the scan stops.
pub proof fn lemma_sep_or_end_is(s: Seq<char>, from: int, sep: char, k: int)
    requires
        0 <= from <= k <= s.len(),
        forall|i: int| from <= i < k ==> s[i] != sep,
        k == s.len() || s[k] == sep,
    ensures
        sep_or_end(s, from, sep) == k,
    decreases k - from,
{
    if from < k {
        lemma_sep_or_end_is(s, from + 1, sep, k);
    }
}

/// Finds the first occurrence of `sep` at or after `from`, or the end.
pub fn scan_to(s: &str, from: usize, sep: char) -> (r: usize)
    requires
        from <= s@.len(),
    ensures
        r == sep_or_end(s@, from as int, sep),
        from <= r <= s@.len(),
{
    let n = s.unicode_len();
    let mut i = from;
    while i < n
        invariant
            from <= i <= n,
            n == s@.len(),
            forall|j: int| from <= j < i ==> s@[j] != sep,
        decreases n - i,
    {
        if s.get_char(i) == sep {
            proof {
                lemma_sep_or_end_is(s@, from as int, sep, i as int);
            }
            return i;
        }
        i = i + 1;
    }
    proof {
        lemma_sep_or_end_is(s@, from as int, sep, n as int);
    }
    n
}

// ---------------------------------------------------------------------------
// Trimming
// ---------------------------------------------------------------------------

/// The whitespace characters tolerated around a stored version string.
pub open spec fn is_space(c: char) -> bool {
    c == ' ' || c == '\t' || c == '\r' || c == '\n'
}

pub open spec fn trim_start(s: Seq<char>) -> Seq<char>
    decreases s.len(),
{
    if s.len() > 0 && is_space(s.first()) {
        trim_start(s.drop_first())
    } else {
        s
    }
}

pub open spec fn trim_end(s: Seq<char>) -> Seq<char>
    decreases s.len(),
{
    if s.len() > 0 && is_space(s.last()) {
        trim_end(s.drop_last())
    } else {
        s
    }
}

/// `s` with leading and trailing whitespace removed.
pub open spec fn spec_trim(s: Seq<char>) -> Seq<char> {
    trim_end(trim_start(s))
}

/// If everything before `k` is whitespace and `k` is the end or non-space,
/// trimming the start yields the suffix from `k`.
pub proof fn lemma_trim_start_at(s: Seq<char>, k: int)
    requires
        0 <= k <= s.len(),
        forall|i: int| 0 <= i < k ==> is_space(s[i]),
        k == s.len() || !is_space(s[k]),
    ensures
        trim_start(s) == s.subrange(k, s.len() as int),
    decreases k,
{
    if k == 0 {
        assert(s.subrange(0, s.len() as int) =~= s);
    } else {
        assert(is_space(s.first()));
        lemma_trim_start_at(s.drop_first(), k - 1);
        assert(s.drop_first().subrange(k - 1, s.drop_first().len() as int) =~= s.subrange(
            k,
            s.len() as int,
        ));
    }
}

/// If everything from `b` on is whitespace and what precedes `b` (if
/// anything) is non-space, trimming the end yields the prefix up to `b`.
pub proof fn lemma_trim_end_at(s: Seq<char>, b: int)
    requires
        0 <= b <= s.len(),
        forall|i: int| b <= i < s.len() ==> is_space(s[i]),
        b == 0 || !is_space(s[b - 1]),
    ensures
        trim_end(s) == s.subrange(0, b),
    decreases s.len(),
{
    if b == s.len() {
        assert(s.subrange(0, b) =~= s);
    } else {
        assert(is_space(s.last()));
        lemma_trim_end_at(s.drop_last(), b);
        assert(s.drop_last().subrange(0, b) =~= s.subrange(0, b));
    }
}

/// Checks a character against [`is_space`].
pub fn is_space_char(c: char) -> (r: bool)
    ensures
        r == is_space(c),
{
    c == ' ' || c == '\t' || c == '\r' || c == '\n'
}

/// Removes leading and trailing whitespace.
pub fn trim<'a>(s: &'a str) -> (r: &'a str)
    ensures
        r@ == spec_trim(s@),
{
    let n = s.unicode_len();
    let mut a: usize = 0;
    loop
        invariant
            a <= n,
            n == s@.len(),
            forall|i: int| 0 <= i < a ==> is_space(s@[i]),
        ensures
            a <= n,
            forall|i: int| 0 <= i < a ==> is_space(s@[i]),
            a == n || !is_space(s@[a as int]),
        decreases n - a,
    {
        if a == n {
            break;
        }
        if !is_space_char(s.get_char(a)) {
            break;
        }
        a = a + 1;
    }
    proof {
        lemma_trim_start_at(s@, a as int);
    }
    if a == n {
        proof {
            assert(trim_start(s@) =~= Seq::<char>::empty());
            assert(trim_end(Seq::<char>::empty()) =~= Seq::<char>::empty());
        }
        let r = s.substring_char(n, n);
        proof {
            assert(r@ =~= spec_trim(s@));
        }
        return r;
    }
    let mut b: usize = n;
    loop
        invariant
            a < b <= n,
            n == s@.len(),
            !is_space(s@[a as int]),
            forall|i: int| b <= i < n ==> is_space(s@[i]),
        ensures
            a < b <= n,
            forall|i: int| b <= i < n ==> is_space(s@[i]),
            !is_space(s@[b - 1]),
        decreases b,
    {
        if b == a + 1 {
            break;
        }
        if !is_space_char(s.get_char(b - 1)) {
            break;
        }
        b = b - 1;
    }
    proof {
        let t = s@.subrange(a as int, n as int);
        assert(forall|i: int|
            b - a <= i < t.len() ==> is_space(#[trigger] t[i]) == is_space(s@[i + a]));
        lemma_trim_end_at(t, b as int - a as int);
        assert(t.subrange(0, b as int - a as int) =~= s@.subrange(a as int, b as int));
    }
    s.substring_char(a, b)
}

// ---------------------------------------------------------------------------
// Lines
// ---------------------------------------------------------------------------

/// `s` without a final carriage return, if it has one.
pub open spec fn strip_cr(s: Seq<char>) -> Seq<char> {
    if s.len() > 0 && s.last() == '\r' {
        s.drop_last()
    } else {
        s
    }
}

/// The lines of `s` starting at `from`: split on `'\n'`, each line with a
/// trailing `'\r'` removed, a final line ending being optional.
pub open spec fn spec_lines_from(s: Seq<char>, from: int) -> Seq<Seq<char>>
    decreases s.len() - from when 0 <= from <= s.len() via spec_lines_from_dec
{
    if from >= s.len() {
        Seq::empty()
    } else {
        let e = sep_or_end(s, from, '\n');
        if e >= s.len() {
            seq![strip_cr(s.subrange(from, s.len() as int))]
        } else {
            seq![strip_cr(s.subrange(from, e))] + spec_lines_from(s, e + 1)
        }
    }
}

#[via_fn]
proof fn spec_lines_from_dec(s: Seq<char>, from: int) {
    if 0 <= from < s.len() {
        lemma_sep_or_end_bounds(s, from, '\n');
    }
}

/// The lines of `s`, as `str::lines` yields them.
pub open spec fn spec_lines(s: Seq<char>) -> Seq<Seq<char>> {
    spec_lines_from(s, 0)
}

// ---------------------------------------------------------------------------
// String equality
// ---------------------------------------------------------------------------

/// Character-by-character equality of two string slices.
pub fn str_eq(a: &str, b: &str) -> (r: bool)
    ensures
        r == (a@ == b@),
{
    let na = a.unicode_len();
    let nb = b.unicode_len();
    if na != nb {
        return false;
    }
    let mut i: usize = 0;
    while i < na
        invariant
            0 <= i <= na,
            na == a@.len(),
            na == b@.len(),
            forall|j: int| 0 <= j < i ==> a@[j] == b@[j],
        decreases na - i,
    {
        if a.get_char(i) != b.get_char(i) {
            assert(a@ != b@);
            return false;
        }
        i = i + 1;
    }
    proof {
        assert(a@ =~= b@);
    }
    true
}

// ---------------------------------------------------------------------------
// Path joining
// ---------------------------------------------------------------------------

/// The view of `base`, a `/` separator, and the view of `child`.
pub open spec fn spec_join(base: Seq<char>, child: Seq<char>) -> Seq<char> {
    base + seq!['/'] + child
}

/// Joins a base path and a child name with a `/` separator.
pub fn path_join(base: &str, child: &str) -> (r: String)
    ensures
        r@ == spec_join(base@, child@),
{
    proof {
        reveal_strlit("/");
    }
    let mut s = base.to_owned();
    s.append("/");
    s.append(child);
    proof {
        assert(s@ =~= spec_join(base@, child@));
    }
    s
}

} // verus!
