use vstd::prelude::*;

use crate::error::VolumeError;
use crate::volume::Dim;
use crate::volume::Volume;

verus! {

// ---------------------------------------------------------------------------
// Specification of the metadata grammar.
//
// A metadata file is newline-separated `key = value` text. Exactly three
// keys are recognized: `NDims` (one integer, informational), `DimSize`
// (three space-separated integers: width, height, depth), `ElementSpacing`
// (ignored). Lines with unrecognized keys are ignored; a recognized key
// with a malformed value, or with no value at all, is a fatal format
// error, and so is text with no `DimSize` line. The last `DimSize` line
// wins.
// ---------------------------------------------------------------------------
/// A decimal digit.
pub open spec fn is_digit(c: char) -> bool {
    48 <= c as int <= 57
}

/// Numeric value of a digit character.
pub open spec fn digit_val(c: char) -> int {
    c as int - 48
}

/// Every character of `t` is a decimal digit.
pub open spec fn all_digits(t: Seq<char>) -> bool {
    forall|k: int| 0 <= k < t.len() ==> is_digit(t[k])
}

/// Value of a digit string, most significant digit first.
pub open spec fn digits_val(t: Seq<char>) -> int
    decreases t.len(),
{
    if t.len() == 0 {
        0
    } else {
        digits_val(t.drop_last()) * 10 + digit_val(t.last())
    }
}

/// A nonempty all-digit string whose value fits parses as that value;
/// anything else is rejected.
pub open spec fn parse_u32_of(t: Seq<char>) -> Option<u32> {
    if t.len() > 0 && all_digits(t) && digits_val(t) <= u32::MAX {
        Some(digits_val(t) as u32)
    } else {
        None
    }
}

/// Index of the first occurrence of `target` in `t` at or after `i`, or
/// `t.len()` if there is none.
pub open spec fn find_from(t: Seq<char>, i: int, target: char) -> int
    decreases t.len() - i,
{
    if i < 0 || i >= t.len() {
        t.len() as int
    } else if t[i] == target {
        i
    } else {
        find_from(t, i + 1, target)
    }
}

/// A `DimSize` value: exactly three space-separated integers.
pub open spec fn parse_dim_triple(t: Seq<char>) -> Option<(u32, u32, u32)> {
    let a = find_from(t, 0, ' ');
    if a >= t.len() {
        None
    } else {
        let b = find_from(t, a + 1, ' ');
        if b >= t.len() {
            None
        } else if find_from(t, b + 1, ' ') < t.len() {
            None
        } else {
            let p1 = parse_u32_of(t.subrange(0, a));
            let p2 = parse_u32_of(t.subrange(a + 1, b));
            let p3 = parse_u32_of(t.subrange(b + 1, t.len() as int));
            if p1 is Some && p2 is Some && p3 is Some {
                Some((p1->Some_0, p2->Some_0, p3->Some_0))
            } else {
                None
            }
        }
    }
}

/// `p` is a prefix of `t`.
pub open spec fn has_prefix(t: Seq<char>, p: Seq<char>) -> bool {
    p.len() <= t.len() && t.subrange(0, p.len() as int) == p
}

/// What one metadata line contributes: `None` is a fatal format error,
/// `Some(None)` leaves the dimensions alone, `Some(Some(triple))` sets
/// them.
pub open spec fn line_result(line: Seq<char>) -> Option<Option<(u32, u32, u32)>> {
    if has_prefix(line, "DimSize = "@) {
        match parse_dim_triple(line.skip("DimSize = "@.len() as int)) {
            Some(triple) => Some(Some(triple)),
            None => None,
        }
    } else if has_prefix(line, "NDims = "@) {
        if parse_u32_of(line.skip("NDims = "@.len() as int)) is Some {
            Some(None)
        } else {
            None
        }
    } else if has_prefix(line, "ElementSpacing = "@) {
        Some(None)
    } else if line == "NDims"@ || line == "DimSize"@ || line == "ElementSpacing"@ {
        None
    } else {
        Some(None)
    }
}

/// End of the line content that starts at `i` and runs to the newline at
/// `j` (or the end of text): a carriage return before the newline is not
/// part of the line.
pub open spec fn line_content_end(s: Seq<char>, i: int, j: int) -> int {
    if j > i && s[j - 1] == '\r' {
        j - 1
    } else {
        j
    }
}

/// Folds `line_result` over the lines of `s` starting at `i`, carrying the
/// last dimension triple seen. `None` means some line was malformed.
pub open spec fn meta_from(s: Seq<char>, i: int, acc: Option<(u32, u32, u32)>) -> Option<
    Option<(u32, u32, u32)>,
>
    decreases s.len() - i,
    via meta_from_decreases
{
    if i < 0 || i >= s.len() {
        Some(acc)
    } else {
        let j = find_from(s, i, '\n');
        let next = if j < s.len() {
            j + 1
        } else {
            j
        };
        match line_result(s.subrange(i, line_content_end(s, i, j))) {
            None => None,
            Some(update) => meta_from(
                s,
                next,
                if update is Some {
                    update
                } else {
                    acc
                },
            ),
        }
    }
}

#[via_fn]
proof fn meta_from_decreases(s: Seq<char>, i: int, acc: Option<(u32, u32, u32)>) {
    if 0 <= i < s.len() {
        lemma_find_from_bounds(s, i, '\n');
    }
}

/// The dimensions a whole metadata text denotes: the last `DimSize`
/// triple, provided every recognized line is well formed, a `DimSize`
/// line exists, and all three extents are positive.
pub open spec fn dim_of_meta(s: Seq<char>) -> Option<Dim> {
    match meta_from(s, 0, None) {
        None => None,
        Some(None) => None,
        Some(Some((w, h, d))) => if w > 0 && h > 0 && d > 0 {
            Some(Dim { width: w, height: h, depth: d })
        } else {
            None
        },
    }
}

// ---------------------------------------------------------------------------
// Lemmas about the specification.
// ---------------------------------------------------------------------------
/// Where `find_from` lands: between `i` and the end, on the target if it
/// found one, with no target before it.
proof fn lemma_find_from_bounds(t: Seq<char>, i: int, target: char)
    requires
        0 <= i <= t.len(),
    ensures
        i <= find_from(t, i, target) <= t.len(),
        find_from(t, i, target) < t.len() ==> t[find_from(t, i, target)] == target,
        forall|k: int| i <= k < find_from(t, i, target) ==> t[k] != target,
    decreases t.len() - i,
{
    if i < t.len() && t[i] != target {
        lemma_find_from_bounds(t, i + 1, target);
    }
}

/// An index with no target at or after `i` and before it, and the target
/// (or the end) at it, is exactly where `find_from` lands.
proof fn lemma_find_from_char(t: Seq<char>, i: int, j: int, target: char)
    requires
        0 <= i <= j <= t.len(),
        forall|k: int| i <= k < j ==> t[k] != target,
        j < t.len() ==> t[j] == target,
    ensures
        find_from(t, i, target) == j,
    decreases j - i,
{
    if i < j {
        lemma_find_from_char(t, i + 1, j, target);
    }
}

/// The value of a digit string never goes down when the string grows.
proof fn lemma_digits_val_nonneg(t: Seq<char>)
    requires
        all_digits(t),
    ensures
        digits_val(t) >= 0,
    decreases t.len(),
{
    if t.len() > 0 {
        assert(all_digits(t.drop_last()));
        lemma_digits_val_nonneg(t.drop_last());
        assert(digits_val(t.drop_last()) * 10 >= 0) by (nonlinear_arith)
            requires
                digits_val(t.drop_last()) >= 0,
        ;
    }
}

/// A prefix of an all-digit string is worth no more than the whole.
proof fn lemma_digits_val_prefix(t: Seq<char>, m: int)
    requires
        all_digits(t),
        0 <= m <= t.len(),
    ensures
        digits_val(t.take(m)) <= digits_val(t),
    decreases t.len(),
{
    if m == t.len() {
        assert(t.take(m) =~= t);
    } else {
        let t0 = t.drop_last();
        assert(all_digits(t0));
        assert(t0.take(m) =~= t.take(m));
        lemma_digits_val_prefix(t0, m);
        lemma_digits_val_nonneg(t0);
        assert(digits_val(t0) * 10 >= digits_val(t0)) by (nonlinear_arith)
            requires
                digits_val(t0) >= 0,
        ;
        assert(is_digit(t.last()));
    }
}

/// Appending one digit multiplies the value by ten and adds the digit.
proof fn lemma_digits_val_take_step(t: Seq<char>, m: int)
    requires
        0 <= m < t.len(),
    ensures
        digits_val(t.take(m + 1)) == digits_val(t.take(m)) * 10 + digit_val(t[m]),
{
    assert(t.take(m + 1).drop_last() =~= t.take(m));
    assert(t.take(m + 1).last() == t[m]);
}

// ---------------------------------------------------------------------------
// Executable parser.
// ---------------------------------------------------------------------------
/// Index of the first `target` in `s` within `[lo, hi)`, or `hi`.
fn scan_for(s: &str, lo: usize, hi: usize, target: char) -> (j: usize)
    requires
        lo <= hi <= s@.len(),
    ensures
        lo <= j <= hi,
        j < hi ==> s@[j as int] == target,
        forall|k: int| lo <= k < j ==> s@[k] != target,
{
    let mut j = lo;
    while j < hi
        invariant
            lo <= j <= hi <= s@.len(),
            forall|k: int| lo <= k < j ==> s@[k] != target,
        decreases hi - j,
    {
        let c = s.get_char(j);
        if c == target {
            return j;
        }
        j += 1;
    }
    j
}

/// Whether the window `[lo, hi)` of `s` starts with `prefix`.
fn starts_with_at(s: &str, lo: usize, hi: usize, prefix: &str) -> (b: bool)
    requires
        lo <= hi <= s@.len(),
    ensures
        b == has_prefix(s@.subrange(lo as int, hi as int), prefix@),
{
    let ghost sub = s@.subrange(lo as int, hi as int);
    let p = prefix.unicode_len();
    if hi - lo < p {
        return false;
    }
    let mut k: usize = 0;
    while k < p
        invariant
            k <= p,
            p == prefix@.len(),
            lo <= hi <= s@.len(),
            p <= hi - lo,
            sub == s@.subrange(lo as int, hi as int),
            forall|m: int| 0 <= m < k ==> s@[lo + m] == prefix@[m],
        decreases p - k,
    {
        let c1 = s.get_char(lo + k);
        let c2 = prefix.get_char(k);
        if c1 != c2 {
            proof {
                assert(sub.subrange(0, p as int)[k as int] == s@[lo + k]);
            }
            return false;
        }
        k += 1;
    }
    proof {
        assert(sub.subrange(0, p as int) =~= prefix@);
    }
    true
}

/// Whether the window `[lo, hi)` of `s` is exactly `word`.
fn eq_at(s: &str, lo: usize, hi: usize, word: &str) -> (b: bool)
    requires
        lo <= hi <= s@.len(),
    ensures
        b == (s@.subrange(lo as int, hi as int) == word@),
{
    let ghost sub = s@.subrange(lo as int, hi as int);
    let w = word.unicode_len();
    if hi - lo != w {
        return false;
    }
    let r = starts_with_at(s, lo, hi, word);
    proof {
        assert(sub.subrange(0, w as int) =~= sub);
    }
    r
}

/// Parses the window `[lo, hi)` of `s` as a decimal `u32`.
fn parse_u32_at(s: &str, lo: usize, hi: usize) -> (r: Option<u32>)
    requires
        lo <= hi <= s@.len(),
    ensures
        r == parse_u32_of(s@.subrange(lo as int, hi as int)),
{
    let ghost sub = s@.subrange(lo as int, hi as int);
    if lo == hi {
        return None;
    }
    let mut acc: u32 = 0;
    let mut k: usize = lo;
    while k < hi
        invariant
            lo <= k <= hi <= s@.len(),
            sub == s@.subrange(lo as int, hi as int),
            all_digits(sub.take(k - lo)),
            acc == digits_val(sub.take(k - lo)),
        decreases hi - k,
    {
        let c = s.get_char(k);
        proof {
            assert(sub[k - lo] == s@[k as int]);
        }
        let u = c as u32;
        if u < 48 || u > 57 {
            proof {
                assert(!is_digit(sub[k - lo]));
            }
            return None;
        }
        let d = u - 48;
        let wide: u64 = acc as u64 * 10 + d as u64;
        proof {
            lemma_digits_val_take_step(sub, k - lo);
        }
        if wide > 0xFFFF_FFFF {
            proof {
                if all_digits(sub) && digits_val(sub) <= u32::MAX {
                    lemma_digits_val_prefix(sub, k - lo + 1);
                    assert(false);
                }
            }
            return None;
        }
        acc = wide as u32;
        k += 1;
    }
    proof {
        assert(sub.take((hi - lo) as int) =~= sub);
    }
    Some(acc)
}

/// Parses the window `[lo, hi)` of `s` as a `DimSize` value: exactly three
/// space-separated integers.
fn parse_dim_triple_at(s: &str, lo: usize, hi: usize) -> (r: Option<(u32, u32, u32)>)
    requires
        lo <= hi <= s@.len(),
    ensures
        r == parse_dim_triple(s@.subrange(lo as int, hi as int)),
{
    let ghost t = s@.subrange(lo as int, hi as int);
    let a = scan_for(s, lo, hi, ' ');
    proof {
        lemma_find_from_char(t, 0, a - lo, ' ');
    }
    if a == hi {
        return None;
    }
    let b = scan_for(s, a + 1, hi, ' ');
    proof {
        lemma_find_from_char(t, a - lo + 1, b - lo, ' ');
    }
    if b == hi {
        return None;
    }
    let c = scan_for(s, b + 1, hi, ' ');
    proof {
        lemma_find_from_char(t, b - lo + 1, c - lo, ' ');
    }
    if c < hi {
        return None;
    }
    let p1 = parse_u32_at(s, lo, a);
    let p2 = parse_u32_at(s, a + 1, b);
    let p3 = parse_u32_at(s, b + 1, hi);
    proof {
        assert(s@.subrange(lo as int, a as int) =~= t.subrange(0, a - lo));
        assert(s@.subrange(a + 1, b as int) =~= t.subrange(a - lo + 1, b - lo));
        assert(s@.subrange(b + 1, hi as int) =~= t.subrange(b - lo + 1, t.len() as int));
    }
    match (p1, p2, p3) {
        (Some(w), Some(h), Some(d)) => Some((w, h, d)),
        _ => None,
    }
}

/// Processes one metadata line, the window `[lo, hi)` of `s`.
fn process_line(s: &str, lo: usize, hi: usize) -> (r: Option<Option<(u32, u32, u32)>>)
    requires
        lo <= hi <= s@.len(),
    ensures
        r == line_result(s@.subrange(lo as int, hi as int)),
{
    let ghost line = s@.subrange(lo as int, hi as int);
    if starts_with_at(s, lo, hi, "DimSize = ") {
        let p = "DimSize = ".unicode_len();
        proof {
            assert(line.skip("DimSize = "@.len() as int) =~= s@.subrange(lo + p, hi as int));
        }
        match parse_dim_triple_at(s, lo + p, hi) {
            Some(triple) => Some(Some(triple)),
            None => None,
        }
    } else if starts_with_at(s, lo, hi, "NDims = ") {
        let p = "NDims = ".unicode_len();
        proof {
            assert(line.skip("NDims = "@.len() as int) =~= s@.subrange(lo + p, hi as int));
        }
        match parse_u32_at(s, lo + p, hi) {
            Some(_) => Some(None),
            None => None,
        }
    } else if starts_with_at(s, lo, hi, "ElementSpacing = ") {
        Some(None)
    } else if eq_at(s, lo, hi, "NDims") || eq_at(s, lo, hi, "DimSize") || eq_at(
        s,
        lo,
        hi,
        "ElementSpacing",
    ) {
        None
    } else {
        Some(None)
    }
}

impl Volume {
    /// Parses `key = value` metadata and returns the scan's dimensions:
    /// the last `DimSize` line, whose value must be three space-separated
    /// positive integers. A recognized key with a malformed or missing
    /// value, or text with no `DimSize` line, is a format error;
    /// unrecognized keys are ignored.
    pub fn parse_meta_data_dim(meta_data: &str) -> (r: Result<Dim, VolumeError>)
        ensures
            match dim_of_meta(meta_data@) {
                Some(dim) => r == Ok::<Dim, VolumeError>(dim),
                None => r == Err::<Dim, VolumeError>(VolumeError::Format),
            },
    {
        let n = meta_data.unicode_len();
        let mut i: usize = 0;
        let mut acc: Option<(u32, u32, u32)> = None;
        while i < n
            invariant
                i <= n,
                n == meta_data@.len(),
                meta_from(meta_data@, 0, None) == meta_from(meta_data@, i as int, acc),
            decreases n - i,
        {
            let j = scan_for(meta_data, i, n, '\n');
            proof {
                lemma_find_from_char(meta_data@, i as int, j as int, '\n');
            }
            let line_end = if j > i && meta_data.get_char(j - 1) == '\r' {
                j - 1
            } else {
                j
            };
            match process_line(meta_data, i, line_end) {
                None => {
                    return Err(VolumeError::Format);
                },
                Some(update) => {
                    match update {
                        Some(_) => {
                            acc = update;
                        },
                        None => {},
                    }
                },
            }
            if j < n {
                i = j + 1;
            } else {
                i = n;
            }
        }
        match acc {
            None => Err(VolumeError::Format),
            Some((w, h, d)) => {
                if w > 0 && h > 0 && d > 0 {
                    Ok(Dim { width: w, height: h, depth: d })
                } else {
                    Err(VolumeError::Format)
                }
            },
        }
    }
}

} // verus!
