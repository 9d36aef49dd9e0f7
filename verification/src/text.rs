//! Character-level text helpers shared by the parsing modules.
//!
//! Everything works on the character sequence of the input: line
//! splitting with the usual newline conventions, whitespace field
//! splitting, separator splitting, substring search and decimal number
//! reading. Each exec function is proved against a spec twin that
//! defines the format one character at a time.

use vstd::prelude::*;

verus! {

use vstd::std_specs::iter::IteratorSpec;

/// Whitespace as the parsers in this crate understand it: the ASCII
/// whitespace characters that occur in git output.
pub open spec fn is_space(c: char) -> bool {
    c == ' ' || c == '\t' || c == '\r' || c == '\n' || c == '\u{000B}' || c == '\u{000C}'
}

/// Exec twin of `is_space`.
pub fn space_char(c: char) -> (r: bool)
    ensures
        r == is_space(c),
{
    c == ' ' || c == '\t' || c == '\r' || c == '\n' || c == '\u{000B}' || c == '\u{000C}'
}

/// A decimal digit.
pub open spec fn is_digit(c: char) -> bool {
    '0' <= c && c <= '9'
}

/// Numeric value of a decimal digit.
pub open spec fn digit_val(c: char) -> int {
    c as int - '0' as int
}

/// The characters of `s`, in order.
pub fn str_chars(s: &str) -> (r: Vec<char>)
    ensures
        r@ == s@,
{
    broadcast use vstd::string::group_string_axioms;

    let mut it = s.chars();
    let mut r: Vec<char> = Vec::new();
    loop
        invariant
            it.decrease() is Some,
            r@ + it.remaining() == s@,
        ensures
            r@ == s@,
        decreases it.decrease()->0,
    {
        match it.next() {
            Some(c) => {
                r.push(c);
                proof {
                    assert(r@ + it.remaining() =~= s@);
                }
            },
            None => {
                proof {
                    assert(r@ =~= r@ + it.remaining());
                }
                break ;
            },
        }
    }
    r
}

/// The half-open ranges of the lines of `s[..i]`-onward, gathered one
/// character at a time: a line ends at a newline (a carriage return
/// directly before the newline is not part of the line), and a nonempty
/// tail without a final newline forms a last line.
pub open spec fn line_spans_from(
    s: Seq<char>,
    i: int,
    start: int,
    acc: Seq<(int, int)>,
) -> Seq<(int, int)>
    decreases s.len() - i,
{
    if i >= s.len() {
        if start < i {
            acc.push((start, i))
        } else {
            acc
        }
    } else if s[i] == '\n' {
        let e = if start < i && s[i - 1] == '\r' {
            i - 1
        } else {
            i
        };
        line_spans_from(s, i + 1, i + 1, acc.push((start, e)))
    } else {
        line_spans_from(s, i + 1, start, acc)
    }
}

/// The half-open ranges of the lines of `s`.
pub open spec fn line_spans(s: Seq<char>) -> Seq<(int, int)> {
    line_spans_from(s, 0, 0, Seq::empty())
}

/// Exec twin of `line_spans`.
pub fn find_line_spans(cs: &Vec<char>) -> (r: Vec<(usize, usize)>)
    ensures
        r@.map_values(|p: (usize, usize)| (p.0 as int, p.1 as int)) == line_spans(cs@),
        forall|k: int|
            0 <= k < r@.len() ==> 0 <= #[trigger] r@[k].0 <= r@[k].1 <= cs@.len(),
{
    let ghost model = line_spans(cs@);
    let mut r: Vec<(usize, usize)> = Vec::new();
    proof {
        assert(r@.map_values(|p: (usize, usize)| (p.0 as int, p.1 as int)) =~= Seq::<
            (int, int),
        >::empty());
    }
    let mut start: usize = 0;
    let mut i: usize = 0;
    while i < cs.len()
        invariant
            0 <= start <= i <= cs@.len(),
            line_spans_from(
                cs@,
                i as int,
                start as int,
                r@.map_values(|p: (usize, usize)| (p.0 as int, p.1 as int)),
            ) == model,
            forall|k: int|
                0 <= k < r@.len() ==> 0 <= #[trigger] r@[k].0 <= r@[k].1 <= cs@.len(),
        decreases cs@.len() - i,
    {
        let ghost rv = r@.map_values(|p: (usize, usize)| (p.0 as int, p.1 as int));
        if cs[i] == '\n' {
            let e = if start < i && cs[i - 1] == '\r' {
                i - 1
            } else {
                i
            };
            r.push((start, e));
            proof {
                assert(r@.map_values(|p: (usize, usize)| (p.0 as int, p.1 as int)) =~= rv.push(
                    (start as int, e as int),
                ));
            }
            start = i + 1;
        }
        i = i + 1;
    }
    proof {
        if start < i {
            let rv = r@.map_values(|p: (usize, usize)| (p.0 as int, p.1 as int));
            assert(line_spans_from(cs@, i as int, start as int, rv) == rv.push(
                (start as int, i as int),
            ));
        }
    }
    if start < i {
        let ghost rv = r@.map_values(|p: (usize, usize)| (p.0 as int, p.1 as int));
        r.push((start, i));
        proof {
            assert(r@.map_values(|p: (usize, usize)| (p.0 as int, p.1 as int)) =~= rv.push(
                (start as int, i as int),
            ));
        }
    }
    r
}

/// The half-open ranges of the whitespace-separated fields of
/// `s[i..hi]`, gathered one character at a time; `cur` is the start of
/// the field in progress, if one is open.
pub open spec fn field_spans_from(
    s: Seq<char>,
    hi: int,
    i: int,
    cur: Option<int>,
    acc: Seq<(int, int)>,
) -> Seq<(int, int)>
    decreases hi - i,
{
    if i >= hi {
        match cur {
            Option::Some(st) => acc.push((st, i)),
            Option::None => acc,
        }
    } else if is_space(s[i]) {
        match cur {
            Option::Some(st) => field_spans_from(s, hi, i + 1, Option::None, acc.push((st, i))),
            Option::None => field_spans_from(s, hi, i + 1, Option::None, acc),
        }
    } else {
        match cur {
            Option::Some(st) => field_spans_from(s, hi, i + 1, cur, acc),
            Option::None => field_spans_from(s, hi, i + 1, Option::Some(i), acc),
        }
    }
}

/// The half-open ranges of the whitespace-separated fields of `s[lo..hi]`.
pub open spec fn field_spans(s: Seq<char>, lo: int, hi: int) -> Seq<(int, int)> {
    field_spans_from(s, hi, lo, Option::None, Seq::empty())
}

/// Exec twin of `field_spans`.
pub fn find_field_spans(cs: &Vec<char>, lo: usize, hi: usize) -> (r: Vec<(usize, usize)>)
    requires
        lo <= hi <= cs@.len(),
    ensures
        r@.map_values(|p: (usize, usize)| (p.0 as int, p.1 as int)) == field_spans(
            cs@,
            lo as int,
            hi as int,
        ),
        forall|k: int|
            0 <= k < r@.len() ==> lo <= #[trigger] r@[k].0 <= r@[k].1 <= hi,
{
    let ghost model = field_spans(cs@, lo as int, hi as int);
    let mut r: Vec<(usize, usize)> = Vec::new();
    proof {
        assert(r@.map_values(|p: (usize, usize)| (p.0 as int, p.1 as int)) =~= Seq::<
            (int, int),
        >::empty());
    }
    let mut cur: Option<usize> = None;
    let mut i: usize = lo;
    while i < hi
        invariant
            lo <= i <= hi <= cs@.len(),
            cur matches Some(st) ==> lo <= st <= i,
            field_spans_from(
                cs@,
                hi as int,
                i as int,
                match cur {
                    Some(st) => Option::Some(st as int),
                    None => Option::None,
                },
                r@.map_values(|p: (usize, usize)| (p.0 as int, p.1 as int)),
            ) == model,
            forall|k: int|
                0 <= k < r@.len() ==> lo <= #[trigger] r@[k].0 <= r@[k].1 <= hi,
        decreases hi - i,
    {
        let ghost rv = r@.map_values(|p: (usize, usize)| (p.0 as int, p.1 as int));
        if space_char(cs[i]) {
            match cur {
                Some(st) => {
                    r.push((st, i));
                    proof {
                        assert(r@.map_values(|p: (usize, usize)| (p.0 as int, p.1 as int)) =~= rv.push(
                            (st as int, i as int),
                        ));
                    }
                    cur = None;
                },
                None => {},
            }
        } else {
            match cur {
                Some(_) => {},
                None => {
                    cur = Some(i);
                },
            }
        }
        i = i + 1;
    }
    match cur {
        Some(st) => {
            let ghost rv = r@.map_values(|p: (usize, usize)| (p.0 as int, p.1 as int));
            r.push((st, hi));
            proof {
                assert(r@.map_values(|p: (usize, usize)| (p.0 as int, p.1 as int)) =~= rv.push(
                    (st as int, hi as int),
                ));
            }
        },
        None => {},
    }
    r
}

/// The half-open ranges of the pieces of `s[i..hi]` split at every
/// occurrence of `sep`; empty pieces are kept, and there is always at
/// least one piece.
pub open spec fn split_spans_from(
    s: Seq<char>,
    hi: int,
    sep: char,
    i: int,
    start: int,
    acc: Seq<(int, int)>,
) -> Seq<(int, int)>
    decreases hi - i,
{
    if i >= hi {
        acc.push((start, i))
    } else if s[i] == sep {
        split_spans_from(s, hi, sep, i + 1, i + 1, acc.push((start, i)))
    } else {
        split_spans_from(s, hi, sep, i + 1, start, acc)
    }
}

/// The half-open ranges of the pieces of `s[lo..hi]` split at `sep`.
pub open spec fn split_spans(s: Seq<char>, lo: int, hi: int, sep: char) -> Seq<(int, int)> {
    split_spans_from(s, hi, sep, lo, lo, Seq::empty())
}

/// Exec twin of `split_spans`.
pub fn find_split_spans(cs: &Vec<char>, lo: usize, hi: usize, sep: char) -> (r: Vec<
    (usize, usize),
>)
    requires
        lo <= hi <= cs@.len(),
    ensures
        r@.map_values(|p: (usize, usize)| (p.0 as int, p.1 as int)) == split_spans(
            cs@,
            lo as int,
            hi as int,
            sep,
        ),
        forall|k: int|
            0 <= k < r@.len() ==> lo <= #[trigger] r@[k].0 <= r@[k].1 <= hi,
{
    let ghost model = split_spans(cs@, lo as int, hi as int, sep);
    let mut r: Vec<(usize, usize)> = Vec::new();
    proof {
        assert(r@.map_values(|p: (usize, usize)| (p.0 as int, p.1 as int)) =~= Seq::<
            (int, int),
        >::empty());
    }
    let mut start: usize = lo;
    let mut i: usize = lo;
    while i < hi
        invariant
            lo <= start <= i <= hi <= cs@.len(),
            split_spans_from(
                cs@,
                hi as int,
                sep,
                i as int,
                start as int,
                r@.map_values(|p: (usize, usize)| (p.0 as int, p.1 as int)),
            ) == model,
            forall|k: int|
                0 <= k < r@.len() ==> lo <= #[trigger] r@[k].0 <= r@[k].1 <= hi,
        decreases hi - i,
    {
        let ghost rv = r@.map_values(|p: (usize, usize)| (p.0 as int, p.1 as int));
        if cs[i] == sep {
            r.push((start, i));
            proof {
                assert(r@.map_values(|p: (usize, usize)| (p.0 as int, p.1 as int)) =~= rv.push(
                    (start as int, i as int),
                ));
            }
            start = i + 1;
        }
        i = i + 1;
    }
    let ghost rv = r@.map_values(|p: (usize, usize)| (p.0 as int, p.1 as int));
    r.push((start, hi));
    proof {
        assert(r@.map_values(|p: (usize, usize)| (p.0 as int, p.1 as int)) =~= rv.push(
            (start as int, hi as int),
        ));
    }
    r
}

/// A separator split always yields more pieces than it started with:
/// in particular, a whole split has at least one piece.
pub proof fn lemma_split_spans_len(
    s: Seq<char>,
    hi: int,
    sep: char,
    i: int,
    start: int,
    acc: Seq<(int, int)>,
)
    ensures
        split_spans_from(s, hi, sep, i, start, acc).len() > acc.len(),
    decreases hi - i,
{
    if i < hi {
        if s[i] == sep {
            lemma_split_spans_len(s, hi, sep, i + 1, i + 1, acc.push((start, i)));
        } else {
            lemma_split_spans_len(s, hi, sep, i + 1, start, acc);
        }
    }
}

/// Whether `s[lo..hi]` contains `needle` as a contiguous substring.
pub open spec fn contains_seq(s: Seq<char>, lo: int, hi: int, needle: Seq<char>) -> bool {
    exists|k: int|
        lo <= k && k + needle.len() <= hi && #[trigger] s.subrange(k, k + needle.len()) == needle
}

/// Whether `cs[lo..hi]` equals `pat` as a character sequence.
pub fn range_matches(cs: &Vec<char>, lo: usize, hi: usize, pat: &Vec<char>) -> (r: bool)
    requires
        lo <= hi <= cs@.len(),
    ensures
        r == (cs@.subrange(lo as int, hi as int) == pat@),
{
    if hi - lo != pat.len() {
        assert(cs@.subrange(lo as int, hi as int).len() != pat@.len());
        return false;
    }
    let mut m: usize = 0;
    while m < pat.len()
        invariant
            lo <= hi <= cs@.len(),
            hi - lo == pat@.len(),
            m <= pat@.len(),
            forall|k: int| 0 <= k < m ==> cs@.subrange(lo as int, hi as int)[k] == pat@[k],
        decreases pat@.len() - m,
    {
        if cs[lo + m] != pat[m] {
            assert(cs@.subrange(lo as int, hi as int)[m as int] != pat@[m as int]);
            return false;
        }
        m = m + 1;
    }
    proof {
        assert(cs@.subrange(lo as int, hi as int) =~= pat@);
    }
    true
}

/// Exec twin of `contains_seq`.
pub fn range_contains(cs: &Vec<char>, lo: usize, hi: usize, needle: &Vec<char>) -> (r: bool)
    requires
        lo <= hi <= cs@.len(),
    ensures
        r == contains_seq(cs@, lo as int, hi as int, needle@),
{
    if needle.len() > hi - lo {
        assert(!contains_seq(cs@, lo as int, hi as int, needle@));
        return false;
    }
    if needle.len() == 0 {
        proof {
            let kk: int = lo as int;
            assert(cs@.subrange(kk, kk + needle@.len()) =~= needle@);
            assert(contains_seq(cs@, lo as int, hi as int, needle@));
        }
        return true;
    }
    let last = hi - needle.len();
    let mut k: usize = lo;
    while k <= last
        invariant
            lo <= k <= last + 1,
            lo <= hi <= cs@.len(),
            1 <= needle@.len() <= hi - lo,
            last == hi - needle@.len(),
            last < hi,
            forall|k2: int|
                lo <= k2 < k ==> #[trigger] cs@.subrange(k2, k2 + needle@.len()) != needle@,
        decreases last + 1 - k,
    {
        if range_matches(cs, k, k + needle.len(), needle) {
            assert(contains_seq(cs@, lo as int, hi as int, needle@));
            return true;
        }
        k = k + 1;
    }
    assert forall|k2: int| lo <= k2 && k2 + needle@.len() <= hi as int implies #[trigger] cs@
        .subrange(k2, k2 + needle@.len()) != needle@ by {
        assert(k2 < k);
    }
    false
}

/// Whether `s` ends with `suffix`.
pub open spec fn ends_with_seq(s: Seq<char>, suffix: Seq<char>) -> bool {
    s.len() >= suffix.len() && s.skip(s.len() - suffix.len()) == suffix
}

/// Exec twin of `ends_with_seq` for a whole character vector.
pub fn chars_end_with(cs: &Vec<char>, suffix: &Vec<char>) -> (r: bool)
    ensures
        r == ends_with_seq(cs@, suffix@),
{
    if suffix.len() > cs.len() {
        return false;
    }
    let r = range_matches(cs, cs.len() - suffix.len(), cs.len(), suffix);
    proof {
        assert(cs@.subrange(cs@.len() - suffix@.len(), cs@.len() as int) =~= cs@.skip(
            cs@.len() - suffix@.len(),
        ));
    }
    r
}

/// Value of the digit run `s[i..hi]` appended to the partial value `acc`.
pub open spec fn digits_val_from(s: Seq<char>, hi: int, i: int, acc: int) -> int
    decreases hi - i,
{
    if i >= hi {
        acc
    } else {
        digits_val_from(s, hi, i + 1, acc * 10 + digit_val(s[i]))
    }
}

/// Whether every character of `s[lo..hi]` is a decimal digit.
pub open spec fn all_digits(s: Seq<char>, lo: int, hi: int) -> bool {
    forall|m: int| lo <= m < hi ==> is_digit(#[trigger] s[m])
}

/// What `s[lo..hi]` reads as an unsigned number: an optional plus sign,
/// then at least one digit, with a value that fits the machine word;
/// anything else reads as zero.
pub open spec fn number_val(s: Seq<char>, lo: int, hi: int) -> int {
    let d = if lo < hi && s[lo] == '+' {
        lo + 1
    } else {
        lo
    };
    if d < hi && all_digits(s, d, hi) && digits_val_from(s, hi, d, 0) <= usize::MAX {
        digits_val_from(s, hi, d, 0)
    } else {
        0
    }
}

/// The accumulated value never shrinks while digits are appended.
proof fn lemma_digits_val_lower(s: Seq<char>, hi: int, i: int, acc: int)
    requires
        0 <= i <= hi <= s.len(),
        all_digits(s, i, hi),
        acc >= 0,
    ensures
        digits_val_from(s, hi, i, acc) >= acc,
    decreases hi - i,
{
    if i < hi {
        lemma_digits_val_lower(s, hi, i + 1, acc * 10 + digit_val(s[i]));
    }
}

/// Reads `cs[lo..hi]` as an unsigned decimal number, zero when the text
/// is not a number or does not fit.
pub fn read_number(cs: &Vec<char>, lo: usize, hi: usize) -> (r: usize)
    requires
        lo <= hi <= cs@.len(),
    ensures
        r == number_val(cs@, lo as int, hi as int),
{
    let mut d: usize = lo;
    if d < hi && cs[d] == '+' {
        d = d + 1;
    }
    let ghost d0 = d as int;
    if d == hi {
        return 0;
    }
    let ghost total = digits_val_from(cs@, hi as int, d0, 0);
    let mut acc: usize = 0;
    let mut i: usize = d;
    while i < hi
        invariant
            lo <= d0 <= i <= hi <= cs@.len(),
            d0 == (if lo < hi && cs@[lo as int] == '+' {
                lo as int + 1
            } else {
                lo as int
            }),
            d0 < hi,
            all_digits(cs@, d0, i as int),
            acc <= usize::MAX,
            digits_val_from(cs@, hi as int, i as int, acc as int) == digits_val_from(
                cs@,
                hi as int,
                d0,
                0,
            ),
        decreases hi - i,
    {
        let c = cs[i];
        if !('0' <= c && c <= '9') {
            assert(!all_digits(cs@, d0, hi as int));
            return 0;
        }
        let dv: usize = (c as usize) - ('0' as usize);
        assert(dv == digit_val(cs@[i as int]));
        proof {
            let m = usize::MAX as int;
            let dvi = dv as int;
            vstd::arithmetic::div_mod::lemma_fundamental_div_mod(m - dvi, 10);
            vstd::arithmetic::div_mod::lemma_mod_bound(m - dvi, 10);
        }
        if acc > (usize::MAX - dv) / 10 {
            proof {
                let next = acc as int * 10 + dv as int;
                assert(next > usize::MAX);
                if all_digits(cs@, d0, hi as int) {
                    lemma_digits_val_lower(cs@, hi as int, i as int + 1, next);
                    assert(digits_val_from(cs@, hi as int, d0, 0) > usize::MAX);
                }
            }
            return 0;
        }
        assert(acc as int * 10 + dv as int <= usize::MAX);
        acc = acc * 10 + dv;
        i = i + 1;
    }
    acc
}

} // verus!
