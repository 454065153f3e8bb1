//! Character and string helpers shared by the lexer, the parser and the
//! evaluator: decimal digit runs, rendering integers in decimal notation,
//! string equality, and splitting a string on a delimiter.

use vstd::prelude::*;
use vstd::string::StrSliceExecFns;
use vstd::string::StringExecFns;

verus! {

/// Relies on String::push: appends the given character to the end of the string.
pub assume_specification[ std::string::String::push ](s: &mut String, ch: char)
    ensures
        final(s)@ == old(s)@.push(ch),
;

pub open spec fn is_digit_char(c: char) -> bool {
    48 <= c as u32 <= 57
}

pub open spec fn digit_val(c: char) -> int {
    c as u32 - 48
}

pub open spec fn all_digits(s: Seq<char>) -> bool {
    forall|i: int| 0 <= i < s.len() ==> is_digit_char(#[trigger] s[i])
}

/// The numeric value of a run of decimal digits, most significant first.
pub open spec fn digits_val(s: Seq<char>) -> int
    decreases s.len(),
{
    if s.len() == 0 {
        0
    } else {
        digits_val(s.drop_last()) * 10 + digit_val(s.last())
    }
}

pub proof fn lemma_digits_val_push(s: Seq<char>, c: char)
    ensures
        digits_val(s.push(c)) == digits_val(s) * 10 + digit_val(c),
{
    assert(s.push(c).drop_last() =~= s);
    assert(s.push(c).last() == c);
}

pub proof fn lemma_digits_val_nonneg(s: Seq<char>)
    requires
        all_digits(s),
    ensures
        digits_val(s) >= 0,
    decreases s.len(),
{
    if s.len() > 0 {
        assert(all_digits(s.drop_last()));
        lemma_digits_val_nonneg(s.drop_last());
    }
}

pub proof fn lemma_digits_val_take_le(s: Seq<char>, k: int)
    requires
        all_digits(s),
        0 <= k <= s.len(),
    ensures
        digits_val(s.take(k)) <= digits_val(s),
    decreases s.len() - k,
{
    if k < s.len() {
        assert(s.take(k + 1).drop_last() =~= s.take(k));
        assert(all_digits(s.take(k)));
        lemma_digits_val_nonneg(s.take(k));
        assert(digits_val(s.take(k + 1)) == digits_val(s.take(k)) * 10 + digit_val(s[k]));
        lemma_digits_val_take_le(s, k + 1);
    } else {
        assert(s.take(k) =~= s);
    }
}

/// The value of a numeric lexeme as a 64-bit integer: defined exactly when
/// the lexeme is a nonempty run of decimal digits whose value fits.
pub open spec fn int_lexeme_val(s: Seq<char>) -> Option<i64> {
    if s.len() > 0 && all_digits(s) && digits_val(s) <= i64::MAX {
        Some(digits_val(s) as i64)
    } else {
        None
    }
}

/// The value of an index lexeme as a usize: defined exactly when the lexeme
/// is a nonempty run of decimal digits whose value fits.
pub open spec fn index_lexeme_val(s: Seq<char>) -> Option<usize> {
    if s.len() > 0 && all_digits(s) && digits_val(s) <= usize::MAX {
        Some(digits_val(s) as usize)
    } else {
        None
    }
}

pub fn is_digit(c: char) -> (r: bool)
    ensures
        r == is_digit_char(c),
{
    let u = c as u32;
    48 <= u && u <= 57
}

pub fn digit_value(c: char) -> (d: u32)
    requires
        is_digit_char(c),
    ensures
        d == digit_val(c),
{
    c as u32 - 48
}

pub fn parse_int_lexeme(s: &str) -> (r: Option<i64>)
    ensures
        r == int_lexeme_val(s@),
{
    let n = s.unicode_len();
    if n == 0 {
        return None;
    }
    let mut acc: i64 = 0;
    let mut i: usize = 0;
    while i < n
        invariant
            0 <= i <= n,
            n == s@.len(),
            all_digits(s@.take(i as int)),
            acc == digits_val(s@.take(i as int)),
            0 <= acc,
        decreases n - i,
    {
        let c = s.get_char(i);
        if !is_digit(c) {
            assert(s@[i as int] == c);
            assert(!all_digits(s@));
            return None;
        }
        let d = digit_value(c);
        proof {
            lemma_digits_val_push(s@.take(i as int), c);
            assert(s@.take(i as int + 1).drop_last() =~= s@.take(i as int));
            assert(s@.take(i as int + 1) =~= s@.take(i as int).push(c));
        }
        let step: Option<i64> = match acc.checked_mul(10) {
            Some(x) => x.checked_add(d as i64),
            None => None,
        };
        match step {
            Some(a2) => {
                acc = a2;
                i = i + 1;
            },
            None => {
                proof {
                    assert(digits_val(s@.take(i as int + 1)) > i64::MAX);
                    if all_digits(s@) {
                        lemma_digits_val_take_le(s@, i as int + 1);
                        assert(digits_val(s@) > i64::MAX);
                    }
                }
                return None;
            },
        }
    }
    proof {
        assert(s@.take(n as int) =~= s@);
    }
    Some(acc)
}

pub fn parse_index_lexeme(s: &str) -> (r: Option<usize>)
    ensures
        r == index_lexeme_val(s@),
{
    let n = s.unicode_len();
    if n == 0 {
        return None;
    }
    let mut acc: usize = 0;
    let mut i: usize = 0;
    while i < n
        invariant
            0 <= i <= n,
            n == s@.len(),
            all_digits(s@.take(i as int)),
            acc == digits_val(s@.take(i as int)),
        decreases n - i,
    {
        let c = s.get_char(i);
        if !is_digit(c) {
            assert(s@[i as int] == c);
            assert(!all_digits(s@));
            return None;
        }
        let d = digit_value(c);
        proof {
            lemma_digits_val_push(s@.take(i as int), c);
            assert(s@.take(i as int + 1).drop_last() =~= s@.take(i as int));
            assert(s@.take(i as int + 1) =~= s@.take(i as int).push(c));
        }
        let step: Option<usize> = match acc.checked_mul(10) {
            Some(x) => x.checked_add(d as usize),
            None => None,
        };
        match step {
            Some(a2) => {
                acc = a2;
                i = i + 1;
            },
            None => {
                proof {
                    assert(digits_val(s@.take(i as int + 1)) > usize::MAX);
                    if all_digits(s@) {
                        lemma_digits_val_take_le(s@, i as int + 1);
                        assert(digits_val(s@) > usize::MAX);
                    }
                }
                return None;
            },
        }
    }
    proof {
        assert(s@.take(n as int) =~= s@);
    }
    Some(acc)
}

pub open spec fn digit_char(d: int) -> char {
    if d == 0 {
        '0'
    } else if d == 1 {
        '1'
    } else if d == 2 {
        '2'
    } else if d == 3 {
        '3'
    } else if d == 4 {
        '4'
    } else if d == 5 {
        '5'
    } else if d == 6 {
        '6'
    } else if d == 7 {
        '7'
    } else if d == 8 {
        '8'
    } else {
        '9'
    }
}

/// The decimal rendering of a nonnegative integer, without sign or padding.
pub open spec fn nat_dec_str(n: int) -> Seq<char>
    decreases n,
{
    if n < 10 {
        seq![digit_char(n)]
    } else {
        nat_dec_str(n / 10).push(digit_char(n % 10))
    }
}

/// The decimal rendering of a 64-bit integer, with a leading '-' if negative.
pub open spec fn i64_dec_str(n: i64) -> Seq<char> {
    if n < 0 {
        seq!['-'] + nat_dec_str(-(n as int))
    } else {
        nat_dec_str(n as int)
    }
}

fn digit_to_char(d: u64) -> (c: char)
    requires
        d < 10,
    ensures
        c == digit_char(d as int),
{
    if d == 0 {
        '0'
    } else if d == 1 {
        '1'
    } else if d == 2 {
        '2'
    } else if d == 3 {
        '3'
    } else if d == 4 {
        '4'
    } else if d == 5 {
        '5'
    } else if d == 6 {
        '6'
    } else if d == 7 {
        '7'
    } else if d == 8 {
        '8'
    } else {
        '9'
    }
}

pub fn u64_to_dec(n: u64) -> (s: String)
    ensures
        s@ == nat_dec_str(n as int),
    decreases n,
{
    if n < 10 {
        let mut s = String::new();
        s.push(digit_to_char(n));
        proof {
            assert(s@ =~= seq![digit_char(n as int)]);
        }
        s
    } else {
        let mut s = u64_to_dec(n / 10);
        s.push(digit_to_char(n % 10));
        s
    }
}

pub fn i64_to_dec(n: i64) -> (s: String)
    ensures
        s@ == i64_dec_str(n),
{
    if n >= 0 {
        u64_to_dec(n as u64)
    } else {
        let m: u64 = (-(n as i128)) as u64;
        let mut s = String::new();
        s.push('-');
        let tail = u64_to_dec(m);
        s.append(tail.as_str());
        proof {
            assert(s@ =~= seq!['-'] + nat_dec_str(m as int));
        }
        s
    }
}

pub fn str_eq(a: &str, b: &str) -> (r: bool)
    ensures
        r == (a@ == b@),
{
    let n = a.unicode_len();
    let m = b.unicode_len();
    if n != m {
        return false;
    }
    let mut i: usize = 0;
    while i < n
        invariant
            0 <= i <= n,
            n == a@.len(),
            n == b@.len(),
            forall|k: int| 0 <= k < i ==> a@[k] == b@[k],
        decreases n - i,
    {
        let ca = a.get_char(i);
        let cb = b.get_char(i);
        if ca != cb {
            assert(a@[i as int] != b@[i as int]);
            return false;
        }
        i = i + 1;
    }
    proof {
        assert(a@ =~= b@);
    }
    true
}

pub open spec fn match_at(s: Seq<char>, d: Seq<char>, i: int) -> bool {
    0 <= i && i + d.len() <= s.len() && s.subrange(i, i + d.len()) == d
}

/// The first position at or after `i` where the delimiter occurs, if any.
pub open spec fn find_from(s: Seq<char>, d: Seq<char>, i: int) -> Option<int>
    decreases s.len() - i,
{
    if d.len() <= 0 || i < 0 {
        None
    } else if i + d.len() > s.len() {
        None
    } else if match_at(s, d, i) {
        Some(i)
    } else {
        find_from(s, d, i + 1)
    }
}

pub proof fn lemma_find_from_some(s: Seq<char>, d: Seq<char>, i: int, j: int)
    requires
        find_from(s, d, i) == Some(j),
    ensures
        i <= j,
        j + d.len() <= s.len(),
        d.len() >= 1,
    decreases s.len() - i,
{
    if !(d.len() <= 0 || i < 0) && i + d.len() <= s.len() && !match_at(s, d, i) {
        lemma_find_from_some(s, d, i + 1, j);
    }
}

/// Splitting on every occurrence of a delimiter, left to right, taking the
/// leftmost occurrence each time. An empty delimiter has no occurrence, so
/// the string comes back whole.
pub open spec fn split_seq(s: Seq<char>, d: Seq<char>) -> Seq<Seq<char>>
    decreases s.len(),
    via split_seq_decreases
{
    if d.len() == 0 {
        seq![s]
    } else {
        match find_from(s, d, 0) {
            Option::None => seq![s],
            Option::Some(j) => seq![s.take(j)] + split_seq(s.skip(j + d.len()), d),
        }
    }
}

#[via_fn]
proof fn split_seq_decreases(s: Seq<char>, d: Seq<char>) {
    if d.len() != 0 {
        match find_from(s, d, 0) {
            Option::None => {},
            Option::Some(j) => {
                lemma_find_from_some(s, d, 0, j);
            },
        }
    }
}

/// The views of a sequence of strings.
pub open spec fn strs_deep(v: Seq<String>) -> Seq<Seq<char>> {
    v.map_values(|x: String| x@)
}

pub fn find_sub(s: &str, d: &str) -> (r: Option<usize>)
    requires
        d@.len() >= 1,
    ensures
        match r {
            Option::Some(j) => find_from(s@, d@, 0) == Some(j as int),
            Option::None => find_from(s@, d@, 0) is None,
        },
{
    let n = s.unicode_len();
    let m = d.unicode_len();
    if m > n {
        return None;
    }
    let mut i: usize = 0;
    while i <= n - m
        invariant
            0 <= i <= n - m + 1,
            m <= n,
            n == s@.len(),
            m == d@.len(),
            m >= 1,
            find_from(s@, d@, 0) == find_from(s@, d@, i as int),
        decreases n - i,
    {
        let sub = s.substring_char(i, i + m);
        if str_eq(sub, d) {
            assert(match_at(s@, d@, i as int));
            return Some(i);
        }
        assert(!match_at(s@, d@, i as int));
        i = i + 1;
    }
    None
}

pub fn split_string(s: &str, d: &str) -> (parts: Vec<String>)
    ensures
        strs_deep(parts@) == split_seq(s@, d@),
    decreases s@.len(),
{
    let m = d.unicode_len();
    if m == 0 {
        let mut v: Vec<String> = Vec::new();
        v.push(String::from_str(s));
        proof {
            assert(strs_deep(v@) =~= seq![s@]);
        }
        return v;
    }
    match find_sub(s, d) {
        None => {
            let mut v: Vec<String> = Vec::new();
            v.push(String::from_str(s));
            proof {
                assert(strs_deep(v@) =~= seq![s@]);
            }
            v
        },
        Some(j) => {
            let n = s.unicode_len();
            proof {
                lemma_find_from_some(s@, d@, 0, j as int);
            }
            let head = s.substring_char(0, j);
            let tail = s.substring_char(j + m, n);
            let rest = split_string(tail, d);
            let mut v: Vec<String> = Vec::new();
            v.push(String::from_str(head));
            let mut k: usize = 0;
            while k < rest.len()
                invariant
                    0 <= k <= rest@.len(),
                    v@.len() == k + 1,
                    v@[0]@ == head@,
                    forall|t: int| 0 <= t < k ==> #[trigger] v@[t + 1]@ == rest@[t]@,
                decreases rest@.len() - k,
            {
                let piece = rest[k].clone();
                v.push(piece);
                k = k + 1;
            }
            proof {
                assert(head@ =~= s@.take(j as int));
                assert(tail@ =~= s@.skip(j as int + m as int));
                let want = seq![s@.take(j as int)] + strs_deep(rest@);
                assert(strs_deep(v@).len() == want.len());
                assert forall|t: int| 0 <= t < want.len() implies strs_deep(v@)[t] == want[t] by {
                    if t == 0 {
                        assert(v@[0]@ == head@);
                    } else {
                        assert(v@[(t - 1) + 1]@ == rest@[t - 1]@);
                    }
                }
                assert(strs_deep(v@) =~= want);
            }
            v
        },
    }
}

} // verus!
