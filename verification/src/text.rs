//! Character-level text utilities shared by the parsers.
//!
//! Scheduler output arrives as plain text; the parsers work on it as
//! sequences of characters.  This module provides the conversions
//! between `str`/`String` and `Vec<char>` together with verified
//! trimming, splitting and number parsing.

use vstd::prelude::*;
use vstd::string::StrSliceExecFns;
use vstd::std_specs::iter::IteratorSpec;

verus! {

broadcast use vstd::string::group_string_axioms;

/// Relies on alloc's `String::push`: appends the character to the end
/// of the string.
pub assume_specification[ String::push ](s: &mut String, ch: char)
    ensures
        final(s)@ == old(s)@.push(ch),
;

/// Relies on alloc's `String::pop`: removes and returns the last
/// character, or returns `None` when the string is empty.
pub assume_specification[ String::pop ](s: &mut String) -> (r: Option<char>)
    ensures
        old(s)@.len() == 0 ==> final(s)@ == old(s)@ && r is None,
        old(s)@.len() > 0 ==> final(s)@ == old(s)@.drop_last() && r == Some(old(s)@.last()),
;

/// Relies on alloc's `String::clear`: empties the string.
pub assume_specification[ String::clear ](s: &mut String)
    ensures
        final(s)@ == Seq::<char>::empty(),
;

/// The whitespace characters recognized between fields and tokens.
pub open spec fn is_space_char(c: char) -> bool {
    c == ' ' || c == '\t' || c == '\r' || c == '\n'
}

pub fn is_space(c: char) -> (r: bool)
    ensures
        r == is_space_char(c),
{
    c == ' ' || c == '\t' || c == '\r' || c == '\n'
}

/// The characters of a string slice, in order.
pub fn str_chars(s: &str) -> (r: Vec<char>)
    ensures
        r@ == s@,
{
    let mut it = s.chars();
    let mut r: Vec<char> = Vec::new();
    proof {
        assert(r@ + it.remaining() =~= s@);
    }
    loop
        invariant
            it.obeys_prophetic_iter_laws(),
            it.decrease() is Some,
            r@ + it.remaining() =~= s@,
        ensures
            r@ == s@,
        decreases it.decrease()->0,
    {
        let ghost prev_rem = it.remaining();
        let ghost prev = r@;
        match it.next() {
            Some(c) => {
                r.push(c);
                proof {
                    assert(r@ + it.remaining() =~= s@);
                }
            },
            None => {
                proof {
                    assert(r@ =~= s@);
                }
                break ;
            },
        }
    }
    r
}

/// A string holding exactly the given characters.
pub fn chars_to_string(v: &Vec<char>) -> (r: String)
    ensures
        r@ == v@,
{
    let mut r = String::new();
    let mut k: usize = 0;
    while k < v.len()
        invariant
            k <= v.len(),
            r@ =~= v@.take(k as int),
        decreases v.len() - k,
    {
        r.push(v[k]);
        proof {
            assert(v@.take(k as int).push(v@[k as int]) =~= v@.take(k as int + 1));
        }
        k += 1;
    }
    proof {
        assert(v@.take(v.len() as int) =~= v@);
    }
    r
}

/// Character-for-character equality of two string slices.
pub fn str_eq(a: &str, b: &str) -> (r: bool)
    ensures
        r == (a@ == b@),
{
    let na = a.unicode_len();
    let nb = b.unicode_len();
    if na != nb {
        return false;
    }
    let mut k: usize = 0;
    while k < na
        invariant
            k <= na,
            na == a@.len(),
            na == b@.len(),
            forall|i: int| 0 <= i < k ==> a@[i] == b@[i],
        decreases na - k,
    {
        if a.get_char(k) != b.get_char(k) {
            return false;
        }
        k += 1;
    }
    proof {
        assert(a@ =~= b@);
    }
    true
}

/// The sequence with the leading whitespace removed.
pub open spec fn trim_start_spec(s: Seq<char>) -> Seq<char>
    decreases s.len(),
{
    if s.len() > 0 && is_space_char(s[0]) {
        trim_start_spec(s.drop_first())
    } else {
        s
    }
}

/// The sequence with the trailing whitespace removed.
pub open spec fn trim_end_spec(s: Seq<char>) -> Seq<char>
    decreases s.len(),
{
    if s.len() > 0 && is_space_char(s.last()) {
        trim_end_spec(s.drop_last())
    } else {
        s
    }
}

/// The sequence with leading and trailing whitespace removed.
pub open spec fn trim_spec(s: Seq<char>) -> Seq<char> {
    trim_end_spec(trim_start_spec(s))
}

/// The characters with leading and trailing whitespace removed.
pub fn trim_chars(s: &Vec<char>) -> (r: Vec<char>)
    ensures
        r@ == trim_spec(s@),
{
    proof {
        assert(s@.skip(0) =~= s@);
    }
    let mut i: usize = 0;
    while i < s.len() && is_space(s[i])
        invariant
            i <= s.len(),
            trim_start_spec(s@) == trim_start_spec(s@.skip(i as int)),
        decreases s.len() - i,
    {
        proof {
            assert(s@.skip(i as int).drop_first() =~= s@.skip(i as int + 1));
        }
        i += 1;
    }
    proof {
        assert(trim_start_spec(s@) =~= s@.skip(i as int));
        assert(s@.skip(i as int) =~= s@.subrange(i as int, s.len() as int));
    }
    let mut j: usize = s.len();
    while j > i && is_space(s[j - 1])
        invariant
            i <= j <= s.len(),
            trim_spec(s@) == trim_end_spec(s@.subrange(i as int, j as int)),
        decreases j,
    {
        proof {
            assert(s@.subrange(i as int, j as int).drop_last() =~= s@.subrange(
                i as int,
                j as int - 1,
            ));
        }
        j -= 1;
    }
    proof {
        assert(trim_spec(s@) =~= s@.subrange(i as int, j as int));
    }
    let mut r: Vec<char> = Vec::new();
    let mut k: usize = i;
    while k < j
        invariant
            i <= k <= j <= s.len(),
            r@ =~= s@.subrange(i as int, k as int),
        decreases j - k,
    {
        r.push(s[k]);
        proof {
            assert(s@.subrange(i as int, k as int).push(s@[k as int]) =~= s@.subrange(
                i as int,
                k as int + 1,
            ));
        }
        k += 1;
    }
    r
}

/// The pieces of `s` between occurrences of the separator, in order.
/// Splitting never yields an empty sequence of pieces: a text without
/// the separator is one piece, possibly empty.
pub open spec fn split_spec(s: Seq<char>, sep: char) -> Seq<Seq<char>>
    decreases s.len(),
{
    if s.len() == 0 {
        seq![Seq::<char>::empty()]
    } else if s[0] == sep {
        seq![Seq::<char>::empty()] + split_spec(s.drop_first(), sep)
    } else {
        let rest = split_spec(s.drop_first(), sep);
        seq![seq![s[0]] + rest[0]] + rest.drop_first()
    }
}

pub proof fn lemma_split_spec_nonempty(s: Seq<char>, sep: char)
    ensures
        split_spec(s, sep).len() >= 1,
    decreases s.len(),
{
    if s.len() > 0 && s[0] != sep {
        lemma_split_spec_nonempty(s.drop_first(), sep);
    }
}

/// The pieces of the characters between occurrences of the separator.
pub fn split_chars(s: &Vec<char>, sep: char) -> (r: Vec<Vec<char>>)
    ensures
        r.deep_view() == split_spec(s@, sep),
        r.len() >= 1,
{
    let ghost whole = split_spec(s@, sep);
    let mut pieces: Vec<Vec<char>> = Vec::new();
    let mut cur: Vec<char> = Vec::new();
    proof {
        lemma_split_spec_nonempty(s@, sep);
        assert(s@.skip(0) =~~= s@);
        assert(seq![whole[0]] + whole.drop_first() =~~= whole);
        assert(cur@ + whole[0] =~~= whole[0]);
        assert(pieces.deep_view() + (seq![cur@ + whole[0]] + whole.drop_first()) =~~= whole);
    }
    let mut k: usize = 0;
    while k < s.len()
        invariant
            k <= s.len(),
            split_spec(s@, sep) =~~= pieces.deep_view() + {
                let rest = split_spec(s@.skip(k as int), sep);
                seq![cur@ + rest[0]] + rest.drop_first()
            },
        decreases s.len() - k,
    {
        let ghost p_old = pieces.deep_view();
        let ghost cur_old = cur@;
        let ghost rest_k = split_spec(s@.skip(k as int), sep);
        let ghost rest_n = split_spec(s@.skip(k as int + 1), sep);
        proof {
            lemma_split_spec_nonempty(s@.skip(k as int + 1), sep);
            assert(s@.skip(k as int).len() > 0);
            assert(s@.skip(k as int)[0] == s@[k as int]);
            assert(s@.skip(k as int).drop_first() =~~= s@.skip(k as int + 1));
        }
        if s[k] == sep {
            pieces.push(cur);
            cur = Vec::new();
            proof {
                assert(rest_k =~~= seq![Seq::<char>::empty()] + rest_n);
                assert(rest_k[0] =~~= Seq::<char>::empty());
                assert(rest_k.drop_first() =~~= rest_n);
                assert(cur_old + rest_k[0] =~~= cur_old);
                assert(pieces.deep_view() =~~= p_old.push(cur_old));
                assert(seq![rest_n[0]] + rest_n.drop_first() =~~= rest_n);
                assert(cur@ + rest_n[0] =~~= rest_n[0]);
                assert(p_old.push(cur_old) + (seq![cur@ + rest_n[0]] + rest_n.drop_first()) =~~= (
                p_old + (seq![cur_old + rest_k[0]] + rest_k.drop_first())));
            }
        } else {
            let c = s[k];
            cur.push(c);
            proof {
                assert(rest_k =~~= seq![seq![c] + rest_n[0]] + rest_n.drop_first());
                assert(rest_k[0] =~~= seq![c] + rest_n[0]);
                assert(rest_k.drop_first() =~~= rest_n.drop_first());
                assert(cur@ =~~= cur_old.push(c));
                assert(cur@ + rest_n[0] =~~= cur_old + rest_k[0]);
                assert(p_old + (seq![cur@ + rest_n[0]] + rest_n.drop_first()) =~~= (p_old + (seq![
                    cur_old + rest_k[0],
                ] + rest_k.drop_first())));
            }
        }
        k += 1;
    }
    let ghost p_old = pieces.deep_view();
    let ghost cur_old = cur@;
    proof {
        assert(s@.skip(s.len() as int) =~~= Seq::<char>::empty());
    }
    pieces.push(cur);
    proof {
        let rest = split_spec(Seq::<char>::empty(), sep);
        assert(rest =~~= seq![Seq::<char>::empty()]);
        assert(cur_old + rest[0] =~~= cur_old);
        assert(rest.drop_first() =~~= Seq::<Seq<char>>::empty());
        assert(pieces.deep_view() =~~= p_old.push(cur_old));
        assert(p_old + (seq![cur_old + rest[0]] + rest.drop_first()) =~~= p_old.push(cur_old));
        assert(split_spec(s@, sep) =~~= pieces.deep_view());
    }
    pieces
}

/// The position of the first occurrence of `c` in `s`, or `-1` when
/// `c` does not occur.
pub open spec fn find_char_spec(s: Seq<char>, c: char) -> int
    decreases s.len(),
{
    if s.len() == 0 {
        -1
    } else if s[0] == c {
        0
    } else {
        let r = find_char_spec(s.drop_first(), c);
        if r < 0 {
            -1
        } else {
            r + 1
        }
    }
}

pub proof fn lemma_find_char_spec_range(s: Seq<char>, c: char)
    ensures
        -1 <= find_char_spec(s, c) < s.len(),
        find_char_spec(s, c) >= 0 ==> s[find_char_spec(s, c)] == c,
        find_char_spec(s, c) >= 0 ==> forall|i: int|
            0 <= i < find_char_spec(s, c) ==> s[i] != c,
        find_char_spec(s, c) == -1 ==> forall|i: int| 0 <= i < s.len() ==> s[i] != c,
    decreases s.len(),
{
    if s.len() > 0 && s[0] != c {
        lemma_find_char_spec_range(s.drop_first(), c);
        assert forall|i: int| 1 <= i < s.len() implies s[i] == s.drop_first()[i - 1] by {}
    }
}

/// The position of the first occurrence of `c` in the characters, or
/// `None` when `c` does not occur.
pub fn find_char(s: &Vec<char>, c: char) -> (r: Option<usize>)
    ensures
        r is Some <==> find_char_spec(s@, c) >= 0,
        r is Some ==> r.unwrap() == find_char_spec(s@, c),
{
    let mut k: usize = 0;
    proof {
        assert(s@.skip(0) =~= s@);
    }
    while k < s.len()
        invariant
            k <= s.len(),
            forall|i: int| 0 <= i < k ==> s@[i] != c,
            find_char_spec(s@, c) == (if find_char_spec(s@.skip(k as int), c) >= 0 {
                find_char_spec(s@.skip(k as int), c) + k
            } else {
                -1
            }),
        decreases s.len() - k,
    {
        proof {
            assert(s@.skip(k as int)[0] == s@[k as int]);
            assert(s@.skip(k as int).drop_first() =~= s@.skip(k as int + 1));
        }
        if s[k] == c {
            return Some(k);
        }
        k += 1;
    }
    None
}

pub open spec fn is_digit_char(c: char) -> bool {
    48 <= c as u32 <= 57
}

pub open spec fn digit_val(c: char) -> int {
    c as u32 - 48
}

pub open spec fn all_digits(s: Seq<char>) -> bool {
    forall|i: int| 0 <= i < s.len() ==> is_digit_char(#[trigger] s[i])
}

/// The value of a sequence of decimal digits, most significant first.
pub open spec fn digits_val(s: Seq<char>) -> int
    decreases s.len(),
{
    if s.len() == 0 {
        0
    } else {
        digits_val(s.drop_last()) * 10 + digit_val(s.last())
    }
}

pub proof fn lemma_digits_val_nonneg(s: Seq<char>)
    requires
        all_digits(s),
    ensures
        digits_val(s) >= 0,
    decreases s.len(),
{
    if s.len() > 0 {
        assert(all_digits(s.drop_last()));
        lemma_digits_val_nonneg(s.drop_last());
    }
}

pub proof fn lemma_digits_val_prefix_le(s: Seq<char>, m: int)
    requires
        0 <= m <= s.len(),
        all_digits(s),
    ensures
        digits_val(s.take(m)) <= digits_val(s),
    decreases s.len() - m,
{
    if m < s.len() {
        assert(all_digits(s.take(m)));
        lemma_digits_val_nonneg(s.take(m));
        assert(s.take(m + 1).drop_last() =~= s.take(m));
        assert(s.take(m + 1).last() == s[m]);
        lemma_digits_val_prefix_le(s, m + 1);
    } else {
        assert(s.take(m) =~= s);
    }
}

/// The unsigned value of a run of decimal digits, or `None` when the
/// text is empty, holds a non-digit, or exceeds `u32::MAX`.
pub open spec fn parse_u32_spec(s: Seq<char>) -> Option<u32> {
    if s.len() > 0 && all_digits(s) && digits_val(s) <= u32::MAX {
        Some(digits_val(s) as u32)
    } else {
        None
    }
}

pub fn parse_u32_chars(s: &Vec<char>) -> (r: Option<u32>)
    ensures
        r == parse_u32_spec(s@),
{
    if s.len() == 0 {
        return None;
    }
    let mut acc: u64 = 0;
    let mut k: usize = 0;
    while k < s.len()
        invariant
            k <= s.len(),
            all_digits(s@.take(k as int)),
            acc == digits_val(s@.take(k as int)),
            acc <= u32::MAX,
        decreases s.len() - k,
    {
        let c = s[k];
        let cu = c as u32;
        if cu < 48 || cu > 57 {
            proof {
                assert(!is_digit_char(s@[k as int]));
            }
            return None;
        }
        let d = (cu - 48) as u64;
        proof {
            assert(s@.take(k as int + 1).drop_last() =~= s@.take(k as int));
            assert(s@.take(k as int + 1).last() == s@[k as int]);
        }
        acc = acc * 10 + d;
        if acc > 0xFFFF_FFFFu64 {
            proof {
                if all_digits(s@) {
                    lemma_digits_val_prefix_le(s@, k as int + 1);
                }
            }
            return None;
        }
        k += 1;
    }
    proof {
        assert(s@.take(s.len() as int) =~= s@);
    }
    Some(acc as u32)
}

/// The signed value of an optional `+`/`-` sign followed by decimal
/// digits, or `None` when the text is empty after the sign, holds a
/// non-digit, or does not fit in `i32`.
pub open spec fn parse_i32_spec(s: Seq<char>) -> Option<i32> {
    if s.len() > 0 && s[0] == '-' {
        let d = s.drop_first();
        if d.len() > 0 && all_digits(d) && digits_val(d) <= 0x8000_0000 {
            Some((-digits_val(d)) as i32)
        } else {
            None
        }
    } else {
        let d = if s.len() > 0 && s[0] == '+' {
            s.drop_first()
        } else {
            s
        };
        if d.len() > 0 && all_digits(d) && digits_val(d) <= i32::MAX {
            Some(digits_val(d) as i32)
        } else {
            None
        }
    }
}

fn parse_digits_u64(s: &Vec<char>, from: usize, bound: u64) -> (r: Option<u64>)
    requires
        from <= s.len(),
        bound <= 0x8000_0000,
    ensures
        ({
            let d = s@.skip(from as int);
            if d.len() > 0 && all_digits(d) && digits_val(d) <= bound {
                r == Some(digits_val(d) as u64)
            } else {
                r is None
            }
        }),
{
    let ghost d = s@.skip(from as int);
    if from == s.len() {
        return None;
    }
    let mut acc: u64 = 0;
    let mut k: usize = from;
    while k < s.len()
        invariant
            from <= k <= s.len(),
            d == s@.skip(from as int),
            bound <= 0x8000_0000,
            all_digits(d.take(k - from)),
            acc == digits_val(d.take(k - from)),
            acc <= bound,
        decreases s.len() - k,
    {
        let c = s[k];
        let cu = c as u32;
        proof {
            assert(d[k - from] == s@[k as int]);
        }
        if cu < 48 || cu > 57 {
            proof {
                assert(!is_digit_char(d[k - from]));
            }
            return None;
        }
        let dv = (cu - 48) as u64;
        proof {
            assert(d.take(k - from + 1).drop_last() =~= d.take(k - from));
            assert(d.take(k - from + 1).last() == d[k - from]);
        }
        acc = acc * 10 + dv;
        if acc > bound {
            proof {
                if all_digits(d) {
                    lemma_digits_val_prefix_le(d, k - from + 1);
                }
            }
            return None;
        }
        k += 1;
    }
    proof {
        assert(d.take(s.len() - from) =~= d);
    }
    Some(acc)
}

pub fn parse_i32_chars(s: &Vec<char>) -> (r: Option<i32>)
    ensures
        r == parse_i32_spec(s@),
{
    if s.len() == 0 {
        return None;
    }
    let c0 = s[0];
    if c0 == '-' {
        proof {
            assert(s@.skip(1) =~= s@.drop_first());
            if all_digits(s@.drop_first()) {
                lemma_digits_val_nonneg(s@.drop_first());
            }
        }
        match parse_digits_u64(s, 1, 0x8000_0000u64) {
            Some(v) => Some((-(v as i64)) as i32),
            None => None,
        }
    } else if c0 == '+' {
        proof {
            assert(s@.skip(1) =~= s@.drop_first());
            if all_digits(s@.drop_first()) {
                lemma_digits_val_nonneg(s@.drop_first());
            }
        }
        match parse_digits_u64(s, 1, 0x7FFF_FFFFu64) {
            Some(v) => Some(v as i32),
            None => None,
        }
    } else {
        proof {
            assert(s@.skip(0) =~= s@);
            if all_digits(s@) {
                lemma_digits_val_nonneg(s@);
            }
        }
        match parse_digits_u64(s, 0, 0x7FFF_FFFFu64) {
            Some(v) => Some(v as i32),
            None => None,
        }
    }
}

/// The first `n` characters.
pub fn vec_take(v: &Vec<char>, n: usize) -> (r: Vec<char>)
    requires
        n <= v@.len(),
    ensures
        r@ == v@.take(n as int),
{
    let mut r: Vec<char> = Vec::new();
    let mut k: usize = 0;
    while k < n
        invariant
            k <= n <= v@.len(),
            r@ =~= v@.take(k as int),
        decreases n - k,
    {
        r.push(v[k]);
        proof {
            assert(v@.take(k as int).push(v@[k as int]) =~= v@.take(k as int + 1));
        }
        k += 1;
    }
    r
}

/// The characters from position `n` on.
pub fn vec_skip(v: &Vec<char>, n: usize) -> (r: Vec<char>)
    requires
        n <= v@.len(),
    ensures
        r@ == v@.skip(n as int),
{
    let mut r: Vec<char> = Vec::new();
    let mut k: usize = n;
    while k < v.len()
        invariant
            n <= k <= v@.len(),
            r@ =~= v@.subrange(n as int, k as int),
        decreases v.len() - k,
    {
        r.push(v[k]);
        proof {
            assert(v@.subrange(n as int, k as int).push(v@[k as int]) =~= v@.subrange(
                n as int,
                k as int + 1,
            ));
        }
        k += 1;
    }
    proof {
        assert(v@.subrange(n as int, v@.len() as int) =~= v@.skip(n as int));
    }
    r
}

/// The sequence with leading occurrences of `c` removed.
pub open spec fn strip_start_spec(s: Seq<char>, c: char) -> Seq<char>
    decreases s.len(),
{
    if s.len() > 0 && s[0] == c {
        strip_start_spec(s.drop_first(), c)
    } else {
        s
    }
}

/// The sequence with trailing occurrences of `c` removed.
pub open spec fn strip_end_spec(s: Seq<char>, c: char) -> Seq<char>
    decreases s.len(),
{
    if s.len() > 0 && s.last() == c {
        strip_end_spec(s.drop_last(), c)
    } else {
        s
    }
}

/// The sequence with leading and trailing occurrences of `c` removed.
pub open spec fn strip_spec(s: Seq<char>, c: char) -> Seq<char> {
    strip_end_spec(strip_start_spec(s, c), c)
}

/// The characters with leading and trailing occurrences of `c`
/// removed.
pub fn strip_char(s: &Vec<char>, c: char) -> (r: Vec<char>)
    ensures
        r@ == strip_spec(s@, c),
{
    proof {
        assert(s@.skip(0) =~= s@);
    }
    let mut i: usize = 0;
    while i < s.len() && s[i] == c
        invariant
            i <= s.len(),
            strip_start_spec(s@, c) == strip_start_spec(s@.skip(i as int), c),
        decreases s.len() - i,
    {
        proof {
            assert(s@.skip(i as int).drop_first() =~= s@.skip(i as int + 1));
        }
        i += 1;
    }
    proof {
        assert(strip_start_spec(s@, c) =~= s@.skip(i as int));
        assert(s@.skip(i as int) =~= s@.subrange(i as int, s.len() as int));
    }
    let mut j: usize = s.len();
    while j > i && s[j - 1] == c
        invariant
            i <= j <= s.len(),
            strip_spec(s@, c) == strip_end_spec(s@.subrange(i as int, j as int), c),
        decreases j,
    {
        proof {
            assert(s@.subrange(i as int, j as int).drop_last() =~= s@.subrange(
                i as int,
                j as int - 1,
            ));
        }
        j -= 1;
    }
    proof {
        assert(strip_spec(s@, c) =~= s@.subrange(i as int, j as int));
    }
    let mut r: Vec<char> = Vec::new();
    let mut k: usize = i;
    while k < j
        invariant
            i <= k <= j <= s.len(),
            r@ =~= s@.subrange(i as int, k as int),
        decreases j - k,
    {
        r.push(s[k]);
        proof {
            assert(s@.subrange(i as int, k as int).push(s@[k as int]) =~= s@.subrange(
                i as int,
                k as int + 1,
            ));
        }
        k += 1;
    }
    r
}

/// The character with an ASCII lower-case letter mapped to its
/// upper-case form; any other character is unchanged.
pub open spec fn upper_char(c: char) -> char {
    if 97 <= c as u32 <= 122 {
        ((c as u32) - 32) as char
    } else {
        c
    }
}

/// Equality of two character sequences up to ASCII case.
pub open spec fn eq_ci_spec(s: Seq<char>, p: Seq<char>) -> bool {
    s.len() == p.len() && forall|i: int|
        0 <= i < s.len() ==> upper_char(#[trigger] s[i]) == upper_char(p[i])
}

fn char_eq_ci(a: char, b: char) -> (r: bool)
    ensures
        r == (upper_char(a) == upper_char(b)),
{
    let ua = a as u32;
    let ub = b as u32;
    let fa = if 97 <= ua && ua <= 122 {
        ua - 32
    } else {
        ua
    };
    let fb = if 97 <= ub && ub <= 122 {
        ub - 32
    } else {
        ub
    };
    proof {
        assert(upper_char(a) as u32 == fa);
        assert(upper_char(b) as u32 == fb);
    }
    fa == fb
}

/// Whether the characters equal the pattern up to ASCII case.
pub fn chars_eq_ci(v: &Vec<char>, pat: &str) -> (r: bool)
    ensures
        r == eq_ci_spec(v@, pat@),
{
    let n = pat.unicode_len();
    if v.len() != n {
        return false;
    }
    let mut k: usize = 0;
    while k < n
        invariant
            k <= n,
            n == v@.len(),
            n == pat@.len(),
            forall|i: int| 0 <= i < k ==> upper_char(#[trigger] v@[i]) == upper_char(pat@[i]),
        decreases n - k,
    {
        if !char_eq_ci(v[k], pat.get_char(k)) {
            return false;
        }
        k += 1;
    }
    true
}

/// The decimal digit character for a value between 0 and 9.
pub open spec fn dec_digit_char(d: int) -> char {
    if d == 0 {
        '0'
    } else if d == 1 {
        '1'
    } else if d == 2 {
        '2'
    } else if d == 3 {
        '3'
    } else if d == 4 {
        '4'
    } else if d == 5 {
        '5'
    } else if d == 6 {
        '6'
    } else if d == 7 {
        '7'
    } else if d == 8 {
        '8'
    } else {
        '9'
    }
}

/// The decimal rendering of a natural number, most significant digit
/// first, without leading zeros (`0` renders as `"0"`).
pub open spec fn dec_str(n: nat) -> Seq<char>
    decreases n,
{
    if n < 10 {
        seq![dec_digit_char(n as int)]
    } else {
        dec_str(n / 10) + seq![dec_digit_char((n % 10) as int)]
    }
}

fn dec_digit(d: u32) -> (c: char)
    requires
        d < 10,
    ensures
        c == dec_digit_char(d as int),
{
    if d == 0 {
        '0'
    } else if d == 1 {
        '1'
    } else if d == 2 {
        '2'
    } else if d == 3 {
        '3'
    } else if d == 4 {
        '4'
    } else if d == 5 {
        '5'
    } else if d == 6 {
        '6'
    } else if d == 7 {
        '7'
    } else if d == 8 {
        '8'
    } else {
        '9'
    }
}

/// The decimal rendering of a `u32`.
pub fn u32_to_string(n: u32) -> (r: String)
    ensures
        r@ == dec_str(n as nat),
{
    let mut rev: Vec<char> = Vec::new();
    let mut m: u32 = n;
    if m == 0 {
        let mut r = String::new();
        r.push('0');
        proof {
            assert(Seq::<char>::empty().push('0') =~= dec_str(0));
        }
        return r;
    }
    loop
        invariant_except_break
            m > 0,
            dec_str(n as nat) =~= dec_str(m as nat) + rev@.reverse(),
        ensures
            m == 0,
            dec_str(n as nat) =~= rev@.reverse(),
        decreases m,
    {
        let ghost rev_old = rev@;
        let ghost m_old = m;
        let d = m % 10;
        rev.push(dec_digit(d));
        proof {
            assert(rev@.reverse() =~= seq![dec_digit_char(d as int)] + rev_old.reverse());
        }
        m = m / 10;
        if m == 0 {
            proof {
                assert(m_old < 10);
                assert(dec_str(m_old as nat) =~= seq![dec_digit_char((m_old % 10) as int)]);
                assert(dec_str(n as nat) =~= rev@.reverse());
            }
            break ;
        }
        proof {
            assert(dec_str(m_old as nat) =~= dec_str((m_old / 10) as nat) + seq![
                dec_digit_char((m_old % 10) as int),
            ]);
            assert(dec_str((m_old / 10) as nat) + (seq![dec_digit_char((m_old % 10) as int)]
                + rev_old.reverse()) =~= dec_str(m_old as nat) + rev_old.reverse());
        }
    }
    let mut r = String::new();
    let mut k: usize = rev.len();
    while k > 0
        invariant
            k <= rev@.len(),
            r@ =~= rev@.reverse().take(rev@.len() - k),
        decreases k,
    {
        let ghost r_old = r@;
        k -= 1;
        r.push(rev[k]);
        proof {
            assert(rev@.reverse()[rev@.len() - k - 1] == rev@[k as int]);
            assert(r@ =~= rev@.reverse().take(rev@.len() - k));
        }
    }
    proof {
        assert(rev@.reverse().take(rev@.len() as int) =~= rev@.reverse());
    }
    r
}

/// The text cut to at most `max_len` characters: a longer text keeps
/// its first `max_len - 3` characters (none when `max_len < 3`) and
/// ends with `"..."`.
pub open spec fn truncate_spec(s: Seq<char>, max_len: int) -> Seq<char> {
    if s.len() <= max_len {
        s
    } else {
        s.take(
            if max_len >= 3 {
                max_len - 3
            } else {
                0
            },
        ) + seq!['.', '.', '.']
    }
}

pub fn truncate(s: &str, max_len: usize) -> (r: String)
    ensures
        r@ == truncate_spec(s@, max_len as int),
{
    let n = s.unicode_len();
    if n <= max_len {
        return s.to_owned();
    }
    let keep: usize = if max_len >= 3 {
        max_len - 3
    } else {
        0
    };
    let mut r = String::new();
    let mut k: usize = 0;
    while k < keep
        invariant
            k <= keep,
            keep < n == s@.len(),
            r@ =~= s@.take(k as int),
        decreases keep - k,
    {
        r.push(s.get_char(k));
        proof {
            assert(s@.take(k as int).push(s@[k as int]) =~= s@.take(k as int + 1));
        }
        k += 1;
    }
    r.push('.');
    r.push('.');
    r.push('.');
    proof {
        assert(r@ =~= s@.take(keep as int) + seq!['.', '.', '.']);
    }
    r
}

} // verus!
