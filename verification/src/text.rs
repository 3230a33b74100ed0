//! Character classification and text utilities shared by the lexer,
//! the type-inference pass and the code generator.

use vstd::prelude::*;

verus! {

// ---------------------------------------------------------------------------
// Character classes
// ---------------------------------------------------------------------------

/// The Unicode `White_Space` code points, as `char::is_whitespace` accepts them.
pub open spec fn is_ws_char(c: char) -> bool {
    let u = c as u32;
    u == 0x20 || (0x09 <= u && u <= 0x0d)
        || u == 0x85 || u == 0xa0 || u == 0x1680
        || (0x2000 <= u && u <= 0x200a)
        || u == 0x2028 || u == 0x2029 || u == 0x202f || u == 0x205f || u == 0x3000
}

/// Whitespace test mirroring `char::is_whitespace`.
pub fn is_whitespace_char(c: char) -> (r: bool)
    ensures
        r == is_ws_char(c),
{
    let u = c as u32;
    u == 0x20 || (0x09 <= u && u <= 0x0d)
        || u == 0x85 || u == 0xa0 || u == 0x1680
        || (0x2000 <= u && u <= 0x200a)
        || u == 0x2028 || u == 0x2029 || u == 0x202f || u == 0x205f || u == 0x3000
}

pub open spec fn is_digit_char(c: char) -> bool {
    0x30 <= c as u32 && c as u32 <= 0x39
}

pub fn is_ascii_digit_char(c: char) -> (r: bool)
    ensures
        r == is_digit_char(c),
{
    let u = c as u32;
    0x30 <= u && u <= 0x39
}

pub open spec fn is_alpha_char(c: char) -> bool {
    let u = c as u32;
    (0x41 <= u && u <= 0x5a) || (0x61 <= u && u <= 0x7a)
}

pub fn is_ascii_alpha_char(c: char) -> (r: bool)
    ensures
        r == is_alpha_char(c),
{
    let u = c as u32;
    (0x41 <= u && u <= 0x5a) || (0x61 <= u && u <= 0x7a)
}

/// A character that may continue an identifier.
pub open spec fn is_ident_char(c: char) -> bool {
    is_alpha_char(c) || is_digit_char(c) || c == '_'
}

pub fn is_identifier_char(c: char) -> (r: bool)
    ensures
        r == is_ident_char(c),
{
    is_ascii_alpha_char(c) || is_ascii_digit_char(c) || c == '_'
}

/// An ASCII capital letter: the first character of a child-declaration name.
pub open spec fn is_upper_char(c: char) -> bool {
    0x41 <= c as u32 && c as u32 <= 0x5a
}

pub fn is_ascii_upper_char(c: char) -> (r: bool)
    ensures
        r == is_upper_char(c),
{
    let u = c as u32;
    0x41 <= u && u <= 0x5a
}

/// An ASCII small letter: with `_`, the first character of a property key.
pub open spec fn is_lower_char(c: char) -> bool {
    0x61 <= c as u32 && c as u32 <= 0x7a
}

pub fn is_ascii_lower_char(c: char) -> (r: bool)
    ensures
        r == is_lower_char(c),
{
    let u = c as u32;
    0x61 <= u && u <= 0x7a
}

// ---------------------------------------------------------------------------
// String <-> character vector
// ---------------------------------------------------------------------------

/// Collect the characters of a string slice into a vector.
pub fn str_to_chars(s: &str) -> (r: Vec<char>)
    ensures
        r@ == s@,
{
    let n = s.unicode_len();
    let mut v: Vec<char> = Vec::new();
    let mut i: usize = 0;
    while i < n
        invariant
            i <= n,
            n == s@.len(),
            v@ == s@.subrange(0, i as int),
        decreases n - i,
    {
        let c = s.get_char(i);
        v.push(c);
        proof {
            assert(s@.subrange(0, i as int).push(s@[i as int]) =~= s@.subrange(0, i + 1 as int));
        }
        i += 1;
    }
    proof {
        assert(s@.subrange(0, n as int) =~= s@);
    }
    v
}

/// Relies on `core::iter::Iterator::collect` for `String`: the resulting
/// string holds exactly the characters of the vector, in order.
#[verifier::external_body]
pub fn chars_to_string(v: &Vec<char>) -> (r: String)
    ensures
        r@ == v@,
{
    v.iter().collect()
}

/// Decide whether two string slices hold the same characters.
pub fn str_eq(a: &str, b: &str) -> (r: bool)
    ensures
        r == (a@ == b@),
{
    let n = a.unicode_len();
    if b.unicode_len() != n {
        return false;
    }
    let mut i: usize = 0;
    while i < n
        invariant
            i <= n,
            n == a@.len(),
            n == b@.len(),
            forall|k: int| 0 <= k < i ==> a@[k] == b@[k],
        decreases n - i,
    {
        if a.get_char(i) != b.get_char(i) {
            return false;
        }
        i += 1;
    }
    proof {
        assert(a@ =~= b@);
    }
    true
}

/// Append all characters of `piece` to `out`.
pub fn append_chars(out: &mut Vec<char>, piece: &Vec<char>)
    ensures
        final(out)@ == old(out)@ + piece@,
{
    let ghost base = out@;
    let mut i: usize = 0;
    while i < piece.len()
        invariant
            i <= piece@.len(),
            out@ == base + piece@.subrange(0, i as int),
        decreases piece@.len() - i,
    {
        out.push(piece[i]);
        proof {
            assert((base + piece@.subrange(0, i as int)).push(piece@[i as int])
                =~= base + piece@.subrange(0, i + 1 as int));
        }
        i += 1;
    }
    proof {
        assert(piece@.subrange(0, piece@.len() as int) =~= piece@);
    }
}

/// Append all characters of a string slice to `out`.
pub fn append_str(out: &mut Vec<char>, s: &str)
    ensures
        final(out)@ == old(out)@ + s@,
{
    let cs = str_to_chars(s);
    append_chars(out, &cs)
}

/// Build a one-character `String`.
pub fn char_to_string(c: char) -> (r: String)
    ensures
        r@ == seq![c],
{
    let mut v: Vec<char> = Vec::new();
    v.push(c);
    proof {
        assert(v@ =~= seq![c]);
    }
    chars_to_string(&v)
}

/// Copy the characters of `v[lo..hi]` into a fresh vector.
pub fn sub_chars(v: &Vec<char>, lo: usize, hi: usize) -> (r: Vec<char>)
    requires
        lo <= hi <= v@.len(),
    ensures
        r@ == v@.subrange(lo as int, hi as int),
{
    let mut out: Vec<char> = Vec::new();
    let mut i: usize = lo;
    while i < hi
        invariant
            lo <= i <= hi <= v@.len(),
            out@ == v@.subrange(lo as int, i as int),
        decreases hi - i,
    {
        out.push(v[i]);
        proof {
            assert(v@.subrange(lo as int, i as int).push(v@[i as int])
                =~= v@.subrange(lo as int, i + 1 as int));
        }
        i += 1;
    }
    out
}

/// Build a `String` from the characters of `v[lo..hi]`.
pub fn range_to_string(v: &Vec<char>, lo: usize, hi: usize) -> (r: String)
    requires
        lo <= hi <= v@.len(),
    ensures
        r@ == v@.subrange(lo as int, hi as int),
{
    let sub = sub_chars(v, lo, hi);
    chars_to_string(&sub)
}

// ---------------------------------------------------------------------------
// Decimal rendering
// ---------------------------------------------------------------------------

/// The decimal digit character for a value below ten.
pub open spec fn digit_char(d: nat) -> char {
    if d == 0 { '0' } else if d == 1 { '1' } else if d == 2 { '2' } else if d == 3 { '3' }
    else if d == 4 { '4' } else if d == 5 { '5' } else if d == 6 { '6' } else if d == 7 { '7' }
    else if d == 8 { '8' } else { '9' }
}

/// The decimal rendering of a natural number, most significant digit first.
pub open spec fn spec_dec_digits(n: nat) -> Seq<char>
    decreases n,
{
    if n < 10 {
        seq![digit_char(n)]
    } else {
        spec_dec_digits(n / 10).push(digit_char(n % 10))
    }
}

fn digit_to_char(d: u64) -> (c: char)
    requires
        d < 10,
    ensures
        c == digit_char(d as nat),
{
    if d == 0 { '0' } else if d == 1 { '1' } else if d == 2 { '2' } else if d == 3 { '3' }
    else if d == 4 { '4' } else if d == 5 { '5' } else if d == 6 { '6' } else if d == 7 { '7' }
    else if d == 8 { '8' } else { '9' }
}

/// Decimal rendering of an unsigned value, as characters.
pub fn u64_to_dec_chars(n: u64) -> (v: Vec<char>)
    ensures
        v@ == spec_dec_digits(n as nat),
    decreases n,
{
    if n < 10 {
        let mut v: Vec<char> = Vec::new();
        v.push(digit_to_char(n));
        proof {
            assert(v@ =~= seq![digit_char(n as nat)]);
        }
        v
    } else {
        let mut v = u64_to_dec_chars(n / 10);
        v.push(digit_to_char(n % 10));
        v
    }
}

/// The decimal rendering of a (possibly negative) integer.
pub open spec fn spec_int_str(i: int) -> Seq<char> {
    if i < 0 {
        seq!['-'] + spec_dec_digits((-i) as nat)
    } else {
        spec_dec_digits(i as nat)
    }
}

/// Decimal rendering of a signed value, as characters.
pub fn i64_to_dec_chars(n: i64) -> (v: Vec<char>)
    ensures
        v@ == spec_int_str(n as int),
{
    if n >= 0 {
        u64_to_dec_chars(n as u64)
    } else {
        let mag: u64 = if n == i64::MIN {
            9223372036854775808u64
        } else {
            (-n) as u64
        };
        let digits = u64_to_dec_chars(mag);
        let mut v: Vec<char> = Vec::new();
        v.push('-');
        let mut j: usize = 0;
        while j < digits.len()
            invariant
                j <= digits@.len(),
                digits@ == spec_dec_digits((-(n as int)) as nat),
                v@ == seq!['-'] + digits@.subrange(0, j as int),
            decreases digits@.len() - j,
        {
            v.push(digits[j]);
            proof {
                assert((seq!['-'] + digits@.subrange(0, j as int)).push(digits@[j as int])
                    =~= seq!['-'] + digits@.subrange(0, j + 1 as int));
            }
            j += 1;
        }
        proof {
            assert(digits@.subrange(0, digits@.len() as int) =~= digits@);
        }
        v
    }
}

/// Decimal rendering of a string-length-sized value, as characters.
pub fn usize_to_dec_chars(n: usize) -> (v: Vec<char>)
    ensures
        v@ == spec_dec_digits(n as nat),
{
    u64_to_dec_chars(n as u64)
}

// ---------------------------------------------------------------------------
// Decimal evaluation
// ---------------------------------------------------------------------------

pub open spec fn all_digits(s: Seq<char>) -> bool {
    forall|i: int| 0 <= i < s.len() ==> is_digit_char(#[trigger] s[i])
}

pub open spec fn digit_val(c: char) -> nat {
    (c as u32 - 0x30) as nat
}

/// The numeric value of a digit string, most significant digit first.
pub open spec fn dec_val(s: Seq<char>) -> nat
    decreases s.len(),
{
    if s.len() == 0 {
        0
    } else {
        dec_val(s.drop_last()) * 10 + digit_val(s.last())
    }
}

proof fn lemma_dec_val_step(s: Seq<char>, i: int)
    requires
        0 <= i < s.len(),
    ensures
        dec_val(s.subrange(0, i + 1)) == dec_val(s.subrange(0, i)) * 10 + digit_val(s[i]),
{
    assert(s.subrange(0, i + 1).drop_last() =~= s.subrange(0, i));
    assert(s.subrange(0, i + 1).last() == s[i]);
}

/// A digit string's value only grows as more digits follow.
proof fn lemma_dec_val_prefix_le(s: Seq<char>, i: int)
    requires
        0 <= i <= s.len(),
    ensures
        dec_val(s.subrange(0, i)) <= dec_val(s),
    decreases s.len() - i,
{
    if i == s.len() {
        assert(s.subrange(0, i) =~= s);
    } else {
        lemma_dec_val_step(s, i);
        assert(dec_val(s.subrange(0, i)) * 10 >= dec_val(s.subrange(0, i))) by (nonlinear_arith);
        lemma_dec_val_prefix_le(s, i + 1);
    }
}

/// Check whether all characters of `v[lo..hi]` are decimal digits.
pub fn all_digits_range(v: &Vec<char>, lo: usize, hi: usize) -> (r: bool)
    requires
        lo <= hi <= v@.len(),
    ensures
        r == all_digits(v@.subrange(lo as int, hi as int)),
{
    let ghost s = v@.subrange(lo as int, hi as int);
    let mut i: usize = lo;
    while i < hi
        invariant
            lo <= i <= hi <= v@.len(),
            s == v@.subrange(lo as int, hi as int),
            forall|k: int| 0 <= k < i - lo ==> is_digit_char(#[trigger] s[k]),
        decreases hi - i,
    {
        if !is_ascii_digit_char(v[i]) {
            proof {
                assert(s[i - lo] == v@[i as int]);
            }
            return false;
        }
        proof {
            assert(s[i - lo] == v@[i as int]);
        }
        i += 1;
    }
    true
}

/// Evaluate the digit string `v[lo..hi]`, refusing values above `bound`.
pub fn dec_value_up_to(v: &Vec<char>, lo: usize, hi: usize, bound: u64) -> (r: Option<u64>)
    requires
        lo <= hi <= v@.len(),
        all_digits(v@.subrange(lo as int, hi as int)),
    ensures
        match r {
            Some(n) => n as nat == dec_val(v@.subrange(lo as int, hi as int)) && n <= bound,
            None => dec_val(v@.subrange(lo as int, hi as int)) > bound,
        },
{
    let ghost s = v@.subrange(lo as int, hi as int);
    proof {
        assert(s.subrange(0, 0) =~= Seq::<char>::empty());
    }
    let mut acc: u64 = 0;
    let mut i: usize = lo;
    while i < hi
        invariant
            lo <= i <= hi <= v@.len(),
            s == v@.subrange(lo as int, hi as int),
            all_digits(s),
            acc <= bound,
            acc as nat == dec_val(s.subrange(0, i - lo)),
        decreases hi - i,
    {
        let c = v[i];
        proof {
            assert(s[i - lo] == v@[i as int]);
        }
        let d32: u32 = (c as u32) - 0x30;
        let d: u64 = d32 as u64;
        proof {
            lemma_dec_val_step(s, i - lo);
        }
        if d > bound {
            proof {
                lemma_dec_val_prefix_le(s, i + 1 - lo);
            }
            return None;
        }
        if acc > (bound - d) / 10 {
            proof {
                assert(acc * 10 + d > bound) by (nonlinear_arith)
                    requires
                        acc > (bound - d) / 10,
                        d <= bound,
                        bound <= u64::MAX,
                ;
                lemma_dec_val_prefix_le(s, i + 1 - lo);
            }
            return None;
        }
        proof {
            assert(acc * 10 + d <= bound) by (nonlinear_arith)
                requires
                    acc <= (bound - d) / 10,
                    d <= bound,
                    bound <= u64::MAX,
            ;
        }
        acc = acc * 10 + d;
        i += 1;
    }
    proof {
        assert(s.subrange(0, hi - lo) =~= s);
    }
    Some(acc)
}

// ---------------------------------------------------------------------------
// Trimming
// ---------------------------------------------------------------------------

pub open spec fn trim_left(s: Seq<char>) -> Seq<char>
    decreases s.len(),
{
    if s.len() > 0 && is_ws_char(s[0]) {
        trim_left(s.drop_first())
    } else {
        s
    }
}

pub open spec fn trim_right(s: Seq<char>) -> Seq<char>
    decreases s.len(),
{
    if s.len() > 0 && is_ws_char(s.last()) {
        trim_right(s.drop_last())
    } else {
        s
    }
}

/// The text with leading and trailing whitespace removed, as `str::trim`.
pub open spec fn spec_trim(s: Seq<char>) -> Seq<char> {
    trim_right(trim_left(s))
}

/// Narrow the range `[lo0, hi0)` of `v` to its whitespace-trimmed core.
pub fn trim_range(v: &Vec<char>, lo0: usize, hi0: usize) -> (r: (usize, usize))
    requires
        lo0 <= hi0 <= v@.len(),
    ensures
        lo0 <= r.0 <= r.1 <= hi0,
        v@.subrange(r.0 as int, r.1 as int) == spec_trim(v@.subrange(lo0 as int, hi0 as int)),
{
    let ghost s = v@.subrange(lo0 as int, hi0 as int);
    let mut lo: usize = lo0;
    while lo < hi0 && is_whitespace_char(v[lo])
        invariant
            lo0 <= lo <= hi0 <= v@.len(),
            s == v@.subrange(lo0 as int, hi0 as int),
            trim_left(s) == trim_left(v@.subrange(lo as int, hi0 as int)),
        decreases hi0 - lo,
    {
        proof {
            assert(v@.subrange(lo as int, hi0 as int)[0] == v@[lo as int]);
            assert(v@.subrange(lo as int, hi0 as int).drop_first()
                =~= v@.subrange(lo + 1 as int, hi0 as int));
        }
        lo += 1;
    }
    proof {
        if lo < hi0 {
            assert(v@.subrange(lo as int, hi0 as int)[0] == v@[lo as int]);
        }
        assert(trim_left(s) == v@.subrange(lo as int, hi0 as int));
    }
    let mut hi: usize = hi0;
    while hi > lo && is_whitespace_char(v[hi - 1])
        invariant
            lo <= hi <= hi0 <= v@.len(),
            trim_left(s) == v@.subrange(lo as int, hi0 as int),
            trim_right(v@.subrange(lo as int, hi0 as int))
                == trim_right(v@.subrange(lo as int, hi as int)),
        decreases hi,
    {
        proof {
            assert(v@.subrange(lo as int, hi as int).last() == v@[hi - 1]);
            assert(v@.subrange(lo as int, hi as int).drop_last()
                =~= v@.subrange(lo as int, hi - 1));
        }
        hi -= 1;
    }
    proof {
        if hi > lo {
            assert(v@.subrange(lo as int, hi as int).last() == v@[hi - 1]);
        }
        assert(trim_right(v@.subrange(lo as int, hi as int)) == v@.subrange(lo as int, hi as int));
    }
    (lo, hi)
}

// ---------------------------------------------------------------------------
// Searching and counting
// ---------------------------------------------------------------------------

pub open spec fn contains_char(s: Seq<char>, c: char) -> bool {
    exists|i: int| 0 <= i < s.len() && s[i] == c
}

/// Find the first occurrence of `c` in `v[lo..hi]`.
pub fn find_char_range(v: &Vec<char>, lo: usize, hi: usize, c: char) -> (r: Option<usize>)
    requires
        lo <= hi <= v@.len(),
    ensures
        match r {
            Some(j) => lo <= j < hi && v@[j as int] == c
                && forall|k: int| lo <= k < j ==> v@[k] != c,
            None => forall|k: int| lo <= k < hi ==> v@[k] != c,
        },
{
    let mut i: usize = lo;
    while i < hi
        invariant
            lo <= i <= hi <= v@.len(),
            forall|k: int| lo <= k < i ==> v@[k] != c,
        decreases hi - i,
    {
        if v[i] == c {
            return Some(i);
        }
        i += 1;
    }
    None
}

// ---------------------------------------------------------------------------
// Numeric literal recognition
// ---------------------------------------------------------------------------

/// The text with one leading `+` or `-` removed, if present.
pub open spec fn strip_sign(s: Seq<char>) -> Seq<char> {
    if s.len() > 0 && (s[0] == '+' || s[0] == '-') {
        s.drop_first()
    } else {
        s
    }
}

/// Whether `i64::from_str` accepts this text: an optional sign, then digits,
/// with the value in range.
pub open spec fn spec_is_i64_text(s: Seq<char>) -> bool {
    let body = strip_sign(s);
    body.len() > 0 && all_digits(body) && (if s.len() > 0 && s[0] == '-' {
        dec_val(body) <= 0x8000000000000000
    } else {
        dec_val(body) <= 0x7fffffffffffffff
    })
}

/// Decide `spec_is_i64_text` for `v[lo..hi]`.
pub fn is_i64_text_range(v: &Vec<char>, lo: usize, hi: usize) -> (r: bool)
    requires
        lo <= hi <= v@.len(),
    ensures
        r == spec_is_i64_text(v@.subrange(lo as int, hi as int)),
{
    let ghost s = v@.subrange(lo as int, hi as int);
    if lo == hi {
        return false;
    }
    let first = v[lo];
    let neg = first == '-';
    let blo: usize = if first == '-' || first == '+' { lo + 1 } else { lo };
    proof {
        assert(s[0] == v@[lo as int]);
        if first == '-' || first == '+' {
            assert(s.drop_first() =~= v@.subrange(blo as int, hi as int));
        }
        assert(strip_sign(s) =~= v@.subrange(blo as int, hi as int));
    }
    if blo == hi {
        return false;
    }
    if !all_digits_range(v, blo, hi) {
        return false;
    }
    let bound: u64 = if neg { 0x8000000000000000 } else { 0x7fffffffffffffff };
    dec_value_up_to(v, blo, hi, bound).is_some()
}

pub open spec fn char_eq_ci(a: char, b: char) -> bool {
    a == b || (is_upper_char(a) && a as u32 + 0x20 == b as u32)
}

/// Case-insensitive comparison against an ASCII lowercase keyword.
pub open spec fn seq_eq_ci(s: Seq<char>, kw: Seq<char>) -> bool {
    s.len() == kw.len() && forall|i: int| 0 <= i < s.len() ==> char_eq_ci(#[trigger] s[i], kw[i])
}

/// Decide `seq_eq_ci` between `v[lo..hi]` and a keyword slice.
pub fn eq_ignore_case_range(v: &Vec<char>, lo: usize, hi: usize, kw: &str) -> (r: bool)
    requires
        lo <= hi <= v@.len(),
    ensures
        r == seq_eq_ci(v@.subrange(lo as int, hi as int), kw@),
{
    let ghost s = v@.subrange(lo as int, hi as int);
    let n = kw.unicode_len();
    if hi - lo != n {
        return false;
    }
    let mut i: usize = 0;
    while i < n
        invariant
            i <= n,
            n == kw@.len(),
            n == hi - lo,
            lo <= hi <= v@.len(),
            s == v@.subrange(lo as int, hi as int),
            forall|k: int| 0 <= k < i ==> char_eq_ci(#[trigger] s[k], kw@[k]),
        decreases n - i,
    {
        let a = v[lo + i];
        let b = kw.get_char(i);
        proof {
            assert(s[i as int] == v@[lo + i]);
        }
        let ok = a == b || (is_ascii_upper_char(a) && a as u32 + 0x20 == b as u32);
        if !ok {
            return false;
        }
        i += 1;
    }
    true
}

/// Decide whether `v[lo..hi]` equals a keyword slice exactly.
pub fn eq_range(v: &Vec<char>, lo: usize, hi: usize, kw: &str) -> (r: bool)
    requires
        lo <= hi <= v@.len(),
    ensures
        r == (v@.subrange(lo as int, hi as int) == kw@),
{
    let ghost s = v@.subrange(lo as int, hi as int);
    let n = kw.unicode_len();
    if hi - lo != n {
        return false;
    }
    let mut i: usize = 0;
    while i < n
        invariant
            i <= n,
            n == kw@.len(),
            n == hi - lo,
            lo <= hi <= v@.len(),
            s == v@.subrange(lo as int, hi as int),
            forall|k: int| 0 <= k < i ==> s[k] == kw@[k],
        decreases n - i,
    {
        proof {
            assert(s[i as int] == v@[lo + i]);
        }
        if v[lo + i] != kw.get_char(i) {
            proof {
                assert(s[i as int] != kw@[i as int]);
            }
            return false;
        }
        i += 1;
    }
    proof {
        assert(s =~= kw@);
    }
    true
}

pub open spec fn is_digit_or_dot(c: char) -> bool {
    is_digit_char(c) || c == '.'
}

/// The mantissa of a floating-point literal: at least one character, all
/// digits except for at most one `.`, and not a lone `.`.
pub open spec fn is_mantissa(m: Seq<char>) -> bool {
    m.len() > 0 && (forall|i: int| 0 <= i < m.len() ==> is_digit_or_dot(#[trigger] m[i]))
        && count_char(m, '.') <= 1 && !(m.len() == 1 && m[0] == '.')
}

/// An exponent suffix: an optional sign, then at least one digit.
pub open spec fn is_exp_digits(e: Seq<char>) -> bool {
    let b = strip_sign(e);
    b.len() > 0 && all_digits(b)
}

pub open spec fn is_exp_marker(c: char) -> bool {
    c == 'e' || c == 'E'
}

/// The body of a floating-point literal after the sign: a mantissa with an
/// optional exponent part.
pub open spec fn is_f64_number(b: Seq<char>) -> bool {
    is_mantissa(b) || exists|i: int|
        0 <= i < b.len() && is_exp_marker(#[trigger] b[i]) && is_mantissa(b.subrange(0, i))
            && is_exp_digits(b.subrange(i + 1, b.len() as int))
}

/// Whether `f64::from_str` accepts this text: an optional sign, then `inf`,
/// `infinity` or `nan` in any letter case, or a mantissa with an optional
/// exponent.
pub open spec fn spec_is_f64_text(s: Seq<char>) -> bool {
    let b = strip_sign(s);
    seq_eq_ci(b, "inf"@) || seq_eq_ci(b, "infinity"@) || seq_eq_ci(b, "nan"@) || is_f64_number(b)
}

fn all_digit_or_dot_range(v: &Vec<char>, lo: usize, hi: usize) -> (r: bool)
    requires
        lo <= hi <= v@.len(),
    ensures
        r == forall|i: int| 0 <= i < hi - lo ==>
            is_digit_or_dot(#[trigger] v@.subrange(lo as int, hi as int)[i]),
{
    let ghost s = v@.subrange(lo as int, hi as int);
    let mut i: usize = lo;
    while i < hi
        invariant
            lo <= i <= hi <= v@.len(),
            s == v@.subrange(lo as int, hi as int),
            forall|k: int| 0 <= k < i - lo ==> is_digit_or_dot(#[trigger] s[k]),
        decreases hi - i,
    {
        proof {
            assert(s[i - lo] == v@[i as int]);
        }
        if !(is_ascii_digit_char(v[i]) || v[i] == '.') {
            return false;
        }
        i += 1;
    }
    true
}

fn is_mantissa_range(v: &Vec<char>, lo: usize, hi: usize) -> (r: bool)
    requires
        lo <= hi <= v@.len(),
    ensures
        r == is_mantissa(v@.subrange(lo as int, hi as int)),
{
    let ghost s = v@.subrange(lo as int, hi as int);
    if lo == hi {
        return false;
    }
    if !all_digit_or_dot_range(v, lo, hi) {
        return false;
    }
    let dots = count_char_range(v, lo, hi, '.');
    if dots > 1 {
        return false;
    }
    proof {
        assert(s[0] == v@[lo as int]);
    }
    !(hi - lo == 1 && v[lo] == '.')
}

fn is_exp_digits_range(v: &Vec<char>, lo: usize, hi: usize) -> (r: bool)
    requires
        lo <= hi <= v@.len(),
    ensures
        r == is_exp_digits(v@.subrange(lo as int, hi as int)),
{
    let ghost s = v@.subrange(lo as int, hi as int);
    if lo == hi {
        return false;
    }
    let first = v[lo];
    let blo: usize = if first == '-' || first == '+' { lo + 1 } else { lo };
    proof {
        assert(s[0] == v@[lo as int]);
        if first == '-' || first == '+' {
            assert(s.drop_first() =~= v@.subrange(blo as int, hi as int));
        }
        assert(strip_sign(s) =~= v@.subrange(blo as int, hi as int));
    }
    if blo == hi {
        return false;
    }
    all_digits_range(v, blo, hi)
}

/// Decide `spec_is_f64_text` for `v[lo..hi]`.
pub fn is_f64_text_range(v: &Vec<char>, lo: usize, hi: usize) -> (r: bool)
    requires
        lo <= hi <= v@.len(),
    ensures
        r == spec_is_f64_text(v@.subrange(lo as int, hi as int)),
{
    let ghost s = v@.subrange(lo as int, hi as int);
    let blo: usize = if lo < hi && (v[lo] == '-' || v[lo] == '+') { lo + 1 } else { lo };
    proof {
        if lo < hi {
            assert(s[0] == v@[lo as int]);
        }
        if blo != lo {
            assert(s.drop_first() =~= v@.subrange(blo as int, hi as int));
        }
        assert(strip_sign(s) =~= v@.subrange(blo as int, hi as int));
    }
    let ghost b = v@.subrange(blo as int, hi as int);
    if eq_ignore_case_range(v, blo, hi, "inf") || eq_ignore_case_range(v, blo, hi, "infinity")
        || eq_ignore_case_range(v, blo, hi, "nan") {
        return true;
    }
    // find the first exponent marker
    let mut f: usize = blo;
    while f < hi && !(v[f] == 'e' || v[f] == 'E')
        invariant
            blo <= f <= hi <= v@.len(),
            forall|k: int| blo <= k < f ==> !is_exp_marker(#[trigger] v@[k]),
        decreases hi - f,
    {
        f += 1;
    }
    if f == hi {
        // no exponent marker anywhere in the body
        let r = is_mantissa_range(v, blo, hi);
        proof {
            assert forall|i: int|
                !(0 <= i < b.len() && is_exp_marker(#[trigger] b[i]) && is_mantissa(
                    b.subrange(0, i),
                ) && is_exp_digits(b.subrange(i + 1, b.len() as int))) by {
                if 0 <= i < b.len() {
                    assert(b[i] == v@[blo + i]);
                }
            }
        }
        r
    } else {
        let ghost fi = f - blo;
        proof {
            assert(b[fi] == v@[f as int]);
            assert(b.subrange(0, fi) =~= v@.subrange(blo as int, f as int));
            assert(b.subrange(fi + 1, b.len() as int) =~= v@.subrange(f + 1 as int, hi as int));
        }
        let m_ok = is_mantissa_range(v, blo, f);
        let e_ok = is_exp_digits_range(v, f + 1, hi);
        if m_ok && e_ok {
            proof {
                assert(is_f64_number(b));
            }
            true
        } else {
            proof {
                // the first marker is the only possible split point
                assert(!is_mantissa(b)) by {
                    assert(!is_digit_or_dot(b[fi]));
                }
                assert forall|i: int|
                    !(0 <= i < b.len() && is_exp_marker(#[trigger] b[i]) && is_mantissa(
                        b.subrange(0, i),
                    ) && is_exp_digits(b.subrange(i + 1, b.len() as int))) by {
                    if 0 <= i < b.len() && is_exp_marker(b[i]) {
                        if i < fi {
                            assert(b[i] == v@[blo + i]);
                        } else if i > fi {
                            assert(b.subrange(0, i)[fi] == b[fi]);
                            assert(!is_digit_or_dot(b.subrange(0, i)[fi]));
                        }
                    }
                }
            }
            false
        }
    }
}

pub open spec fn count_char(s: Seq<char>, c: char) -> nat
    decreases s.len(),
{
    if s.len() == 0 {
        0
    } else {
        count_char(s.drop_last(), c) + (if s.last() == c { 1nat } else { 0nat })
    }
}

/// Count the occurrences of `c` in `v[lo..hi]`.
pub fn count_char_range(v: &Vec<char>, lo: usize, hi: usize, c: char) -> (r: usize)
    requires
        lo <= hi <= v@.len(),
    ensures
        r as nat == count_char(v@.subrange(lo as int, hi as int), c),
{
    let ghost s = v@.subrange(lo as int, hi as int);
    proof {
        assert(s.subrange(0, 0) =~= Seq::<char>::empty());
    }
    let mut n: usize = 0;
    let mut i: usize = lo;
    while i < hi
        invariant
            lo <= i <= hi <= v@.len(),
            s == v@.subrange(lo as int, hi as int),
            n <= i - lo,
            n as nat == count_char(s.subrange(0, i - lo), c),
        decreases hi - i,
    {
        proof {
            assert(s.subrange(0, i + 1 - lo).drop_last() =~= s.subrange(0, i - lo));
            assert(s.subrange(0, i + 1 - lo).last() == s[i - lo]);
            assert(s[i - lo] == v@[i as int]);
        }
        if v[i] == c {
            n += 1;
        }
        i += 1;
    }
    proof {
        assert(s.subrange(0, hi - lo) =~= s);
    }
    n
}

} // verus!
