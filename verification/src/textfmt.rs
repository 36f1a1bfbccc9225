//! Verified text building blocks: decimal rendering of integers, string
//! equality and lexicographic order over character sequences, and joining
//! a list of strings with a separator.
use vstd::prelude::*;

verus! {

// ---------------------------------------------------------------------------
// Decimal digits
// ---------------------------------------------------------------------------

/// The character for a single decimal digit.
pub open spec fn digit_char(d: int) -> char {
    if d == 0 {
        '0'
    } else if d == 1 {
        '1'
    } else if d == 2 {
        '2'
    } else if d == 3 {
        '3'
    } else if d == 4 {
        '4'
    } else if d == 5 {
        '5'
    } else if d == 6 {
        '6'
    } else if d == 7 {
        '7'
    } else if d == 8 {
        '8'
    } else {
        '9'
    }
}

/// Decimal rendering of a natural number, most significant digit first.
pub open spec fn spec_dec(n: nat) -> Seq<char>
    decreases n,
{
    if n < 10 {
        seq![digit_char(n as int)]
    } else {
        spec_dec(n / 10) + seq![digit_char((n % 10) as int)]
    }
}

/// Decimal rendering of a (possibly negative) integer.
pub open spec fn spec_dec_int(n: int) -> Seq<char> {
    if n < 0 {
        seq!['-'] + spec_dec((-n) as nat)
    } else {
        spec_dec(n as nat)
    }
}

pub fn digit_to_str(d: u64) -> (r: &'static str)
    requires
        d < 10,
    ensures
        r@ == seq![digit_char(d as int)],
{
    proof {
        reveal_strlit("0");
        reveal_strlit("1");
        reveal_strlit("2");
        reveal_strlit("3");
        reveal_strlit("4");
        reveal_strlit("5");
        reveal_strlit("6");
        reveal_strlit("7");
        reveal_strlit("8");
        reveal_strlit("9");
        assert("0"@ =~= seq![digit_char(0)]);
        assert("1"@ =~= seq![digit_char(1)]);
        assert("2"@ =~= seq![digit_char(2)]);
        assert("3"@ =~= seq![digit_char(3)]);
        assert("4"@ =~= seq![digit_char(4)]);
        assert("5"@ =~= seq![digit_char(5)]);
        assert("6"@ =~= seq![digit_char(6)]);
        assert("7"@ =~= seq![digit_char(7)]);
        assert("8"@ =~= seq![digit_char(8)]);
        assert("9"@ =~= seq![digit_char(9)]);
    }
    if d == 0 {
        "0"
    } else if d == 1 {
        "1"
    } else if d == 2 {
        "2"
    } else if d == 3 {
        "3"
    } else if d == 4 {
        "4"
    } else if d == 5 {
        "5"
    } else if d == 6 {
        "6"
    } else if d == 7 {
        "7"
    } else if d == 8 {
        "8"
    } else {
        "9"
    }
}

/// Renders an unsigned 64-bit number in decimal.
pub fn u64_to_string(n: u64) -> (s: String)
    ensures
        s@ == spec_dec(n as nat),
    decreases n,
{
    if n < 10 {
        String::from_str(digit_to_str(n))
    } else {
        let mut s = u64_to_string(n / 10);
        s.append(digit_to_str(n % 10));
        s
    }
}

/// Renders a machine-word index in decimal.
pub fn usize_to_string(n: usize) -> (s: String)
    ensures
        s@ == spec_dec(n as nat),
    decreases n,
{
    if n < 10 {
        String::from_str(digit_to_str(n as u64))
    } else {
        let mut s = usize_to_string(n / 10);
        s.append(digit_to_str((n % 10) as u64));
        s
    }
}

/// Renders a u32 in decimal.
pub fn u32_to_string(n: u32) -> (s: String)
    ensures
        s@ == spec_dec(n as nat),
{
    u64_to_string(n as u64)
}

/// Renders a signed 64-bit number in decimal, with a leading `-` when negative.
pub fn i64_to_string(n: i64) -> (s: String)
    ensures
        s@ == spec_dec_int(n as int),
{
    if n >= 0 {
        u64_to_string(n as u64)
    } else {
        let mag: u64 = ((-(n + 1)) as u64) + 1;
        assert(mag as int == -(n as int));
        let mut s = String::from_str("-");
        let digits = u64_to_string(mag);
        s.append(digits.as_str());
        proof {
            reveal_strlit("-");
            assert("-"@ =~= seq!['-']);
        }
        s
    }
}

// ---------------------------------------------------------------------------
// String equality and order
// ---------------------------------------------------------------------------

/// Character-wise equality of two string slices.
pub fn str_eq(a: &str, b: &str) -> (r: bool)
    ensures
        r == (a@ == b@),
{
    let alen = a.unicode_len();
    let blen = b.unicode_len();
    if alen != blen {
        return false;
    }
    let mut i: usize = 0;
    while i < alen
        invariant
            i <= alen,
            alen == a@.len(),
            blen == b@.len(),
            alen == blen,
            forall|j: int| 0 <= j < i ==> a@[j] == b@[j],
        decreases alen - i,
    {
        if a.get_char(i) != b.get_char(i) {
            return false;
        }
        i = i + 1;
    }
    proof {
        assert(a@ =~= b@);
    }
    true
}

/// Lexicographic "less than or equal" on character sequences, by code point.
pub open spec fn spec_str_le(a: Seq<char>, b: Seq<char>) -> bool
    decreases a.len(),
{
    if a.len() == 0 {
        true
    } else if b.len() == 0 {
        false
    } else if a[0] == b[0] {
        spec_str_le(a.drop_first(), b.drop_first())
    } else {
        (a[0] as int) < (b[0] as int)
    }
}

/// Decides `spec_str_le` on two string slices.
pub fn str_le(a: &str, b: &str) -> (r: bool)
    ensures
        r == spec_str_le(a@, b@),
{
    let alen = a.unicode_len();
    let blen = b.unicode_len();
    let mut i: usize = 0;
    proof {
        assert(a@.skip(0) =~= a@);
        assert(b@.skip(0) =~= b@);
    }
    loop
        invariant
            i <= alen,
            i <= blen,
            alen == a@.len(),
            blen == b@.len(),
            forall|j: int| 0 <= j < i ==> a@[j] == b@[j],
            spec_str_le(a@, b@) == spec_str_le(a@.skip(i as int), b@.skip(i as int)),
        decreases alen - i,
    {
        if i == alen {
            return true;
        }
        if i == blen {
            return false;
        }
        let ca = a.get_char(i);
        let cb = b.get_char(i);
        if ca != cb {
            proof {
                assert(a@.skip(i as int)[0] == ca);
                assert(b@.skip(i as int)[0] == cb);
            }
            return (ca as u32) < (cb as u32);
        }
        proof {
            assert(a@.skip(i as int)[0] == ca);
            assert(b@.skip(i as int)[0] == cb);
            assert(a@.skip(i as int).drop_first() =~= a@.skip(i as int + 1));
            assert(b@.skip(i as int).drop_first() =~= b@.skip(i as int + 1));
        }
        i = i + 1;
    }
}

// ---------------------------------------------------------------------------
// Joining strings
// ---------------------------------------------------------------------------

/// The views of a sequence of strings.
pub open spec fn seq_views(s: Seq<String>) -> Seq<Seq<char>> {
    s.map_values(|x: String| x@)
}

/// Concatenation of `parts` with `sep` between consecutive elements.
pub open spec fn spec_join(parts: Seq<Seq<char>>, sep: Seq<char>) -> Seq<char>
    decreases parts.len(),
{
    if parts.len() == 0 {
        Seq::empty()
    } else if parts.len() == 1 {
        parts[0]
    } else {
        parts[0] + sep + spec_join(parts.drop_first(), sep)
    }
}

/// Appending one more part extends the join by a separator and the part.
pub proof fn lemma_join_push(parts: Seq<Seq<char>>, x: Seq<char>, sep: Seq<char>)
    ensures
        spec_join(parts.push(x), sep) == if parts.len() == 0 {
            x
        } else {
            spec_join(parts, sep) + sep + x
        },
    decreases parts.len(),
{
    if parts.len() == 0 {
        assert(parts.push(x) =~= seq![x]);
        assert(spec_join(seq![x], sep) == x);
    } else if parts.len() == 1 {
        assert(parts.push(x).len() == 2);
        assert(parts.push(x)[0] == parts[0]);
        assert(parts.push(x).drop_first() =~= seq![x]);
        assert(spec_join(seq![x], sep) == x);
        assert(spec_join(parts.push(x), sep) == parts[0] + sep + x);
        assert(spec_join(parts, sep) == parts[0]);
    } else {
        lemma_join_push(parts.drop_first(), x, sep);
        assert(parts.push(x).drop_first() =~= parts.drop_first().push(x));
        assert(parts.push(x)[0] == parts[0]);
        assert(spec_join(parts.push(x), sep) == parts[0] + sep + spec_join(
            parts.drop_first().push(x),
            sep,
        ));
        assert(spec_join(parts.drop_first().push(x), sep) == spec_join(parts.drop_first(), sep)
            + sep + x);
        assert(spec_join(parts, sep) + sep + x == (parts[0] + sep + spec_join(
            parts.drop_first(),
            sep,
        )) + sep + x);
        assert((parts[0] + sep + spec_join(parts.drop_first(), sep)) + sep + x =~= parts[0] + sep
            + (spec_join(parts.drop_first(), sep) + sep + x));
    }
}

/// Joins the strings of `parts` with `sep` between consecutive elements.
pub fn join_strings(parts: &Vec<String>, sep: &str) -> (r: String)
    ensures
        r@ == spec_join(seq_views(parts@), sep@),
{
    let mut r = String::new();
    let mut i: usize = 0;
    while i < parts.len()
        invariant
            i <= parts@.len(),
            r@ == spec_join(seq_views(parts@).take(i as int), sep@),
        decreases parts@.len() - i,
    {
        if i > 0 {
            r.append(sep);
        }
        r.append(parts[i].as_str());
        proof {
            let pre = seq_views(parts@).take(i as int);
            lemma_join_push(pre, parts@[i as int]@, sep@);
            assert(pre.push(parts@[i as int]@) =~= seq_views(parts@).take(i as int + 1));
        }
        i = i + 1;
    }
    proof {
        assert(seq_views(parts@).take(parts@.len() as int) =~= seq_views(parts@));
    }
    r
}

// ---------------------------------------------------------------------------
// Decimal parsing
// ---------------------------------------------------------------------------

/// Is `c` one of `0` through `9`?
pub open spec fn is_dec_digit(c: char) -> bool {
    48 <= c as int <= 57
}

/// Numeric value of a decimal digit character.
pub open spec fn digit_val(c: char) -> int {
    c as int - 48
}

/// Every character of `s` is a decimal digit.
pub open spec fn all_digits(s: Seq<char>) -> bool {
    forall|i: int| 0 <= i < s.len() ==> is_dec_digit(#[trigger] s[i])
}

/// The number denoted by a sequence of decimal digits, most significant first.
pub open spec fn digits_val(s: Seq<char>) -> int
    decreases s.len(),
{
    if s.len() == 0 {
        0
    } else {
        digits_val(s.drop_last()) * 10 + digit_val(s.last())
    }
}

/// The integer denoted by an optional sign followed by decimal digits,
/// or nothing when `s` is not of that shape.
pub open spec fn spec_parse_int(s: Seq<char>) -> Option<int> {
    if s.len() > 0 && (s[0] == '-' || s[0] == '+') {
        let rest = s.drop_first();
        if rest.len() > 0 && all_digits(rest) {
            if s[0] == '-' {
                Some(-digits_val(rest))
            } else {
                Some(digits_val(rest))
            }
        } else {
            None
        }
    } else if s.len() > 0 && all_digits(s) {
        Some(digits_val(s))
    } else {
        None
    }
}

/// A string of digits denotes a nonnegative number.
pub proof fn lemma_digits_val_nonneg(s: Seq<char>)
    requires
        all_digits(s),
    ensures
        digits_val(s) >= 0,
    decreases s.len(),
{
    if s.len() > 0 {
        assert(all_digits(s.drop_last())) by {
            assert(forall|i: int|
                0 <= i < s.drop_last().len() ==> #[trigger] s.drop_last()[i] == s[i]);
        }
        lemma_digits_val_nonneg(s.drop_last());
    }
}

/// A prefix of a digit string denotes no more than the whole string.
pub proof fn lemma_digits_val_prefix_le(s: Seq<char>, j: int)
    requires
        all_digits(s),
        0 <= j <= s.len(),
    ensures
        digits_val(s.take(j)) <= digits_val(s),
    decreases s.len() - j,
{
    if j == s.len() {
        assert(s.take(j) =~= s);
    } else {
        lemma_digits_val_prefix_le(s, j + 1);
        let t = s.take(j + 1);
        assert(t.drop_last() =~= s.take(j));
        assert(all_digits(s.take(j))) by {
            assert(forall|i: int|
                0 <= i < s.take(j).len() ==> #[trigger] s.take(j)[i] == s[i]);
        }
        lemma_digits_val_nonneg(s.take(j));
        assert(digits_val(t) == digits_val(s.take(j)) * 10 + digit_val(t.last()));
        assert(digits_val(s.take(j)) * 10 >= digits_val(s.take(j))) by {
            lemma_digits_val_nonneg(s.take(j));
        }
        assert(digit_val(t.last()) >= 0);
    }
}

/// Reads the decimal digits of `s` from position `start` on, refusing the
/// empty tail, any non-digit, and any value above `bound`.
pub fn parse_digits_u64(s: &str, start: usize, bound: u64) -> (r: Option<u64>)
    requires
        start as int <= s@.len(),
    ensures
        ({
            let t = s@.skip(start as int);
            &&& (r is Some <==> (t.len() > 0 && all_digits(t) && digits_val(t) <= bound))
            &&& (r matches Some(n) ==> n == digits_val(t))
        }),
{
    let ghost t = s@.skip(start as int);
    let len = s.unicode_len();
    if start == len {
        proof {
            assert(t.len() == 0);
        }
        return None;
    }
    let mut acc: u64 = 0;
    let mut i: usize = start;
    proof {
        assert(t.take(0) =~= Seq::<char>::empty());
    }
    while i < len
        invariant
            start <= i <= len,
            len == s@.len(),
            start < len,
            t == s@.skip(start as int),
            t.len() == len - start,
            forall|j: int| 0 <= j < i - start ==> is_dec_digit(#[trigger] t[j]),
            acc == digits_val(t.take(i - start)),
            acc <= bound,
        decreases len - i,
    {
        let c = s.get_char(i);
        proof {
            assert(t[i - start] == s@[i as int]);
        }
        let code = c as u32;
        if code < 48 || code > 57 {
            proof {
                assert(!is_dec_digit(t[i - start]));
            }
            return None;
        }
        let d: u64 = (code - 48) as u64;
        proof {
            assert(is_dec_digit(t[i - start]));
            assert(d == digit_val(t[i - start]));
        }
        let ghost k = i - start;
        let ghost tk1 = t.take(k + 1);
        proof {
            assert(tk1.drop_last() =~= t.take(k));
            assert(tk1.last() == t[k]);
            assert(digits_val(tk1) == acc * 10 + d);
        }
        if d > bound {
            proof {
                assert(acc * 10 >= 0) by (nonlinear_arith)
                    requires
                        acc >= 0,
                ;
                assert(digits_val(tk1) > bound);
                if all_digits(t) {
                    lemma_digits_val_prefix_le(t, k + 1);
                    assert(digits_val(t) >= digits_val(tk1));
                }
            }
            return None;
        }
        if acc > (bound - d) / 10 {
            proof {
                vstd::arithmetic::div_mod::lemma_fundamental_div_mod((bound - d) as int, 10);
                assert(acc * 10 + d > bound) by (nonlinear_arith)
                    requires
                        acc > (bound - d) / 10,
                        d <= bound,
                        (bound - d) == ((bound - d) / 10) * 10 + ((bound - d) % 10),
                        0 <= (bound - d) % 10 < 10,
                ;
                assert(digits_val(tk1) > bound);
                if all_digits(t) {
                    lemma_digits_val_prefix_le(t, k + 1);
                    assert(digits_val(t) >= digits_val(tk1));
                }
            }
            return None;
        }
        proof {
            assert(acc * 10 + d <= bound) by (nonlinear_arith)
                requires
                    acc <= (bound - d) / 10,
                    acc >= 0,
                    d <= bound,
                    (bound - d) >= ((bound - d) / 10) * 10,
            ;
        }
        acc = acc * 10 + d;
        i = i + 1;
    }
    proof {
        assert(t.take(len - start) =~= t);
        assert(all_digits(t));
    }
    Some(acc)
}

/// Reads an optionally signed decimal integer from `s`, refusing values
/// below `-(max_neg)` or above `max_pos`.
pub fn parse_signed(s: &str, max_pos: u64, max_neg: u64) -> (r: Option<i64>)
    requires
        max_pos <= i64::MAX,
        max_neg <= 0x8000_0000_0000_0000,
    ensures
        ({
            let p = spec_parse_int(s@);
            &&& (r is Some <==> (p matches Some(n) && -(max_neg as int) <= n <= max_pos as int))
            &&& (r matches Some(n) ==> p == Some(n as int))
        }),
{
    let len = s.unicode_len();
    if len == 0 {
        return None;
    }
    let c0 = s.get_char(0);
    if c0 == '-' {
        proof {
            lemma_digits_val_nonneg_if(s@.skip(1));
        }
        match parse_digits_u64(s, 1, max_neg) {
            Option::Some(mag) => {
                proof {
                    assert(s@.skip(1) =~= s@.drop_first());
                }
                if mag == 0x8000_0000_0000_0000u64 {
                    Some(i64::MIN)
                } else {
                    Some(-(mag as i64))
                }
            },
            Option::None => None,
        }
    } else if c0 == '+' {
        proof {
            lemma_digits_val_nonneg_if(s@.skip(1));
        }
        match parse_digits_u64(s, 1, max_pos) {
            Option::Some(mag) => {
                proof {
                    assert(s@.skip(1) =~= s@.drop_first());
                }
                Some(mag as i64)
            },
            Option::None => None,
        }
    } else {
        proof {
            assert(s@.skip(0) =~= s@);
            lemma_digits_val_nonneg_if(s@);
        }
        match parse_digits_u64(s, 0, max_pos) {
            Option::Some(mag) => Some(mag as i64),
            Option::None => None,
        }
    }
}

/// `digits_val` is nonnegative whenever the characters are all digits.
proof fn lemma_digits_val_nonneg_if(s: Seq<char>)
    ensures
        all_digits(s) ==> digits_val(s) >= 0,
{
    if all_digits(s) {
        lemma_digits_val_nonneg(s);
    }
}

} // verus!
