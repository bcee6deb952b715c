//! Small text helpers: decimal rendering and parsing of integers, and
//! joining lines.
use vstd::prelude::*;
use vstd::string::*;

verus! {

/// The character of a decimal digit.
pub open spec fn digit_char(d: nat) -> char {
    (d + 48) as char
}

/// The decimal digits of a natural number, most significant first.
pub open spec fn decimal(n: nat) -> Seq<char>
    decreases n,
{
    if n < 10 {
        seq![digit_char(n)]
    } else {
        decimal(n / 10).push(digit_char(n % 10))
    }
}

/// The decimal text of an integer, with a leading `-` when negative.
pub open spec fn signed_decimal(n: int) -> Seq<char> {
    if n < 0 {
        seq!['-'] + decimal((-n) as nat)
    } else {
        decimal(n as nat)
    }
}

/// The text of an integer padded with zeros to a width of two, as `{:02}`
/// renders it (the sign counts towards the width).
pub open spec fn zero_pad2(n: int) -> Seq<char> {
    if 0 <= n < 10 {
        seq!['0'] + decimal(n as nat)
    } else {
        signed_decimal(n)
    }
}

/// Appends one character to a string (`String::push`).
#[verifier::external_body]
pub(crate) fn push_char(s: &mut String, c: char)
    ensures
        final(s)@ == old(s)@.push(c),
{
    s.push(c)
}

fn digit(d: u64) -> (c: char)
    requires
        d < 10,
    ensures
        c == digit_char(d as nat),
{
    let b: u8 = 48u8 + (d as u8);
    b as char
}

/// Appends the decimal digits of `n`.
pub fn push_decimal(s: &mut String, n: u64)
    ensures
        final(s)@ == old(s)@ + decimal(n as nat),
    decreases n,
{
    if n >= 10 {
        push_decimal(s, n / 10);
    }
    push_char(s, digit(n % 10));
    proof {
        if n >= 10 {
            assert(decimal(n as nat) == decimal((n / 10) as nat).push(digit_char((n % 10) as nat)));
        }
    }
}

/// The decimal text of an unsigned integer.
pub fn u64_to_decimal(n: u64) -> (r: String)
    ensures
        r@ == decimal(n as nat),
{
    let mut s = String::new();
    push_decimal(&mut s, n);
    s
}

/// The decimal text of a signed integer.
pub fn i64_to_decimal(n: i64) -> (r: String)
    ensures
        r@ == signed_decimal(n as int),
{
    let mut s = String::new();
    if n < 0 {
        push_char(&mut s, '-');
        let m: u64 = if n == i64::MIN { 9223372036854775808u64 } else { (-n) as u64 };
        push_decimal(&mut s, m);
    } else {
        push_decimal(&mut s, n as u64);
    }
    s
}

/// The text of `n` padded with zeros to a width of two.
pub fn i64_zero_pad2(n: i64) -> (r: String)
    ensures
        r@ == zero_pad2(n as int),
{
    if 0 <= n && n < 10 {
        let mut s = String::new();
        push_char(&mut s, '0');
        push_decimal(&mut s, n as u64);
        s
    } else {
        i64_to_decimal(n)
    }
}

} // verus!

verus! {

/// Whether a character is an ASCII decimal digit.
pub open spec fn is_digit(c: char) -> bool {
    '0' <= c <= '9'
}

/// Whether every character of `s` is a decimal digit.
pub open spec fn all_digits(s: Seq<char>) -> bool {
    forall|i: int| 0 <= i < s.len() ==> #[trigger] is_digit(s[i])
}

/// The value of a string of decimal digits.
pub open spec fn digits_value(s: Seq<char>) -> int
    decreases s.len(),
{
    if s.len() == 0 {
        0
    } else {
        digits_value(s.drop_last()) * 10 + (s.last() as int - 48)
    }
}

/// The digits that follow an optional leading sign, and whether the sign
/// was `-`. `allow_minus` says whether a `-` counts as a sign.
pub open spec fn split_sign(s: Seq<char>, allow_minus: bool) -> (bool, Seq<char>) {
    if s.len() > 0 && s[0] == '+' {
        (false, s.drop_first())
    } else if allow_minus && s.len() > 0 && s[0] == '-' {
        (true, s.drop_first())
    } else {
        (false, s)
    }
}

/// What `str::parse::<i64>` gives: an optional sign followed by at least
/// one digit, whose value fits in an `i64`.
pub open spec fn parsed_i64(s: Seq<char>) -> Option<i64> {
    let (neg, body) = split_sign(s, true);
    let v = if neg { -digits_value(body) } else { digits_value(body) };
    if body.len() == 0 || !all_digits(body) || v < i64::MIN || v > i64::MAX {
        None
    } else {
        Some(v as i64)
    }
}

/// What `str::parse::<u64>` gives: an optional `+` followed by at least
/// one digit, whose value fits in a `u64`.
pub open spec fn parsed_u64(s: Seq<char>) -> Option<u64> {
    let (neg, body) = split_sign(s, false);
    let v = digits_value(body);
    if body.len() == 0 || !all_digits(body) || v > u64::MAX {
        None
    } else {
        Some(v as u64)
    }
}

proof fn lemma_digits_value_nonneg(s: Seq<char>)
    requires
        all_digits(s),
    ensures
        digits_value(s) >= 0,
    decreases s.len(),
{
    if s.len() > 0 {
        assert(is_digit(s[s.len() - 1]));
        assert(all_digits(s.drop_last())) by {
            assert forall|i: int| 0 <= i < s.drop_last().len() implies #[trigger] is_digit(s.drop_last()[i]) by {
                assert(is_digit(s[i]));
            }
        }
        lemma_digits_value_nonneg(s.drop_last());
    }
}

proof fn lemma_digits_value_grows(s: Seq<char>, k: int)
    requires
        all_digits(s),
        0 <= k <= s.len(),
    ensures
        digits_value(s.take(k)) <= digits_value(s),
    decreases s.len() - k,
{
    if k < s.len() {
        let t = s.take(k + 1);
        assert(t.drop_last() =~= s.take(k));
        assert(all_digits(s.take(k))) by {
            assert forall|i: int| 0 <= i < s.take(k).len() implies #[trigger] is_digit(s.take(k)[i]) by {
                assert(is_digit(s[i]));
            }
        }
        lemma_digits_value_nonneg(s.take(k));
        assert(is_digit(s[k]));
        assert(digits_value(t) == digits_value(s.take(k)) * 10 + (s[k] as int - 48));
        lemma_digits_value_grows(s, k + 1);
    } else {
        assert(s.take(k) =~= s);
    }
}

/// Reads the digits of `s` from `start` on; `None` when a character is not
/// a digit, when there are none, or when the value exceeds `limit`.
fn parse_digits(s: &str, start: usize, limit: u64) -> (r: Option<u64>)
    requires
        start <= s@.len(),
    ensures
        ({
            let body = s@.skip(start as int);
            match r {
                Some(v) => body.len() > 0 && all_digits(body) && v == digits_value(body) && v <= limit,
                None => body.len() == 0 || !all_digits(body) || digits_value(body) > limit,
            }
        }),
{
    let n = s.unicode_len();
    if start >= n {
        return None;
    }
    let ghost body = s@.skip(start as int);
    let mut acc: u64 = 0;
    let mut i: usize = start;
    while i < n
        invariant
            n == s@.len(),
            start <= i <= n,
            body == s@.skip(start as int),
            all_digits(body.take(i - start)),
            acc as int == digits_value(body.take(i - start)),
            acc <= limit,
        decreases n - i,
    {
        let c = s.get_char(i);
        assert(c == body[i - start]);
        if !('0' <= c && c <= '9') {
            assert(!is_digit(body[i - start]));
            return None;
        }
        let d: u64 = (c as u32 - 48u32) as u64;
        let ghost prev = body.take(i - start);
        let ghost next = body.take(i - start + 1);
        assert(next.drop_last() =~= prev);
        assert(all_digits(next)) by {
            assert forall|j: int| 0 <= j < next.len() implies #[trigger] is_digit(next[j]) by {
                if j < next.len() - 1 {
                    assert(next[j] == prev[j]);
                }
            }
        }
        if d > limit || acc > (limit - d) / 10 {
            proof {
                assert(digits_value(next) == acc * 10 + d);
                if d <= limit {
                    assert(acc * 10 + d > limit) by (nonlinear_arith)
                        requires acc > (limit - d) / 10, d <= 9, d <= limit;
                }
                if all_digits(body) {
                    lemma_digits_value_grows(body, i - start + 1);
                }
            }
            return None;
        }
        proof {
            assert(acc * 10 + d <= limit) by (nonlinear_arith)
                requires acc <= (limit - d) / 10, d <= 9, d <= limit;
        }
        acc = acc * 10 + d;
        i = i + 1;
    }
    assert(body.take(i - start) =~= body);
    Some(acc)
}

} // verus!

verus! {

/// Parses a decimal `i64` the way `str::parse::<i64>` does.
pub fn parse_i64(s: &str) -> (r: Option<i64>)
    ensures
        r == parsed_i64(s@),
{
    let n = s.unicode_len();
    let neg = n > 0 && s.get_char(0) == '-';
    let plus = n > 0 && s.get_char(0) == '+';
    let start: usize = if neg || plus { 1 } else { 0 };
    proof {
        let (sn, body) = split_sign(s@, true);
        assert(sn == neg);
        assert(body =~= s@.skip(start as int));
    }
    let limit: u64 = if neg { 9223372036854775808u64 } else { 9223372036854775807u64 };
    match parse_digits(s, start, limit) {
        Some(v) => {
            if neg {
                if v == 9223372036854775808u64 {
                    Some(i64::MIN)
                } else {
                    Some(-(v as i64))
                }
            } else {
                Some(v as i64)
            }
        },
        None => None,
    }
}

/// Parses a decimal `u64` the way `str::parse::<u64>` does.
pub fn parse_u64(s: &str) -> (r: Option<u64>)
    ensures
        r == parsed_u64(s@),
{
    let n = s.unicode_len();
    let plus = n > 0 && s.get_char(0) == '+';
    let start: usize = if plus { 1 } else { 0 };
    proof {
        let (sn, body) = split_sign(s@, false);
        assert(body =~= s@.skip(start as int));
    }
    parse_digits(s, start, u64::MAX)
}

} // verus!

verus! {

/// Compares two strings (`<str as PartialEq>::eq`).
#[verifier::external_body]
pub(crate) fn str_eq(a: &str, b: &str) -> (r: bool)
    ensures
        r == (a@ == b@),
{
    a == b
}

/// The texts of a list of strings.
pub open spec fn strings_view(v: Seq<String>) -> Seq<Seq<char>> {
    v.map_values(|s: String| s@)
}

/// Whether `s` is among `list`.
pub fn contains_str(list: &Vec<String>, s: &str) -> (r: bool)
    ensures
        r == strings_view(list@).contains(s@),
{
    let mut i: usize = 0;
    while i < list.len()
        invariant
            i <= list@.len(),
            forall|j: int| 0 <= j < i ==> strings_view(list@)[j] != s@,
        decreases list@.len() - i,
    {
        if str_eq(list[i].as_str(), s) {
            assert(strings_view(list@)[i as int] == s@);
            return true;
        }
        i = i + 1;
    }
    false
}

} // verus!

verus! {

/// The distinct strings of a list, each once (in the order they first
/// appear).
pub fn distinct_strings(list: &Vec<String>) -> (r: Vec<String>)
    ensures
        strings_view(r@).no_duplicates(),
        forall|k: Seq<char>| strings_view(r@).contains(k) <==> strings_view(list@).contains(k),
{
    let ghost lv = strings_view(list@);
    let mut out: Vec<String> = Vec::new();
    let mut i: usize = 0;
    while i < list.len()
        invariant
            i <= list@.len(),
            lv == strings_view(list@),
            strings_view(out@).no_duplicates(),
            forall|k: Seq<char>| strings_view(out@).contains(k) <==> lv.take(i as int).contains(k),
        decreases list@.len() - i,
    {
        let ghost outv = strings_view(out@);
        let ghost key = list@[i as int]@;
        let seen = contains_str(&out, list[i].as_str());
        if !seen {
            out.push(list[i].clone());
            assert(strings_view(out@) =~= outv.push(key));
        }
        let ghost nv = strings_view(out@);
        assert forall|k: Seq<char>| nv.contains(k) <==> lv.take(i + 1).contains(k) by {
            let t1 = lv.take(i + 1);
            let t0 = lv.take(i as int);
            assert(t1 =~= t0.push(key));
            assert(outv.contains(k) <==> t0.contains(k));
            if nv.contains(k) {
                if seen {
                    assert(outv.contains(k));
                    let w = t0.index_of(k);
                    assert(t1[w] == k);
                } else {
                    let w = nv.index_of(k);
                    if w < outv.len() {
                        assert(outv[w] == k);
                        let w2 = t0.index_of(k);
                        assert(t1[w2] == k);
                    } else {
                        assert(t1[i as int] == k);
                    }
                }
            }
            if t1.contains(k) {
                let w = t1.index_of(k);
                if w < i {
                    assert(t0[w] == k);
                    assert(outv.contains(k));
                    if !seen {
                        let w2 = outv.index_of(k);
                        assert(nv[w2] == k);
                    }
                } else {
                    assert(k == key);
                    if !seen {
                        assert(nv[outv.len() as int] == k);
                    }
                }
            }
        }
        assert(nv.no_duplicates()) by {
            if !seen {
                assert forall|a: int, b: int| 0 <= a < nv.len() && 0 <= b < nv.len() && a != b implies nv[a] != nv[b] by {
                    if a < outv.len() && b < outv.len() {
                        assert(nv[a] == outv[a] && nv[b] == outv[b]);
                    } else if a < outv.len() {
                        assert(nv[a] == outv[a]);
                        assert(outv.contains(nv[a]));
                    } else if b < outv.len() {
                        assert(nv[b] == outv[b]);
                        assert(outv.contains(nv[b]));
                    }
                }
            }
        }
        i = i + 1;
    }
    assert(lv.take(i as int) =~= lv);
    out
}

} // verus!
