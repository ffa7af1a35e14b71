use vstd::prelude::*;

verus! {

/// Appends one character to a string.
///
/// Trusted: calls `String::push` from std, which appends `c` at the end of
/// the string; the contract states exactly that.
#[verifier::external_body]
pub fn push_char(s: &mut String, c: char)
    ensures
        final(s)@ == old(s)@.push(c),
{
    s.push(c);
}

/// Appends a string slice.
pub fn push_str(s: &mut String, t: &str)
    ensures
        final(s)@ == old(s)@ + t@,
{
    s.append(t);
}

/// A new string holding the characters of a literal.
pub fn from_lit(t: &str) -> (r: String)
    ensures
        r@ == t@,
{
    String::from_str(t)
}

/// The characters of a string slice, in order.
pub fn chars_of(s: &str) -> (r: Vec<char>)
    ensures
        r@ == s@,
{
    let n = s.unicode_len();
    let mut out: Vec<char> = Vec::new();
    let mut i: usize = 0;
    while i < n
        invariant
            n == s@.len(),
            i <= n,
            out@ == s@.subrange(0, i as int),
        decreases n - i,
    {
        let c = s.get_char(i);
        out.push(c);
        i = i + 1;
        assert(out@ =~= s@.subrange(0, i as int));
    }
    assert(out@ =~= s@);
    out
}

/// A string made of the given characters.
pub fn string_of(cs: &Vec<char>) -> (r: String)
    ensures
        r@ == cs@,
{
    let mut out = String::new();
    let mut i: usize = 0;
    while i < cs.len()
        invariant
            i <= cs.len(),
            out@ == cs@.subrange(0, i as int),
        decreases cs.len() - i,
    {
        push_char(&mut out, cs[i]);
        i = i + 1;
        assert(out@ =~= cs@.subrange(0, i as int));
    }
    assert(out@ =~= cs@);
    out
}

/// The decimal digit character for `d < 10`.
pub open spec fn digit_char(d: int) -> char {
    if d == 0 { '0' }
    else if d == 1 { '1' }
    else if d == 2 { '2' }
    else if d == 3 { '3' }
    else if d == 4 { '4' }
    else if d == 5 { '5' }
    else if d == 6 { '6' }
    else if d == 7 { '7' }
    else if d == 8 { '8' }
    else { '9' }
}

/// The value of a decimal digit character, if it is one.
pub open spec fn digit_value(c: char) -> Option<int> {
    if '0' <= c && c <= '9' {
        Some(c as int - '0' as int)
    } else {
        None
    }
}

/// The usual decimal representation of a natural number (no leading zeros).
pub open spec fn decimal(n: nat) -> Seq<char>
    decreases n,
{
    if n < 10 {
        seq![digit_char(n as int)]
    } else {
        decimal(n / 10).push(digit_char((n % 10) as int))
    }
}

fn digit_of(d: usize) -> (c: char)
    requires
        d < 10,
    ensures
        c == digit_char(d as int),
{
    if d == 0 { '0' }
    else if d == 1 { '1' }
    else if d == 2 { '2' }
    else if d == 3 { '3' }
    else if d == 4 { '4' }
    else if d == 5 { '5' }
    else if d == 6 { '6' }
    else if d == 7 { '7' }
    else if d == 8 { '8' }
    else { '9' }
}

/// Appends the decimal representation of `n`.
pub fn push_decimal(s: &mut String, n: u64)
    ensures
        final(s)@ == old(s)@ + decimal(n as nat),
    decreases n,
{
    if n < 10 {
        push_char(s, digit_of(n as usize));
        assert(decimal(n as nat) =~= seq![digit_char(n as int)]);
    } else {
        push_decimal(s, n / 10);
        push_char(s, digit_of((n % 10) as usize));
        assert(decimal(n as nat) =~= decimal((n / 10) as nat).push(digit_char((n % 10) as int)));
    }
}

/// The decimal representation of `n` as a string.
pub fn decimal_string(n: u64) -> (r: String)
    ensures
        r@ == decimal(n as nat),
{
    let mut s = String::new();
    push_decimal(&mut s, n);
    assert(s@ =~= decimal(n as nat));
    s
}

/// Character-wise equality of two character vectors.
pub fn chars_eq(a: &Vec<char>, b: &[char]) -> (r: bool)
    ensures
        r == (a@ == b@),
{
    if a.len() != b.len() {
        return false;
    }
    let mut i: usize = 0;
    while i < a.len()
        invariant
            a@.len() == b@.len(),
            i <= a.len(),
            forall|j: int| 0 <= j < i ==> a@[j] == b@[j],
        decreases a.len() - i,
    {
        if a[i] != b[i] {
            return false;
        }
        i = i + 1;
    }
    assert(a@ =~= b@);
    true
}

/// Whether the characters `s` spell the literal `lit`.
pub fn is_lit(s: &Vec<char>, lit: &str) -> (r: bool)
    ensures
        r == (s@ == lit@),
{
    let l = chars_of(lit);
    chars_eq(s, l.as_slice())
}
/// `"__"` as a sequence.
pub open spec fn dunder() -> Seq<char> {
    seq!['_', '_']
}

/// Whether `s` contains two consecutive underscores.
pub open spec fn has_dunder(s: Seq<char>) -> bool {
    exists|i: int| 0 <= i < s.len() - 1 && #[trigger] s[i] == '_' && s[i + 1] == '_'
}

pub fn contains_dunder(s: &Vec<char>) -> (r: bool)
    ensures
        r == has_dunder(s@),
{
    if s.len() < 2 {
        return false;
    }
    let mut i: usize = 0;
    while i < s.len() - 1
        invariant
            s@.len() >= 2,
            forall|j: int| 0 <= j < i && j < s@.len() - 1 ==> !(#[trigger] s@[j] == '_' && s@[j + 1] == '_'),
        decreases s.len() - i,
    {
        if s[i] == '_' && s[i + 1] == '_' {
            return true;
        }
        i = i + 1;
    }
    false
}

/// Whether `l` starts with `r` followed by `"__"`.
pub fn starts_with_base(l: &Vec<char>, r: &Vec<char>) -> (res: bool)
    ensures
        res == (r@ + dunder()).is_prefix_of(l@),
{
    let ghost p = r@ + dunder();
    if l.len() < 2 || l.len() - 2 < r.len() {
        return false;
    }
    let mut i: usize = 0;
    while i < r.len()
        invariant
            p == r@ + dunder(),
            l@.len() >= r@.len() + 2,
            i <= r.len(),
            forall|j: int| 0 <= j < i ==> l@[j] == p[j],
        decreases r.len() - i,
    {
        if l[i] != r[i] {
            assert(l@[i as int] != p[i as int]);
            return false;
        }
        i = i + 1;
    }
    let n = r.len();
    if l[n] != '_' || l[n + 1] != '_' {
        assert(p[n as int] == '_' && p[n as int + 1] == '_');
        return false;
    }
    assert(p =~= l@.subrange(0, p.len() as int));
    true
}
// ---------------------------------------------------------------------------
// Numbers
// ---------------------------------------------------------------------------

/// The value of a digit in the given radix (10 or 16), if the character is one.
pub open spec fn radix_digit(c: char, radix: int) -> Option<int> {
    if '0' <= c && c <= '9' {
        Some(c as int - '0' as int)
    } else if radix == 16 && 'a' <= c && c <= 'f' {
        Some(c as int - 'a' as int + 10)
    } else if radix == 16 && 'A' <= c && c <= 'F' {
        Some(c as int - 'A' as int + 10)
    } else {
        None
    }
}

/// Every character of `s` is a digit in `radix`.
pub open spec fn all_digits(s: Seq<char>, radix: int) -> bool {
    forall|i: int| 0 <= i < s.len() ==> (#[trigger] radix_digit(s[i], radix)) is Some
}

/// The value of a sequence of digits, most significant first.
pub open spec fn digits_value(s: Seq<char>, radix: int) -> int
    decreases s.len(),
{
    if s.len() == 0 {
        0
    } else {
        digits_value(s.drop_last(), radix) * radix + radix_digit(s.last(), radix).unwrap()
    }
}

/// How std reads an integer of the given range from text: an optional sign
/// (`+`, or `-` when negative values are allowed), then at least one digit;
/// `None` when a character is not a digit or the value is out of range.
pub open spec fn parse_int_s(s: Seq<char>, radix: int, min: int, max: int) -> Option<int> {
    if s.len() > 0 && s[0] == '-' && min < 0 {
        let d = s.drop_first();
        if d.len() > 0 && all_digits(d, radix) && -digits_value(d, radix) >= min {
            Some(-digits_value(d, radix))
        } else {
            None
        }
    } else {
        let d = if s.len() > 0 && s[0] == '+' { s.drop_first() } else { s };
        if d.len() > 0 && all_digits(d, radix) && digits_value(d, radix) <= max {
            Some(digits_value(d, radix))
        } else {
            None
        }
    }
}

pub proof fn lemma_digits_value_step(s: Seq<char>, k: int, radix: int)
    requires
        0 <= k < s.len(),
    ensures
        digits_value(s.subrange(0, k + 1), radix) == digits_value(s.subrange(0, k), radix) * radix
            + radix_digit(s[k], radix).unwrap(),
{
    assert(s.subrange(0, k + 1).drop_last() =~= s.subrange(0, k));
}

pub proof fn lemma_digits_value_nonneg(s: Seq<char>, radix: int)
    requires
        radix == 10 || radix == 16,
        all_digits(s, radix),
    ensures
        digits_value(s, radix) >= 0,
    decreases s.len(),
{
    if s.len() > 0 {
        assert(all_digits(s.drop_last(), radix)) by {
            assert forall|i: int| 0 <= i < s.drop_last().len() implies (#[trigger] radix_digit(s.drop_last()[i], radix)) is Some by {
                assert(s.drop_last()[i] == s[i]);
            }
        }
        lemma_digits_value_nonneg(s.drop_last(), radix);
        assert(radix_digit(s[s.len() - 1], radix) is Some);
    }
}

/// Digits only add to a value that has already passed a bound.
pub proof fn lemma_digits_value_grows(s: Seq<char>, k: int, radix: int)
    requires
        radix == 10 || radix == 16,
        0 <= k <= s.len(),
        all_digits(s, radix),
    ensures
        digits_value(s, radix) >= digits_value(s.subrange(0, k), radix),
    decreases s.len() - k,
{
    if k < s.len() {
        lemma_digits_value_step(s, k, radix);
        assert(all_digits(s.subrange(0, k), radix)) by {
            assert forall|i: int| 0 <= i < s.subrange(0, k).len() implies (#[trigger] radix_digit(s.subrange(0, k)[i], radix)) is Some by {
                assert(s.subrange(0, k)[i] == s[i]);
            }
        }
        lemma_digits_value_nonneg(s.subrange(0, k), radix);
        assert(radix_digit(s[k], radix) is Some);
        lemma_digits_value_grows(s, k + 1, radix);
    } else {
        assert(s.subrange(0, k) =~= s);
    }
}

fn digit_value_exec(c: char, radix: u32) -> (r: Option<u32>)
    requires
        radix == 10 || radix == 16,
    ensures
        match r {
            Some(v) => radix_digit(c, radix as int) == Some(v as int),
            None => radix_digit(c, radix as int) is None,
        },
{
    if '0' <= c && c <= '9' {
        Some((c as u32) - ('0' as u32))
    } else if radix == 16 && 'a' <= c && c <= 'f' {
        Some((c as u32) - ('a' as u32) + 10)
    } else if radix == 16 && 'A' <= c && c <= 'F' {
        Some((c as u32) - ('A' as u32) + 10)
    } else {
        None
    }
}

/// Reads the magnitude `s[start..]`: `None` when a character is not a digit,
/// else the value, or `limit + 1` for any value above `limit`.
fn read_digits(s: &Vec<char>, start: usize, radix: u32, limit: u64) -> (r: Option<u128>)
    requires
        radix == 10 || radix == 16,
        start <= s.len(),
    ensures
        match r {
            None => !all_digits(s@.subrange(start as int, s@.len() as int), radix as int),
            Some(v) => all_digits(s@.subrange(start as int, s@.len() as int), radix as int)
                && (if digits_value(s@.subrange(start as int, s@.len() as int), radix as int) <= limit {
                    v == digits_value(s@.subrange(start as int, s@.len() as int), radix as int)
                } else {
                    v == limit as int + 1
                }),
        },
{
    let ghost d = s@.subrange(start as int, s@.len() as int);
    let mut acc: u128 = 0;
    let mut i: usize = start;
    while i < s.len()
        invariant
            start <= i <= s.len(),
            radix == 10 || radix == 16,
            d == s@.subrange(start as int, s@.len() as int),
            all_digits(d.subrange(0, i - start), radix as int),
            digits_value(d.subrange(0, i - start), radix as int) <= limit ==> acc == digits_value(d.subrange(0, i - start), radix as int),
            digits_value(d.subrange(0, i - start), radix as int) > limit ==> acc == limit as int + 1,
            acc <= limit as int + 1,
        decreases s.len() - i,
    {
        let k = i - start;
        match digit_value_exec(s[i], radix) {
            None => {
                assert(d[k as int] == s@[i as int]);
                assert(radix_digit(d[k as int], radix as int) is None);
                return None;
            },
            Some(dv) => {
                proof {
                    lemma_digits_value_step(d, k as int, radix as int);
                    assert(d[k as int] == s@[i as int]);
                    assert(all_digits(d.subrange(0, k + 1), radix as int)) by {
                        assert forall|j: int| 0 <= j < d.subrange(0, k + 1).len() implies (#[trigger] radix_digit(d.subrange(0, k + 1)[j], radix as int)) is Some by {
                            if j < k {
                                assert(d.subrange(0, k + 1)[j] == d.subrange(0, k as int)[j]);
                            }
                        }
                    }
                    lemma_digits_value_nonneg(d.subrange(0, k as int), radix as int);
                }
                if acc > limit as u128 {
                    acc = limit as u128 + 1;
                    proof {
                        assert(digits_value(d.subrange(0, k + 1), radix as int)
                            >= digits_value(d.subrange(0, k as int), radix as int)) by (nonlinear_arith)
                            requires
                                digits_value(d.subrange(0, k + 1), radix as int) == digits_value(d.subrange(0, k as int), radix as int) * (radix as int) + dv,
                                dv >= 0,
                                radix >= 10,
                                digits_value(d.subrange(0, k as int), radix as int) >= 0;
                    }
                } else {
                    let next = acc * (radix as u128) + (dv as u128);
                    if next > limit as u128 {
                        acc = limit as u128 + 1;
                    } else {
                        acc = next;
                    }
                }
            },
        }
        i = i + 1;
    }
    assert(d.subrange(0, i - start) =~= d);
    Some(acc)
}

/// Reads a signed 64-bit integer in the given radix as std does.
pub fn parse_i64(s: &Vec<char>, radix: u32) -> (r: Option<i64>)
    requires
        radix == 10 || radix == 16,
    ensures
        match r {
            Some(v) => parse_int_s(s@, radix as int, i64::MIN as int, i64::MAX as int) == Some(v as int),
            None => parse_int_s(s@, radix as int, i64::MIN as int, i64::MAX as int) is None,
        },
{
    if s.len() > 0 && s[0] == '-' {
        if s.len() == 1 {
            return None;
        }
        assert(s@.drop_first() =~= s@.subrange(1, s@.len() as int));
        match read_digits(s, 1, radix, 9223372036854775808u64) {
            None => None,
            Some(v) => {
                if v > 9223372036854775808u128 {
                    None
                } else if v == 9223372036854775808u128 {
                    Some(i64::MIN)
                } else {
                    Some(-(v as i64))
                }
            },
        }
    } else {
        let start: usize = if s.len() > 0 && s[0] == '+' { 1 } else { 0 };
        if start == 1 {
            assert(s@.drop_first() =~= s@.subrange(1, s@.len() as int));
        } else {
            assert(s@ =~= s@.subrange(0, s@.len() as int));
        }
        if start >= s.len() {
            return None;
        }
        match read_digits(s, start, radix, 9223372036854775807u64) {
            None => None,
            Some(v) => {
                if v > 9223372036854775807u128 {
                    None
                } else {
                    Some(v as i64)
                }
            },
        }
    }
}

/// Reads an unsigned machine-word integer in decimal as std does.
pub fn parse_usize(s: &Vec<char>) -> (r: Option<usize>)
    ensures
        match r {
            Some(v) => parse_int_s(s@, 10, 0, usize::MAX as int) == Some(v as int),
            None => parse_int_s(s@, 10, 0, usize::MAX as int) is None,
        },
{
    let start: usize = if s.len() > 0 && s[0] == '+' { 1 } else { 0 };
    if start == 1 {
        assert(s@.drop_first() =~= s@.subrange(1, s@.len() as int));
    } else {
        assert(s@ =~= s@.subrange(0, s@.len() as int));
    }
    if start >= s.len() {
        return None;
    }
    match read_digits(s, start, 10, usize::MAX as u64) {
        None => None,
        Some(v) => {
            if v > usize::MAX as u128 {
                None
            } else {
                Some(v as usize)
            }
        },
    }
}

} // verus!
