//! Decimal formatting and parsing over character sequences.
//!
//! The wire format, the cgroup limit files and the service configuration all
//! exchange unsigned decimal numbers as text; this module gives both
//! directions exact contracts and proves that parsing inverts printing.

use vstd::prelude::*;
use vstd::string::StrSliceExecFns;

verus! {

/// The character for one decimal digit value.
pub open spec fn dec_digit(d: int) -> char {
    if d == 0 { '0' }
    else if d == 1 { '1' }
    else if d == 2 { '2' }
    else if d == 3 { '3' }
    else if d == 4 { '4' }
    else if d == 5 { '5' }
    else if d == 6 { '6' }
    else if d == 7 { '7' }
    else if d == 8 { '8' }
    else { '9' }
}

/// The canonical decimal rendering of a natural number: no sign, no leading
/// zeros (except the single digit of zero itself).
pub open spec fn dec_digits(n: nat) -> Seq<char>
    decreases n,
{
    if n < 10 {
        seq![dec_digit(n as int)]
    } else {
        dec_digits(n / 10) + seq![dec_digit((n % 10) as int)]
    }
}

pub open spec fn is_dec_digit(c: char) -> bool {
    48 <= (c as u32) && (c as u32) <= 57
}

pub open spec fn dec_digit_val(c: char) -> int {
    (c as u32) - 48
}

pub open spec fn all_dec_digits(s: Seq<char>) -> bool {
    forall|i: int| 0 <= i < s.len() ==> is_dec_digit(#[trigger] s[i])
}

/// The numeric value of a sequence of decimal digits.
pub open spec fn dec_value(s: Seq<char>) -> nat
    decreases s.len(),
{
    if s.len() == 0 {
        0
    } else {
        dec_value(s.drop_last()) * 10 + (if is_dec_digit(s.last()) {
            dec_digit_val(s.last()) as nat
        } else {
            0
        })
    }
}

proof fn lemma_dec_digit_props(d: int)
    requires
        0 <= d < 10,
    ensures
        is_dec_digit(dec_digit(d)),
        dec_digit_val(dec_digit(d)) == d,
{
}

/// Printing then reading a number gives the number back, the rendering is
/// nonempty, all digits, and has no leading zero unless it is "0".
pub proof fn lemma_dec_digits_value(n: nat)
    ensures
        dec_digits(n).len() >= 1,
        all_dec_digits(dec_digits(n)),
        dec_value(dec_digits(n)) == n,
        n > 0 ==> dec_digit_val(dec_digits(n)[0]) > 0,
        n < 10 ==> dec_digits(n).len() == 1,
    decreases n,
{
    if n < 10 {
        lemma_dec_digit_props(n as int);
        let s1 = seq![dec_digit(n as int)];
        assert(dec_digits(n) == s1);
        assert(s1.drop_last() =~= Seq::<char>::empty());
        assert(dec_value(Seq::<char>::empty()) == 0);
        assert(s1.last() == dec_digit(n as int));
        assert(dec_value(s1) == n);
    } else {
        lemma_dec_digits_value(n / 10);
        lemma_dec_digit_props((n % 10) as int);
        let s = dec_digits(n / 10) + seq![dec_digit((n % 10) as int)];
        assert(s.drop_last() =~= dec_digits(n / 10));
        assert(s.last() == dec_digit((n % 10) as int));
        assert(dec_value(s) == dec_value(dec_digits(n / 10)) * 10 + n % 10);
        assert(dec_value(s) == (n / 10) * 10 + n % 10);
        assert((n / 10) * 10 + n % 10 == n) by (nonlinear_arith);
        assert(s[0] == dec_digits(n / 10)[0]);
    }
}

/// A digit appended to a digit string multiplies its value by ten.
pub proof fn lemma_dec_value_push(s: Seq<char>, c: char)
    requires
        is_dec_digit(c),
    ensures
        dec_value(s.push(c)) == dec_value(s) * 10 + dec_digit_val(c),
{
    assert(s.push(c).drop_last() =~= s);
    assert(s.push(c).last() == c);
}

/// The value of a digit string bounds the value of each of its prefixes.
pub proof fn lemma_dec_value_prefix_le(s: Seq<char>, j: int)
    requires
        0 <= j <= s.len(),
    ensures
        dec_value(s.subrange(0, j)) <= dec_value(s),
    decreases s.len() - j,
{
    if j < s.len() {
        lemma_dec_value_prefix_le(s, j + 1);
        let p = s.subrange(0, j);
        let q = s.subrange(0, j + 1);
        assert(q.drop_last() =~= p);
        assert(dec_value(q) == dec_value(p) * 10 + (if is_dec_digit(q.last()) {
            dec_digit_val(q.last()) as nat
        } else {
            0
        }));
        assert(dec_value(p) <= dec_value(p) * 10) by (nonlinear_arith);
    } else {
        assert(s.subrange(0, j) =~= s);
    }
}

/// The digit character for a value below ten.
pub fn digit_char(d: u8) -> (c: char)
    requires
        d < 10,
    ensures
        c == dec_digit(d as int),
{
    match d {
        0 => '0',
        1 => '1',
        2 => '2',
        3 => '3',
        4 => '4',
        5 => '5',
        6 => '6',
        7 => '7',
        8 => '8',
        _ => '9',
    }
}

/// Render a number as its canonical decimal digit sequence.
pub fn u128_to_dec_chars(n: u128) -> (v: Vec<char>)
    ensures
        v@ == dec_digits(n as nat),
{
    let mut digits: Vec<char> = Vec::new();
    if n < 10 {
        digits.push(digit_char(n as u8));
        proof {
            assert(digits@ =~= dec_digits(n as nat));
        }
        return digits;
    }
    let mut m: u128 = n;
    while m > 0
        invariant
            m > 0 ==> dec_digits(n as nat) == dec_digits(m as nat) + digits@,
            m == 0 ==> dec_digits(n as nat) == digits@,
            n > 0,
        decreases m,
    {
        let d: u8 = (m % 10) as u8;
        let c = digit_char(d);
        let ghost old_digits = digits@;
        digits.insert(0, c);
        proof {
            assert(digits@ =~= seq![c] + old_digits);
        }
        let m2 = m / 10;
        proof {
            if m2 > 0 {
                assert(m >= 10);
                assert(dec_digits(m as nat) == dec_digits((m as nat) / 10) + seq![
                    dec_digit(((m as nat) % 10) as int),
                ]);
                assert(dec_digits(m as nat) + old_digits =~= dec_digits(m2 as nat) + (seq![c]
                    + old_digits));
            } else {
                assert(m < 10);
                assert(dec_digits(m as nat) =~= seq![c]);
                assert(dec_digits(m as nat) + old_digits =~= seq![c] + old_digits);
            }
        }
        m = m2;
    }
    digits
}

/// Render a number as its canonical decimal digit sequence.
pub fn u64_to_dec_chars(n: u64) -> (v: Vec<char>)
    ensures
        v@ == dec_digits(n as nat),
{
    u128_to_dec_chars(n as u128)
}

/// Render a number as a decimal string.
pub fn u64_to_string(n: u64) -> (s: String)
    ensures
        s@ == dec_digits(n as nat),
{
    let v = u64_to_dec_chars(n);
    string_from_chars(&v)
}

/// Parse the range `[start, end)` of `v` as an unsigned decimal number.
/// Succeeds exactly on nonempty all-digit input whose value fits.
pub fn parse_dec_u128_range(v: &Vec<char>, start: usize, end: usize) -> (r: Option<u128>)
    requires
        start <= end <= v@.len(),
    ensures
        ({
            let s = v@.subrange(start as int, end as int);
            match r {
                Some(x) => s.len() > 0 && all_dec_digits(s) && dec_value(s) == x as nat,
                None => s.len() == 0 || !all_dec_digits(s) || dec_value(s) > u128::MAX,
            }
        }),
{
    let ghost s = v@.subrange(start as int, end as int);
    if start == end {
        return None;
    }
    let mut acc: u128 = 0;
    let mut i: usize = start;
    while i < end
        invariant
            start <= i <= end <= v@.len(),
            s == v@.subrange(start as int, end as int),
            all_dec_digits(s.subrange(0, i - start)),
            acc as nat == dec_value(s.subrange(0, i - start)),
        decreases end - i,
    {
        let c = v[i];
        let u = c as u32;
        if !(48 <= u && u <= 57) {
            proof {
                assert(s[i - start] == v@[i as int]);
                assert(!is_dec_digit(s[i - start]));
            }
            return None;
        }
        let d: u128 = (u - 48) as u128;
        let ghost prefix = s.subrange(0, i - start);
        proof {
            assert(s[i - start] == v@[i as int]);
            assert(prefix.push(v@[i as int]) =~= s.subrange(0, i - start + 1));
            lemma_dec_value_push(prefix, v@[i as int]);
        }
        let next = match acc.checked_mul(10) {
            Some(t) => t.checked_add(d),
            None => None,
        };
        match next {
            Some(t) => {
                acc = t;
            },
            None => {
                proof {
                    assert(dec_value(s.subrange(0, i - start + 1)) > u128::MAX);
                    lemma_dec_value_prefix_le(s, i - start + 1);
                }
                return None;
            },
        }
        i = i + 1;
    }
    proof {
        assert(s.subrange(0, end - start) =~= s);
    }
    Some(acc)
}

/// Parse a whole character vector as an unsigned 64-bit decimal number.
pub fn parse_dec_u64(v: &Vec<char>) -> (r: Option<u64>)
    ensures
        match r {
            Some(x) => v@.len() > 0 && all_dec_digits(v@) && dec_value(v@) == x as nat,
            None => v@.len() == 0 || !all_dec_digits(v@) || dec_value(v@) > u64::MAX,
        },
{
    let ghost s = v@;
    let len = v.len();
    let r = parse_dec_u128_range(v, 0, len);
    proof {
        assert(v@.subrange(0, v@.len() as int) =~= v@);
    }
    match r {
        Some(x) => {
            if x <= u64::MAX as u128 {
                Some(x as u64)
            } else {
                None
            }
        },
        None => None,
    }
}

/// Whitespace as trimmed at the edges of counter files and limit strings.
pub open spec fn is_space(c: char) -> bool {
    c == ' ' || c == '\t' || c == '\n' || c == '\r'
}

/// A sequence with the whitespace at both edges removed.
pub open spec fn trim_spec(s: Seq<char>) -> Seq<char>
    decreases s.len(),
{
    if s.len() > 0 && is_space(s.first()) {
        trim_spec(s.drop_first())
    } else if s.len() > 0 && is_space(s.last()) {
        trim_spec(s.drop_last())
    } else {
        s
    }
}

proof fn lemma_trim_leading(s: Seq<char>, i: int)
    requires
        0 <= i <= s.len(),
        forall|j: int| 0 <= j < i ==> is_space(#[trigger] s[j]),
    ensures
        trim_spec(s) == trim_spec(s.subrange(i, s.len() as int)),
    decreases i,
{
    if i > 0 {
        assert(is_space(s.first()));
        assert(trim_spec(s) == trim_spec(s.drop_first()));
        let t = s.drop_first();
        assert(t =~= s.subrange(1, s.len() as int));
        lemma_trim_leading(t, i - 1);
        assert(t.subrange(i - 1, t.len() as int) =~= s.subrange(i, s.len() as int));
    } else {
        assert(s.subrange(0, s.len() as int) =~= s);
    }
}

proof fn lemma_trim_trailing(s: Seq<char>, i: int)
    requires
        0 <= i <= s.len(),
        forall|j: int| i <= j < s.len() ==> is_space(#[trigger] s[j]),
        i > 0 ==> !is_space(s[0]),
    ensures
        trim_spec(s) == trim_spec(s.subrange(0, i)),
    decreases s.len() - i,
{
    if i < s.len() {
        if s.len() > 0 && is_space(s.first()) {
            assert(i == 0);
            assert(forall|j: int| 0 <= j < s.len() ==> is_space(#[trigger] s[j]));
            lemma_trim_all_spaces(s);
            assert(s.subrange(0, 0) =~= Seq::<char>::empty());
            lemma_trim_all_spaces(s.subrange(0, 0));
        } else {
            assert(is_space(s.last()));
            assert(trim_spec(s) == trim_spec(s.drop_last()));
            let t = s.drop_last();
            assert(t =~= s.subrange(0, s.len() - 1));
            lemma_trim_trailing(t, i);
            assert(t.subrange(0, i) =~= s.subrange(0, i));
        }
    } else {
        assert(s.subrange(0, i) =~= s);
    }
}

proof fn lemma_trim_all_spaces(s: Seq<char>)
    requires
        forall|j: int| 0 <= j < s.len() ==> is_space(#[trigger] s[j]),
    ensures
        trim_spec(s) == Seq::<char>::empty(),
    decreases s.len(),
{
    if s.len() > 0 {
        lemma_trim_all_spaces(s.drop_first());
    }
}

proof fn lemma_trim_fixed(s: Seq<char>)
    requires
        s.len() > 0 ==> !is_space(s.first()) && !is_space(s.last()),
    ensures
        trim_spec(s) == s,
{
}

/// Whether a character is a decimal digit.
pub fn is_dec_digit_exec(c: char) -> (b: bool)
    ensures
        b == is_dec_digit(c),
{
    let u = c as u32;
    48 <= u && u <= 57
}

/// Whether a character is edge whitespace.
pub fn space_char(c: char) -> (b: bool)
    ensures
        b == is_space(c),
{
    c == ' ' || c == '\t' || c == '\n' || c == '\r'
}

/// Remove the whitespace at both edges of a character vector.
pub fn trim_chars(v: &Vec<char>) -> (r: Vec<char>)
    ensures
        r@ == trim_spec(v@),
{
    let len = v.len();
    let mut a: usize = 0;
    while a < len && space_char(v[a])
        invariant
            0 <= a <= len,
            len == v@.len(),
            forall|j: int| 0 <= j < a ==> is_space(#[trigger] v@[j]),
        decreases len - a,
    {
        a = a + 1;
    }
    let mut b: usize = len;
    while b > a && space_char(v[b - 1])
        invariant
            a <= b <= len,
            len == v@.len(),
            forall|j: int| b <= j < len ==> is_space(#[trigger] v@[j]),
        decreases b,
    {
        b = b - 1;
    }
    let mut out: Vec<char> = Vec::new();
    let mut i: usize = a;
    while i < b
        invariant
            a <= i <= b <= len,
            len == v@.len(),
            out@ =~= v@.subrange(a as int, i as int),
        decreases b - i,
    {
        out.push(v[i]);
        i = i + 1;
    }
    proof {
        lemma_trim_leading(v@, a as int);
        let t = v@.subrange(a as int, len as int);
        assert(forall|j: int| (b - a) <= j < t.len() ==> is_space(#[trigger] t[j]));
        if b > a {
            assert(!is_space(v@[a as int]));
            assert(t[0] == v@[a as int]);
        }
        lemma_trim_trailing(t, b - a);
        assert(t.subrange(0, b - a) =~= v@.subrange(a as int, b as int));
        if b > a {
            assert(!is_space(t[b - a - 1]));
            lemma_trim_fixed(v@.subrange(a as int, b as int));
        } else {
            assert(v@.subrange(a as int, b as int) =~= Seq::<char>::empty());
            lemma_trim_fixed(v@.subrange(a as int, b as int));
        }
        assert(out@ =~= v@.subrange(a as int, b as int));
    }
    out
}

/// Split on a separator, processed from the front with the current piece as
/// accumulator. The result always holds one piece more than there are
/// separators; pieces may be empty.
pub open spec fn split_on_acc(s: Seq<char>, sep: char, cur: Seq<char>) -> Seq<Seq<char>>
    decreases s.len(),
{
    if s.len() == 0 {
        seq![cur]
    } else if s.first() == sep {
        seq![cur] + split_on_acc(s.drop_first(), sep, Seq::empty())
    } else {
        split_on_acc(s.drop_first(), sep, cur.push(s.first()))
    }
}

/// The pieces of `s` between occurrences of `sep`.
pub open spec fn split_on(s: Seq<char>, sep: char) -> Seq<Seq<char>> {
    split_on_acc(s, sep, Seq::empty())
}

/// Split a character vector on a separator character.
pub fn split_chars(v: &Vec<char>, sep: char) -> (r: Vec<Vec<char>>)
    ensures
        r.deep_view() == split_on(v@, sep),
{
    let len = v.len();
    let mut done: Vec<Vec<char>> = Vec::new();
    let mut cur: Vec<char> = Vec::new();
    let mut i: usize = 0;
    proof {
        assert(v@.subrange(0, len as int) =~= v@);
        assert(done.deep_view() + split_on_acc(v@, sep, cur@) =~~= split_on(v@, sep));
    }
    while i < len
        invariant
            0 <= i <= len,
            len == v@.len(),
            split_on(v@, sep) == done.deep_view() + split_on_acc(
                v@.subrange(i as int, len as int),
                sep,
                cur@,
            ),
        decreases len - i,
    {
        let ghost rest = v@.subrange(i as int, len as int);
        let ghost old_done = done.deep_view();
        let ghost cur_view = cur@;
        proof {
            assert(rest.first() == v@[i as int]);
            assert(rest.drop_first() =~= v@.subrange(i + 1, len as int));
        }
        let c = v[i];
        if c == sep {
            done.push(cur);
            cur = Vec::new();
            proof {
                assert(split_on_acc(rest, sep, cur_view) == seq![cur_view] + split_on_acc(
                    rest.drop_first(),
                    sep,
                    Seq::empty(),
                ));
                assert(done.deep_view() =~~= old_done + seq![cur_view]);
                assert(done.deep_view() + split_on_acc(
                    v@.subrange(i + 1, len as int),
                    sep,
                    cur@,
                ) =~~= split_on(v@, sep));
            }
        } else {
            cur.push(c);
            proof {
                assert(split_on_acc(rest, sep, cur_view) == split_on_acc(
                    rest.drop_first(),
                    sep,
                    cur_view.push(rest.first()),
                ));
                assert(cur@ == cur_view.push(rest.first()));
            }
        }
        i = i + 1;
    }
    proof {
        assert(v@.subrange(len as int, len as int) =~= Seq::<char>::empty());
        assert(split_on_acc(Seq::<char>::empty(), sep, cur@) == seq![cur@]);
    }
    let ghost old_done = done.deep_view();
    let ghost cur_view = cur@;
    done.push(cur);
    proof {
        assert(done.deep_view() =~~= old_done + seq![cur_view]);
    }
    done
}

/// Split into whitespace-separated tokens, processed from the front with the
/// current token as accumulator. Runs of whitespace produce no empty tokens.
pub open spec fn tokens_acc(s: Seq<char>, cur: Seq<char>) -> Seq<Seq<char>>
    decreases s.len(),
{
    if s.len() == 0 {
        if cur.len() > 0 {
            seq![cur]
        } else {
            Seq::empty()
        }
    } else if is_space(s.first()) {
        (if cur.len() > 0 {
            seq![cur]
        } else {
            Seq::empty()
        }) + tokens_acc(s.drop_first(), Seq::empty())
    } else {
        tokens_acc(s.drop_first(), cur.push(s.first()))
    }
}

/// The whitespace-separated tokens of `s`.
pub open spec fn tokens_of(s: Seq<char>) -> Seq<Seq<char>> {
    tokens_acc(s, Seq::empty())
}

/// Split a character vector into whitespace-separated tokens.
pub fn tokenize_chars(v: &Vec<char>) -> (r: Vec<Vec<char>>)
    ensures
        r.deep_view() == tokens_of(v@),
{
    let len = v.len();
    let mut done: Vec<Vec<char>> = Vec::new();
    let mut cur: Vec<char> = Vec::new();
    let mut i: usize = 0;
    proof {
        assert(v@.subrange(0, len as int) =~= v@);
        assert(done.deep_view() + tokens_acc(v@, cur@) =~~= tokens_of(v@));
    }
    while i < len
        invariant
            0 <= i <= len,
            len == v@.len(),
            tokens_of(v@) == done.deep_view() + tokens_acc(
                v@.subrange(i as int, len as int),
                cur@,
            ),
        decreases len - i,
    {
        let ghost rest = v@.subrange(i as int, len as int);
        let ghost old_done = done.deep_view();
        let ghost cur_view = cur@;
        proof {
            assert(rest.first() == v@[i as int]);
            assert(rest.drop_first() =~= v@.subrange(i + 1, len as int));
        }
        let c = v[i];
        if space_char(c) {
            proof {
                assert(tokens_acc(rest, cur_view) == (if cur_view.len() > 0 {
                    seq![cur_view]
                } else {
                    Seq::empty()
                }) + tokens_acc(rest.drop_first(), Seq::empty()));
            }
            if cur.len() > 0 {
                done.push(cur);
                cur = Vec::new();
                proof {
                    assert(done.deep_view() =~~= old_done + seq![cur_view]);
                    assert(done.deep_view() + tokens_acc(
                        v@.subrange(i + 1, len as int),
                        cur@,
                    ) =~~= tokens_of(v@));
                }
            } else {
                proof {
                    assert(cur@ =~= Seq::<char>::empty());
                    assert(tokens_acc(rest, cur_view) =~~= tokens_acc(
                        rest.drop_first(),
                        Seq::empty(),
                    ));
                }
            }
        } else {
            cur.push(c);
            proof {
                assert(tokens_acc(rest, cur_view) == tokens_acc(
                    rest.drop_first(),
                    cur_view.push(rest.first()),
                ));
                assert(cur@ == cur_view.push(rest.first()));
            }
        }
        i = i + 1;
    }
    proof {
        assert(v@.subrange(len as int, len as int) =~= Seq::<char>::empty());
    }
    if cur.len() > 0 {
        let ghost old_done = done.deep_view();
        let ghost cur_view = cur@;
        done.push(cur);
        proof {
            assert(done.deep_view() =~~= old_done + seq![cur_view]);
        }
    } else {
        proof {
            assert(tokens_acc(Seq::<char>::empty(), cur@) =~~= Seq::<Seq<char>>::empty());
            assert(done.deep_view() + Seq::<Seq<char>>::empty() =~~= done.deep_view());
        }
    }
    done
}

/// Character-vector equality.
pub fn chars_eq(a: &Vec<char>, b: &Vec<char>) -> (r: bool)
    ensures
        r == (a@ == b@),
{
    if a.len() != b.len() {
        return false;
    }
    let mut i: usize = 0;
    while i < a.len()
        invariant
            0 <= i <= a@.len(),
            a@.len() == b@.len(),
            forall|j: int| 0 <= j < i ==> a@[j] == b@[j],
        decreases a@.len() - i,
    {
        if a[i] != b[i] {
            return false;
        }
        i = i + 1;
    }
    proof {
        assert(a@ =~= b@);
    }
    true
}

/// String-slice equality.
pub fn str_eq(a: &str, b: &str) -> (r: bool)
    ensures
        r == (a@ == b@),
{
    let va = chars_of_str(a);
    let vb = chars_of_str(b);
    chars_eq(&va, &vb)
}

/// Concatenate two string slices.
pub fn str_concat(a: &str, b: &str) -> (r: String)
    ensures
        r@ == a@ + b@,
{
    let mut s = a.to_owned();
    s.append(b);
    s
}

/// The deep view of a character vector is its view.
pub proof fn lemma_deep_view_char_vec(v: Vec<char>)
    ensures
        v.deep_view() == v@,
{
    assert(v.deep_view() =~= v@);
}

/// The string's characters as a vector, in order.
pub fn chars_of_str(s: &str) -> (v: Vec<char>)
    ensures
        v@ == s@,
{
    let n = s.unicode_len();
    let mut v: Vec<char> = Vec::new();
    let mut i: usize = 0;
    while i < n
        invariant
            0 <= i <= n,
            n == s@.len(),
            v@ =~= s@.subrange(0, i as int),
        decreases n - i,
    {
        v.push(s.get_char(i));
        i = i + 1;
    }
    proof {
        assert(s@.subrange(0, n as int) =~= s@);
    }
    v
}

/// Relies on `String`'s `FromIterator<char>` impl: collecting characters
/// builds the string of exactly those characters in order.
#[verifier::external_body]
pub fn string_from_chars(v: &Vec<char>) -> (s: String)
    ensures
        s@ == v@,
{
    v.iter().collect()
}

} // verus!
