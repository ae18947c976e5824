//! Parsing of the numeric tokens of the surface-description language:
//! unsigned integer fields (step and point counts) and signed decimal
//! scalars (radii and control-point coordinates).
//!
//! A scalar is kept exactly as written: a sign, the sequence of its decimal
//! digits, and a power-of-ten exponent.  No floating-point value exists in
//! this crate; the embedding program converts a [`Scalar`] to its preferred
//! number type.

use vstd::prelude::*;

verus! {

/// True for the decimal digits `'0'` through `'9'`.
pub open spec fn is_digit(c: char) -> bool {
    48 <= c as u32 <= 57
}

/// The value of one decimal digit character.
pub open spec fn digit_val(c: char) -> int {
    c as u32 - 48
}

/// Every character of `s` is a decimal digit.
pub open spec fn all_digits(s: Seq<char>) -> bool {
    forall|i: int| 0 <= i < s.len() ==> is_digit(#[trigger] s[i])
}

/// The integer denoted by a sequence of decimal digit characters,
/// most significant first.  The empty sequence denotes 0.
pub open spec fn digits_val(s: Seq<char>) -> int
    decreases s.len(),
{
    if s.len() == 0 {
        0
    } else {
        digits_val(s.take(s.len() - 1)) * 10 + digit_val(s[s.len() - 1])
    }
}

proof fn lemma_digits_val_nonneg(s: Seq<char>)
    requires
        all_digits(s),
    ensures
        digits_val(s) >= 0,
    decreases s.len(),
{
    if s.len() > 0 {
        assert(all_digits(s.take(s.len() - 1)));
        lemma_digits_val_nonneg(s.take(s.len() - 1));
    }
}

/// Appending further digits never shrinks the denoted value.
proof fn lemma_digits_val_grows(s: Seq<char>, i: int)
    requires
        all_digits(s),
        0 <= i <= s.len(),
    ensures
        digits_val(s.take(i)) <= digits_val(s),
    decreases s.len() - i,
{
    if i < s.len() {
        lemma_digits_val_grows(s, i + 1);
        let t = s.take(i + 1);
        assert(t.take(t.len() - 1) =~= s.take(i));
        assert(all_digits(s.take(i)));
        lemma_digits_val_nonneg(s.take(i));
        assert(digits_val(s.take(i)) <= digits_val(s.take(i + 1)));
    } else {
        assert(s.take(i) =~= s);
    }
}

/// What `u32::from_str` accepts: an optional leading `'+'`, then at least
/// one digit, denoting a value that fits in a `u32`.
pub open spec fn u32_of(t: Seq<char>) -> Option<u32> {
    let body = if t.len() >= 1 && t[0] == '+' {
        t.skip(1)
    } else {
        t
    };
    if body.len() >= 1 && all_digits(body) && digits_val(body) <= u32::MAX {
        Some(digits_val(body) as u32)
    } else {
        None
    }
}

/// Parses an unsigned integer field (a step or point count).  Returns
/// `None` exactly where the token is not a `u32` numeral.
pub fn parse_u32(t: &str) -> (r: Option<u32>)
    ensures
        r == u32_of(t@),
{
    let n = t.unicode_len();
    let mut start: usize = 0;
    if n >= 1 && t.get_char(0) == '+' {
        start = 1;
    }
    let ghost body = if t@.len() >= 1 && t@[0] == '+' {
        t@.skip(1)
    } else {
        t@
    };
    assert(body =~= t@.subrange(start as int, n as int));
    if start >= n {
        return None;
    }
    let mut acc: u32 = 0;
    let mut i: usize = start;
    while i < n
        invariant
            start <= i <= n,
            n == t@.len(),
            start <= 1,
            body == (if t@.len() >= 1 && t@[0] == '+' {
                t@.skip(1)
            } else {
                t@
            }),
            body =~= t@.subrange(start as int, n as int),
            all_digits(t@.subrange(start as int, i as int)),
            acc == digits_val(t@.subrange(start as int, i as int)),
        decreases n - i,
    {
        let c = t.get_char(i);
        let cv = c as u32;
        if cv < 48 || cv > 57 {
            proof {
                assert(body[i as int - start as int] == t@[i as int]);
                assert(!is_digit(body[i as int - start as int]));
                assert(!all_digits(body));
            }
            return None;
        }
        let d = cv - 48;
        proof {
            let pre = t@.subrange(start as int, i as int);
            let post = t@.subrange(start as int, i as int + 1);
            assert(post.take(post.len() - 1) =~= pre);
            assert(all_digits(post));
        }
        let wide: u64 = acc as u64 * 10 + d as u64;
        if wide > u32::MAX as u64 {
            proof {
                let post = t@.subrange(start as int, i as int + 1);
                assert(digits_val(post) == wide > u32::MAX);
                if all_digits(body) {
                    lemma_digits_val_grows(body, i as int + 1 - start as int);
                    assert(body.take(i as int + 1 - start as int) =~= post);
                    assert(digits_val(body) > u32::MAX);
                }
            }
            return None;
        }
        acc = wide as u32;
        i = i + 1;
    }
    proof {
        assert(body =~= t@.subrange(start as int, n as int));
    }
    Some(acc)
}

/// A real number kept exactly as the description text wrote it:
/// the denoted value is `(-1)^neg * (digits as an integer) * 10^exp`,
/// where `digits` holds the decimal digits most significant first.
#[derive(Clone, Debug, PartialEq, Eq)]
pub struct Scalar {
    pub neg: bool,
    pub digits: Vec<u8>,
    pub exp: i64,
}

/// The mathematical content of a [`Scalar`].
#[verifier::ext_equal]
pub struct ScalarV {
    pub neg: bool,
    pub digits: Seq<u8>,
    pub exp: int,
}

impl View for Scalar {
    type V = ScalarV;

    open spec fn view(&self) -> ScalarV {
        ScalarV { neg: self.neg, digits: self.digits@, exp: self.exp as int }
    }
}

impl Scalar {
    /// The scalar zero, used for the implicit third coordinate of a
    /// two-dimensional control point.
    pub fn zero() -> (r: Scalar)
        ensures
            r@ == zero_scalar(),
    {
        let r = Scalar { neg: false, digits: vec![0u8], exp: 0 };
        proof {
            assert(r@ =~= zero_scalar());
        }
        r
    }
}

/// The value that a two-coordinate control point carries in third position.
pub open spec fn zero_scalar() -> ScalarV {
    ScalarV { neg: false, digits: seq![0u8], exp: 0 }
}

/// The first position at or after `i` where `s` holds `a` or `b`;
/// `s.len()` if there is none.
pub open spec fn scan_char(s: Seq<char>, i: int, a: char, b: char) -> int
    decreases s.len() - i,
{
    if !(0 <= i < s.len()) {
        s.len() as int
    } else if s[i] == a || s[i] == b {
        i
    } else {
        scan_char(s, i + 1, a, b)
    }
}

proof fn lemma_scan_char_at(s: Seq<char>, i: int, j: int, a: char, b: char)
    requires
        0 <= i <= j <= s.len(),
        forall|k: int| i <= k < j ==> #[trigger] s[k] != a && s[k] != b,
        j == s.len() || s[j] == a || s[j] == b,
    ensures
        scan_char(s, i, a, b) == j,
    decreases j - i,
{
    if i < j {
        lemma_scan_char_at(s, i + 1, j, a, b);
    }
}

/// The digit values of a sequence of digit characters.
pub open spec fn digit_seq(s: Seq<char>) -> Seq<u8> {
    s.map_values(|c: char| (c as u32 - 48) as u8)
}

/// What `f32::from_str` accepts, apart from the infinity and not-a-number
/// keywords: an optional sign, a mantissa of digits with at most one point
/// and at least one digit, and an optional `e`/`E` exponent.  The result
/// records the written digits and the power of ten they stand at; an
/// exponent too large for an `i64` is rejected rather than saturated.
pub open spec fn scalar_of(t: Seq<char>) -> Option<ScalarV> {
    let neg = t.len() >= 1 && t[0] == '-';
    let body = if t.len() >= 1 && (t[0] == '-' || t[0] == '+') {
        t.skip(1)
    } else {
        t
    };
    let epos = scan_char(body, 0, 'e', 'E');
    let mant = body.take(epos);
    let dpos = scan_char(mant, 0, '.', '.');
    let ipart = mant.take(dpos);
    let fpart = if dpos < mant.len() {
        mant.skip(dpos + 1)
    } else {
        Seq::empty()
    };
    if !(all_digits(ipart) && all_digits(fpart) && ipart.len() + fpart.len() >= 1) {
        None
    } else {
        let has_exp = epos < body.len();
        let et = body.skip(epos + 1);
        let eneg = et.len() >= 1 && et[0] == '-';
        let ebody = if et.len() >= 1 && (et[0] == '-' || et[0] == '+') {
            et.skip(1)
        } else {
            et
        };
        if has_exp && !(ebody.len() >= 1 && all_digits(ebody) && digits_val(ebody) <= i64::MAX) {
            None
        } else {
            let ev = if !has_exp {
                0
            } else if eneg {
                -digits_val(ebody)
            } else {
                digits_val(ebody)
            };
            if ev - fpart.len() < i64::MIN {
                None
            } else {
                Some(ScalarV { neg, digits: digit_seq(ipart + fpart), exp: ev - fpart.len() })
            }
        }
    }
}

/// The first position in `[from, to)` holding `a` or `b`, or `to`.
fn scan_for(t: &str, from: usize, to: usize, a: char, b: char) -> (p: usize)
    requires
        from <= to <= t@.len(),
    ensures
        from <= p <= to,
        forall|k: int| from <= k < p ==> #[trigger] t@[k] != a && t@[k] != b,
        p < to ==> t@[p as int] == a || t@[p as int] == b,
{
    let mut p: usize = from;
    while p < to
        invariant_except_break
            from <= p <= to,
            to <= t@.len(),
            forall|k: int| from <= k < p ==> #[trigger] t@[k] != a && t@[k] != b,
        ensures
            from <= p <= to,
            forall|k: int| from <= k < p ==> #[trigger] t@[k] != a && t@[k] != b,
            p < to ==> t@[p as int] == a || t@[p as int] == b,
        decreases to - p,
    {
        let c = t.get_char(p);
        if c == a || c == b {
            break ;
        }
        p = p + 1;
    }
    p
}

/// Appends the digit values of `t[from..to]` to `digits`; `false` and an
/// unspecified extension where some character there is not a digit.
fn push_digits(t: &str, from: usize, to: usize, digits: &mut Vec<u8>) -> (ok: bool)
    requires
        from <= to <= t@.len(),
    ensures
        ok ==> all_digits(t@.subrange(from as int, to as int)) && final(digits)@ == old(digits)@
            + digit_seq(t@.subrange(from as int, to as int)),
        !ok ==> !all_digits(t@.subrange(from as int, to as int)),
{
    let ghost sub = t@.subrange(from as int, to as int);
    let mut i: usize = from;
    while i < to
        invariant
            from <= i <= to,
            to <= t@.len(),
            sub == t@.subrange(from as int, to as int),
            all_digits(t@.subrange(from as int, i as int)),
            digits@ =~= old(digits)@ + digit_seq(t@.subrange(from as int, i as int)),
        decreases to - i,
    {
        let c = t.get_char(i);
        let cv = c as u32;
        if cv < 48 || cv > 57 {
            proof {
                assert(sub[i as int - from as int] == t@[i as int]);
                assert(!all_digits(sub));
            }
            return false;
        }
        digits.push((cv - 48) as u8);
        proof {
            let pre = t@.subrange(from as int, i as int);
            let post = t@.subrange(from as int, i as int + 1);
            assert(post =~= pre + seq![t@[i as int]]);
            assert(digit_seq(post) =~= digit_seq(pre) + seq![((t@[i as int] as u32 - 48)
                as u8)]);
            assert(all_digits(post));
            assert(digits@ =~= old(digits)@ + digit_seq(post));
        }
        i = i + 1;
    }
    proof {
        assert(sub =~= t@.subrange(from as int, to as int));
    }
    true
}

/// The value of the digit run `t[from..to]`, where it is a digit run whose
/// value fits in an `i64`.
fn exp_digits_val(t: &str, from: usize, to: usize) -> (r: Option<i64>)
    requires
        from <= to <= t@.len(),
    ensures
        match r {
            Some(v) => all_digits(t@.subrange(from as int, to as int)) && v == digits_val(
                t@.subrange(from as int, to as int),
            ) && 0 <= v <= i64::MAX,
            None => !(all_digits(t@.subrange(from as int, to as int)) && digits_val(
                t@.subrange(from as int, to as int),
            ) <= i64::MAX),
        },
{
    let ghost sub = t@.subrange(from as int, to as int);
    let mut acc: u64 = 0;
    let mut i: usize = from;
    while i < to
        invariant
            from <= i <= to,
            to <= t@.len(),
            sub == t@.subrange(from as int, to as int),
            all_digits(t@.subrange(from as int, i as int)),
            acc == digits_val(t@.subrange(from as int, i as int)),
            acc <= i64::MAX,
        decreases to - i,
    {
        let c = t.get_char(i);
        let cv = c as u32;
        if cv < 48 || cv > 57 {
            proof {
                assert(sub[i as int - from as int] == t@[i as int]);
                assert(!all_digits(sub));
            }
            return None;
        }
        let d = cv - 48;
        proof {
            let pre = t@.subrange(from as int, i as int);
            let post = t@.subrange(from as int, i as int + 1);
            assert(post.take(post.len() - 1) =~= pre);
            assert(all_digits(post));
        }
        let wide: u128 = acc as u128 * 10 + d as u128;
        if wide > i64::MAX as u128 {
            proof {
                let post = t@.subrange(from as int, i as int + 1);
                assert(digits_val(post) == wide > i64::MAX);
                if all_digits(sub) {
                    lemma_digits_val_grows(sub, i as int + 1 - from as int);
                    assert(sub.take(i as int + 1 - from as int) =~= post);
                    assert(digits_val(sub) > i64::MAX);
                }
            }
            return None;
        }
        acc = wide as u64;
        i = i + 1;
    }
    proof {
        assert(sub =~= t@.subrange(from as int, to as int));
    }
    Some(acc as i64)
}

/// Parses a decimal scalar token, exactly as [`scalar_of`] describes.
#[verifier::rlimit(60)]
pub fn parse_scalar(t: &str) -> (r: Option<Scalar>)
    ensures
        match r {
            Some(s) => scalar_of(t@) == Some(s@),
            None => scalar_of(t@) is None,
        },
{
    let n = t.unicode_len();
    let mut start: usize = 0;
    let mut neg = false;
    if n >= 1 {
        let c0 = t.get_char(0);
        if c0 == '-' {
            neg = true;
            start = 1;
        } else if c0 == '+' {
            start = 1;
        }
    }
    let ghost body = if t@.len() >= 1 && (t@[0] == '-' || t@[0] == '+') {
        t@.skip(1)
    } else {
        t@
    };
    proof {
        assert(body =~= t@.subrange(start as int, n as int));
        assert(neg == (t@.len() >= 1 && t@[0] == '-'));
    }
    let epos = scan_for(t, start, n, 'e', 'E');
    proof {
        assert forall|k: int| 0 <= k < epos - start implies #[trigger] body[k] != 'e' && body[k]
            != 'E' by {
            assert(body[k] == t@[k + start]);
        }
        assert(epos < n ==> body[epos - start] == t@[epos as int]);
        lemma_scan_char_at(body, 0, epos - start, 'e', 'E');
    }
    let ghost mant = body.take(epos - start);
    proof {
        assert(mant =~= t@.subrange(start as int, epos as int));
    }
    let dpos = scan_for(t, start, epos, '.', '.');
    proof {
        assert forall|k: int| 0 <= k < dpos - start implies #[trigger] mant[k] != '.' && mant[k]
            != '.' by {
            assert(mant[k] == t@[k + start]);
        }
        assert(dpos < epos ==> mant[dpos - start] == t@[dpos as int]);
        lemma_scan_char_at(mant, 0, dpos - start, '.', '.');
    }
    let ghost ipart = mant.take(dpos - start);
    let ghost fpart = if dpos - start < mant.len() {
        mant.skip(dpos - start + 1)
    } else {
        Seq::<char>::empty()
    };
    let has_dot = dpos < epos;
    let fstart: usize = if has_dot {
        dpos + 1
    } else {
        epos
    };
    proof {
        assert(ipart =~= t@.subrange(start as int, dpos as int));
        assert(fpart =~= t@.subrange(fstart as int, epos as int));
    }
    let mut digits: Vec<u8> = Vec::new();
    if !push_digits(t, start, dpos, &mut digits) {
        return None;
    }
    if !push_digits(t, fstart, epos, &mut digits) {
        return None;
    }
    if digits.len() == 0 {
        proof {
            assert(ipart.len() + fpart.len() == 0);
        }
        return None;
    }
    proof {
        assert(digits@ =~= digit_seq(ipart) + digit_seq(fpart));
        assert(digit_seq(ipart + fpart) =~= digit_seq(ipart) + digit_seq(fpart));
    }
    let flen: usize = epos - fstart;
    let has_exp = epos < n;
    let ghost et = body.skip(epos - start + 1);
    let mut ev: i64 = 0;
    if has_exp {
        let mut estart: usize = epos + 1;
        let mut eneg = false;
        if estart < n {
            let ec = t.get_char(estart);
            if ec == '-' {
                eneg = true;
                estart = estart + 1;
            } else if ec == '+' {
                estart = estart + 1;
            }
        }
        let ghost ebody = if et.len() >= 1 && (et[0] == '-' || et[0] == '+') {
            et.skip(1)
        } else {
            et
        };
        proof {
            assert(et =~= t@.subrange(epos as int + 1, n as int));
            assert(ebody =~= t@.subrange(estart as int, n as int));
            assert(eneg == (et.len() >= 1 && et[0] == '-'));
        }
        if estart >= n {
            proof {
                assert(ebody.len() == 0);
            }
            return None;
        }
        match exp_digits_val(t, estart, n) {
            None => {
                return None;
            },
            Some(v) => {
                if eneg {
                    ev = -v;
                } else {
                    ev = v;
                }
            },
        }
    }
    let exp_wide: i128 = ev as i128 - flen as i128;
    if exp_wide < i64::MIN as i128 {
        return None;
    }
    let r = Scalar { neg, digits, exp: exp_wide as i64 };
    proof {
        let s = scalar_of(t@);
        assert(s == Some(r@)) by {
            assert(r@.digits =~= digit_seq(ipart + fpart));
            assert(s is Some && s.unwrap() =~= r@);
        }
    }
    Some(r)
}

} // verus!
