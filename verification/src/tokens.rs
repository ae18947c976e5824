//! Whitespace tokenization of the surface-description text.
//!
//! The description language is whitespace-delimited: commands and their
//! fields are simply consecutive tokens.  [`tokenize`] is the mathematical
//! splitting of a character sequence; [`tokenize_str`] computes it.

use vstd::prelude::*;

verus! {

/// The characters the splitting treats as whitespace.
pub open spec fn is_space(c: char) -> bool {
    let n = c as u32;
    (9 <= n <= 13) || n == 32 || n == 0x85 || n == 0xA0 || n == 0x1680 || (0x2000 <= n <= 0x200A)
        || n == 0x2028 || n == 0x2029 || n == 0x202F || n == 0x205F || n == 0x3000
}

/// Runtime test for [`is_space`].
pub fn char_is_space(c: char) -> (r: bool)
    ensures
        r == is_space(c),
{
    let n = c as u32;
    (9 <= n && n <= 13) || n == 32 || n == 0x85 || n == 0xA0 || n == 0x1680 || (0x2000 <= n && n
        <= 0x200A) || n == 0x2028 || n == 0x2029 || n == 0x202F || n == 0x205F || n == 0x3000
}

/// The whitespace-separated tokens of `s`, in order.  Every token is a
/// maximal non-empty run of non-whitespace characters.
pub open spec fn tokenize(s: Seq<char>) -> Seq<Seq<char>>
    decreases s.len(),
{
    if s.len() == 0 {
        Seq::empty()
    } else {
        let rest = tokenize(s.skip(1));
        if is_space(s[0]) {
            rest
        } else if s.len() > 1 && !is_space(s[1]) {
            seq![seq![s[0]] + rest[0]] + rest.skip(1)
        } else {
            seq![seq![s[0]]] + rest
        }
    }
}

proof fn lemma_skip_skip(s: Seq<char>, i: int, j: int)
    requires
        0 <= i,
        0 <= j,
        i + j <= s.len(),
    ensures
        s.skip(i).skip(j) =~= s.skip(i + j),
{
}

/// Skipping a whitespace character does not change the token list.
proof fn lemma_space_step(s: Seq<char>, i: int)
    requires
        0 <= i < s.len(),
        is_space(s[i]),
    ensures
        tokenize(s.skip(i)) == tokenize(s.skip(i + 1)),
{
    lemma_skip_skip(s, i, 1);
    assert(s.skip(i)[0] == s[i]);
}

/// A maximal non-whitespace run `[i, j)` contributes exactly one token.
proof fn lemma_token_run(s: Seq<char>, i: int, j: int)
    requires
        0 <= i < j <= s.len(),
        forall|k: int| i <= k < j ==> !is_space(#[trigger] s[k]),
        j == s.len() || is_space(s[j]),
    ensures
        tokenize(s.skip(i)) == seq![s.subrange(i, j)] + tokenize(s.skip(j)),
    decreases j - i,
{
    let tl = s.skip(i);
    lemma_skip_skip(s, i, 1);
    assert(tl[0] == s[i]);
    if i + 1 == j {
        if tl.len() > 1 {
            assert(tl[1] == s[i + 1]);
        }
        assert(tokenize(tl) == seq![seq![s[i]]] + tokenize(s.skip(j)));
        assert(seq![s[i]] =~= s.subrange(i, j));
        assert(seq![seq![s[i]]] =~= seq![s.subrange(i, j)]);
    } else {
        lemma_token_run(s, i + 1, j);
        let rest = tokenize(s.skip(i + 1));
        assert(tl[1] == s[i + 1]);
        assert(!is_space(s[i + 1]));
        assert(tokenize(tl) == seq![seq![s[i]] + rest[0]] + rest.skip(1));
        assert(rest[0] == s.subrange(i + 1, j));
        assert(seq![s[i]] + s.subrange(i + 1, j) =~= s.subrange(i, j));
        assert(rest.skip(1) =~= tokenize(s.skip(j)));
        assert(seq![seq![s[i]] + rest[0]] =~= seq![s.subrange(i, j)]);
    }
}

/// Splits the description text into its whitespace-separated tokens.
pub fn tokenize_str(s: &str) -> (r: Vec<String>)
    ensures
        r.deep_view() == tokenize(s@),
{
    let n = s.unicode_len();
    let mut toks: Vec<String> = Vec::new();
    let mut i: usize = 0;
    proof {
        assert(s@.skip(0) =~= s@);
        assert(toks.deep_view() =~= Seq::<Seq<char>>::empty());
        assert(toks.deep_view() + tokenize(s@) =~= tokenize(s@));
    }
    while i < n
        invariant
            0 <= i <= n,
            n == s@.len(),
            tokenize(s@) == toks.deep_view() + tokenize(s@.skip(i as int)),
        decreases n - i,
    {
        let c = s.get_char(i);
        if char_is_space(c) {
            proof {
                lemma_space_step(s@, i as int);
            }
            i = i + 1;
        } else {
            let mut j: usize = i + 1;
            while j < n
                invariant_except_break
                    i < j <= n,
                    n == s@.len(),
                    forall|k: int| i <= k < j ==> !is_space(#[trigger] s@[k]),
                ensures
                    i < j <= n,
                    forall|k: int| i <= k < j ==> !is_space(#[trigger] s@[k]),
                    j == n || is_space(s@[j as int]),
                decreases n - j,
            {
                let cj = s.get_char(j);
                if char_is_space(cj) {
                    break ;
                }
                j = j + 1;
            }
            let tok = s.substring_char(i, j).to_owned();
            proof {
                lemma_token_run(s@, i as int, j as int);
            }
            let ghost prev = toks.deep_view();
            toks.push(tok);
            proof {
                assert(toks.deep_view() =~= prev + seq![s@.subrange(i as int, j as int)]);
            }
            i = j;
        }
    }
    proof {
        assert(s@.skip(n as int) =~= Seq::<char>::empty());
        assert(tokenize(s@) =~~= toks.deep_view());
    }
    toks
}

/// Character-for-character string equality, with its meaning in the view.
pub fn str_eq(a: &str, b: &str) -> (r: bool)
    ensures
        r == (a@ == b@),
{
    let na = a.unicode_len();
    let nb = b.unicode_len();
    if na != nb {
        return false;
    }
    let mut i: usize = 0;
    while i < na
        invariant
            0 <= i <= na,
            na == a@.len(),
            na == b@.len(),
            forall|k: int| 0 <= k < i ==> a@[k] == b@[k],
        decreases na - i,
    {
        if a.get_char(i) != b.get_char(i) {
            return false;
        }
        i = i + 1;
    }
    proof {
        assert(a@ =~= b@);
    }
    true
}

} // verus!
