//! Removing vowel letters from text.
//!
//! The transform keeps every character that is not one of the ten vowel
//! letters `a, e, i, o, u, A, E, I, O, U`, preserving the order of all
//! remaining characters. It works on Unicode codepoints: characters
//! outside this fixed set, whatever their script, pass through unchanged.

use vstd::prelude::*;

verus! {

/// Whether `c` is one of the ten vowel letters `a, e, i, o, u, A, E, I, O, U`.
pub open spec fn is_vowel_spec(c: char) -> bool {
    c == 'a' || c == 'e' || c == 'i' || c == 'o' || c == 'u'
        || c == 'A' || c == 'E' || c == 'I' || c == 'O' || c == 'U'
}

/// The sequence `s` with every vowel letter removed: every other character
/// is kept, in its original order.
pub open spec fn disemvowel_spec(s: Seq<char>) -> Seq<char>
    decreases s.len(),
{
    if s.len() == 0 {
        Seq::empty()
    } else {
        let rest = disemvowel_spec(s.drop_last());
        if is_vowel_spec(s.last()) {
            rest
        } else {
            rest.push(s.last())
        }
    }
}

/// Returns true exactly when `c` is a vowel letter.
pub fn is_vowel(c: char) -> (r: bool)
    ensures
        r == is_vowel_spec(c),
{
    match c {
        'a' | 'e' | 'i' | 'o' | 'u' | 'A' | 'E' | 'I' | 'O' | 'U' => true,
        _ => false,
    }
}

/// Relies on std's String::push: it appends the given character to the end
/// of the string.
pub assume_specification[ String::push ](s: &mut String, ch: char)
    ensures
        final(s)@ == old(s)@.push(ch),
;

/// Taking one more character of `s` extends the transform's result by that
/// character exactly when it is not a vowel.
proof fn lemma_disemvowel_take_step(s: Seq<char>, i: int)
    requires
        0 <= i < s.len(),
    ensures
        disemvowel_spec(s.take(i + 1)) == (if is_vowel_spec(s[i]) {
            disemvowel_spec(s.take(i))
        } else {
            disemvowel_spec(s.take(i)).push(s[i])
        }),
{
    assert(s.take(i + 1).drop_last() =~= s.take(i));
    assert(s.take(i + 1).last() == s[i]);
}

/// Returns `s` with every vowel letter removed; all other characters keep
/// their original order.
pub fn disemvowel(s: &str) -> (r: String)
    ensures
        r@ == disemvowel_spec(s@),
{
    let n = s.unicode_len();
    let mut out = String::new();
    let mut i: usize = 0;
    while i < n
        invariant
            n == s@.len(),
            i <= n,
            out@ == disemvowel_spec(s@.take(i as int)),
        decreases n - i,
    {
        let c = s.get_char(i);
        proof {
            lemma_disemvowel_take_step(s@, i as int);
        }
        if !is_vowel(c) {
            out.push(c);
        }
        i = i + 1;
    }
    proof {
        assert(s@.take(n as int) =~= s@);
    }
    out
}

/// The number of vowel letters in `s`.
pub open spec fn count_vowels(s: Seq<char>) -> nat
    decreases s.len(),
{
    if s.len() == 0 {
        0
    } else {
        count_vowels(s.drop_last()) + (if is_vowel_spec(s.last()) {
            1nat
        } else {
            0nat
        })
    }
}

/// No character of the transform's output is a vowel letter.
pub proof fn lemma_disemvowel_no_vowels(s: Seq<char>)
    ensures
        forall|i: int|
            0 <= i < disemvowel_spec(s).len() ==> !is_vowel_spec(
                #[trigger] disemvowel_spec(s)[i],
            ),
    decreases s.len(),
{
    if s.len() > 0 {
        lemma_disemvowel_no_vowels(s.drop_last());
        let rest = disemvowel_spec(s.drop_last());
        assert forall|i: int| 0 <= i < disemvowel_spec(s).len() implies !is_vowel_spec(
            disemvowel_spec(s)[i],
        ) by {
            if i < rest.len() {
                assert(disemvowel_spec(s)[i] == rest[i]);
            } else {
                assert(disemvowel_spec(s)[i] == s.last());
            }
        }
    }
}

/// Input without a single vowel letter comes back unchanged.
pub proof fn lemma_disemvowel_unchanged(s: Seq<char>)
    requires
        forall|i: int| 0 <= i < s.len() ==> !is_vowel_spec(#[trigger] s[i]),
    ensures
        disemvowel_spec(s) == s,
    decreases s.len(),
{
    if s.len() > 0 {
        lemma_disemvowel_unchanged(s.drop_last());
        assert(disemvowel_spec(s.drop_last()).push(s.last()) =~= s);
    } else {
        assert(disemvowel_spec(s) =~= s);
    }
}

/// The transform is idempotent: applying it twice gives what applying it
/// once gives.
pub proof fn lemma_disemvowel_idempotent(s: Seq<char>)
    ensures
        disemvowel_spec(disemvowel_spec(s)) == disemvowel_spec(s),
{
    lemma_disemvowel_no_vowels(s);
    lemma_disemvowel_unchanged(disemvowel_spec(s));
}

/// The output's length plus the number of vowels in the input is the
/// input's length.
pub proof fn lemma_disemvowel_length(s: Seq<char>)
    ensures
        disemvowel_spec(s).len() + count_vowels(s) == s.len(),
    decreases s.len(),
{
    if s.len() > 0 {
        lemma_disemvowel_length(s.drop_last());
    }
}

/// `m` embeds `t` into `s` in order: it maps the positions of `t`, in a
/// strictly increasing way, to positions of `s` holding the same characters.
pub open spec fn is_embedding(m: Seq<int>, t: Seq<char>, s: Seq<char>) -> bool {
    &&& m.len() == t.len()
    &&& forall|i: int| 0 <= i < m.len() ==> 0 <= #[trigger] m[i] < s.len() && t[i] == s[m[i]]
    &&& forall|i: int, j: int| 0 <= i < j < m.len() ==> #[trigger] m[i] < #[trigger] m[j]
}

/// `t` is a subsequence of `s`: `t` can be had from `s` by removing
/// characters alone, never reordering or changing one.
pub open spec fn is_subsequence_of(t: Seq<char>, s: Seq<char>) -> bool {
    exists|m: Seq<int>| is_embedding(m, t, s)
}

/// The transform's output is a subsequence of its input.
pub proof fn lemma_disemvowel_subsequence(s: Seq<char>)
    ensures
        is_subsequence_of(disemvowel_spec(s), s),
    decreases s.len(),
{
    if s.len() == 0 {
        let m = Seq::<int>::empty();
        assert(is_embedding(m, disemvowel_spec(s), s));
    } else {
        lemma_disemvowel_subsequence(s.drop_last());
        let rest = disemvowel_spec(s.drop_last());
        let m0 = choose|m: Seq<int>| is_embedding(m, rest, s.drop_last());
        if is_vowel_spec(s.last()) {
            assert(is_embedding(m0, disemvowel_spec(s), s));
        } else {
            let m1 = m0.push(s.len() - 1);
            assert forall|i: int| 0 <= i < m1.len() implies 0 <= #[trigger] m1[i] < s.len()
                && disemvowel_spec(s)[i] == s[m1[i]] by {
                if i < m0.len() {
                    assert(m1[i] == m0[i]);
                    assert(disemvowel_spec(s)[i] == rest[i]);
                }
            }
            assert(is_embedding(m1, disemvowel_spec(s), s));
        }
    }
}

} // verus!
