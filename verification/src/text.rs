//! String utilities: ASCII lower-casing, character-wise equality, and
//! leftmost non-overlapping substring replacement.

use vstd::prelude::*;
use vstd::string::*;

verus! {

/// The ASCII lower-case counterpart of a character: `'A'..='Z'` map down,
/// every other character stays as it is.
pub open spec fn lower_char(c: char) -> char {
    if 'A' as u32 <= c as u32 && c as u32 <= 'Z' as u32 {
        ((c as u32 + 32) as u8) as char
    } else {
        c
    }
}

/// A character sequence with every character lower-cased.
pub open spec fn spec_lower(s: Seq<char>) -> Seq<char> {
    s.map(|_i: int, c: char| lower_char(c))
}

/// Relies on `str::to_ascii_lowercase`: every character in `'A'..='Z'` is
/// mapped to its ASCII lower-case equivalent and all others are unchanged.
#[verifier::external_body]
pub(crate) fn ascii_lower(s: &str) -> (r: String)
    ensures
        r@ == spec_lower(s@),
{
    s.to_ascii_lowercase()
}

/// Character-by-character string equality.
pub fn str_eq(a: &str, b: &str) -> (r: bool)
    ensures
        r == (a@ == b@),
{
    let alen = a.unicode_len();
    let blen = b.unicode_len();
    if alen != blen {
        return false;
    }
    let mut i: usize = 0;
    while i < alen
        invariant
            i <= alen,
            alen as nat == a@.len(),
            blen as nat == b@.len(),
            alen == blen,
            forall|j: int| 0 <= j < i ==> a@[j] == b@[j],
        decreases alen - i,
    {
        if a.get_char(i) != b.get_char(i) {
            return false;
        }
        i = i + 1;
    }
    proof {
        assert(a@ =~= b@);
    }
    true
}

/// Whether `pat` occurs in `s` starting at position `i`.
pub open spec fn match_at(s: Seq<char>, pat: Seq<char>, i: int) -> bool {
    0 <= i && i + pat.len() <= s.len() && s.subrange(i, i + pat.len() as int) == pat
}

/// Whether `pat` occurs in `s` starting at position `i` (executable form).
pub fn contains_at(s: &str, i: usize, pat: &str) -> (r: bool)
    requires
        i + pat@.len() <= s@.len(),
    ensures
        r == match_at(s@, pat@, i as int),
{
    let slen = s.unicode_len();
    let plen = pat.unicode_len();
    let mut j: usize = 0;
    while j < plen
        invariant
            j <= plen,
            plen as nat == pat@.len(),
            slen as nat == s@.len(),
            i + plen <= slen,
            forall|k: int| 0 <= k < j ==> s@[i + k] == pat@[k],
        decreases plen - j,
    {
        if s.get_char(i + j) != pat.get_char(j) {
            proof {
                assert(s@.subrange(i as int, i + pat@.len() as int)[j as int] != pat@[j as int]);
            }
            return false;
        }
        j = j + 1;
    }
    proof {
        assert(s@.subrange(i as int, i + pat@.len() as int) =~= pat@);
    }
    true
}

/// Leftmost, non-overlapping replacement of `pat` by `rep` in `s`, scanning
/// left to right. An empty pattern replaces nothing.
pub open spec fn spec_replace(s: Seq<char>, pat: Seq<char>, rep: Seq<char>) -> Seq<char>
    decreases s.len(),
{
    if pat.len() == 0 || s.len() < pat.len() {
        s
    } else if s.subrange(0, pat.len() as int) == pat {
        rep + spec_replace(s.subrange(pat.len() as int, s.len() as int), pat, rep)
    } else {
        seq![s[0]] + spec_replace(s.subrange(1, s.len() as int), pat, rep)
    }
}

/// Replace every leftmost, non-overlapping occurrence of `pat` in `s` by
/// `rep`.
pub fn replace_all(s: &str, pat: &str, rep: &str) -> (r: String)
    ensures
        r@ == spec_replace(s@, pat@, rep@),
{
    let slen = s.unicode_len();
    let plen = pat.unicode_len();
    if plen == 0 {
        return s.to_owned();
    }
    let mut result = String::new();
    let mut i: usize = 0;
    proof {
        assert(s@.subrange(0, slen as int) =~= s@);
        assert(Seq::<char>::empty() + spec_replace(s@, pat@, rep@)
            =~= spec_replace(s@, pat@, rep@));
    }
    while i < slen
        invariant
            i <= slen,
            slen as nat == s@.len(),
            plen as nat == pat@.len(),
            plen > 0,
            result@ + spec_replace(s@.subrange(i as int, slen as int), pat@, rep@)
                == spec_replace(s@, pat@, rep@),
        decreases slen - i,
    {
        let ghost tail = s@.subrange(i as int, slen as int);
        if plen <= slen - i && contains_at(s, i, pat) {
            result.append(rep);
            i = i + plen;
            proof {
                assert(tail.subrange(0, pat@.len() as int)
                    =~= s@.subrange(i - plen, i - plen + pat@.len()));
                assert(tail.subrange(pat@.len() as int, tail.len() as int)
                    =~= s@.subrange(i as int, slen as int));
                assert(result@ + spec_replace(s@.subrange(i as int, slen as int), pat@, rep@)
                    =~= spec_replace(s@, pat@, rep@));
            }
        } else {
            let piece = s.substring_char(i, i + 1);
            result.append(piece);
            i = i + 1;
            proof {
                if i - 1 + plen <= slen {
                    assert(tail.subrange(0, pat@.len() as int)
                        =~= s@.subrange(i - 1, i - 1 + pat@.len()));
                }
                assert(seq![tail[0]] =~= piece@);
                assert(tail.subrange(1, tail.len() as int)
                    =~= s@.subrange(i as int, slen as int));
                assert(result@ + spec_replace(s@.subrange(i as int, slen as int), pat@, rep@)
                    =~= spec_replace(s@, pat@, rep@));
            }
        }
    }
    proof {
        assert(s@.subrange(slen as int, slen as int) =~= Seq::<char>::empty());
        assert(result@ =~= result@ + Seq::<char>::empty());
    }
    result
}

} // verus!
