//! Verified string utilities: case-insensitive comparison, substring search,
//! lexicographic ordering and sorting, and the snake-case renaming used for
//! declared identifiers.

use vstd::prelude::*;

verus! {

/// The snake-case spelling of an identifier, as the `inflector` crate
/// computes it. The result depends on the characters of the input alone.
pub uninterp spec fn snake_of(s: Seq<char>) -> Seq<char>;

/// Relies on inflector's `to_snake_case`: a pure function from the
/// characters of the input to its snake-case spelling.
#[verifier::external_body]
pub fn to_snake_case(s: &str) -> (r: String)
    ensures
        r@ == snake_of(s@),
{
    inflector::cases::snakecase::to_snake_case(s)
}

/// Maps an ASCII upper-case letter to its lower-case form and leaves every
/// other character unchanged.
pub open spec fn lower_char(c: char) -> char {
    if 'A' <= c && c <= 'Z' {
        ((c as u32) + 32) as char
    } else {
        c
    }
}

/// Whether two strings are equal after mapping ASCII letters to lower case.
pub open spec fn eq_ignore_case(a: Seq<char>, b: Seq<char>) -> bool {
    a.map_values(|c: char| lower_char(c)) == b.map_values(|c: char| lower_char(c))
}

/// Compares two strings for equality ignoring ASCII case.
pub fn eq_str_ignore_ascii_case(a: &str, b: &str) -> (r: bool)
    ensures
        r == eq_ignore_case(a@, b@),
{
    let a_len = a.unicode_len();
    let b_len = b.unicode_len();
    if a_len != b_len {
        proof {
            assert(a@.map_values(|c: char| lower_char(c)).len() == a@.len());
            assert(b@.map_values(|c: char| lower_char(c)).len() == b@.len());
        }
        return false;
    }
    let mut i: usize = 0;
    while i < a_len
        invariant
            a_len == a@.len(),
            b_len == b@.len(),
            a_len == b_len,
            i <= a_len,
            forall|j: int| 0 <= j < i ==> lower_char(a@[j]) == lower_char(b@[j]),
        decreases a_len - i,
    {
        let ca = a.get_char(i);
        let cb = b.get_char(i);
        let la: u32 = if 'A' <= ca && ca <= 'Z' {
            (ca as u32) + 32
        } else {
            ca as u32
        };
        let lb: u32 = if 'A' <= cb && cb <= 'Z' {
            (cb as u32) + 32
        } else {
            cb as u32
        };
        if la != lb {
            proof {
                assert(lower_char(a@[i as int]) as u32 == la);
                assert(lower_char(b@[i as int]) as u32 == lb);
                assert(a@.map_values(|c: char| lower_char(c))[i as int] != b@.map_values(
                    |c: char| lower_char(c),
                )[i as int]);
            }
            return false;
        }
        proof {
            assert(lower_char(a@[i as int]) as u32 == la);
            assert(lower_char(b@[i as int]) as u32 == lb);
            assert(lower_char(a@[i as int]) == lower_char(b@[i as int]));
        }
        i = i + 1;
    }
    proof {
        assert(a@.map_values(|c: char| lower_char(c)) =~= b@.map_values(|c: char| lower_char(c)));
    }
    true
}

/// Compares two strings for equality.
pub fn str_eq(a: &str, b: &str) -> (r: bool)
    ensures
        r == (a@ == b@),
{
    let a_len = a.unicode_len();
    let b_len = b.unicode_len();
    if a_len != b_len {
        return false;
    }
    let mut i: usize = 0;
    while i < a_len
        invariant
            a_len == a@.len(),
            b_len == b@.len(),
            a_len == b_len,
            i <= a_len,
            forall|j: int| 0 <= j < i ==> a@[j] == b@[j],
        decreases a_len - i,
    {
        if a.get_char(i) != b.get_char(i) {
            return false;
        }
        i = i + 1;
    }
    proof {
        assert(a@ =~= b@);
    }
    true
}

/// Whether `needle` occurs in `haystack` starting at position `at`.
pub open spec fn matches_at(haystack: Seq<char>, needle: Seq<char>, at: int) -> bool {
    &&& 0 <= at
    &&& at + needle.len() <= haystack.len()
    &&& haystack.subrange(at, at + needle.len()) == needle
}

/// Whether `needle` occurs anywhere in `haystack`.
pub open spec fn contains_seq(haystack: Seq<char>, needle: Seq<char>) -> bool {
    exists|at: int| matches_at(haystack, needle, at)
}

/// Decides whether `needle` occurs as a substring of `haystack`.
pub fn str_contains(haystack: &str, needle: &str) -> (r: bool)
    ensures
        r == contains_seq(haystack@, needle@),
{
    let h_len = haystack.unicode_len();
    let n_len = needle.unicode_len();
    if n_len > h_len {
        return false;
    }
    if n_len == 0 {
        proof {
            assert(haystack@.subrange(0, 0) =~= needle@);
            assert(matches_at(haystack@, needle@, 0));
        }
        return true;
    }
    let mut at: usize = 0;
    while at <= h_len - n_len
        invariant
            h_len == haystack@.len(),
            n_len == needle@.len(),
            n_len <= h_len,
            at <= h_len - n_len + 1,
            1 <= n_len,
            forall|k: int| 0 <= k < at ==> !matches_at(haystack@, needle@, k),
        decreases h_len - at,
    {
        let mut j: usize = 0;
        let mut hit = true;
        while j < n_len && hit
            invariant
                h_len == haystack@.len(),
                n_len == needle@.len(),
                at + n_len <= h_len,
                j <= n_len,
                hit ==> forall|k: int| 0 <= k < j ==> haystack@[at + k] == needle@[k],
                !hit ==> !matches_at(haystack@, needle@, at as int),
            decreases n_len - j, (if hit { 1int } else { 0int }),
        {
            if haystack.get_char(at + j) != needle.get_char(j) {
                proof {
                    assert(haystack@.subrange(at as int, at + needle@.len())[j as int]
                        != needle@[j as int]);
                }
                hit = false;
            } else {
                j = j + 1;
            }
        }
        if hit {
            proof {
                assert(haystack@.subrange(at as int, at + needle@.len()) =~= needle@);
                assert(matches_at(haystack@, needle@, at as int));
            }
            return true;
        }
        at = at + 1;
    }
    proof {
        assert forall|k: int| 0 <= k implies !matches_at(haystack@, needle@, k) by {
            if k < at {
            } else {
                assert(k > h_len - n_len ==> k + needle@.len() > haystack@.len());
            }
        }
    }
    false
}

} // verus!

verus! {

/// Lexicographic order on character sequences, by code point.
pub open spec fn lex_le(a: Seq<char>, b: Seq<char>) -> bool
    decreases a.len(),
{
    if a.len() == 0 {
        true
    } else if b.len() == 0 {
        false
    } else if (a[0] as u32) < (b[0] as u32) {
        true
    } else if (a[0] as u32) > (b[0] as u32) {
        false
    } else {
        lex_le(a.drop_first(), b.drop_first())
    }
}

/// Decides the lexicographic order of two strings.
pub fn str_le(a: &str, b: &str) -> (r: bool)
    ensures
        r == lex_le(a@, b@),
{
    let a_len = a.unicode_len();
    let b_len = b.unicode_len();
    let mut i: usize = 0;
    proof {
        assert(a@.skip(0) =~= a@);
        assert(b@.skip(0) =~= b@);
    }
    while i < a_len && i < b_len
        invariant
            a_len == a@.len(),
            b_len == b@.len(),
            i <= a_len,
            i <= b_len,
            lex_le(a@, b@) == lex_le(a@.skip(i as int), b@.skip(i as int)),
        decreases a_len - i,
    {
        let ca = a.get_char(i);
        let cb = b.get_char(i);
        proof {
            assert(a@.skip(i as int)[0] == a@[i as int]);
            assert(b@.skip(i as int)[0] == b@[i as int]);
        }
        if (ca as u32) < (cb as u32) {
            return true;
        }
        if (ca as u32) > (cb as u32) {
            return false;
        }
        proof {
            assert(a@.skip(i as int).drop_first() =~= a@.skip(i as int + 1));
            assert(b@.skip(i as int).drop_first() =~= b@.skip(i as int + 1));
        }
        i = i + 1;
    }
    if i == a_len {
        proof {
            assert(a@.skip(i as int).len() == 0);
        }
        true
    } else {
        proof {
            assert(b@.skip(i as int).len() == 0);
            assert(a@.skip(i as int).len() > 0);
        }
        false
    }
}

/// The view of a list of strings.
pub open spec fn strings_view(s: Seq<String>) -> Seq<Seq<char>> {
    Seq::new(s.len(), |i: int| s[i]@)
}

/// A string inserted into a sorted list: after every entry that orders at
/// or before it, before the rest.
pub open spec fn insert_sorted(x: Seq<char>, s: Seq<Seq<char>>) -> Seq<Seq<char>>
    decreases s.len(),
{
    if s.len() == 0 {
        seq![x]
    } else if lex_le(s[0], x) {
        seq![s[0]] + insert_sorted(x, s.drop_first())
    } else {
        seq![x] + s
    }
}

/// A list sorted by insertion, in lexicographic order: entries that compare
/// equal keep their relative order.
pub open spec fn sort_seqs(s: Seq<Seq<char>>) -> Seq<Seq<char>>
    decreases s.len(),
{
    if s.len() == 0 {
        Seq::empty()
    } else {
        insert_sorted(s.last(), sort_seqs(s.drop_last()))
    }
}

/// Inserting at the first position whose entry does not order at or before
/// the new string is what [`insert_sorted`] does.
proof fn lemma_insert_sorted_at(x: Seq<char>, s: Seq<Seq<char>>, j: int)
    requires
        0 <= j <= s.len(),
        forall|k: int| 0 <= k < j ==> lex_le(s[k], x),
        j < s.len() ==> !lex_le(s[j], x),
    ensures
        insert_sorted(x, s) == s.insert(j, x),
    decreases s.len(),
{
    if s.len() == 0 {
        assert(insert_sorted(x, s) =~= s.insert(0, x));
    } else if j == 0 {
        assert(insert_sorted(x, s) =~= s.insert(0, x));
    } else {
        assert(lex_le(s[0], x));
        lemma_insert_sorted_at(x, s.drop_first(), j - 1);
        assert(seq![s[0]] + s.drop_first().insert(j - 1, x) =~= s.insert(j, x));
    }
}

/// Finds the first position of a sorted list whose entry does not order at
/// or before the given string.
fn find_insert_pos(sorted: &Vec<String>, x: &str) -> (j: usize)
    ensures
        j <= sorted@.len(),
        forall|k: int| 0 <= k < j ==> lex_le(strings_view(sorted@)[k], x@),
        j < sorted@.len() ==> !lex_le(strings_view(sorted@)[j as int], x@),
{
    let mut j: usize = 0;
    while j < sorted.len()
        invariant
            j <= sorted@.len(),
            forall|k: int| 0 <= k < j ==> lex_le(strings_view(sorted@)[k], x@),
        decreases sorted@.len() - j,
    {
        if !str_le(sorted[j].as_str(), x) {
            return j;
        }
        j = j + 1;
    }
    j
}

/// Sorts a list of strings lexicographically, by insertion; entries that
/// compare equal keep their relative order.
pub fn sort_strings(v: &Vec<String>) -> (r: Vec<String>)
    ensures
        strings_view(r@) == sort_seqs(strings_view(v@)),
{
    let ghost sv = strings_view(v@);
    let mut r: Vec<String> = Vec::new();
    let mut i: usize = 0;
    proof {
        assert(sv.take(0) =~= Seq::<Seq<char>>::empty());
        assert(strings_view(r@) =~= sort_seqs(sv.take(0)));
    }
    while i < v.len()
        invariant
            i <= v@.len(),
            sv == strings_view(v@),
            sv.len() == v@.len(),
            strings_view(r@) == sort_seqs(sv.take(i as int)),
        decreases v@.len() - i,
    {
        let x = v[i].clone();
        let j = find_insert_pos(&r, x.as_str());
        proof {
            lemma_insert_sorted_at(x@, strings_view(r@), j as int);
            assert(sv.take(i as int + 1).drop_last() =~= sv.take(i as int));
            assert(sv.take(i as int + 1).last() == sv[i as int]);
        }
        let ghost old_r = r@;
        r.insert(j, x);
        proof {
            assert(strings_view(r@) =~= strings_view(old_r).insert(j as int, sv[i as int]));
        }
        i = i + 1;
    }
    proof {
        assert(sv.take(sv.len() as int) =~= sv);
    }
    r
}

} // verus!

verus! {

/// Decides whether `pat` occurs in `s` at position `at`.
pub fn has_at(s: &str, pat: &str, at: usize) -> (r: bool)
    ensures
        r == matches_at(s@, pat@, at as int),
{
    let s_len = s.unicode_len();
    let p_len = pat.unicode_len();
    if at > s_len || p_len > s_len - at {
        return false;
    }
    let mut j: usize = 0;
    while j < p_len
        invariant
            s_len == s@.len(),
            p_len == pat@.len(),
            at + p_len <= s_len,
            j <= p_len,
            forall|k: int| 0 <= k < j ==> s@[at + k] == pat@[k],
        decreases p_len - j,
    {
        if s.get_char(at + j) != pat.get_char(j) {
            proof {
                assert(s@.subrange(at as int, at + pat@.len())[j as int] != pat@[j as int]);
            }
            return false;
        }
        j = j + 1;
    }
    proof {
        assert(s@.subrange(at as int, at + pat@.len()) =~= pat@);
    }
    true
}

/// The view of a grouped import list: each origin path with its symbols.
pub open spec fn imports_view(s: Seq<(String, Vec<String>)>) -> Seq<(Seq<char>, Seq<Seq<char>>)> {
    Seq::new(s.len(), |i: int| (s[i].0@, strings_view(s[i].1@)))
}

} // verus!
