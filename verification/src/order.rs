//! Lexicographic order on strings (the order of `String`'s `Ord`: UTF-8 byte
//! order, which is code point order) and sorting by it.

use vstd::prelude::*;

use crate::text::chars_of;

verus! {

broadcast use vstd::seq_lib::group_to_multiset_ensures;

/// `a` sorts before or equal to `b` in lexicographic code point order.
pub open spec fn lex_le(a: Seq<char>, b: Seq<char>) -> bool
    decreases a.len(),
{
    if a.len() == 0 {
        true
    } else if b.len() == 0 {
        false
    } else if a[0] != b[0] {
        a[0] < b[0]
    } else {
        lex_le(a.drop_first(), b.drop_first())
    }
}

/// Every string sorts at or after every earlier one.
pub open spec fn lex_sorted(s: Seq<Seq<char>>) -> bool {
    forall|i: int, j: int| 0 <= i < j < s.len() ==> lex_le(s[i], s[j])
}

/// Any two strings are comparable.
pub proof fn lemma_lex_total(a: Seq<char>, b: Seq<char>)
    ensures
        lex_le(a, b) || lex_le(b, a),
    decreases a.len(),
{
    if a.len() > 0 && b.len() > 0 && a[0] == b[0] {
        lemma_lex_total(a.drop_first(), b.drop_first());
    }
}

/// The order is transitive.
pub proof fn lemma_lex_trans(a: Seq<char>, b: Seq<char>, c: Seq<char>)
    requires
        lex_le(a, b),
        lex_le(b, c),
    ensures
        lex_le(a, c),
    decreases a.len(),
{
    if a.len() > 0 && b.len() > 0 && c.len() > 0 && a[0] == b[0] && b[0] == c[0] {
        lemma_lex_trans(a.drop_first(), b.drop_first(), c.drop_first());
    }
}

/// Whether `a` sorts before or equal to `b`.
pub fn chars_lex_le(a: &[char], b: &[char]) -> (r: bool)
    ensures
        r == lex_le(a@, b@),
{
    let na = a.len();
    let nb = b.len();
    let mut i: usize = 0;
    assert(a@.skip(0) =~= a@);
    assert(b@.skip(0) =~= b@);
    while i < na && i < nb
        invariant
            na == a@.len(),
            nb == b@.len(),
            i <= na,
            i <= nb,
            lex_le(a@, b@) == lex_le(a@.skip(i as int), b@.skip(i as int)),
        decreases na - i,
    {
        if a[i] != b[i] {
            proof {
                assert(a@.skip(i as int)[0] == a@[i as int]);
                assert(b@.skip(i as int)[0] == b@[i as int]);
            }
            return a[i] < b[i];
        }
        proof {
            assert(a@.skip(i as int)[0] == a@[i as int]);
            assert(b@.skip(i as int)[0] == b@[i as int]);
            assert(a@.skip(i as int).drop_first() =~= a@.skip(i + 1));
            assert(b@.skip(i as int).drop_first() =~= b@.skip(i + 1));
        }
        i = i + 1;
    }
    i == na
}

/// Whether string `a` sorts before or equal to string `b`.
pub fn str_lex_le(a: &str, b: &str) -> (r: bool)
    ensures
        r == lex_le(a@, b@),
{
    let av = chars_of(a);
    let bv = chars_of(b);
    chars_lex_le(av.as_slice(), bv.as_slice())
}

/// The views of a list of strings.
pub open spec fn strings_view(v: Seq<String>) -> Seq<Seq<char>> {
    v.map_values(|s: String| s@)
}

/// Inserting `x` at `j` into a sorted list keeps it sorted when everything
/// before `j` sorts at or before `x` and `x` sorts strictly before the item at `j`.
pub proof fn lemma_insert_sorted(s: Seq<Seq<char>>, j: int, x: Seq<char>)
    requires
        lex_sorted(s),
        0 <= j <= s.len(),
        forall|k: int| 0 <= k < j ==> lex_le(s[k], x),
        j < s.len() ==> !lex_le(s[j], x),
    ensures
        lex_sorted(s.insert(j, x)),
{
    let r = s.insert(j, x);
    assert forall|a: int, b: int| 0 <= a < b < r.len() implies lex_le(r[a], r[b]) by {
        if b < j {
            assert(r[a] == s[a] && r[b] == s[b]);
        } else if b == j {
            assert(r[a] == s[a]);
        } else if a == j {
            assert(r[b] == s[b - 1]);
            lemma_lex_total(s[j], x);
            if b - 1 > j {
                lemma_lex_trans(x, s[j], s[b - 1]);
            }
        } else if a < j {
            assert(r[a] == s[a] && r[b] == s[b - 1]);
        } else {
            assert(r[a] == s[a - 1] && r[b] == s[b - 1]);
        }
    }
}

/// The strings of `v`, sorted in lexicographic order (`sort` on `Vec<String>`).
pub fn sort_strings(v: &Vec<String>) -> (r: Vec<String>)
    ensures
        lex_sorted(strings_view(r@)),
        strings_view(r@).to_multiset() == strings_view(v@).to_multiset(),
{
    let mut r: Vec<String> = Vec::new();
    let n = v.len();
    for i in 0..n
        invariant
            n == v@.len(),
            lex_sorted(strings_view(r@)),
            strings_view(r@).to_multiset() == strings_view(v@).take(i as int).to_multiset(),
    {
        let x = v[i].clone();
        let m = r.len();
        let mut j: usize = 0;
        while j < m && str_lex_le(r[j].as_str(), x.as_str())
            invariant
                m == r@.len(),
                j <= m,
                forall|k: int| 0 <= k < j ==> lex_le(strings_view(r@)[k], x@),
            decreases m - j,
        {
            j = j + 1;
        }
        proof {
            lemma_insert_sorted(strings_view(r@), j as int, x@);
            assert(strings_view(v@).take(i + 1) =~= strings_view(v@).take(i as int).push(x@));
        }
        let ghost before = strings_view(r@);
        r.insert(j, x);
        assert(strings_view(r@) =~= before.insert(j as int, x@));
    }
    assert(strings_view(v@).take(n as int) =~= strings_view(v@));
    r
}

} // verus!
