//! Character-sequence utilities shared by the query builder, the CSV
//! parser and the export renderers: finding and splitting on a delimiter
//! character, joining pieces with a delimiter, and ASCII case folding.

use vstd::prelude::*;

verus! {

/// Index of the first occurrence of `c` in `s`, or `-1` when `s` does
/// not contain `c`.
pub open spec fn find_char(s: Seq<char>, c: char) -> int
    decreases s.len(),
{
    if s.len() == 0 {
        -1
    } else if s[0] == c {
        0
    } else {
        let r = find_char(s.drop_first(), c);
        if r < 0 {
            -1
        } else {
            r + 1
        }
    }
}

/// Whether `s` contains the character `c`.
pub open spec fn contains_char(s: Seq<char>, c: char) -> bool {
    exists|i: int| 0 <= i < s.len() && s[i] == c
}

/// `find_char` returns a negative value exactly when `c` is absent, and
/// otherwise the position of the first occurrence of `c`.
pub proof fn lemma_find_char(s: Seq<char>, c: char)
    ensures
        find_char(s, c) < 0 ==> forall|j: int| 0 <= j < s.len() ==> s[j] != c,
        find_char(s, c) >= 0 ==> {
            &&& find_char(s, c) < s.len()
            &&& s[find_char(s, c)] == c
            &&& forall|j: int| 0 <= j < find_char(s, c) ==> s[j] != c
        },
    decreases s.len(),
{
    if s.len() > 0 && s[0] != c {
        lemma_find_char(s.drop_first(), c);
        let r = find_char(s.drop_first(), c);
        if r < 0 {
            assert forall|j: int| 0 <= j < s.len() implies s[j] != c by {
                if j > 0 {
                    assert(s.drop_first()[j - 1] != c);
                }
            }
        } else {
            assert(s[r + 1] == s.drop_first()[r]);
            assert forall|j: int| 0 <= j < r + 1 implies s[j] != c by {
                if j > 0 {
                    assert(s.drop_first()[j - 1] != c);
                }
            }
        }
    }
}

/// The first occurrence is unique: a position `i` holding `c` with no
/// earlier occurrence is the value of `find_char`.
pub proof fn lemma_find_char_unique(s: Seq<char>, c: char, i: int)
    requires
        0 <= i < s.len(),
        s[i] == c,
        forall|j: int| 0 <= j < i ==> s[j] != c,
    ensures
        find_char(s, c) == i,
{
    lemma_find_char(s, c);
}

/// `contains_char` agrees with the sign of `find_char`.
pub proof fn lemma_contains_find(s: Seq<char>, c: char)
    ensures
        contains_char(s, c) <==> find_char(s, c) >= 0,
{
    lemma_find_char(s, c);
}

/// Position of the first occurrence of `c` in `s`, or `None` when `s`
/// does not contain `c`.
pub fn index_of_char(s: &str, c: char) -> (r: Option<usize>)
    ensures
        r is Some ==> find_char(s@, c) == r->Some_0 as int,
        r is None ==> find_char(s@, c) < 0,
{
    let n = s.unicode_len();
    let mut i: usize = 0;
    while i < n
        invariant
            i <= n,
            n == s@.len(),
            forall|j: int| 0 <= j < i ==> s@[j] != c,
        decreases n - i,
    {
        if s.get_char(i) == c {
            proof {
                lemma_find_char_unique(s@, c, i as int);
            }
            return Some(i);
        }
        i = i + 1;
    }
    proof {
        lemma_find_char(s@, c);
    }
    None
}

/// Character-for-character equality of two string slices.
pub fn str_eq(a: &str, b: &str) -> (r: bool)
    ensures
        r == (a@ == b@),
{
    let na = a.unicode_len();
    let nb = b.unicode_len();
    if na != nb {
        return false;
    }
    let mut i: usize = 0;
    while i < na
        invariant
            i <= na,
            na == a@.len(),
            na == b@.len(),
            forall|j: int| 0 <= j < i ==> a@[j] == b@[j],
        decreases na - i,
    {
        if a.get_char(i) != b.get_char(i) {
            return false;
        }
        i = i + 1;
    }
    proof {
        assert(a@ =~= b@);
    }
    true
}

/// The pieces of `s` between occurrences of the delimiter `d`,
/// splitting on every occurrence and keeping empty pieces, so that a
/// sequence with `k` occurrences of `d` yields `k + 1` pieces.
pub open spec fn split_on(s: Seq<char>, d: char) -> Seq<Seq<char>>
    decreases s.len(),
{
    let i = find_char(s, d);
    if 0 <= i < s.len() {
        seq![s.take(i)] + split_on(s.skip(i + 1), d)
    } else {
        seq![s]
    }
}

/// Splitting always yields at least one piece, and no piece contains
/// the delimiter.
pub proof fn lemma_split_on_pieces(s: Seq<char>, d: char)
    ensures
        split_on(s, d).len() >= 1,
        forall|k: int| 0 <= k < split_on(s, d).len() ==> !contains_char(#[trigger] split_on(s, d)[k], d),
    decreases s.len(),
{
    lemma_find_char(s, d);
    let i = find_char(s, d);
    if 0 <= i < s.len() {
        lemma_split_on_pieces(s.skip(i + 1), d);
        let r = split_on(s, d);
        let rest = split_on(s.skip(i + 1), d);
        assert forall|k: int| 0 <= k < r.len() implies !contains_char(r[k], d) by {
            if k == 0 {
                assert(forall|j: int| 0 <= j < i ==> s.take(i)[j] == s[j]);
            } else {
                assert(r[k] == rest[k - 1]);
            }
        }
    } else {
        assert(!contains_char(s, d));
    }
}

/// When the first occurrence of `d` in `s` is at `i`, the split is the
/// prefix before `i` followed by the split of the suffix after `i`.
pub proof fn lemma_split_on_step(s: Seq<char>, d: char, i: int)
    requires
        0 <= i < s.len(),
        s[i] == d,
        forall|j: int| 0 <= j < i ==> s[j] != d,
    ensures
        split_on(s, d) == seq![s.take(i)] + split_on(s.skip(i + 1), d),
{
    lemma_find_char_unique(s, d, i);
}

/// When `s` does not contain `d`, the split is `s` alone.
pub proof fn lemma_split_on_whole(s: Seq<char>, d: char)
    requires
        forall|j: int| 0 <= j < s.len() ==> s[j] != d,
    ensures
        split_on(s, d) == seq![s],
{
    lemma_find_char(s, d);
    if find_char(s, d) >= 0 {
        assert(s[find_char(s, d)] == d);
    }
}

/// The pieces of `s` between occurrences of the delimiter `d`, as a
/// vector of freshly allocated strings.
pub fn split_string(s: &str, d: char) -> (r: Vec<String>)
    ensures
        r.deep_view() == split_on(s@, d),
{
    let n = s.unicode_len();
    let mut r: Vec<String> = Vec::new();
    let mut start: usize = 0;
    let mut i: usize = 0;
    proof {
        assert(s@.skip(0) =~= s@);
        assert(r.deep_view() =~= Seq::<Seq<char>>::empty());
        assert(r.deep_view() + split_on(s@, d) =~= split_on(s@, d));
    }
    while i < n
        invariant
            start <= i <= n,
            n == s@.len(),
            forall|j: int| start <= j < i ==> s@[j] != d,
            split_on(s@, d) =~= r.deep_view() + split_on(s@.skip(start as int), d),
        decreases n - i,
    {
        if s.get_char(i) == d {
            let ghost old_r = r;
            let piece = s.substring_char(start, i).to_owned();
            r.push(piece);
            proof {
                let sub = s@.skip(start as int);
                assert(forall|j: int| 0 <= j < sub.len() ==> sub[j] == s@[start + j]);
                lemma_split_on_step(sub, d, i - start as int);
                assert(sub.take(i - start as int) =~= piece@);
                assert(sub.skip(i - start as int + 1) =~= s@.skip(i as int + 1));
                assert(r.deep_view() =~= old_r.deep_view().push(piece@));
                assert(split_on(s@, d) =~= r.deep_view() + split_on(s@.skip(i as int + 1), d));
            }
            start = i + 1;
        }
        i = i + 1;
    }
    let ghost old_r = r;
    let piece = s.substring_char(start, n).to_owned();
    r.push(piece);
    proof {
        let sub = s@.skip(start as int);
        assert(forall|j: int| 0 <= j < sub.len() ==> sub[j] == s@[start + j]);
        lemma_split_on_whole(sub, d);
        assert(sub =~= piece@);
        assert(r.deep_view() =~= old_r.deep_view().push(piece@));
        assert(r.deep_view() =~= old_r.deep_view() + seq![piece@]);
    }
    r
}

/// The pieces joined with the delimiter `d` between consecutive
/// pieces: the inverse of `split_on` for pieces free of `d`.
pub open spec fn join_with(pieces: Seq<Seq<char>>, d: char) -> Seq<char>
    decreases pieces.len(),
{
    if pieces.len() == 0 {
        Seq::empty()
    } else if pieces.len() == 1 {
        pieces[0]
    } else {
        pieces[0] + seq![d] + join_with(pieces.drop_first(), d)
    }
}

/// Joining one more piece appends a delimiter and the piece, except to
/// an empty list of pieces.
pub proof fn lemma_join_with_push(pieces: Seq<Seq<char>>, d: char, p: Seq<char>)
    ensures
        pieces.len() == 0 ==> join_with(pieces.push(p), d) == p,
        pieces.len() > 0 ==> join_with(pieces.push(p), d) == join_with(pieces, d) + seq![d] + p,
    decreases pieces.len(),
{
    if pieces.len() == 0 {
        assert(pieces.push(p)[0] == p);
    } else if pieces.len() == 1 {
        assert(pieces.push(p)[0] == pieces[0]);
        assert(pieces.push(p).drop_first() =~= seq![p]);
        assert(join_with(seq![p], d) == p);
    } else {
        lemma_join_with_push(pieces.drop_first(), d, p);
        assert(pieces.push(p).drop_first() =~= pieces.drop_first().push(p));
        assert(pieces.push(p)[0] == pieces[0]);
        assert(pieces[0] + seq![d] + (join_with(pieces.drop_first(), d) + seq![d] + p) =~= (
        pieces[0] + seq![d] + join_with(pieces.drop_first(), d)) + seq![d] + p);
    }
}

/// The pieces joined into one string with the delimiter `d` between
/// consecutive pieces.
pub fn join_strings(pieces: &Vec<String>, d: &str) -> (r: String)
    requires
        d@.len() == 1,
    ensures
        r@ == join_with(pieces.deep_view(), d@[0]),
{
    let mut r = String::new();
    let n = pieces.len();
    let mut i: usize = 0;
    while i < n
        invariant
            i <= n,
            n == pieces@.len(),
            d@.len() == 1,
            r@ =~= join_with(pieces.deep_view().take(i as int), d@[0]),
        decreases n - i,
    {
        proof {
            lemma_join_with_push(pieces.deep_view().take(i as int), d@[0], pieces.deep_view()[i as int]);
            assert(pieces.deep_view().take(i as int).push(pieces.deep_view()[i as int]) =~= pieces.deep_view().take(
            i as int + 1));
        }
        if i > 0 {
            r.append(d);
            proof {
                assert(d@ =~= seq![d@[0]]);
            }
        }
        r.append(pieces[i].as_str());
        i = i + 1;
    }
    proof {
        assert(pieces.deep_view().take(n as int) =~= pieces.deep_view());
    }
    r
}

/// Relies on `String::push`: appends exactly the one character.
#[verifier::external_body]
pub(crate) fn push_char(s: &mut String, c: char)
    ensures
        final(s)@ == old(s)@.push(c),
{
    s.push(c);
}

/// ASCII lower-casing of one character: `'A'..='Z'` map to
/// `'a'..='z'`, every other character is unchanged.
pub open spec fn lower_char(c: char) -> char {
    if 65 <= c as u32 && c as u32 <= 90 {
        ((c as u32) + 32) as char
    } else {
        c
    }
}

/// Case-insensitive (ASCII) equality of two character sequences.
pub open spec fn eq_ignore_ascii_case(a: Seq<char>, b: Seq<char>) -> bool {
    a.len() == b.len() && forall|i: int| 0 <= i < a.len() ==> lower_char(a[i]) == lower_char(b[i])
}

/// ASCII lower-casing of one character.
pub fn ascii_lower(c: char) -> (r: char)
    ensures
        r == lower_char(c),
{
    let u = c as u32;
    if 65 <= u && u <= 90 {
        let l = (c as u8) + 32;
        l as char
    } else {
        c
    }
}

/// Case-insensitive (ASCII) equality of two string slices.
pub fn str_eq_ignore_ascii_case(a: &str, b: &str) -> (r: bool)
    ensures
        r == eq_ignore_ascii_case(a@, b@),
{
    let na = a.unicode_len();
    let nb = b.unicode_len();
    if na != nb {
        return false;
    }
    let mut i: usize = 0;
    while i < na
        invariant
            i <= na,
            na == a@.len(),
            na == b@.len(),
            forall|j: int| 0 <= j < i ==> lower_char(a@[j]) == lower_char(b@[j]),
        decreases na - i,
    {
        if ascii_lower(a.get_char(i)) != ascii_lower(b.get_char(i)) {
            return false;
        }
        i = i + 1;
    }
    true
}

} // verus!
