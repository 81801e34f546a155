//! Character and string groundwork: case folding, character classes,
//! lexicographic order, substring search, and sorting of string lists.

use vstd::prelude::*;
use vstd::string::*;

verus! {

broadcast use vstd::seq_lib::group_to_multiset_ensures, vstd::utf8::char_u32_cast;

/// What `str::to_lowercase` returns; the result depends on the characters alone.
pub uninterp spec fn lower_of(s: Seq<char>) -> Seq<char>;

/// Whether `char::is_alphanumeric` holds of the character.
pub uninterp spec fn is_alnum_char(c: char) -> bool;

/// Whether `char::is_whitespace` holds of the character.
pub uninterp spec fn is_whitespace_char(c: char) -> bool;

/// Relies on str::to_lowercase: the Unicode lowercase form of the text,
/// a function of the characters alone.
#[verifier::external_body]
pub(crate) fn lowercase(s: &str) -> (r: String)
    ensures
        r@ == lower_of(s@),
{
    s.to_lowercase()
}

/// Relies on char::is_alphanumeric: whether the character is a Unicode
/// letter or number, a function of the character alone.
#[verifier::external_body]
pub(crate) fn char_is_alphanumeric(c: char) -> (r: bool)
    ensures
        r == is_alnum_char(c),
{
    c.is_alphanumeric()
}

/// Relies on char::is_whitespace: whether the character has the Unicode
/// whitespace property, a function of the character alone.
#[verifier::external_body]
pub(crate) fn char_is_whitespace(c: char) -> (r: bool)
    ensures
        r == is_whitespace_char(c),
{
    c.is_whitespace()
}

/// Relies on String::push: appends the given character to the end of the
/// string.
#[verifier::external_body]
pub(crate) fn push_char(s: &mut String, c: char)
    ensures
        final(s)@ == old(s)@.push(c),
{
    s.push(c);
}

/// Strict lexicographic order on character sequences, examined from
/// position `i` on: the first differing position decides by code point,
/// and a proper prefix comes first.
pub open spec fn lex_lt_from(a: Seq<char>, b: Seq<char>, i: int) -> bool
    decreases b.len() - i,
{
    if i < 0 || i >= b.len() {
        false
    } else if i >= a.len() {
        true
    } else if a[i] != b[i] {
        (a[i] as u32) < (b[i] as u32)
    } else {
        lex_lt_from(a, b, i + 1)
    }
}

/// Strict lexicographic order on character sequences.
pub open spec fn lex_lt(a: Seq<char>, b: Seq<char>) -> bool {
    lex_lt_from(a, b, 0)
}

/// Lexicographic order, allowing equality.
pub open spec fn lex_le(a: Seq<char>, b: Seq<char>) -> bool {
    lex_lt(a, b) || a == b
}

/// From any position, two sequences are ordered one way or the other, or
/// their suffixes from that position agree.
proof fn lemma_lex_from_connex(a: Seq<char>, b: Seq<char>, i: int)
    requires
        0 <= i <= a.len(),
        0 <= i <= b.len(),
    ensures
        lex_lt_from(a, b, i) || lex_lt_from(b, a, i) || a.skip(i) =~= b.skip(i),
    decreases a.len() + b.len() - 2 * i,
{
    if i < a.len() && i < b.len() && a[i] == b[i] {
        lemma_lex_from_connex(a, b, i + 1);
        if !lex_lt_from(a, b, i) && !lex_lt_from(b, a, i) {
            assert(a.skip(i + 1) =~= b.skip(i + 1));
            assert forall|j: int| 0 <= j < a.skip(i).len() implies a.skip(i)[j] == b.skip(
                i,
            )[j] by {
                if j > 0 {
                    assert(a.skip(i + 1)[j - 1] == b.skip(i + 1)[j - 1]);
                }
            }
            assert(a.skip(i) =~= b.skip(i));
        }
    } else if i >= a.len() && i >= b.len() {
        assert(a.skip(i) =~= b.skip(i));
    } else if i < a.len() && i < b.len() {
        assert(a[i] != b[i]);
        if (a[i] as u32) == (b[i] as u32) {
            vstd::utf8::char_u32_cast(a[i], a[i] as u32);
            vstd::utf8::char_u32_cast(b[i], b[i] as u32);
            assert(false);
        }
    }
}

/// Two sequences are ordered one way or the other, or they are equal.
pub proof fn lemma_lex_connex(a: Seq<char>, b: Seq<char>)
    ensures
        lex_lt(a, b) || lex_lt(b, a) || a == b,
{
    lemma_lex_from_connex(a, b, 0);
    if !lex_lt(a, b) && !lex_lt(b, a) {
        assert(a.skip(0) =~= a);
        assert(b.skip(0) =~= b);
    }
}

/// No sequence comes strictly before itself, from any position.
proof fn lemma_lex_from_irrefl(a: Seq<char>, i: int)
    ensures
        !lex_lt_from(a, a, i),
    decreases a.len() - i,
{
    if 0 <= i < a.len() {
        lemma_lex_from_irrefl(a, i + 1);
    }
}

/// No sequence comes strictly before itself.
pub proof fn lemma_lex_irrefl(a: Seq<char>)
    ensures
        !lex_lt(a, a),
{
    lemma_lex_from_irrefl(a, 0);
}

/// Strict lexicographic order is transitive, from any shared position.
proof fn lemma_lex_from_trans(a: Seq<char>, b: Seq<char>, c: Seq<char>, i: int)
    requires
        0 <= i,
        lex_lt_from(a, b, i),
        lex_lt_from(b, c, i),
    ensures
        lex_lt_from(a, c, i),
    decreases c.len() - i,
{
    if i < a.len() && i < b.len() && i < c.len() && a[i] == b[i] && b[i] == c[i] {
        lemma_lex_from_trans(a, b, c, i + 1);
    }
}

/// Strict lexicographic order is transitive.
pub proof fn lemma_lex_lt_trans(a: Seq<char>, b: Seq<char>, c: Seq<char>)
    requires
        lex_lt(a, b),
        lex_lt(b, c),
    ensures
        lex_lt(a, c),
{
    lemma_lex_from_trans(a, b, c, 0);
}

/// Lexicographic order with equality is transitive.
pub proof fn lemma_lex_le_trans(a: Seq<char>, b: Seq<char>, c: Seq<char>)
    requires
        lex_le(a, b),
        lex_le(b, c),
    ensures
        lex_le(a, c),
{
    if lex_lt(a, b) && lex_lt(b, c) {
        lemma_lex_lt_trans(a, b, c);
    }
}

/// Decides the strict lexicographic order of two strings.
pub fn str_lt(a: &str, b: &str) -> (r: bool)
    ensures
        r == lex_lt(a@, b@),
{
    let a_len: usize = a.unicode_len();
    let b_len: usize = b.unicode_len();
    let mut i: usize = 0;
    loop
        invariant
            0 <= i <= a_len,
            0 <= i <= b_len,
            a_len == a@.len(),
            b_len == b@.len(),
            lex_lt(a@, b@) == lex_lt_from(a@, b@, i as int),
        decreases b_len - i,
    {
        if i == b_len {
            return false;
        }
        if i == a_len {
            return true;
        }
        let ca = a.get_char(i);
        let cb = b.get_char(i);
        if ca != cb {
            return (ca as u32) < (cb as u32);
        }
        i = i + 1;
    }
}

/// Whether `needle` occurs in `hay` starting exactly at position `i`.
pub open spec fn matches_at(needle: Seq<char>, hay: Seq<char>, i: int) -> bool {
    0 <= i && i + needle.len() <= hay.len() && hay.subrange(i, i + needle.len()) == needle
}

/// Whether `needle` occurs as a contiguous run inside `hay`.
pub open spec fn is_substring(needle: Seq<char>, hay: Seq<char>) -> bool {
    exists|i: int| matches_at(needle, hay, i)
}

/// Decides whether the needle occurs in the hay starting at position `i`.
fn match_at_index(hay: &str, needle: &str, i: usize) -> (r: bool)
    requires
        i + needle@.len() <= hay@.len(),
        hay@.len() <= usize::MAX,
    ensures
        r == matches_at(needle@, hay@, i as int),
{
    let n_len: usize = needle.unicode_len();
    let mut j: usize = 0;
    while j < n_len
        invariant
            0 <= j <= n_len,
            i + n_len <= hay@.len(),
            hay@.len() <= usize::MAX,
            n_len == needle@.len(),
            forall|k: int| 0 <= k < j ==> hay@[i + k] == needle@[k],
        decreases n_len - j,
    {
        if hay.get_char(i + j) != needle.get_char(j) {
            assert(hay@.subrange(i as int, i + n_len)[j as int] == hay@[i + j]);
            assert(!matches_at(needle@, hay@, i as int));
            return false;
        }
        j = j + 1;
    }
    assert(hay@.subrange(i as int, i + n_len) =~= needle@);
    true
}

/// Decides whether one string occurs inside another.
pub fn contains_substring(hay: &str, needle: &str) -> (r: bool)
    ensures
        r == is_substring(needle@, hay@),
{
    let h_len: usize = hay.unicode_len();
    let n_len: usize = needle.unicode_len();
    if n_len > h_len {
        assert(!is_substring(needle@, hay@));
        return false;
    }
    let mut i: usize = 0;
    loop
        invariant
            0 <= i <= h_len - n_len,
            n_len <= h_len,
            h_len == hay@.len(),
            n_len == needle@.len(),
            forall|k: int| 0 <= k < i ==> !matches_at(needle@, hay@, k),
        ensures
            forall|k: int| 0 <= k <= h_len - n_len ==> !matches_at(needle@, hay@, k),
        decreases h_len - n_len - i,
    {
        if match_at_index(hay, needle, i) {
            return true;
        }
        if i == h_len - n_len {
            break;
        }
        i = i + 1;
    }
    assert(forall|k: int| matches_at(needle@, hay@, k) ==> 0 <= k <= h_len - n_len);
    assert(!is_substring(needle@, hay@));
    false
}

/// The sequence with its leading whitespace removed.
pub open spec fn trim_front(s: Seq<char>) -> Seq<char>
    decreases s.len(),
{
    if s.len() == 0 {
        s
    } else if is_whitespace_char(s[0]) {
        trim_front(s.drop_first())
    } else {
        s
    }
}

/// The sequence with its trailing whitespace removed.
pub open spec fn trim_back(s: Seq<char>) -> Seq<char>
    decreases s.len(),
{
    if s.len() == 0 {
        s
    } else if is_whitespace_char(s.last()) {
        trim_back(s.drop_last())
    } else {
        s
    }
}

/// The sequence with whitespace removed from both ends.
pub open spec fn spec_trim(s: Seq<char>) -> Seq<char> {
    trim_back(trim_front(s))
}

/// Removing leading whitespace is skipping up to the first non-blank.
proof fn lemma_trim_front_at(s: Seq<char>, a: int)
    requires
        0 <= a <= s.len(),
        forall|j: int| 0 <= j < a ==> is_whitespace_char(#[trigger] s[j]),
        a < s.len() ==> !is_whitespace_char(s[a]),
    ensures
        trim_front(s) =~= s.skip(a),
    decreases a,
{
    if a == 0 {
        assert(s.skip(0) =~= s);
    } else {
        assert(is_whitespace_char(s[0]));
        assert(forall|j: int| 0 <= j < a - 1 ==> is_whitespace_char(#[trigger] s.drop_first()[j]));
        lemma_trim_front_at(s.drop_first(), a - 1);
        assert(s.drop_first().skip(a - 1) =~= s.skip(a));
    }
}

/// Removing trailing whitespace is cutting back to the last non-blank.
proof fn lemma_trim_back_at(s: Seq<char>, b: int)
    requires
        0 <= b <= s.len(),
        forall|j: int| b <= j < s.len() ==> is_whitespace_char(#[trigger] s[j]),
        b > 0 ==> !is_whitespace_char(s[b - 1]),
    ensures
        trim_back(s) =~= s.take(b),
    decreases s.len() - b,
{
    if b == s.len() {
        assert(s.take(b) =~= s);
    } else {
        assert(is_whitespace_char(s.last()));
        assert(forall|j: int|
            b <= j < s.drop_last().len() ==> is_whitespace_char(#[trigger] s.drop_last()[j]));
        lemma_trim_back_at(s.drop_last(), b);
        assert(s.drop_last().take(b) =~= s.take(b));
    }
}

/// Returns the text with Unicode whitespace removed from both ends.
pub fn trim_str(s: &str) -> (r: String)
    ensures
        r@ == spec_trim(s@),
{
    let len: usize = s.unicode_len();
    let mut a: usize = 0;
    loop
        invariant
            0 <= a <= len,
            len == s@.len(),
            forall|j: int| 0 <= j < a ==> is_whitespace_char(#[trigger] s@[j]),
        ensures
            0 <= a <= len,
            forall|j: int| 0 <= j < a ==> is_whitespace_char(#[trigger] s@[j]),
            a < len ==> !is_whitespace_char(s@[a as int]),
        decreases len - a,
    {
        if a == len {
            break;
        }
        if !char_is_whitespace(s.get_char(a)) {
            break;
        }
        a = a + 1;
    }
    proof {
        lemma_trim_front_at(s@, a as int);
    }
    let mut b: usize = len;
    loop
        invariant
            a <= b <= len,
            len == s@.len(),
            a < len ==> !is_whitespace_char(s@[a as int]),
            forall|j: int| b <= j < len ==> is_whitespace_char(#[trigger] s@[j]),
        ensures
            a <= b <= len,
            forall|j: int| b <= j < len ==> is_whitespace_char(#[trigger] s@[j]),
            b > a ==> !is_whitespace_char(s@[b - 1]),
        decreases b,
    {
        if b == a {
            break;
        }
        if !char_is_whitespace(s.get_char(b - 1)) {
            break;
        }
        b = b - 1;
    }
    let piece = s.substring_char(a, b);
    proof {
        let front = s@.skip(a as int);
        assert(forall|j: int|
            b - a <= j < front.len() ==> is_whitespace_char(#[trigger] front[j]));
        if b > a {
            assert(!is_whitespace_char(front[b - a - 1]));
        } else {
            assert(forall|j: int| 0 <= j < front.len() ==> is_whitespace_char(#[trigger] front[j]));
        }
        lemma_trim_back_at(front, b - a);
        assert(front.take(b - a) =~= s@.subrange(a as int, b as int));
    }
    String::from_str(piece)
}

/// Whether a sequence of strings is sorted lexicographically by characters.
pub open spec fn strs_sorted(s: Seq<String>) -> bool {
    forall|i: int, j: int| 0 <= i < j < s.len() ==> lex_le(#[trigger] s[i]@, #[trigger] s[j]@)
}

/// The ordered position of one entry in an already sorted list of
/// character sequences: it lands after every entry not strictly above it.
pub open spec fn spec_insert_sorted(s: Seq<Seq<char>>, x: Seq<char>) -> Seq<Seq<char>>
    decreases s.len(),
{
    if s.len() == 0 {
        seq![x]
    } else if lex_lt(x, s[0]) {
        seq![x] + s
    } else {
        seq![s[0]] + spec_insert_sorted(s.drop_first(), x)
    }
}

/// A sorted rearrangement: each entry placed in order, first to last.
pub open spec fn spec_sort_seqs(s: Seq<Seq<char>>) -> Seq<Seq<char>>
    decreases s.len(),
{
    if s.len() == 0 {
        s
    } else {
        spec_insert_sorted(spec_sort_seqs(s.drop_last()), s.last())
    }
}

/// Splitting lemma: once the first `k` entries are known not to come
/// after `x`, the insertion happens entirely in the remainder.
proof fn lemma_insert_sorted_split(s: Seq<Seq<char>>, x: Seq<char>, k: int)
    requires
        0 <= k <= s.len(),
        forall|j: int| 0 <= j < k ==> !lex_lt(x, #[trigger] s[j]),
    ensures
        spec_insert_sorted(s, x) =~= s.take(k) + spec_insert_sorted(s.skip(k), x),
    decreases k,
{
    if k == 0 {
        assert(s.take(0) =~= Seq::<Seq<char>>::empty());
        assert(s.skip(0) =~= s);
    } else {
        assert(!lex_lt(x, s[0]));
        assert(forall|j: int| 0 <= j < k - 1 ==> !lex_lt(x, #[trigger] s.drop_first()[j]));
        lemma_insert_sorted_split(s.drop_first(), x, k - 1);
        assert(s.drop_first().take(k - 1) =~= s.take(k).drop_first());
        assert(s.drop_first().skip(k - 1) =~= s.skip(k));
        assert(seq![s[0]] + (s.drop_first().take(k - 1) + spec_insert_sorted(s.skip(k), x))
            =~= s.take(k) + spec_insert_sorted(s.skip(k), x));
    }
}

/// Places a string into an already sorted list, after any equal entries.
fn insert_string_sorted(v: &mut Vec<String>, x: String)
    requires
        strs_sorted(old(v)@),
    ensures
        strs_sorted(final(v)@),
        final(v)@.to_multiset() == old(v)@.to_multiset().insert(x),
        final(v).deep_view() == spec_insert_sorted(old(v).deep_view(), x@),
{
    let mut k: usize = 0;
    loop
        invariant
            0 <= k <= v@.len(),
            strs_sorted(v@),
            v@ == old(v)@,
            forall|j: int| 0 <= j < k ==> !lex_lt(x@, #[trigger] v@[j]@),
        ensures
            0 <= k <= v@.len(),
            v@ == old(v)@,
            forall|j: int| 0 <= j < k ==> !lex_lt(x@, #[trigger] v@[j]@),
            k < v@.len() ==> lex_lt(x@, v@[k as int]@),
        decreases v@.len() - k,
    {
        if k == v.len() {
            break;
        }
        if str_lt(x.as_str(), v[k].as_str()) {
            break;
        }
        k = k + 1;
    }
    let ghost prior = v@;
    let ghost prior_dv = v.deep_view();
    let ghost pos = k as int;
    proof {
        assert forall|j: int| 0 <= j < pos implies !lex_lt(x@, #[trigger] prior_dv[j]) by {
            assert(prior_dv[j] == prior[j]@);
        }
        lemma_insert_sorted_split(prior_dv, x@, pos);
        if pos < prior.len() {
            assert(prior_dv.skip(pos)[0] == prior[pos]@);
            assert(spec_insert_sorted(prior_dv.skip(pos), x@) =~= seq![x@] + prior_dv.skip(pos));
        } else {
            assert(prior_dv.skip(pos).len() == 0);
        }
    }
    v.insert(k, x);
    proof {
        prior.insert_ensures(pos, x);
        assert(v.deep_view() =~= prior_dv.take(pos) + (seq![x@] + prior_dv.skip(pos))) by {
            assert(v@ == prior.insert(pos, x));
            assert forall|m: int| 0 <= m < v@.len() implies v.deep_view()[m] == (prior_dv.take(pos)
                + (seq![x@] + prior_dv.skip(pos)))[m] by {
                if m < pos {
                    assert(v@[m] == prior[m]);
                } else if m == pos {
                    assert(v@[m] == x);
                } else {
                    assert(v@[m] == prior[m - 1]);
                }
            }
        }
    }
    assert(strs_sorted(v@)) by {
        assert forall|i: int, j: int| 0 <= i < j < v@.len() implies lex_le(
            #[trigger] v@[i]@,
            #[trigger] v@[j]@,
        ) by {
            if j < pos {
                assert(v@[i]@ == prior[i]@ && v@[j]@ == prior[j]@);
            } else if i < pos && j == pos {
                assert(v@[i]@ == prior[i]@ && v@[j] == x);
                lemma_lex_connex(x@, prior[i]@);
            } else if i < pos && j > pos {
                assert(v@[i]@ == prior[i]@ && v@[j]@ == prior[j - 1]@);
                assert(lex_le(prior[i]@, prior[j - 1]@));
            } else if i == pos && j > pos {
                assert(v@[i] == x && v@[j]@ == prior[j - 1]@);
                assert(lex_lt(x@, prior[pos]@));
                if j - 1 > pos {
                    assert(lex_le(prior[pos]@, prior[j - 1]@));
                    lemma_lex_le_trans(x@, prior[pos]@, prior[j - 1]@);
                }
            } else {
                assert(i > pos && j > pos);
                assert(v@[i]@ == prior[i - 1]@ && v@[j]@ == prior[j - 1]@);
                assert(lex_le(prior[i - 1]@, prior[j - 1]@));
            }
        }
    }
    proof {
        assert(v@.to_multiset() =~= prior.to_multiset().insert(x));
    }
}

/// Returns the strings in ascending lexicographic order; the result holds
/// exactly the entries of the input, repeats included.
pub fn sort_strings(v: &Vec<String>) -> (r: Vec<String>)
    ensures
        strs_sorted(r@),
        r@.to_multiset() == v@.to_multiset(),
        r.deep_view() == spec_sort_seqs(v.deep_view()),
{
    let mut r: Vec<String> = Vec::new();
    let mut i: usize = 0;
    proof {
        assert(r@.to_multiset() =~= v@.subrange(0, 0).to_multiset());
    }
    while i < v.len()
        invariant
            0 <= i <= v@.len(),
            strs_sorted(r@),
            r@.to_multiset() == v@.subrange(0, i as int).to_multiset(),
            r.deep_view() == spec_sort_seqs(v.deep_view().take(i as int)),
        decreases v@.len() - i,
    {
        let x = v[i].clone();
        insert_string_sorted(&mut r, x);
        proof {
            let pre = v@.subrange(0, i as int);
            let post = v@.subrange(0, i + 1 as int);
            assert(post =~= pre.push(v@[i as int]));
            assert(pre.to_multiset().insert(v@[i as int]) =~= post.to_multiset());
            assert(v.deep_view().take(i as int + 1).drop_last() =~= v.deep_view().take(i as int));
            assert(v.deep_view().take(i as int + 1).last() == v@[i as int]@);
        }
        i = i + 1;
    }
    proof {
        assert(v@.subrange(0, v@.len() as int) =~= v@);
        assert(v.deep_view().take(v.deep_view().len() as int) =~= v.deep_view());
        assert(v.deep_view().len() == v@.len());
    }
    r
}

} // verus!
