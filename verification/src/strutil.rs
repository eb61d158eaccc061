//! Character-level string helpers: equality and comma splitting, with the
//! laws relating a split to the string it came from.

use vstd::prelude::*;
use vstd::string::*;

verus! {

/// Compares two string slices character by character.
pub fn str_eq(a: &str, b: &str) -> (r: bool)
    ensures
        r == (a@ == b@),
{
    let n = a.unicode_len();
    if n != b.unicode_len() {
        return false;
    }
    let mut i: usize = 0;
    while i < n
        invariant
            0 <= i <= n,
            n == a@.len(),
            n == b@.len(),
            forall|j: int| 0 <= j < i ==> a@[j] == b@[j],
        decreases n - i,
    {
        if a.get_char(i) != b.get_char(i) {
            return false;
        }
        i = i + 1;
    }
    proof {
        assert(a@ =~= b@);
    }
    true
}

/// The comma-separated segments of `s`; splitting the empty string gives
/// one empty segment.
pub open spec fn spec_split_commas(s: Seq<char>) -> Seq<Seq<char>>
    decreases s.len(),
{
    if s.len() == 0 {
        seq![Seq::<char>::empty()]
    } else if s[0] == ',' {
        seq![Seq::<char>::empty()] + spec_split_commas(s.skip(1))
    } else {
        let rest = spec_split_commas(s.skip(1));
        seq![seq![s[0]] + rest[0]] + rest.skip(1)
    }
}

/// A split always has at least one segment.
pub proof fn lemma_split_commas_len_pos(s: Seq<char>)
    ensures
        spec_split_commas(s).len() >= 1,
    decreases s.len(),
{
    if s.len() != 0 {
        lemma_split_commas_len_pos(s.skip(1));
    }
}

/// If the first comma of `s` stands at `k` (or `s` has none and `k` is its
/// length), the split is the prefix before `k` followed by the split of
/// what comes after `k`.
pub proof fn lemma_split_commas_seg(s: Seq<char>, k: int)
    requires
        0 <= k <= s.len(),
        forall|j: int| 0 <= j < k ==> s[j] != ',',
        k < s.len() ==> s[k] == ',',
    ensures
        k == s.len() ==> spec_split_commas(s) == seq![s],
        k < s.len() ==> spec_split_commas(s) == seq![s.take(k)] + spec_split_commas(
            s.skip(k + 1),
        ),
    decreases k,
{
    if k == 0 {
        if s.len() == 0 {
            assert(s =~= Seq::<char>::empty());
            assert(spec_split_commas(s) =~= seq![s]);
        } else {
            assert(s[0] == ',');
            assert(s.take(0) =~= Seq::<char>::empty());
            assert(spec_split_commas(s) =~= seq![s.take(0)] + spec_split_commas(s.skip(1)));
        }
    } else {
        assert(s[0] != ',');
        let tail = s.skip(1);
        lemma_split_commas_seg(tail, k - 1);
        let rest = spec_split_commas(tail);
        lemma_split_commas_len_pos(tail);
        if k == s.len() {
            assert(rest == seq![tail]);
            assert(spec_split_commas(s) == seq![seq![s[0]] + rest[0]] + rest.skip(1));
            assert(rest.skip(1) =~= Seq::<Seq<char>>::empty());
            assert(seq![s[0]] + rest[0] =~= s);
            assert(spec_split_commas(s) =~= seq![s]);
        } else {
            assert(rest == seq![tail.take(k - 1)] + spec_split_commas(tail.skip(k)));
            assert(seq![s[0]] + rest[0] =~= s.take(k));
            assert(tail.skip(k) =~= s.skip(k + 1));
            assert(rest.skip(1) =~= spec_split_commas(s.skip(k + 1)));
            assert(spec_split_commas(s) =~= seq![s.take(k)] + spec_split_commas(s.skip(k + 1)));
        }
    }
}

/// The segments of `s` joined back with commas.
pub open spec fn spec_join_commas(segs: Seq<Seq<char>>) -> Seq<char>
    decreases segs.len(),
{
    if segs.len() == 0 {
        Seq::empty()
    } else if segs.len() == 1 {
        segs[0]
    } else {
        segs[0] + seq![','] + spec_join_commas(segs.skip(1))
    }
}

/// Splitting on commas loses nothing: joining the segments with commas
/// restores the original string.
pub proof fn lemma_split_join_commas(s: Seq<char>)
    ensures
        spec_join_commas(spec_split_commas(s)) == s,
    decreases s.len(),
{
    if s.len() == 0 {
        assert(spec_join_commas(spec_split_commas(s)) =~= s);
    } else if s[0] == ',' {
        let rest = spec_split_commas(s.skip(1));
        lemma_split_commas_len_pos(s.skip(1));
        lemma_split_join_commas(s.skip(1));
        let segs = seq![Seq::<char>::empty()] + rest;
        assert(segs.skip(1) =~= rest);
        assert(spec_join_commas(segs) =~= s);
    } else {
        let rest = spec_split_commas(s.skip(1));
        lemma_split_commas_len_pos(s.skip(1));
        lemma_split_join_commas(s.skip(1));
        let segs = seq![seq![s[0]] + rest[0]] + rest.skip(1);
        if rest.len() == 1 {
            assert(spec_join_commas(rest) == rest[0]);
            assert(segs.len() == 1);
            assert(spec_join_commas(segs) == seq![s[0]] + rest[0]);
            assert(spec_join_commas(segs) =~= s);
        } else {
            assert(segs.skip(1) =~= rest.skip(1));
            assert(segs.len() >= 2);
            assert(spec_join_commas(segs) == segs[0] + seq![','] + spec_join_commas(
                segs.skip(1),
            ));
            assert(segs[0] == seq![s[0]] + rest[0]);
            assert(spec_join_commas(rest) == rest[0] + seq![','] + spec_join_commas(
                rest.skip(1),
            ));
            assert(rest[0] + seq![','] + spec_join_commas(rest.skip(1)) == s.skip(1));
            assert(spec_join_commas(segs) =~= seq![s[0]] + s.skip(1));
            assert(seq![s[0]] + s.skip(1) =~= s);
        }
    }
}

/// No segment of a comma split contains a comma.
pub proof fn lemma_split_commas_no_comma(s: Seq<char>)
    ensures
        forall|i: int|
            0 <= i < spec_split_commas(s).len() ==> !(#[trigger] spec_split_commas(
                s,
            )[i]).contains(','),
    decreases s.len(),
{
    if s.len() == 0 {
        let segs = spec_split_commas(s);
        assert(segs[0].len() == 0);
        assert(!segs[0].contains(','));
    } else if s[0] == ',' {
        lemma_split_commas_no_comma(s.skip(1));
        let rest = spec_split_commas(s.skip(1));
        let segs = seq![Seq::<char>::empty()] + rest;
        assert(spec_split_commas(s) == segs);
        assert forall|i: int| 0 <= i < segs.len() implies !(#[trigger] segs[i]).contains(',') by {
            if i == 0 {
                assert(segs[i].len() == 0);
            } else {
                assert(segs[i] == rest[i - 1]);
                assert(!rest[i - 1].contains(','));
            }
        }
    } else {
        lemma_split_commas_no_comma(s.skip(1));
        let rest = spec_split_commas(s.skip(1));
        lemma_split_commas_len_pos(s.skip(1));
        let first = seq![s[0]] + rest[0];
        let segs = seq![first] + rest.skip(1);
        assert(spec_split_commas(s) == segs);
        assert(!rest[0].contains(','));
        assert forall|j: int| 0 <= j < first.len() implies first[j] != ',' by {
            if j > 0 {
                assert(first[j] == rest[0][j - 1]);
                assert(!rest[0].contains(','));
            }
        }
        assert forall|i: int| 0 <= i < segs.len() implies !(#[trigger] segs[i]).contains(',') by {
            if i == 0 {
                assert(segs[i] == first);
                if segs[i].contains(',') {
                    let w = choose|j: int| 0 <= j < first.len() && first[j] == ',';
                    assert(first[w] != ',');
                }
            } else {
                assert(segs[i] == rest[i]);
                assert(!rest[i].contains(','));
            }
        }
    }
}

/// Index of the first occurrence of `c` in `s`, or the length of `s`.
pub open spec fn spec_first_index(s: Seq<char>, c: char) -> int
    decreases s.len(),
{
    if s.len() == 0 {
        0
    } else if s[0] == c {
        0
    } else {
        1 + spec_first_index(s.skip(1), c)
    }
}

/// The first index is within bounds, everything before it differs from
/// `c`, and it holds `c` unless `c` is absent.
pub proof fn lemma_first_index_props(s: Seq<char>, c: char)
    ensures
        0 <= spec_first_index(s, c) <= s.len(),
        forall|j: int| 0 <= j < spec_first_index(s, c) ==> s[j] != c,
        spec_first_index(s, c) < s.len() ==> s[spec_first_index(s, c)] == c,
    decreases s.len(),
{
    if s.len() > 0 && s[0] != c {
        lemma_first_index_props(s.skip(1), c);
        assert forall|j: int| 0 <= j < spec_first_index(s, c) implies s[j] != c by {
            if j > 0 {
                assert(s.skip(1)[j - 1] != c);
            }
        }
    }
}

/// Conversely, a position with no `c` before it and `c` at it (or the
/// end, with no `c` at all) is the first index.
pub proof fn lemma_first_index_at(s: Seq<char>, c: char, k: int)
    requires
        0 <= k <= s.len(),
        forall|j: int| 0 <= j < k ==> s[j] != c,
        k < s.len() ==> s[k] == c,
    ensures
        spec_first_index(s, c) == k,
    decreases k,
{
    if k == 0 {
        if s.len() > 0 && s[0] != c {
            lemma_first_index_props(s.skip(1), c);
        }
    } else {
        assert(s[0] != c);
        lemma_first_index_at(s.skip(1), c, k - 1);
    }
}

/// Finds the first occurrence of `c` in `s`, scanning left to right.
pub fn find_char(s: &str, c: char) -> (i: usize)
    ensures
        i == spec_first_index(s@, c),
        i <= s@.len(),
{
    let n = s.unicode_len();
    let mut i: usize = 0;
    while i < n
        invariant
            0 <= i <= n,
            n == s@.len(),
            forall|j: int| 0 <= j < i ==> s@[j] != c,
        decreases n - i,
    {
        if s.get_char(i) == c {
            proof {
                lemma_first_index_at(s@, c, i as int);
            }
            return i;
        }
        i = i + 1;
    }
    proof {
        lemma_first_index_at(s@, c, n as int);
    }
    n
}

/// True when `c` counts as blank for trimming.
pub open spec fn is_space(c: char) -> bool {
    c == ' ' || c == '\t'
}

/// `s` with leading blanks removed.
pub open spec fn spec_trim_start(s: Seq<char>) -> Seq<char>
    decreases s.len(),
{
    if s.len() > 0 && is_space(s[0]) {
        spec_trim_start(s.skip(1))
    } else {
        s
    }
}

/// `s` with trailing blanks removed.
pub open spec fn spec_trim_end(s: Seq<char>) -> Seq<char>
    decreases s.len(),
{
    if s.len() > 0 && is_space(s.last()) {
        spec_trim_end(s.drop_last())
    } else {
        s
    }
}

/// `s` with leading and trailing blanks removed.
pub open spec fn spec_trim(s: Seq<char>) -> Seq<char> {
    spec_trim_end(spec_trim_start(s))
}

proof fn lemma_trim_start_at(s: Seq<char>, a: int)
    requires
        0 <= a <= s.len(),
        forall|j: int| 0 <= j < a ==> is_space(s[j]),
        a < s.len() ==> !is_space(s[a]),
    ensures
        spec_trim_start(s) == s.skip(a),
    decreases a,
{
    if a == 0 {
        assert(s.skip(0) =~= s);
    } else {
        lemma_trim_start_at(s.skip(1), a - 1);
        assert(s.skip(1).skip(a - 1) =~= s.skip(a));
    }
}

proof fn lemma_trim_end_at(s: Seq<char>, b: int)
    requires
        0 <= b <= s.len(),
        forall|j: int| b <= j < s.len() ==> is_space(s[j]),
        b > 0 ==> !is_space(s[b - 1]),
    ensures
        spec_trim_end(s) == s.take(b),
    decreases s.len() - b,
{
    if b == s.len() {
        assert(s.take(b) =~= s);
        if s.len() > 0 {
            assert(!is_space(s.last()));
        }
    } else {
        assert(is_space(s.last()));
        lemma_trim_end_at(s.drop_last(), b);
        assert(s.drop_last().take(b) =~= s.take(b));
    }
}

/// Removes leading and trailing blanks from `s`.
pub fn trim_str(s: &str) -> (r: String)
    ensures
        r@ == spec_trim(s@),
{
    let n = s.unicode_len();
    let mut a: usize = 0;
    while a < n && (s.get_char(a) == ' ' || s.get_char(a) == '\t')
        invariant
            0 <= a <= n,
            n == s@.len(),
            forall|j: int| 0 <= j < a ==> is_space(s@[j]),
        decreases n - a,
    {
        a = a + 1;
    }
    proof {
        lemma_trim_start_at(s@, a as int);
    }
    let mut b: usize = n;
    while b > a && (s.get_char(b - 1) == ' ' || s.get_char(b - 1) == '\t')
        invariant
            a <= b <= n,
            n == s@.len(),
            forall|j: int| b <= j < n ==> is_space(s@[j]),
        decreases b,
    {
        b = b - 1;
    }
    proof {
        let t = s@.skip(a as int);
        lemma_trim_end_at(t, b - a as int);
        assert(t.take(b - a as int) =~= s@.subrange(a as int, b as int));
    }
    String::from_str(s.substring_char(a, b))
}

/// True when `s` begins with the characters of `p`.
pub fn str_starts_with(s: &str, p: &str) -> (r: bool)
    ensures
        r == (p@.len() <= s@.len() && s@.take(p@.len() as int) == p@),
{
    let pn = p.unicode_len();
    let n = s.unicode_len();
    if pn > n {
        return false;
    }
    let mut i: usize = 0;
    while i < pn
        invariant
            0 <= i <= pn <= n,
            n == s@.len(),
            pn == p@.len(),
            forall|j: int| 0 <= j < i ==> s@[j] == p@[j],
        decreases pn - i,
    {
        if s.get_char(i) != p.get_char(i) {
            proof {
                assert(s@.take(pn as int)[i as int] != p@[i as int]);
            }
            return false;
        }
        i = i + 1;
    }
    proof {
        assert(s@.take(pn as int) =~= p@);
    }
    true
}

/// A string that contains a comma splits into at least two segments.
pub proof fn lemma_split_commas_at_least_two(s: Seq<char>)
    requires
        s.contains(','),
    ensures
        spec_split_commas(s).len() >= 2,
{
    let k = spec_first_index(s, ',');
    lemma_first_index_props(s, ',');
    let w = choose|i: int| 0 <= i < s.len() && s[i] == ',';
    assert(k < s.len());
    lemma_split_commas_seg(s, k);
    lemma_split_commas_len_pos(s.skip(k + 1));
}

/// Splits `s` at every comma, keeping empty segments.
pub fn split_commas(s: &str) -> (r: Vec<String>)
    ensures
        r.deep_view() == spec_split_commas(s@),
{
    let n = s.unicode_len();
    let mut r: Vec<String> = Vec::new();
    let mut seg_start: usize = 0;
    let mut i: usize = 0;
    proof {
        assert(s@.skip(0) =~= s@);
        assert(r.deep_view() =~= Seq::<Seq<char>>::empty());
        assert(r.deep_view() + spec_split_commas(s@) =~= spec_split_commas(s@));
    }
    while i < n
        invariant
            0 <= seg_start <= i <= n,
            n == s@.len(),
            forall|j: int| seg_start <= j < i ==> s@[j] != ',',
            r.deep_view() + spec_split_commas(s@.skip(seg_start as int)) == spec_split_commas(s@),
        decreases n - i,
    {
        if s.get_char(i) == ',' {
            let seg = s.substring_char(seg_start, i);
            proof {
                let tail = s@.skip(seg_start as int);
                lemma_split_commas_seg(tail, i - seg_start);
                assert(tail.take(i - seg_start) =~= s@.subrange(seg_start as int, i as int));
                assert(tail.skip(i - seg_start + 1) =~= s@.skip(i + 1));
            }
            let owned: String = String::from_str(seg);
            r.push(owned);
            proof {
                assert(r.deep_view() + spec_split_commas(s@.skip(i + 1)) =~= spec_split_commas(
                    s@,
                ));
            }
            seg_start = i + 1;
        }
        i = i + 1;
    }
    let seg = s.substring_char(seg_start, n);
    proof {
        let tail = s@.skip(seg_start as int);
        lemma_split_commas_seg(tail, n - seg_start);
        assert(tail =~= s@.subrange(seg_start as int, n as int));
    }
    let owned: String = String::from_str(seg);
    r.push(owned);
    proof {
        assert(r.deep_view() =~= spec_split_commas(s@));
    }
    r
}

} // verus!
