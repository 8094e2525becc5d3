//! Parsing the extra-header configuration string.
//!
//! The outbound payload may carry extra headers supplied as `key=value`
//! pairs joined by commas. The first `=` of a pair splits the key from the
//! value, both are trimmed of surrounding whitespace, and a piece with no
//! `=` is ignored.

use vstd::prelude::*;

use crate::labels::{labels_view, Label};

verus! {

/// The whitespace characters trimmed from keys and values.
pub open spec fn is_ws(c: char) -> bool {
    c == ' ' || c == '\t' || c == '\r' || c == '\n'
}

/// Drops leading whitespace.
pub open spec fn trim_leading(s: Seq<char>) -> Seq<char>
    decreases s.len(),
{
    if s.len() > 0 && is_ws(s[0]) {
        trim_leading(s.drop_first())
    } else {
        s
    }
}

/// Drops trailing whitespace.
pub open spec fn trim_trailing(s: Seq<char>) -> Seq<char>
    decreases s.len(),
{
    if s.len() > 0 && is_ws(s.last()) {
        trim_trailing(s.drop_last())
    } else {
        s
    }
}

/// Drops whitespace from both ends.
pub open spec fn spec_trim(s: Seq<char>) -> Seq<char> {
    trim_trailing(trim_leading(s))
}

/// The first position of a character, if any.
pub open spec fn first_index(s: Seq<char>, c: char) -> Option<int>
    decreases s.len(),
{
    if s.len() == 0 {
        None
    } else if s[0] == c {
        Some(0int)
    } else {
        match first_index(s.drop_first(), c) {
            Some(i) => Some(i + 1),
            None => None,
        }
    }
}

/// The comma-separated pieces of the configuration string.
pub open spec fn split_segments(s: Seq<char>) -> Seq<Seq<char>>
    decreases s.len(),
{
    match first_index(s, ',') {
        None => seq![s],
        Some(i) => if 0 <= i < s.len() {
            seq![s.take(i)] + split_segments(s.skip(i + 1))
        } else {
            seq![s]
        },
    }
}

/// The header pair a piece denotes: key and value split at the first `=`
/// and trimmed, or nothing for a piece with no `=`.
pub open spec fn spec_pair_of(seg: Seq<char>) -> Option<(Seq<char>, Seq<char>)> {
    match first_index(seg, '=') {
        Some(i) => Some((spec_trim(seg.take(i)), spec_trim(seg.skip(i + 1)))),
        None => None,
    }
}

/// The pairs of a sequence of pieces, pieces with no `=` dropped.
pub open spec fn spec_pairs_of(segs: Seq<Seq<char>>) -> Seq<(Seq<char>, Seq<char>)>
    decreases segs.len(),
{
    if segs.len() == 0 {
        Seq::empty()
    } else {
        spec_pairs_of(segs.drop_last()) + (match spec_pair_of(segs.last()) {
            Some(p) => seq![p],
            None => Seq::empty(),
        })
    }
}

/// What parsing the configuration string yields.
pub open spec fn spec_header_pairs(s: Seq<char>) -> Seq<(Seq<char>, Seq<char>)> {
    spec_pairs_of(split_segments(s))
}

/// What `first_index` finds: the first occurrence, or a guarantee of
/// absence.
pub proof fn lemma_first_index_spec(s: Seq<char>, c: char)
    ensures
        match first_index(s, c) {
            Some(i) => 0 <= i < s.len() && s[i] == c && forall|j: int| 0 <= j < i ==> s[j] != c,
            None => forall|j: int| 0 <= j < s.len() ==> s[j] != c,
        },
    decreases s.len(),
{
    if s.len() > 0 && s[0] != c {
        lemma_first_index_spec(s.drop_first(), c);
        assert(forall|j: int| 0 < j < s.len() ==> s[j] == s.drop_first()[j - 1]);
    }
}

/// If the first `a` characters are whitespace and the next is not, the
/// leading trim drops exactly them.
proof fn lemma_trim_leading_at(s: Seq<char>, a: int)
    requires
        0 <= a <= s.len(),
        forall|k: int| 0 <= k < a ==> is_ws(#[trigger] s[k]),
        a < s.len() ==> !is_ws(s[a]),
    ensures
        trim_leading(s) == s.skip(a),
    decreases a,
{
    if a == 0 {
        assert(s.skip(0) =~= s);
    } else {
        let t = s.drop_first();
        assert(forall|k: int| 0 <= k < a - 1 ==> is_ws(#[trigger] t[k]));
        lemma_trim_leading_at(t, a - 1);
        assert(t.skip(a - 1) =~= s.skip(a));
    }
}

/// If the last characters beyond `b` are whitespace and `s[b]` is not, the
/// trailing trim keeps exactly the first `b + 1`.
proof fn lemma_trim_trailing_at(s: Seq<char>, b: int)
    requires
        -1 <= b < s.len(),
        forall|k: int| b < k < s.len() ==> is_ws(#[trigger] s[k]),
        b >= 0 ==> !is_ws(s[b]),
    ensures
        trim_trailing(s) == s.take(b + 1),
    decreases s.len(),
{
    if b == s.len() - 1 {
        assert(s.take(s.len() as int) =~= s);
    } else {
        let t = s.drop_last();
        assert(forall|k: int| b < k < t.len() ==> t[k] == s[k]);
        lemma_trim_trailing_at(t, b);
        assert(t.take(b + 1) =~= s.take(b + 1));
    }
}

/// The first position of a character in a string.
fn find_char(s: &str, c: char) -> (r: Option<usize>)
    ensures
        match r {
            Some(i) => i < s@.len() && first_index(s@, c) == Some(i as int),
            None => first_index(s@, c) is None,
        },
{
    let n = s.unicode_len();
    let mut i: usize = 0;
    while i < n
        invariant
            n == s@.len(),
            0 <= i <= n,
            forall|j: int| 0 <= j < i ==> s@[j] != c,
        decreases n - i,
    {
        if s.get_char(i) == c {
            proof {
                lemma_first_index_spec(s@, c);
            }
            return Some(i);
        }
        i += 1;
    }
    proof {
        lemma_first_index_spec(s@, c);
    }
    None
}

/// Trims whitespace from both ends of a string.
fn trim_str<'a>(s: &'a str) -> (r: &'a str)
    ensures
        r@ == spec_trim(s@),
{
    let n = s.unicode_len();
    let mut a: usize = 0;
    while a < n && is_ws_char(s.get_char(a))
        invariant
            n == s@.len(),
            0 <= a <= n,
            forall|k: int| 0 <= k < a ==> is_ws(#[trigger] s@[k]),
        decreases n - a,
    {
        a += 1;
    }
    proof {
        lemma_trim_leading_at(s@, a as int);
    }
    if a == n {
        let r = s.substring_char(a, n);
        proof {
            assert(r@ =~= s@.skip(a as int));
            assert(trim_trailing(s@.skip(a as int)) == s@.skip(a as int));
        }
        return r;
    }
    let mut b: usize = n - 1;
    while b > a && is_ws_char(s.get_char(b))
        invariant
            n == s@.len(),
            0 <= a <= b < n,
            forall|k: int| 0 <= k < a ==> is_ws(#[trigger] s@[k]),
            forall|k: int| b < k < n ==> is_ws(#[trigger] s@[k]),
        decreases b,
    {
        b -= 1;
    }
    let r = s.substring_char(a, b + 1);
    proof {
        let t = s@.skip(a as int);
        assert(!is_ws(s@[a as int]));
        if is_ws(s@[b as int]) {
            assert(b == a);
            assert(false);
        }
        assert(forall|k: int| (b - a) < k < t.len() ==> t[k] == s@[k + a] && is_ws(#[trigger] t[k]));
        assert(t[b - a] == s@[b as int]);
        lemma_trim_trailing_at(t, b - a);
        assert(r@ =~= s@.subrange(a as int, b + 1));
        assert(t.take(b - a + 1) =~= s@.subrange(a as int, b + 1));
    }
    r
}

/// Whether a character is trimmed whitespace.
fn is_ws_char(c: char) -> (r: bool)
    ensures
        r == is_ws(c),
{
    c == ' ' || c == '\t' || c == '\r' || c == '\n'
}

/// Appends the pair of one piece, if the piece holds an `=`.
fn parse_segment(seg: &str, out: &mut Vec<Label>)
    ensures
        labels_view(final(out)@) == labels_view(old(out)@) + (match spec_pair_of(seg@) {
            Some(p) => seq![p],
            None => Seq::<(Seq<char>, Seq<char>)>::empty(),
        }),
{
    let n = seg.unicode_len();
    match find_char(seg, '=') {
        Some(i) => {
            let key = trim_str(seg.substring_char(0, i));
            let value = trim_str(seg.substring_char(i + 1, n));
            proof {
                assert(seg@.subrange(0, i as int) =~= seg@.take(i as int));
                assert(seg@.subrange(i + 1, n as int) =~= seg@.skip(i + 1));
            }
            let ghost before = labels_view(out@);
            out.push(Label { key: key.to_owned(), value: value.to_owned() });
            proof {
                assert(labels_view(out@) =~= before + seq![
                    (spec_trim(seg@.take(i as int)), spec_trim(seg@.skip(i + 1))),
                ]);
            }
        },
        None => {
            proof {
                assert(labels_view(out@) =~= labels_view(out@) + Seq::<
                    (Seq<char>, Seq<char>),
                >::empty());
            }
        },
    }
}

/// The pieces of the string are processed left to right; recursion follows
/// the splitting of the spec.
fn parse_pieces(s: &str, out: &mut Vec<Label>)
    ensures
        labels_view(final(out)@) == labels_view(old(out)@) + spec_pairs_of(split_segments(s@)),
    decreases s@.len(),
{
    let n = s.unicode_len();
    match find_char(s, ',') {
        None => {
            parse_segment(s, out);
            proof {
                assert(split_segments(s@) == seq![s@]);
                assert(seq![s@].drop_last() =~= Seq::<Seq<char>>::empty());
                assert(spec_pairs_of(Seq::<Seq<char>>::empty()) =~= Seq::<
                    (Seq<char>, Seq<char>),
                >::empty());
                assert(spec_pairs_of(split_segments(s@)) =~= match spec_pair_of(s@) {
                    Some(p) => seq![p],
                    None => Seq::<(Seq<char>, Seq<char>)>::empty(),
                });
            }
        },
        Some(i) => {
            let head = s.substring_char(0, i);
            let tail = s.substring_char(i + 1, n);
            proof {
                assert(head@ =~= s@.take(i as int));
                assert(tail@ =~= s@.skip(i + 1));
            }
            let ghost before = labels_view(out@);
            parse_segment(head, out);
            parse_pieces(tail, out);
            proof {
                lemma_pairs_of_concat(seq![s@.take(i as int)], split_segments(s@.skip(i + 1)));
                assert(seq![s@.take(i as int)].drop_last() =~= Seq::<Seq<char>>::empty());
                assert(spec_pairs_of(Seq::<Seq<char>>::empty()) =~= Seq::<
                    (Seq<char>, Seq<char>),
                >::empty());
                assert(spec_pairs_of(seq![s@.take(i as int)]) =~= match spec_pair_of(
                    s@.take(i as int),
                ) {
                    Some(p) => seq![p],
                    None => Seq::<(Seq<char>, Seq<char>)>::empty(),
                });
                assert(labels_view(out@) =~= before + spec_pairs_of(split_segments(s@)));
            }
        },
    }
}

/// Splitting the pair extraction over a concatenation of piece lists.
proof fn lemma_pairs_of_concat(xs: Seq<Seq<char>>, ys: Seq<Seq<char>>)
    ensures
        spec_pairs_of(xs + ys) == spec_pairs_of(xs) + spec_pairs_of(ys),
    decreases ys.len(),
{
    if ys.len() == 0 {
        assert(xs + ys =~= xs);
        assert(spec_pairs_of(xs) + spec_pairs_of(ys) =~= spec_pairs_of(xs));
    } else {
        lemma_pairs_of_concat(xs, ys.drop_last());
        assert((xs + ys).drop_last() =~= xs + ys.drop_last());
        assert((xs + ys).last() == ys.last());
        assert(spec_pairs_of(xs + ys) =~= spec_pairs_of(xs) + spec_pairs_of(ys));
    }
}

/// Parses the extra-header configuration string into key/value pairs:
/// comma-separated pieces, each split at its first `=` into a trimmed key
/// and value; a piece with no `=` is ignored.
pub fn parse_header_pairs(headers: &str) -> (r: Vec<Label>)
    ensures
        labels_view(r@) == spec_header_pairs(headers@),
{
    let mut out: Vec<Label> = Vec::new();
    proof {
        assert(labels_view(out@) =~= Seq::<(Seq<char>, Seq<char>)>::empty());
    }
    parse_pieces(headers, &mut out);
    out
}

} // verus!
