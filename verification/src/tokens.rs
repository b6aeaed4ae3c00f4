//! Tokenizing task descriptions and experience text into sets of search terms.

use vstd::prelude::*;
use vstd::utf8::encode_utf8;
use crate::text::{
    alphanumeric, compare_text, is_alphanumeric, lemma_text_before_irreflexive,
    lemma_text_before_transitive, lowercase, lowercase_of, text_before, text_eq, trim, trimmed,
    views, TextOrder, ascii_lower, ascii_lower_char, is_ascii_alphanumeric, is_ascii_text,
    lemma_trimmed_ascii, trim_back, trim_front, joined,
};

verus! {

/// The state of `str::split` on non-alphanumeric characters after reading a
/// text: the pieces already closed, and the piece still open.
pub open spec fn split_state(s: Seq<char>) -> (Seq<Seq<char>>, Seq<char>)
    decreases s.len(),
{
    if s.len() == 0 {
        (Seq::empty(), Seq::empty())
    } else {
        let (done, cur) = split_state(s.drop_last());
        if alphanumeric(s.last()) {
            (done, cur.push(s.last()))
        } else {
            (done.push(cur), Seq::empty())
        }
    }
}

/// The pieces of a text between non-alphanumeric characters, empty ones included.
pub open spec fn pieces(s: Seq<char>) -> Seq<Seq<char>> {
    split_state(s).0.push(split_state(s).1)
}

/// A piece as a search term: trimmed and lowercased.
pub open spec fn normalized(piece: Seq<char>) -> Seq<char> {
    lowercase_of(trimmed(piece))
}

/// Terms of at most two bytes (in UTF-8, as `str::len` reports them) are too
/// short to be kept.
pub open spec fn long_enough(term: Seq<char>) -> bool {
    (encode_utf8(term).len() as usize) > 2
}

/// The term that a closed piece contributes, if it is long enough.
pub open spec fn piece_gives(piece: Seq<char>, term: Seq<char>) -> bool {
    term == normalized(piece) && long_enough(term)
}

/// The set of search terms of a text.
pub open spec fn token_set(s: Seq<char>) -> Set<Seq<char>> {
    Set::new(|t: Seq<char>| exists|i: int| 0 <= i < pieces(s).len() && #[trigger] piece_gives(pieces(s)[i], t))
}

/// The texts held by a list of strings.
pub open spec fn text_set(v: Seq<String>) -> Set<Seq<char>> {
    Set::new(|t: Seq<char>| has_text(v, t))
}

/// Some string of the list holds this text.
pub open spec fn has_text(v: Seq<String>, t: Seq<char>) -> bool {
    exists|k: int| 0 <= k < v.len() && #[trigger] v[k]@ == t
}

/// The strings of the list stand in strictly increasing text order, so no text occurs twice.
pub open spec fn strictly_sorted(v: Seq<String>) -> bool {
    forall|i: int, j: int| 0 <= i < j < v.len() ==> text_before(#[trigger] v[i]@, #[trigger] v[j]@)
}

/// Two strictly sorted lists that hold the same texts hold them in the same
/// order: a set of texts has one sorted listing.
pub proof fn lemma_sorted_listing_unique(a: Seq<String>, b: Seq<String>)
    requires
        strictly_sorted(a),
        strictly_sorted(b),
        text_set(a) == text_set(b),
    ensures
        views(a) == views(b),
    decreases a.len(),
{
    if a.len() == 0 || b.len() == 0 {
        if a.len() > 0 {
            assert(text_set(a).contains(a[0]@));
        }
        if b.len() > 0 {
            assert(text_set(b).contains(b[0]@));
        }
        assert(views(a) =~= views(b));
    } else {
        let x = a[0]@;
        let y = b[0]@;
        assert(text_set(a).contains(x));
        assert(text_set(b).contains(y));
        let k = choose|k: int| 0 <= k < b.len() && #[trigger] b[k]@ == x;
        let j = choose|j: int| 0 <= j < a.len() && #[trigger] a[j]@ == y;
        if x != y {
            if k > 0 && j > 0 {
                assert(text_before(b[0]@, b[k]@));
                assert(text_before(a[0]@, a[j]@));
                lemma_text_before_transitive(x, y, x);
                lemma_text_before_irreflexive(x);
            } else if k > 0 {
                assert(text_before(b[0]@, b[k]@));
                lemma_text_before_irreflexive(x);
            } else {
                assert(text_before(a[0]@, a[j]@));
                lemma_text_before_irreflexive(y);
            }
        }
        let ra = a.drop_first();
        let rb = b.drop_first();
        assert forall|t: Seq<char>| #[trigger] text_set(ra).contains(t) <==> text_set(rb).contains(t) by {
            if has_text(ra, t) {
                let i = choose|i: int| 0 <= i < ra.len() && #[trigger] ra[i]@ == t;
                assert(a[i + 1]@ == t);
                assert(text_before(a[0]@, a[i + 1]@));
                lemma_text_before_irreflexive(x);
                assert(text_set(a).contains(t));
                assert(text_set(b).contains(t));
                let m = choose|m: int| 0 <= m < b.len() && #[trigger] b[m]@ == t;
                assert(m != 0);
                assert(rb[m - 1]@ == t);
            }
            if has_text(rb, t) {
                let i = choose|i: int| 0 <= i < rb.len() && #[trigger] rb[i]@ == t;
                assert(b[i + 1]@ == t);
                assert(text_before(b[0]@, b[i + 1]@));
                lemma_text_before_irreflexive(y);
                assert(text_set(b).contains(t));
                assert(text_set(a).contains(t));
                let m = choose|m: int| 0 <= m < a.len() && #[trigger] a[m]@ == t;
                assert(m != 0);
                assert(ra[m - 1]@ == t);
            }
        }
        assert(text_set(ra) =~= text_set(rb));
        assert forall|p: int, q: int| 0 <= p < q < ra.len() implies text_before(#[trigger] ra[p]@, #[trigger] ra[q]@) by {
            assert(ra[p] == a[p + 1] && ra[q] == a[q + 1]);
        }
        assert forall|p: int, q: int| 0 <= p < q < rb.len() implies text_before(#[trigger] rb[p]@, #[trigger] rb[q]@) by {
            assert(rb[p] == b[p + 1] && rb[q] == b[q + 1]);
        }
        lemma_sorted_listing_unique(ra, rb);
        assert(views(a) =~= seq![x] + views(ra));
        assert(views(b) =~= seq![y] + views(rb));
    }
}

/// The state of splitting a text on characters other than ASCII letters and
/// digits: the pieces already closed, and the piece still open.
pub open spec fn ascii_split_state(s: Seq<char>) -> (Seq<Seq<char>>, Seq<char>)
    decreases s.len(),
{
    if s.len() == 0 {
        (Seq::empty(), Seq::empty())
    } else {
        let (done, cur) = ascii_split_state(s.drop_last());
        if is_ascii_alphanumeric(s.last()) {
            (done, cur.push(s.last()))
        } else {
            (done.push(cur), Seq::empty())
        }
    }
}

/// The maximal runs of ASCII letters and digits of a text, with the empty
/// pieces between neighbouring separators.
pub open spec fn ascii_pieces(s: Seq<char>) -> Seq<Seq<char>> {
    ascii_split_state(s).0.push(ascii_split_state(s).1)
}

/// The search terms of an ASCII text: its runs of letters and digits,
/// lowered, that are longer than two bytes.
pub open spec fn ascii_token_set(s: Seq<char>) -> Set<Seq<char>> {
    Set::new(|t: Seq<char>| exists|i: int| 0 <= i < ascii_pieces(s).len() && t == ascii_lower(#[trigger] ascii_pieces(s)[i]) && long_enough(t))
}

proof fn lemma_split_agrees(s: Seq<char>)
    requires
        forall|k: int| 0 <= k < s.len() ==> (alphanumeric(#[trigger] s[k]) <==> is_ascii_alphanumeric(s[k])),
    ensures
        split_state(s) == ascii_split_state(s),
    decreases s.len(),
{
    if s.len() > 0 {
        let d = s.drop_last();
        assert forall|k: int| 0 <= k < d.len() implies (alphanumeric(#[trigger] d[k]) <==> is_ascii_alphanumeric(d[k])) by {
            assert(d[k] == s[k]);
        }
        lemma_split_agrees(d);
        assert(alphanumeric(s[s.len() - 1]) <==> is_ascii_alphanumeric(s[s.len() - 1]));
    }
}

proof fn lemma_ascii_split_alphanumeric(s: Seq<char>)
    ensures
        forall|k: int, j: int| 0 <= k < ascii_split_state(s).0.len() && 0 <= j < ascii_split_state(s).0[k].len()
            ==> is_ascii_alphanumeric(#[trigger] ascii_split_state(s).0[k][j]),
        forall|j: int| 0 <= j < ascii_split_state(s).1.len() ==> is_ascii_alphanumeric(#[trigger] ascii_split_state(s).1[j]),
    decreases s.len(),
{
    if s.len() > 0 {
        let d = s.drop_last();
        let c = s.last();
        lemma_ascii_split_alphanumeric(d);
        let (done, cur) = ascii_split_state(d);
        if is_ascii_alphanumeric(c) {
            assert forall|j: int| 0 <= j < cur.push(c).len() implies is_ascii_alphanumeric(#[trigger] cur.push(c)[j]) by {
                if j < cur.len() {
                    assert(cur.push(c)[j] == cur[j]);
                }
            }
        } else {
            assert forall|k: int, j: int| 0 <= k < done.push(cur).len() && 0 <= j < done.push(cur)[k].len()
                implies is_ascii_alphanumeric(#[trigger] done.push(cur)[k][j]) by {
                if k < done.len() {
                    assert(done.push(cur)[k] == done[k]);
                } else {
                    assert(done.push(cur)[k] == cur);
                }
            }
        }
    }
}

proof fn lemma_ascii_pieces_alphanumeric(s: Seq<char>, k: int)
    requires
        0 <= k < ascii_pieces(s).len(),
    ensures
        forall|j: int| 0 <= j < ascii_pieces(s)[k].len() ==> is_ascii_alphanumeric(#[trigger] ascii_pieces(s)[k][j]),
{
    lemma_ascii_split_alphanumeric(s);
}

proof fn lemma_alphanumeric_run_trimmed(p: Seq<char>)
    requires
        forall|j: int| 0 <= j < p.len() ==> is_ascii_alphanumeric(#[trigger] p[j]),
    ensures
        trimmed(p) == p,
{
    if p.len() > 0 {
        assert(is_ascii_alphanumeric(p[0]));
        assert(is_ascii_alphanumeric(p[p.len() - 1]));
    }
    assert(trim_front(p) == p);
    assert(trim_back(p) == p);
}

/// On an ASCII text the search terms are its runs of ASCII letters and digits,
/// lowered, longer than two bytes, given how `char::is_alphanumeric` and
/// `str::to_lowercase` behave there.
proof fn lemma_ascii_token_set(s: Seq<char>)
    requires
        forall|k: int| 0 <= k < s.len() ==> (alphanumeric(#[trigger] s[k]) <==> is_ascii_alphanumeric(s[k])),
        forall|k: int| 0 <= k < pieces(s).len() ==> lowercase_of(trimmed(#[trigger] pieces(s)[k])) == ascii_lower(trimmed(pieces(s)[k])),
    ensures
        token_set(s) == ascii_token_set(s),
{
    lemma_split_agrees(s);
    assert(pieces(s) == ascii_pieces(s));
    assert forall|t: Seq<char>| token_set(s).contains(t) <==> ascii_token_set(s).contains(t) by {
        if token_set(s).contains(t) {
            let i = choose|i: int| 0 <= i < pieces(s).len() && #[trigger] piece_gives(pieces(s)[i], t);
            lemma_ascii_pieces_alphanumeric(s, i);
            lemma_alphanumeric_run_trimmed(pieces(s)[i]);
            assert(t == ascii_lower(ascii_pieces(s)[i]));
        }
        if ascii_token_set(s).contains(t) {
            let i = choose|i: int| 0 <= i < ascii_pieces(s).len() && t == ascii_lower(#[trigger] ascii_pieces(s)[i]) && long_enough(t);
            lemma_ascii_pieces_alphanumeric(s, i);
            lemma_alphanumeric_run_trimmed(pieces(s)[i]);
            assert(piece_gives(pieces(s)[i], t));
        }
    }
    assert(token_set(s) =~= ascii_token_set(s));
}

proof fn lemma_ascii_lower_char_class(c: char)
    ensures
        is_ascii_alphanumeric(ascii_lower_char(c)) == is_ascii_alphanumeric(c),
        ascii_lower_char(ascii_lower_char(c)) == ascii_lower_char(c),
{
}

proof fn lemma_split_of_lowered(s: Seq<char>)
    ensures
        ascii_split_state(ascii_lower(s)).0 == ascii_split_state(s).0.map_values(|p: Seq<char>| ascii_lower(p)),
        ascii_split_state(ascii_lower(s)).1 == ascii_lower(ascii_split_state(s).1),
    decreases s.len(),
{
    if s.len() > 0 {
        let d = s.drop_last();
        let c = s.last();
        assert(ascii_lower(s).drop_last() =~= ascii_lower(d));
        assert(ascii_lower(s).last() == ascii_lower_char(c));
        lemma_split_of_lowered(d);
        lemma_ascii_lower_char_class(c);
        let (done, cur) = ascii_split_state(d);
        assert(ascii_lower(cur.push(c)) =~= ascii_lower(cur).push(ascii_lower_char(c)));
        assert(done.push(cur).map_values(|p: Seq<char>| ascii_lower(p)) =~= done.map_values(|p: Seq<char>| ascii_lower(p)).push(ascii_lower(cur)));
        assert(ascii_lower(Seq::<char>::empty()) =~= Seq::<char>::empty());
    } else {
        assert(ascii_lower(s) =~= Seq::<char>::empty());
        assert(Seq::<Seq<char>>::empty().map_values(|p: Seq<char>| ascii_lower(p)) =~= Seq::<Seq<char>>::empty());
        assert(ascii_lower(Seq::<char>::empty()) =~= Seq::<char>::empty());
    }
}

/// Lowering a text first changes none of its terms: the terms of a text and
/// of its lowered form are the same.
pub proof fn lemma_ascii_terms_ignore_case(s: Seq<char>)
    ensures
        ascii_token_set(ascii_lower(s)) == ascii_token_set(s),
{
    lemma_split_of_lowered(s);
    let ps = ascii_pieces(s);
    let ls = ascii_pieces(ascii_lower(s));
    assert(ls.len() == ps.len());
    assert forall|i: int| 0 <= i < ps.len() implies ascii_lower(#[trigger] ls[i]) == ascii_lower(ps[i]) by {
        assert(ls[i] == ascii_lower(ps[i]));
        assert(ascii_lower(ascii_lower(ps[i])) =~= ascii_lower(ps[i])) by {
            assert forall|j: int| 0 <= j < ps[i].len() implies ascii_lower(ascii_lower(ps[i]))[j] == ascii_lower(ps[i])[j] by {
                lemma_ascii_lower_char_class(ps[i][j]);
            }
        }
    }
    assert forall|t: Seq<char>| ascii_token_set(ascii_lower(s)).contains(t) <==> ascii_token_set(s).contains(t) by {
        if ascii_token_set(ascii_lower(s)).contains(t) {
            let i = choose|i: int| 0 <= i < ls.len() && t == ascii_lower(#[trigger] ls[i]) && long_enough(t);
            assert(t == ascii_lower(ps[i]));
        }
        if ascii_token_set(s).contains(t) {
            let i = choose|i: int| 0 <= i < ps.len() && t == ascii_lower(#[trigger] ps[i]) && long_enough(t);
            assert(t == ascii_lower(ls[i]));
        }
    }
    assert(ascii_token_set(ascii_lower(s)) =~= ascii_token_set(s));
}

/// Every search term of a text is longer than two bytes and made of lowercase
/// ASCII letters and digits only: no capital, no separator.
pub proof fn lemma_ascii_term_shape(s: Seq<char>, t: Seq<char>)
    requires
        ascii_token_set(s).contains(t),
    ensures
        long_enough(t),
        forall|j: int| 0 <= j < t.len() ==> ('0' <= #[trigger] t[j] <= '9' || 'a' <= t[j] <= 'z'),
{
    let i = choose|i: int| 0 <= i < ascii_pieces(s).len() && t == ascii_lower(#[trigger] ascii_pieces(s)[i]) && long_enough(t);
    lemma_ascii_pieces_alphanumeric(s, i);
    assert forall|j: int| 0 <= j < t.len() implies ('0' <= #[trigger] t[j] <= '9' || 'a' <= t[j] <= 'z') by {
        assert(t[j] == ascii_lower_char(ascii_pieces(s)[i][j]));
        assert(is_ascii_alphanumeric(ascii_pieces(s)[i][j]));
    }
}

proof fn lemma_split_append(x: Seq<char>, y: Seq<char>)
    requires
        split_state(x).1.len() == 0,
    ensures
        split_state(x + y).0 == split_state(x).0 + split_state(y).0,
        split_state(x + y).1 == split_state(y).1,
    decreases y.len(),
{
    if y.len() == 0 {
        assert(x + y =~= x);
        assert(split_state(x).0 + Seq::<Seq<char>>::empty() =~= split_state(x).0);
        assert(split_state(x).1 =~= Seq::<char>::empty());
    } else {
        let yd = y.drop_last();
        assert((x + y).drop_last() =~= x + yd);
        assert((x + y).last() == y.last());
        lemma_split_append(x, yd);
        let (d, c) = split_state(yd);
        assert(split_state(x).0 + d.push(c) =~= (split_state(x).0 + d).push(c));
    }
}

/// Splitting a text at a character that is not alphanumeric gives the pieces
/// of the part before it followed by the pieces of the part after it.
pub proof fn lemma_pieces_around_separator(a: Seq<char>, c: char, b: Seq<char>)
    requires
        !alphanumeric(c),
    ensures
        pieces(a + seq![c] + b) == pieces(a) + pieces(b),
{
    let x = a + seq![c];
    assert(x.drop_last() =~= a);
    assert(x.last() == c);
    assert(split_state(x).0 == pieces(a));
    lemma_split_append(x, b);
    assert(pieces(a + seq![c] + b) =~= pieces(a) + pieces(b));
}

/// The terms of a text split at a separator are those of its two parts.
pub proof fn lemma_terms_around_separator(a: Seq<char>, c: char, b: Seq<char>)
    requires
        !alphanumeric(c),
    ensures
        token_set(a + seq![c] + b) == token_set(a).union(token_set(b)),
{
    lemma_pieces_around_separator(a, c, b);
    let p = pieces(a + seq![c] + b);
    assert forall|t: Seq<char>| token_set(a + seq![c] + b).contains(t) <==> token_set(a).union(token_set(b)).contains(t) by {
        if token_set(a + seq![c] + b).contains(t) {
            let i = choose|i: int| 0 <= i < p.len() && #[trigger] piece_gives(p[i], t);
            if i < pieces(a).len() {
                assert(pieces(a)[i] == p[i]);
                assert(token_set(a).contains(t));
            } else {
                assert(pieces(b)[i - pieces(a).len()] == p[i]);
                assert(token_set(b).contains(t));
            }
        }
        if token_set(a).contains(t) {
            let i = choose|i: int| 0 <= i < pieces(a).len() && #[trigger] piece_gives(pieces(a)[i], t);
            assert(p[i] == pieces(a)[i]);
        }
        if token_set(b).contains(t) {
            let i = choose|i: int| 0 <= i < pieces(b).len() && #[trigger] piece_gives(pieces(b)[i], t);
            assert(p[i + pieces(a).len()] == pieces(b)[i]);
        }
    }
    assert(token_set(a + seq![c] + b) =~= token_set(a).union(token_set(b)));
}

/// Every term of one of several texts joined with spaces is a term of the
/// joined text, spaces being separators.
pub proof fn lemma_terms_of_joined(parts: Seq<Seq<char>>, i: int)
    requires
        !alphanumeric(' '),
        0 <= i < parts.len(),
    ensures
        token_set(parts[i]).subset_of(token_set(joined(parts, " "@))),
    decreases parts.len(),
{
    reveal_strlit(" ");
    if parts.len() > 1 {
        let init = parts.drop_last();
        assert(" "@ == seq![' ']);
        assert(joined(parts, " "@) == joined(init, " "@) + seq![' '] + parts.last());
        lemma_terms_around_separator(joined(init, " "@), ' ', parts.last());
        if i < parts.len() - 1 {
            assert(init[i] == parts[i]);
            lemma_terms_of_joined(init, i);
        }
    }
}

/// Tests whether a list of strings holds a text.
pub fn holds_text(v: &Vec<String>, t: &str) -> (r: bool)
    ensures
        r == has_text(v@, t@),
{
    let mut i: usize = 0;
    while i < v.len()
        invariant
            i <= v.len(),
            forall|k: int| 0 <= k < i ==> v@[k]@ != t@,
        decreases v.len() - i,
    {
        if text_eq(v[i].as_str(), t) {
            return true;
        }
        i = i + 1;
    }
    false
}

/// Adds a text to a strictly sorted list at its place, unless it is there already.
pub fn insert_sorted(v: &mut Vec<String>, t: String)
    requires
        strictly_sorted(old(v)@),
    ensures
        strictly_sorted(final(v)@),
        forall|x: Seq<char>|
            #![trigger has_text(final(v)@, x)]
            #![trigger has_text(old(v)@, x)]
            has_text(final(v)@, x) <==> (has_text(old(v)@, x) || x == t@),
{
    let mut i: usize = 0;
    while i < v.len()
        invariant
            i <= v.len(),
            v@ == old(v)@,
            strictly_sorted(v@),
            forall|k: int| 0 <= k < i ==> text_before(#[trigger] v@[k]@, t@),
        ensures
            i <= v.len(),
            v@ == old(v)@,
            strictly_sorted(v@),
            forall|k: int| 0 <= k < i ==> text_before(#[trigger] v@[k]@, t@),
            i < v.len() ==> text_before(t@, v@[i as int]@),
        decreases v.len() - i,
    {
        match compare_text(v[i].as_str(), t.as_str()) {
            TextOrder::Before => {
                i = i + 1;
            },
            TextOrder::Same => {
                return;
            },
            TextOrder::After => {
                break;
            },
        }
    }
    let ghost before = v@;
    let ghost tv = t@;
    proof {
        assert forall|k: int| i <= k < before.len() implies text_before(tv, #[trigger] before[k]@) by {
            if k > i {
                lemma_text_before_transitive(tv, before[i as int]@, before[k]@);
            }
        }
    }
    v.insert(i, t);
    proof {
        let after = v@;
        assert forall|a: int, b: int| 0 <= a < b < after.len() implies text_before(
            #[trigger] after[a]@,
            #[trigger] after[b]@,
        ) by {
            if b < i {
                assert(after[a] == before[a] && after[b] == before[b]);
            } else if b == i {
                assert(after[a] == before[a]);
            } else if a < i {
                assert(after[a] == before[a] && after[b] == before[b - 1]);
                lemma_text_before_transitive(before[a]@, tv, before[b - 1]@);
            } else if a == i {
                assert(after[b] == before[b - 1]);
            } else {
                assert(after[a] == before[a - 1] && after[b] == before[b - 1]);
            }
        }
        assert forall|x: Seq<char>| has_text(after, x) <==> (has_text(before, x) || x == tv) by {
            if has_text(after, x) {
                let k = choose|k: int| 0 <= k < after.len() && #[trigger] after[k]@ == x;
                if k < i {
                    assert(before[k]@ == x);
                } else if k > i {
                    assert(before[k - 1]@ == x);
                }
            }
            if has_text(before, x) {
                let k = choose|k: int| 0 <= k < before.len() && #[trigger] before[k]@ == x;
                if k < i {
                    assert(after[k]@ == x);
                } else {
                    assert(after[k + 1]@ == x);
                }
            }
            if x == tv {
                assert(after[i as int]@ == x);
            }
        }
    }
}


/// Adds the term a piece gives, if it gives one.
fn add_piece(terms: &mut Vec<String>, piece: &str)
    requires
        strictly_sorted(old(terms)@),
    ensures
        strictly_sorted(final(terms)@),
        forall|x: Seq<char>|
            #![trigger has_text(final(terms)@, x)]
            #![trigger has_text(old(terms)@, x)]
            #![trigger piece_gives(piece@, x)]
            has_text(final(terms)@, x) <==> (has_text(old(terms)@, x) || piece_gives(piece@, x)),
        is_ascii_text(piece@) ==> lowercase_of(trimmed(piece@)) == ascii_lower(trimmed(piece@)),
{
    proof {
        if is_ascii_text(piece@) {
            lemma_trimmed_ascii(piece@);
        }
    }
    let term = lowercase(trim(piece).as_str());
    if term.as_str().len() > 2 {
        insert_sorted(terms, term);
    }
}

proof fn lemma_split_step(s: Seq<char>, i: int)
    requires
        0 <= i < s.len(),
    ensures
        split_state(s.take(i + 1)) == (if alphanumeric(s[i]) {
            (split_state(s.take(i)).0, split_state(s.take(i)).1.push(s[i]))
        } else {
            (split_state(s.take(i)).0.push(split_state(s.take(i)).1), Seq::<char>::empty())
        }),
{
    assert(s.take(i + 1).drop_last() =~= s.take(i));
    assert(s.take(i + 1).last() == s[i]);
}

/// Splits a text into its set of search terms: the pieces between
/// non-alphanumeric characters, trimmed and lowercased, keeping those longer
/// than two bytes. The terms come sorted, each once.
pub fn tokenize(text: &str) -> (r: Vec<String>)
    ensures
        strictly_sorted(r@),
        text_set(r@) == token_set(text@),
        is_ascii_text(text@) ==> text_set(r@) == ascii_token_set(text@),
{
    let n = text.unicode_len();
    let mut terms: Vec<String> = Vec::new();
    let mut start: usize = 0;
    let mut i: usize = 0;
    assert(text@.take(0) =~= Seq::<char>::empty());
    assert(text@.subrange(0, 0) =~= Seq::<char>::empty());
    while i < n
        invariant
            n == text@.len(),
            start <= i <= n,
            strictly_sorted(terms@),
            split_state(text@.take(i as int)).1 == text@.subrange(start as int, i as int),
            forall|x: Seq<char>|
                has_text(terms@, x) <==> exists|k: int|
                    0 <= k < split_state(text@.take(i as int)).0.len() && #[trigger] piece_gives(
                        split_state(text@.take(i as int)).0[k],
                        x,
                    ),
            forall|k: int| 0 <= k < i ==> ((#[trigger] text@[k] as u32) < 0x80 ==> (alphanumeric(text@[k]) <==> is_ascii_alphanumeric(text@[k]))),
            is_ascii_text(text@) ==> forall|k: int| 0 <= k < split_state(text@.take(i as int)).0.len()
                ==> lowercase_of(trimmed(#[trigger] split_state(text@.take(i as int)).0[k]))
                    == ascii_lower(trimmed(split_state(text@.take(i as int)).0[k])),
        decreases n - i,
    {
        let c = text.get_char(i);
        let ghost old_terms = terms@;
        let ghost st = split_state(text@.take(i as int));
        proof {
            lemma_split_step(text@, i as int);
        }
        if !is_alphanumeric(c) {
            let piece = text.substring_char(start, i);
            proof {
                if is_ascii_text(text@) {
                    assert forall|j: int| 0 <= j < piece@.len() implies (#[trigger] piece@[j] as u32) < 0x80 by {
                        assert(piece@[j] == text@[start + j]);
                    }
                }
            }
            add_piece(&mut terms, piece);
            proof {
                let nst = split_state(text@.take(i + 1));
                if is_ascii_text(text@) {
                    assert forall|k: int| 0 <= k < nst.0.len() implies lowercase_of(trimmed(#[trigger] nst.0[k]))
                        == ascii_lower(trimmed(nst.0[k])) by {
                        if k < st.0.len() {
                            assert(nst.0[k] == st.0[k]);
                        }
                    }
                }
                assert(nst.0 == st.0.push(st.1));
                assert(piece@ == st.1);
                assert(nst.0[st.0.len() as int] == st.1);
                assert forall|x: Seq<char>| has_text(terms@, x) implies exists|k: int|
                    0 <= k < nst.0.len() && #[trigger] piece_gives(nst.0[k], x) by {
                    if has_text(old_terms, x) {
                        let k = choose|k: int| 0 <= k < st.0.len() && #[trigger] piece_gives(st.0[k], x);
                        assert(nst.0[k] == st.0[k]);
                        assert(piece_gives(nst.0[k], x));
                    } else {
                        assert(piece_gives(piece@, x));
                        assert(piece_gives(nst.0[st.0.len() as int], x));
                    }
                }
                assert forall|x: Seq<char>| (exists|k: int|
                    0 <= k < nst.0.len() && #[trigger] piece_gives(nst.0[k], x)) implies has_text(terms@, x) by {
                    let k = choose|k: int| 0 <= k < nst.0.len() && #[trigger] piece_gives(nst.0[k], x);
                    if k < st.0.len() {
                        assert(nst.0[k] == st.0[k]);
                        assert(piece_gives(st.0[k], x));
                        assert(has_text(old_terms, x));
                        assert(has_text(terms@, x));
                    } else {
                        assert(nst.0[k] == piece@);
                        assert(piece_gives(piece@, x));
                        assert(has_text(terms@, x));
                    }
                }
                assert(nst.1 =~= text@.subrange(i + 1, i + 1));
            }
            start = i + 1;
        } else {
            proof {
                assert(text@.subrange(start as int, i + 1) =~= text@.subrange(start as int, i as int).push(c));
                let nst = split_state(text@.take(i + 1));
                assert(nst.0 == st.0);
            }
        }
        i = i + 1;
    }
    let ghost st = split_state(text@.take(n as int));
    let ghost old_terms = terms@;
    let piece = text.substring_char(start, n);
    proof {
        if is_ascii_text(text@) {
            assert forall|j: int| 0 <= j < piece@.len() implies (#[trigger] piece@[j] as u32) < 0x80 by {
                assert(piece@[j] == text@[start + j]);
            }
        }
    }
    add_piece(&mut terms, piece);
    proof {
        assert(text@.take(n as int) =~= text@);
        let ps = pieces(text@);
        assert(ps == st.0.push(st.1));
        assert(text_set(terms@) =~= token_set(text@)) by {
            assert forall|x: Seq<char>| text_set(terms@).contains(x) <==> token_set(text@).contains(x) by {
                assert(text_set(terms@).contains(x) == has_text(terms@, x));
                if has_text(terms@, x) {
                    if has_text(old_terms, x) {
                        let k = choose|k: int| 0 <= k < st.0.len() && #[trigger] piece_gives(st.0[k], x);
                        assert(ps[k] == st.0[k]);
                        assert(piece_gives(ps[k], x));
                        assert(token_set(text@).contains(x));
                    } else {
                        assert(piece_gives(piece@, x));
                        assert(ps[st.0.len() as int] == piece@);
                        assert(piece_gives(ps[st.0.len() as int], x));
                        assert(token_set(text@).contains(x));
                    }
                }
                if token_set(text@).contains(x) {
                    let k = choose|k: int| 0 <= k < ps.len() && #[trigger] piece_gives(ps[k], x);
                    if k < st.0.len() {
                        assert(ps[k] == st.0[k]);
                        assert(has_text(old_terms, x));
                    } else {
                        assert(ps[k] == piece@);
                    }
                }
            }
        }
        if is_ascii_text(text@) {
            assert forall|k: int| 0 <= k < ps.len() implies lowercase_of(trimmed(#[trigger] ps[k])) == ascii_lower(trimmed(ps[k])) by {
                if k < st.0.len() {
                    assert(ps[k] == st.0[k]);
                } else {
                    assert(ps[k] == piece@);
                }
            }
            assert forall|k: int| 0 <= k < text@.len() implies (alphanumeric(#[trigger] text@[k]) <==> is_ascii_alphanumeric(text@[k])) by {
                assert((text@[k] as u32) < 0x80);
            }
            lemma_ascii_token_set(text@);
        }
    }
    terms
}

} // verus!
