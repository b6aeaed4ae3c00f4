//! Text primitives shared by the memory model, the recall ranking and the renderers.

use vstd::prelude::*;

verus! {

/// The characters carrying the Unicode `White_Space` property, which is what
/// `char::is_whitespace` tests.
pub open spec fn is_white_space(c: char) -> bool {
    let u = c as u32;
    ||| 0x9 <= u <= 0xd
    ||| u == 0x20
    ||| u == 0x85
    ||| u == 0xa0
    ||| u == 0x1680
    ||| 0x2000 <= u <= 0x200a
    ||| u == 0x2028
    ||| u == 0x2029
    ||| u == 0x202f
    ||| u == 0x205f
    ||| u == 0x3000
}

/// Tests one character for the Unicode `White_Space` property.
pub fn char_is_whitespace(c: char) -> (b: bool)
    ensures
        b == is_white_space(c),
{
    let u = c as u32;
    (0x9 <= u && u <= 0xd) || u == 0x20 || u == 0x85 || u == 0xa0 || u == 0x1680 || (0x2000 <= u
        && u <= 0x200a) || u == 0x2028 || u == 0x2029 || u == 0x202f || u == 0x205f || u == 0x3000
}

/// The text without its leading white space.
pub open spec fn trim_front(s: Seq<char>) -> Seq<char>
    decreases s.len(),
{
    if s.len() > 0 && is_white_space(s[0]) {
        trim_front(s.drop_first())
    } else {
        s
    }
}

/// The text without its trailing white space.
pub open spec fn trim_back(s: Seq<char>) -> Seq<char>
    decreases s.len(),
{
    if s.len() > 0 && is_white_space(s.last()) {
        trim_back(s.drop_last())
    } else {
        s
    }
}

/// What `str::trim` leaves of a text: no white space at either end.
pub open spec fn trimmed(s: Seq<char>) -> Seq<char> {
    trim_back(trim_front(s))
}

proof fn lemma_trim_front_skip(s: Seq<char>, i: int)
    requires
        0 <= i <= s.len(),
        forall|k: int| 0 <= k < i ==> is_white_space(#[trigger] s[k]),
    ensures
        trim_front(s) == trim_front(s.subrange(i, s.len() as int)),
    decreases i,
{
    if i > 0 {
        assert(s.drop_first() =~= s.subrange(1, s.len() as int));
        lemma_trim_front_skip(s.drop_first(), i - 1);
        assert(s.drop_first().subrange(i - 1, s.drop_first().len() as int) =~= s.subrange(
            i,
            s.len() as int,
        ));
    } else {
        assert(s.subrange(0, s.len() as int) =~= s);
    }
}

proof fn lemma_trim_back_cut(s: Seq<char>, j: int)
    requires
        0 <= j <= s.len(),
        forall|k: int| j <= k < s.len() ==> is_white_space(#[trigger] s[k]),
    ensures
        trim_back(s) == trim_back(s.subrange(0, j)),
    decreases s.len() - j,
{
    if j < s.len() {
        assert(s.drop_last() =~= s.subrange(0, s.len() - 1));
        lemma_trim_back_cut(s.drop_last(), j);
        assert(s.drop_last().subrange(0, j) =~= s.subrange(0, j));
    } else {
        assert(s.subrange(0, j) =~= s);
    }
}

/// Returns the text with white space removed from both ends, as `str::trim` does.
pub fn trim(s: &str) -> (r: String)
    ensures
        r@ == trimmed(s@),
{
    let n = s.unicode_len();
    let mut i: usize = 0;
    while i < n && char_is_whitespace(s.get_char(i))
        invariant
            n == s@.len(),
            i <= n,
            forall|k: int| 0 <= k < i ==> is_white_space(#[trigger] s@[k]),
        decreases n - i,
    {
        i = i + 1;
    }
    let mut j: usize = n;
    while j > i && char_is_whitespace(s.get_char(j - 1))
        invariant
            n == s@.len(),
            i <= j <= n,
            forall|k: int| j <= k < n ==> is_white_space(#[trigger] s@[k]),
        decreases j - i,
    {
        j = j - 1;
    }
    let sub = s.substring_char(i, j);
    proof {
        lemma_trim_front_skip(s@, i as int);
        let rest = s@.subrange(i as int, n as int);
        assert(trim_front(rest) == rest);
        lemma_trim_back_cut(rest, (j - i) as int);
        assert(rest.subrange(0, (j - i) as int) =~= s@.subrange(i as int, j as int));
        let kept = s@.subrange(i as int, j as int);
        assert(trim_back(kept) == kept);
    }
    String::from_str(sub)
}

/// Returns the text with trailing white space removed, as `str::trim_end` does.
pub fn trim_end(s: &str) -> (r: String)
    ensures
        r@ == trim_back(s@),
{
    let n = s.unicode_len();
    let mut j: usize = n;
    while j > 0 && char_is_whitespace(s.get_char(j - 1))
        invariant
            n == s@.len(),
            j <= n,
            forall|k: int| j <= k < n ==> is_white_space(#[trigger] s@[k]),
        decreases j,
    {
        j = j - 1;
    }
    proof {
        lemma_trim_back_cut(s@, j as int);
        assert(trim_back(s@.subrange(0, j as int)) == s@.subrange(0, j as int));
    }
    String::from_str(s.substring_char(0, j))
}

/// Tests two texts for equality, character by character.
pub fn text_eq(a: &str, b: &str) -> (r: bool)
    ensures
        r == (a@ == b@),
{
    let n = a.unicode_len();
    let m = b.unicode_len();
    if n != m {
        return false;
    }
    let mut i: usize = 0;
    while i < n
        invariant
            n == a@.len(),
            m == b@.len(),
            n == m,
            i <= n,
            forall|k: int| 0 <= k < i ==> a@[k] == b@[k],
        decreases n - i,
    {
        if a.get_char(i) != b.get_char(i) {
            return false;
        }
        i = i + 1;
    }
    assert(a@ =~= b@);
    true
}


/// Lexicographic order on texts by code point, which is the order `String`'s
/// comparison gives (UTF-8 preserves code-point order): `a` comes strictly before `b`.
pub open spec fn text_before(a: Seq<char>, b: Seq<char>) -> bool {
    exists|i: int| #[trigger] first_difference(a, b, i)
}

/// `i` is where `a` and `b` first part ways, `a` taking the smaller side.
pub open spec fn first_difference(a: Seq<char>, b: Seq<char>, i: int) -> bool {
    &&& 0 <= i <= a.len()
    &&& i < b.len()
    &&& forall|k: int| 0 <= k < i ==> a[k] == b[k]
    &&& (i == a.len() || (a[i] as int) < (b[i] as int))
}

/// No text comes before itself.
pub proof fn lemma_text_before_irreflexive(a: Seq<char>)
    ensures
        !text_before(a, a),
{
    if text_before(a, a) {
        let i = choose|i: int| #[trigger] first_difference(a, a, i);
    }
}

/// The order on texts is transitive.
pub proof fn lemma_text_before_transitive(a: Seq<char>, b: Seq<char>, c: Seq<char>)
    requires
        text_before(a, b),
        text_before(b, c),
    ensures
        text_before(a, c),
{
    let i = choose|i: int| #[trigger] first_difference(a, b, i);
    let j = choose|j: int| #[trigger] first_difference(b, c, j);
    let m = if i <= j { i } else { j };
    assert(first_difference(a, c, m));
}

/// Any two distinct texts are ordered one way or the other.
pub proof fn lemma_text_before_total(a: Seq<char>, b: Seq<char>)
    requires
        a != b,
    ensures
        text_before(a, b) || text_before(b, a),
{
    let n = if a.len() <= b.len() { a.len() } else { b.len() };
    if forall|k: int| 0 <= k < n ==> a[k] == b[k] {
        if a.len() < b.len() {
            assert(first_difference(a, b, a.len() as int));
        } else if b.len() < a.len() {
            assert(first_difference(b, a, b.len() as int));
        } else {
            assert(a =~= b);
        }
    } else {
        let k0 = choose|k: int| 0 <= k < n && a[k] != b[k];
        lemma_first_mismatch(a, b, k0);
    }
}

proof fn lemma_first_mismatch(a: Seq<char>, b: Seq<char>, k0: int)
    requires
        0 <= k0 < a.len(),
        k0 < b.len(),
        a[k0] != b[k0],
    ensures
        text_before(a, b) || text_before(b, a),
    decreases k0,
{
    if exists|k: int| 0 <= k < k0 && a[k] != b[k] {
        let k1 = choose|k: int| 0 <= k < k0 && a[k] != b[k];
        lemma_first_mismatch(a, b, k1);
    } else if (a[k0] as int) < (b[k0] as int) {
        assert(first_difference(a, b, k0));
    } else {
        assert((b[k0] as int) != (a[k0] as int));
        assert(first_difference(b, a, k0));
    }
}

/// Where one text stands against another.
#[derive(PartialEq, Eq, Structural, Clone, Copy, Debug)]
pub enum TextOrder {
    Before,
    Same,
    After,
}

/// Compares two texts in code-point order.
pub fn compare_text(a: &str, b: &str) -> (r: TextOrder)
    ensures
        r == TextOrder::Before <==> text_before(a@, b@),
        r == TextOrder::Same <==> a@ == b@,
        r == TextOrder::After <==> text_before(b@, a@),
{
    let n = a.unicode_len();
    let m = b.unicode_len();
    let mut i: usize = 0;
    while i < n && i < m && a.get_char(i) == b.get_char(i)
        invariant
            n == a@.len(),
            m == b@.len(),
            i <= n,
            i <= m,
            forall|k: int| 0 <= k < i ==> a@[k] == b@[k],
        decreases n - i,
    {
        i = i + 1;
    }
    proof {
        lemma_text_before_irreflexive(a@);
        lemma_text_before_irreflexive(b@);
    }
    if i == n && i == m {
        assert(a@ =~= b@);
        TextOrder::Same
    } else if i == n {
        assert(first_difference(a@, b@, i as int));
        proof {
            if text_before(b@, a@) {
                lemma_text_before_transitive(a@, b@, a@);
            }
        }
        TextOrder::Before
    } else if i == m {
        assert(first_difference(b@, a@, i as int));
        proof {
            if text_before(a@, b@) {
                lemma_text_before_transitive(a@, b@, a@);
            }
        }
        TextOrder::After
    } else {
        let x = a.get_char(i);
        let y = b.get_char(i);
        if (x as u32) < (y as u32) {
            assert(first_difference(a@, b@, i as int));
            proof {
                if text_before(b@, a@) {
                    lemma_text_before_transitive(a@, b@, a@);
                }
            }
            TextOrder::Before
        } else {
            assert(first_difference(b@, a@, i as int));
            proof {
                if text_before(a@, b@) {
                    lemma_text_before_transitive(a@, b@, a@);
                }
            }
            TextOrder::After
        }
    }
}

/// Texts joined with a separator between consecutive ones, as `[String]::join` does.
pub open spec fn joined(parts: Seq<Seq<char>>, sep: Seq<char>) -> Seq<char>
    decreases parts.len(),
{
    if parts.len() == 0 {
        Seq::empty()
    } else if parts.len() == 1 {
        parts[0]
    } else {
        joined(parts.drop_last(), sep) + sep + parts.last()
    }
}

/// The views of a list of strings.
pub open spec fn views(v: Seq<String>) -> Seq<Seq<char>> {
    v.map_values(|s: String| s@)
}

/// Joins strings with a separator between consecutive ones.
pub fn join(parts: &Vec<String>, sep: &str) -> (r: String)
    ensures
        r@ == joined(views(parts@), sep@),
{
    let mut out = String::new();
    let mut i: usize = 0;
    while i < parts.len()
        invariant
            i <= parts.len(),
            out@ == joined(views(parts@.take(i as int)), sep@),
        decreases parts.len() - i,
    {
        let ghost before = views(parts@.take(i as int));
        if i > 0 {
            out.append(sep);
        }
        out.append(parts[i].as_str());
        proof {
            let now = views(parts@.take(i + 1));
            assert(now.drop_last() =~= before);
            assert(now.last() == parts@[i as int]@);
            if i == 0 {
                assert(now =~= seq![parts@[0]@]);
            }
        }
        i = i + 1;
    }
    assert(parts@.take(parts.len() as int) =~= parts@);
    out
}

/// Copies a list of strings.
pub fn clone_strings(v: &Vec<String>) -> (r: Vec<String>)
    ensures
        r@ == v@,
{
    let mut out: Vec<String> = Vec::new();
    let mut i: usize = 0;
    while i < v.len()
        invariant
            i <= v.len(),
            out@ == v@.take(i as int),
        decreases v.len() - i,
    {
        out.push(v[i].clone());
        assert(out@ =~= v@.take(i + 1));
        i = i + 1;
    }
    assert(v@.take(v.len() as int) =~= v@);
    out
}

/// The text an optional string contributes: itself, or nothing.
pub open spec fn opt_text(o: Option<String>) -> Seq<char> {
    match o {
        Some(s) => s@,
        None => Seq::empty(),
    }
}

/// The decimal digits of a number, most significant first, without leading zeros
/// (zero itself is "0").
pub open spec fn decimal(n: nat) -> Seq<char>
    decreases n,
{
    if n < 10 {
        seq![digit_char(n)]
    } else {
        decimal(n / 10) + seq![digit_char(n % 10)]
    }
}

/// The decimal text of a number has one digit below ten, two below a
/// hundred and at least three from there on, and starts with a zero only
/// for zero itself.
pub proof fn lemma_decimal_shape(n: nat)
    ensures
        n < 10 ==> decimal(n).len() == 1,
        10 <= n < 100 ==> decimal(n).len() == 2,
        n >= 100 ==> decimal(n).len() >= 3,
        decimal(n).len() >= 1,
        n >= 1 ==> decimal(n)[0] != '0',
    decreases n,
{
    if n >= 10 {
        lemma_decimal_shape(n / 10);
    }
}

/// Different numbers have different decimal texts.
pub proof fn lemma_decimal_injective(a: nat, b: nat)
    requires
        decimal(a) == decimal(b),
    ensures
        a == b,
    decreases a,
{
    lemma_decimal_shape(a);
    lemma_decimal_shape(b);
    if a >= 10 && b >= 10 {
        let da = decimal(a);
        assert(da.last() == digit_char(a % 10));
        assert(decimal(b).last() == digit_char(b % 10));
        assert(decimal(a / 10) =~= da.drop_last());
        assert(decimal(b / 10) =~= decimal(b).drop_last());
        lemma_decimal_injective(a / 10, b / 10);
    } else if a < 10 && b < 10 {
        assert(decimal(a)[0] == digit_char(a));
        assert(decimal(b)[0] == digit_char(b));
    }
}

/// The character of one decimal digit.
pub open spec fn digit_char(d: nat) -> char {
    if d == 0 { '0' }
    else if d == 1 { '1' }
    else if d == 2 { '2' }
    else if d == 3 { '3' }
    else if d == 4 { '4' }
    else if d == 5 { '5' }
    else if d == 6 { '6' }
    else if d == 7 { '7' }
    else if d == 8 { '8' }
    else { '9' }
}

fn digit_text(d: u64) -> (r: &'static str)
    requires
        d < 10,
    ensures
        r@ == seq![digit_char(d as nat)],
{
    proof {
        reveal_strlit("0");
        reveal_strlit("1");
        reveal_strlit("2");
        reveal_strlit("3");
        reveal_strlit("4");
        reveal_strlit("5");
        reveal_strlit("6");
        reveal_strlit("7");
        reveal_strlit("8");
        reveal_strlit("9");
    }
    if d == 0 { "0" }
    else if d == 1 { "1" }
    else if d == 2 { "2" }
    else if d == 3 { "3" }
    else if d == 4 { "4" }
    else if d == 5 { "5" }
    else if d == 6 { "6" }
    else if d == 7 { "7" }
    else if d == 8 { "8" }
    else { "9" }
}

/// Writes a number in decimal, as `format!("{}")` does.
pub fn decimal_text(n: u64) -> (r: String)
    ensures
        r@ == decimal(n as nat),
    decreases n,
{
    if n < 10 {
        String::from_str(digit_text(n))
    } else {
        let mut head = decimal_text(n / 10);
        head.append(digit_text(n % 10));
        head
    }
}


/// Every character of the text is ASCII.
pub open spec fn is_ascii_text(s: Seq<char>) -> bool {
    forall|i: int| 0 <= i < s.len() ==> (#[trigger] s[i] as u32) < 0x80
}

/// An ASCII capital letter lowered; any other character as it is.
pub open spec fn ascii_lower_char(c: char) -> char {
    if 'A' <= c <= 'Z' {
        ((c as u32) + 32) as char
    } else {
        c
    }
}

/// The text with its ASCII capital letters lowered.
pub open spec fn ascii_lower(s: Seq<char>) -> Seq<char> {
    s.map_values(|c: char| ascii_lower_char(c))
}

/// An ASCII letter or digit.
pub open spec fn is_ascii_alphanumeric(c: char) -> bool {
    ||| '0' <= c <= '9'
    ||| 'a' <= c <= 'z'
    ||| 'A' <= c <= 'Z'
}

/// Trimming keeps a text ASCII.
pub proof fn lemma_trimmed_ascii(s: Seq<char>)
    requires
        is_ascii_text(s),
    ensures
        is_ascii_text(trimmed(s)),
{
    lemma_trim_front_ascii(s);
    lemma_trim_back_ascii(trim_front(s));
}

proof fn lemma_trim_front_ascii(s: Seq<char>)
    requires
        is_ascii_text(s),
    ensures
        is_ascii_text(trim_front(s)),
    decreases s.len(),
{
    if s.len() > 0 && is_white_space(s[0]) {
        assert(is_ascii_text(s.drop_first())) by {
            assert forall|i: int| 0 <= i < s.drop_first().len() implies (#[trigger] s.drop_first()[i] as u32) < 0x80 by {
                assert(s.drop_first()[i] == s[i + 1]);
            }
        }
        lemma_trim_front_ascii(s.drop_first());
    }
}

proof fn lemma_trim_back_ascii(s: Seq<char>)
    requires
        is_ascii_text(s),
    ensures
        is_ascii_text(trim_back(s)),
    decreases s.len(),
{
    if s.len() > 0 && is_white_space(s.last()) {
        assert(is_ascii_text(s.drop_last())) by {
            assert forall|i: int| 0 <= i < s.drop_last().len() implies (#[trigger] s.drop_last()[i] as u32) < 0x80 by {
                assert(s.drop_last()[i] == s[i]);
            }
        }
        lemma_trim_back_ascii(s.drop_last());
    }
}

/// A word of lowercase ASCII letters is its own trimmed, lowered form.
pub proof fn lemma_plain_word(w: Seq<char>)
    requires
        w.len() > 0,
        forall|i: int| 0 <= i < w.len() ==> 'a' <= #[trigger] w[i] <= 'z',
    ensures
        is_ascii_text(w),
        ascii_lower(trimmed(w)) == w,
{
    assert(!is_white_space(w[0]));
    assert(trim_front(w) == w);
    assert(!is_white_space(w.last()));
    assert(trim_back(w) == w);
    assert(ascii_lower(w) =~= w);
}

/// Lowering the trimmed text again changes nothing: an ASCII text and its
/// trimmed, lowered form are read as the same key.
pub proof fn lemma_ascii_key_normal(s: Seq<char>)
    requires
        is_ascii_text(s),
    ensures
        is_ascii_text(ascii_lower(trimmed(s))),
        ascii_lower(trimmed(ascii_lower(trimmed(s)))) == ascii_lower(trimmed(s)),
{
    lemma_trimmed_ascii(s);
    let t = trimmed(s);
    let k = ascii_lower(t);
    assert forall|i: int| 0 <= i < k.len() implies (#[trigger] k[i] as u32) < 0x80 by {
        assert(k[i] == ascii_lower_char(t[i]));
    }
    lemma_trimmed_has_no_white_ends(s);
    if k.len() > 0 {
        assert(k[0] == ascii_lower_char(t[0]));
        assert(!is_white_space(k[0]));
        assert(k.last() == ascii_lower_char(t.last()));
        assert(!is_white_space(k.last()));
    }
    assert(trim_front(k) == k);
    assert(trim_back(k) == k);
    assert(ascii_lower(k) =~= k);
}

proof fn lemma_trimmed_has_no_white_ends(s: Seq<char>)
    ensures
        trimmed(s).len() > 0 ==> !is_white_space(trimmed(s)[0]) && !is_white_space(trimmed(s).last()),
{
    lemma_trim_front_start(s);
    lemma_trim_back_keeps_start(trim_front(s));
}

proof fn lemma_trim_front_start(s: Seq<char>)
    ensures
        trim_front(s).len() > 0 ==> !is_white_space(trim_front(s)[0]),
    decreases s.len(),
{
    if s.len() > 0 && is_white_space(s[0]) {
        lemma_trim_front_start(s.drop_first());
    }
}

proof fn lemma_trim_back_keeps_start(s: Seq<char>)
    ensures
        trim_back(s).len() > 0 ==> trim_back(s)[0] == s[0] && !is_white_space(trim_back(s).last()),
    decreases s.len(),
{
    if s.len() > 0 && is_white_space(s.last()) {
        lemma_trim_back_keeps_start(s.drop_last());
    }
}

/// What `str::to_lowercase` makes of a text: the full Unicode lowercase
/// mapping of each character, with the context rule for a word-final capital
/// sigma. It depends on the text alone.
pub uninterp spec fn lowercase_of(text: Seq<char>) -> Seq<char>;

/// Whether `char::is_alphanumeric` holds of a character: the Unicode
/// `Alphabetic` property or a numeric general category. It depends on the
/// character alone.
pub uninterp spec fn alphanumeric(c: char) -> bool;

/// Lowercases a text with `str::to_lowercase`; the result is named
/// `lowercase_of`. Of ASCII text it claims what the Unicode lowercase mapping
/// that the method documents gives there: `A`-`Z` become `a`-`z`, every other
/// character stays.
#[verifier::external_body]
pub(crate) fn lowercase(text: &str) -> (r: String)
    ensures
        r@ == lowercase_of(text@),
        is_ascii_text(text@) ==> r@ == ascii_lower(text@),
{
    text.to_lowercase()
}

/// Tests a character with `char::is_alphanumeric`; the answer is named
/// `alphanumeric`. It claims what the documented definition (the Unicode
/// `Alphabetic` property or a numeric general category) gives in two places:
/// among ASCII characters exactly the letters and digits qualify, and no
/// `White_Space` character (all of them control, space or separator
/// characters) does.
#[verifier::external_body]
pub(crate) fn is_alphanumeric(c: char) -> (r: bool)
    ensures
        r == alphanumeric(c),
        (c as u32) < 0x80 ==> (r <==> is_ascii_alphanumeric(c)),
        is_white_space(c) ==> !r,
{
    c.is_alphanumeric()
}

} // verus!
