//! Character-level text handling: trimming, splitting, ordering and joining,
//! stated over the characters of a text.
use vstd::prelude::*;
use vstd::multiset::Multiset;

verus! {

/// Whether `c` has the Unicode `White_Space` property, which is what
/// `char::is_whitespace` decides: the 25 code points U+0009–U+000D, U+0020,
/// U+0085, U+00A0, U+1680, U+2000–U+200A, U+2028, U+2029, U+202F, U+205F, U+3000.
pub open spec fn is_white_space(c: char) -> bool {
    let n = c as u32;
    ||| 0x9 <= n <= 0xD
    ||| n == 0x20
    ||| n == 0x85
    ||| n == 0xA0
    ||| n == 0x1680
    ||| 0x2000 <= n <= 0x200A
    ||| n == 0x2028
    ||| n == 0x2029
    ||| n == 0x202F
    ||| n == 0x205F
    ||| n == 0x3000
}

/// The text that `str::to_lowercase` makes of the characters `s`.
pub uninterp spec fn lowercase_of(s: Seq<char>) -> Seq<char>;

/// Whether `c` has the Unicode `White_Space` property.
pub fn char_is_whitespace(c: char) -> (r: bool)
    ensures
        r == is_white_space(c),
{
    let n = c as u32;
    (0x9 <= n && n <= 0xD) || n == 0x20 || n == 0x85 || n == 0xA0 || n == 0x1680 || (0x2000 <= n
        && n <= 0x200A) || n == 0x2028 || n == 0x2029 || n == 0x202F || n == 0x205F || n == 0x3000
}

/// `str::to_lowercase`: the Unicode lowercase form of `s`. The contract claims
/// only that the result depends on the characters of `s` alone.
#[verifier::external_body]
pub(crate) fn to_lowercase(s: &str) -> (r: String)
    ensures
        r@ == lowercase_of(s@),
{
    s.to_lowercase()
}

/// `String::push`: appends `c` at the end of `s`.
#[verifier::external_body]
pub(crate) fn push_char(s: &mut String, c: char)
    ensures
        final(s)@ == old(s)@.push(c),
{
    s.push(c)
}

/// The characters of `s`, in order.
pub fn chars_of(s: &str) -> (v: Vec<char>)
    ensures
        v@ == s@,
{
    let mut v: Vec<char> = Vec::new();
    for c in it: s.chars()
        invariant
            v@ == it.seq().take(it.index() as int),
    {
        v.push(c);
    }
    v
}

/// The text made of the characters `v[lo..hi]`.
pub fn text_from_chars(v: &Vec<char>, lo: usize, hi: usize) -> (r: String)
    requires
        lo <= hi <= v.len(),
    ensures
        r@ == v@.subrange(lo as int, hi as int),
{
    let mut r = String::new();
    let mut i = lo;
    while i < hi
        invariant
            lo <= i <= hi <= v.len(),
            r@ == v@.subrange(lo as int, i as int),
        decreases hi - i,
    {
        push_char(&mut r, v[i]);
        assert(r@ =~= v@.subrange(lo as int, i + 1));
        i += 1;
    }
    r
}

/// Whether two texts hold the same characters.
pub fn same_text(a: &str, b: &str) -> (r: bool)
    ensures
        r == (a@ == b@),
{
    let x = chars_of(a);
    let y = chars_of(b);
    if x.len() != y.len() {
        return false;
    }
    let mut i: usize = 0;
    while i < x.len()
        invariant
            x@ == a@,
            y@ == b@,
            x.len() == y.len(),
            i <= x.len(),
            forall|j: int| 0 <= j < i ==> x@[j] == y@[j],
        decreases x.len() - i,
    {
        if x[i] != y[i] {
            return false;
        }
        i += 1;
    }
    assert(x@ =~= y@);
    true
}

/// The number of whitespace characters that `s` starts with.
pub open spec fn leading_space(s: Seq<char>) -> nat
    decreases s.len(),
{
    if s.len() > 0 && is_white_space(s[0]) {
        1 + leading_space(s.drop_first())
    } else {
        0
    }
}

/// The number of whitespace characters that `s` ends with.
pub open spec fn trailing_space(s: Seq<char>) -> nat
    decreases s.len(),
{
    if s.len() > 0 && is_white_space(s.last()) {
        1 + trailing_space(s.drop_last())
    } else {
        0
    }
}

/// `s` without its leading and trailing whitespace, as `str::trim` gives it.
pub open spec fn trimmed(s: Seq<char>) -> Seq<char> {
    let t = s.skip(leading_space(s) as int);
    t.take(t.len() - trailing_space(t))
}

/// The character after the leading whitespace of `s`, if any, is not whitespace.
pub proof fn lemma_leading_space_stops(s: Seq<char>)
    ensures
        leading_space(s) <= s.len(),
        leading_space(s) < s.len() ==> !is_white_space(s[leading_space(s) as int]),
    decreases s.len(),
{
    if s.len() > 0 && is_white_space(s[0]) {
        lemma_leading_space_stops(s.drop_first());
        if leading_space(s) < s.len() {
            assert(s[leading_space(s) as int] == s.drop_first()[leading_space(s.drop_first()) as int]);
        }
    }
}

/// The character before the trailing whitespace of `s`, if any, is not whitespace.
pub proof fn lemma_trailing_space_stops(s: Seq<char>)
    ensures
        trailing_space(s) <= s.len(),
        trailing_space(s) < s.len() ==> !is_white_space(s[s.len() - 1 - trailing_space(s)]),
    decreases s.len(),
{
    if s.len() > 0 && is_white_space(s.last()) {
        lemma_trailing_space_stops(s.drop_last());
        if trailing_space(s) < s.len() {
            let d = s.drop_last();
            assert(s[s.len() - 1 - trailing_space(s)] == d[d.len() - 1 - trailing_space(d)]);
        }
    }
}

/// A trimmed text neither starts nor ends with whitespace.
pub proof fn lemma_trimmed_ends(s: Seq<char>)
    ensures
        trimmed(s).len() > 0 ==> !is_white_space(trimmed(s)[0]) && !is_white_space(trimmed(s).last()),
{
    lemma_leading_space_stops(s);
    let u = s.skip(leading_space(s) as int);
    lemma_trailing_space_stops(u);
    if trimmed(s).len() > 0 {
        assert(trimmed(s)[0] == s[leading_space(s) as int]);
        assert(trimmed(s).last() == u[u.len() - 1 - trailing_space(u)]);
    }
}

/// A text that neither starts nor ends with whitespace is its own trimmed form.
pub proof fn lemma_trimmed_fixed(s: Seq<char>)
    requires
        s.len() > 0 ==> !is_white_space(s[0]) && !is_white_space(s.last()),
    ensures
        trimmed(s) == s,
{
    assert(leading_space(s) == 0);
    assert(s.skip(0) =~= s);
    assert(trailing_space(s) == 0);
    assert(s.take(s.len() as int) =~= s);
}

/// Trimming twice is trimming once.
pub proof fn lemma_trimmed_idempotent(s: Seq<char>)
    ensures
        trimmed(trimmed(s)) == trimmed(s),
{
    lemma_trimmed_ends(s);
    lemma_trimmed_fixed(trimmed(s));
}

/// The characters of `v` without leading and trailing whitespace.
pub fn trim_chars(v: &Vec<char>) -> (r: String)
    ensures
        r@ == trimmed(v@),
{
    let n = v.len();
    let mut lo: usize = 0;
    assert(v@.skip(0) =~= v@);
    while lo < n && char_is_whitespace(v[lo])
        invariant
            n == v.len(),
            lo <= n,
            leading_space(v@) == lo + leading_space(v@.skip(lo as int)),
        decreases n - lo,
    {
        assert(v@.skip(lo as int).drop_first() =~= v@.skip(lo + 1));
        lo += 1;
    }
    assert(leading_space(v@.skip(lo as int)) == 0);
    let ghost t = v@.skip(lo as int);
    let mut hi: usize = n;
    while hi > lo && char_is_whitespace(v[hi - 1])
        invariant
            lo <= hi <= n == v.len(),
            t == v@.skip(lo as int),
            trailing_space(t) == (n - hi) + trailing_space(v@.subrange(lo as int, hi as int)),
        decreases hi,
    {
        assert(v@.subrange(lo as int, hi as int).drop_last() =~= v@.subrange(lo as int, hi - 1));
        hi -= 1;
    }
    assert(trailing_space(v@.subrange(lo as int, hi as int)) == 0);
    assert(t.take(t.len() - trailing_space(t)) =~= v@.subrange(lo as int, hi as int));
    text_from_chars(v, lo, hi)
}

/// `s` without leading and trailing whitespace.
pub fn trim_text(s: &str) -> (r: String)
    ensures
        r@ == trimmed(s@),
{
    let v = chars_of(s);
    trim_chars(&v)
}

/// Whether the text `a` comes before the text `b`: the order of `String`,
/// character by character by code point, a proper prefix first.
pub open spec fn text_before(a: Seq<char>, b: Seq<char>) -> bool
    decreases a.len(),
{
    if a.len() == 0 {
        b.len() > 0
    } else if b.len() == 0 {
        false
    } else if a[0] != b[0] {
        a[0] < b[0]
    } else {
        text_before(a.drop_first(), b.drop_first())
    }
}

pub proof fn lemma_text_before_irreflexive(a: Seq<char>)
    ensures
        !text_before(a, a),
    decreases a.len(),
{
    if a.len() > 0 {
        lemma_text_before_irreflexive(a.drop_first());
    }
}

pub proof fn lemma_text_before_asymmetric(a: Seq<char>, b: Seq<char>)
    ensures
        text_before(a, b) ==> !text_before(b, a),
    decreases a.len(),
{
    if a.len() > 0 && b.len() > 0 && a[0] == b[0] {
        lemma_text_before_asymmetric(a.drop_first(), b.drop_first());
    }
}

pub proof fn lemma_text_before_transitive(a: Seq<char>, b: Seq<char>, c: Seq<char>)
    requires
        text_before(a, b),
        text_before(b, c),
    ensures
        text_before(a, c),
    decreases a.len(),
{
    if a.len() > 0 && b.len() > 0 && c.len() > 0 && a[0] == b[0] && b[0] == c[0] {
        lemma_text_before_transitive(a.drop_first(), b.drop_first(), c.drop_first());
    }
}

pub proof fn lemma_text_before_total(a: Seq<char>, b: Seq<char>)
    ensures
        a == b || text_before(a, b) || text_before(b, a),
    decreases a.len(),
{
    if a.len() > 0 && b.len() > 0 {
        if a[0] == b[0] {
            lemma_text_before_total(a.drop_first(), b.drop_first());
            if a.drop_first() == b.drop_first() {
                assert(a =~= seq![a[0]] + a.drop_first());
                assert(b =~= seq![b[0]] + b.drop_first());
            }
        } else {
            assert(a[0] < b[0] || b[0] < a[0]);
        }
    } else if a.len() == 0 && b.len() == 0 {
        assert(a =~= b);
    }
}

/// Whether the text `a` comes before the text `b`.
pub fn text_precedes(a: &str, b: &str) -> (r: bool)
    ensures
        r == text_before(a@, b@),
{
    let x = chars_of(a);
    let y = chars_of(b);
    let mut i: usize = 0;
    assert(x@.skip(0) =~= x@);
    assert(y@.skip(0) =~= y@);
    while i < x.len() && i < y.len() && x[i] == y[i]
        invariant
            x@ == a@,
            y@ == b@,
            i <= x.len(),
            i <= y.len(),
            text_before(a@, b@) == text_before(x@.skip(i as int), y@.skip(i as int)),
        decreases x.len() - i,
    {
        assert(x@.skip(i as int).drop_first() =~= x@.skip(i + 1));
        assert(y@.skip(i as int).drop_first() =~= y@.skip(i + 1));
        i += 1;
    }
    if i == x.len() {
        i < y.len()
    } else if i == y.len() {
        false
    } else {
        x[i] < y[i]
    }
}

/// The characters of each text of `v`.
pub open spec fn texts(v: Seq<String>) -> Seq<Seq<char>> {
    v.map_values(|t: String| t@)
}

/// Each text of `s` comes before every later one: `s` is sorted with no repeats.
pub open spec fn strictly_ascending(s: Seq<Seq<char>>) -> bool {
    forall|i: int, j: int| 0 <= i < j < s.len() ==> text_before(#[trigger] s[i], #[trigger] s[j])
}

/// No text of `s` comes before an earlier one: `s` is sorted.
pub open spec fn ascending(s: Seq<Seq<char>>) -> bool {
    forall|i: int, j: int| 0 <= i < j < s.len() ==> !text_before(#[trigger] s[j], #[trigger] s[i])
}

/// Adds `x` to the sorted, repeat-free `v` unless it is there already.
pub fn insert_unique(v: &mut Vec<String>, x: String)
    requires
        strictly_ascending(texts(old(v)@)),
    ensures
        strictly_ascending(texts(final(v)@)),
        texts(final(v)@).to_set() == texts(old(v)@).to_set().insert(x@),
{
    let ghost old_v = texts(v@);
    let mut k: usize = 0;
    while k < v.len() && text_precedes(v[k].as_str(), x.as_str())
        invariant
            k <= v.len(),
            texts(v@) == old_v,
            strictly_ascending(old_v),
            forall|i: int| 0 <= i < k ==> text_before(#[trigger] old_v[i], x@),
        decreases v.len() - k,
    {
        k += 1;
    }
    if k < v.len() && same_text(v[k].as_str(), x.as_str()) {
        assert(old_v.to_set().insert(x@) =~= old_v.to_set()) by {
            assert(old_v[k as int] == x@);
        }
        return;
    }
    proof {
        assert forall|j: int| k <= j < old_v.len() implies text_before(x@, #[trigger] old_v[j]) by {
            lemma_text_before_total(old_v[k as int], x@);
            if j > k {
                lemma_text_before_transitive(x@, old_v[k as int], old_v[j]);
            }
        }
    }
    v.insert(k, x);
    let ghost new_v = texts(v@);
    assert(new_v =~= old_v.insert(k as int, x@));
    assert(new_v.to_set() =~= old_v.to_set().insert(x@)) by {
        assert forall|y: Seq<char>| new_v.to_set().contains(y) implies old_v.to_set().insert(x@).contains(y) by {
            let i = choose|i: int| 0 <= i < new_v.len() && new_v[i] == y;
            if i > k {
                assert(old_v[i - 1] == y);
            } else if i < k {
                assert(old_v[i] == y);
            }
        }
        assert forall|y: Seq<char>| old_v.to_set().insert(x@).contains(y) implies new_v.to_set().contains(y) by {
            if y == x@ {
                assert(new_v[k as int] == y);
            } else {
                let i = choose|i: int| 0 <= i < old_v.len() && old_v[i] == y;
                if i >= k {
                    assert(new_v[i + 1] == y);
                } else {
                    assert(new_v[i] == y);
                }
            }
        }
    }
    assert forall|i: int, j: int| 0 <= i < j < new_v.len() implies text_before(#[trigger] new_v[i], #[trigger] new_v[j]) by {
        if j < k {
        } else if j == k {
        } else if i < k {
            lemma_text_before_transitive(old_v[i], x@, old_v[j - 1]);
        } else if i == k {
        } else {
        }
    }
}

/// Adds `x` to the sorted `v`, after the texts equal to it.
pub fn insert_sorted(v: &mut Vec<String>, x: String)
    requires
        ascending(texts(old(v)@)),
    ensures
        ascending(texts(final(v)@)),
        texts(final(v)@).to_multiset() == texts(old(v)@).to_multiset().insert(x@),
{
    let ghost old_v = texts(v@);
    let mut k: usize = 0;
    while k < v.len() && !text_precedes(x.as_str(), v[k].as_str())
        invariant
            k <= v.len(),
            texts(v@) == old_v,
            ascending(old_v),
            forall|i: int| 0 <= i < k ==> !text_before(x@, #[trigger] old_v[i]),
        decreases v.len() - k,
    {
        k += 1;
    }
    proof {
        assert forall|j: int| k <= j < old_v.len() implies !text_before(#[trigger] old_v[j], x@) by {
            lemma_text_before_asymmetric(x@, old_v[k as int]);
            if j > k {
                lemma_text_before_total(old_v[k as int], old_v[j]);
                if text_before(old_v[j], x@) {
                    if old_v[k as int] == old_v[j] {
                    } else if text_before(old_v[k as int], old_v[j]) {
                        lemma_text_before_transitive(old_v[k as int], old_v[j], x@);
                    }
                }
            }
        }
    }
    v.insert(k, x);
    let ghost new_v = texts(v@);
    assert(new_v =~= old_v.insert(k as int, x@));
    proof {
        let front = old_v.take(k as int);
        let back = old_v.skip(k as int);
        assert(old_v =~= front + back);
        assert(new_v =~= front + (seq![x@] + back));
        vstd::seq_lib::lemma_multiset_commutative(front, back);
        vstd::seq_lib::lemma_multiset_commutative(front, seq![x@] + back);
        vstd::seq_lib::lemma_multiset_commutative(seq![x@], back);
        broadcast use vstd::multiset::group_multiset_axioms;
        assert(seq![x@].to_multiset() =~= Multiset::<Seq<char>>::empty().insert(x@)) by {
            broadcast use vstd::seq_lib::group_to_multiset_ensures;
            assert(seq![x@] =~= Seq::<Seq<char>>::empty().push(x@));
        }
        assert(new_v.to_multiset() =~= old_v.to_multiset().insert(x@));
    }
    assert forall|i: int, j: int| 0 <= i < j < new_v.len() implies !text_before(#[trigger] new_v[j], #[trigger] new_v[i]) by {
        if j < k {
        } else if j == k {
        } else if i < k {
            if text_before(old_v[j - 1], old_v[i]) {
            }
            lemma_text_before_total(x@, old_v[j - 1]);
            if text_before(old_v[j - 1], old_v[i]) {
                if x@ == old_v[j - 1] {
                } else if text_before(x@, old_v[j - 1]) {
                    lemma_text_before_transitive(x@, old_v[j - 1], old_v[i]);
                } else {
                }
            }
        } else if i == k {
        } else {
        }
    }
}

/// The pieces that `str::split(sep)` cuts `s` into, after the piece `cur` begun so far.
pub open spec fn split_from(s: Seq<char>, sep: char, cur: Seq<char>) -> Seq<Seq<char>>
    decreases s.len(),
{
    if s.len() == 0 {
        seq![cur]
    } else if s[0] == sep {
        seq![cur] + split_from(s.drop_first(), sep, seq![])
    } else {
        split_from(s.drop_first(), sep, cur.push(s[0]))
    }
}

/// The pieces that `str::split(sep)` cuts `s` into: empty ones included.
pub open spec fn pieces(s: Seq<char>, sep: char) -> Seq<Seq<char>> {
    split_from(s, sep, seq![])
}

/// Cuts `s` at each `sep`, as `str::split` does.
pub fn split_text(s: &str, sep: char) -> (r: Vec<String>)
    ensures
        texts(r@) == pieces(s@, sep),
{
    let v = chars_of(s);
    let mut out: Vec<String> = Vec::new();
    let mut cur = String::new();
    let mut i: usize = 0;
    assert(v@.skip(0) =~= v@);
    assert(texts(out@) =~= seq![]);
    while i < v.len()
        invariant
            v@ == s@,
            i <= v.len(),
            pieces(s@, sep) == texts(out@) + split_from(v@.skip(i as int), sep, cur@),
        decreases v.len() - i,
    {
        let c = v[i];
        assert(v@.skip(i as int).drop_first() =~= v@.skip(i + 1));
        assert(v@.skip(i as int)[0] == c);
        if c == sep {
            let ghost before = texts(out@);
            let piece = cur;
            out.push(piece);
            cur = String::new();
            assert(texts(out@) =~= before + seq![piece@]);
            assert(cur@ =~= seq![]);
        } else {
            push_char(&mut cur, c);
        }
        i += 1;
    }
    let ghost before = texts(out@);
    out.push(cur);
    assert(texts(out@) =~= before + split_from(v@.skip(i as int), sep, cur@));
    out
}

/// The words of `s` after the word `cur` begun so far: the maximal runs of
/// characters that are not whitespace, as `str::split_whitespace` gives them.
pub open spec fn words_from(s: Seq<char>, cur: Seq<char>) -> Seq<Seq<char>>
    decreases s.len(),
{
    if s.len() == 0 {
        if cur.len() == 0 { seq![] } else { seq![cur] }
    } else if is_white_space(s[0]) {
        (if cur.len() == 0 { seq![] } else { seq![cur] }) + words_from(s.drop_first(), seq![])
    } else {
        words_from(s.drop_first(), cur.push(s[0]))
    }
}

/// The words of `s`, as `str::split_whitespace` gives them.
pub open spec fn words(s: Seq<char>) -> Seq<Seq<char>> {
    words_from(s, seq![])
}

/// The words of `s`: its maximal runs of characters that are not whitespace.
pub fn split_words(s: &str) -> (r: Vec<String>)
    ensures
        texts(r@) == words(s@),
{
    let v = chars_of(s);
    let mut out: Vec<String> = Vec::new();
    let mut cur = String::new();
    let mut i: usize = 0;
    assert(v@.skip(0) =~= v@);
    assert(texts(out@) =~= seq![]);
    while i < v.len()
        invariant
            v@ == s@,
            i <= v.len(),
            words(s@) == texts(out@) + words_from(v@.skip(i as int), cur@),
        decreases v.len() - i,
    {
        let c = v[i];
        assert(v@.skip(i as int).drop_first() =~= v@.skip(i + 1));
        assert(v@.skip(i as int)[0] == c);
        if char_is_whitespace(c) {
            if cur.as_str().is_empty() {
                assert(texts(out@) + (seq![] + words_from(v@.skip(i + 1), seq![])) =~= texts(out@) + words_from(v@.skip(i + 1), seq![]));
            } else {
                let ghost before = texts(out@);
                let word = cur;
                out.push(word);
                assert(texts(out@) =~= before + seq![word@]);
            }
            cur = String::new();
            assert(cur@ =~= seq![]);
        } else {
            push_char(&mut cur, c);
        }
        i += 1;
    }
    if !cur.as_str().is_empty() {
        let ghost before = texts(out@);
        out.push(cur);
        assert(texts(out@) =~= before + seq![cur@]);
    } else {
        assert(texts(out@) + seq![] =~= texts(out@));
    }
    out
}

/// The texts of `parts` with `sep` between each two, as `[String]::join` gives them.
pub open spec fn joined(parts: Seq<Seq<char>>, sep: Seq<char>) -> Seq<char>
    decreases parts.len(),
{
    if parts.len() == 0 {
        seq![]
    } else if parts.len() == 1 {
        parts[0]
    } else {
        joined(parts.drop_last(), sep) + sep + parts.last()
    }
}

/// The texts of `parts` with `sep` between each two.
pub fn join_texts(parts: &Vec<String>, sep: &str) -> (r: String)
    ensures
        r@ == joined(texts(parts@), sep@),
{
    let mut r = String::new();
    let mut i: usize = 0;
    assert(texts(parts@).take(0) =~= seq![]);
    while i < parts.len()
        invariant
            i <= parts.len(),
            r@ == joined(texts(parts@).take(i as int), sep@),
        decreases parts.len() - i,
    {
        assert(texts(parts@).take(i + 1).drop_last() =~= texts(parts@).take(i as int));
        if i > 0 {
            r.append(sep);
        } else {
            assert(r@ =~= seq![]);
        }
        r.append(parts[i].as_str());
        assert(r@ =~= joined(texts(parts@).take(i + 1), sep@));
        i += 1;
    }
    assert(texts(parts@).take(parts.len() as int) =~= texts(parts@));
    r
}

/// The decimal digit for `d`.
pub open spec fn digit_char(d: nat) -> char {
    ((48 + d) as u8) as char
}

/// The decimal numeral for `n`, as `u32::to_string` writes it.
pub open spec fn decimal(n: nat) -> Seq<char>
    decreases n,
{
    if n < 10 {
        seq![digit_char(n)]
    } else {
        decimal(n / 10).push(digit_char(n % 10))
    }
}

/// The decimal numeral for `n`.
pub fn decimal_text(n: u32) -> (r: String)
    ensures
        r@ == decimal(n as nat),
    decreases n,
{
    let d = ((48u8 + (n % 10) as u8) as char);
    if n < 10 {
        let mut r = String::new();
        push_char(&mut r, d);
        assert(r@ =~= seq![digit_char(n as nat)]);
        r
    } else {
        let mut r = decimal_text(n / 10);
        push_char(&mut r, d);
        r
    }
}

/// Two sorted, repeat-free lists of texts that hold the same texts are equal.
pub proof fn lemma_strictly_ascending_unique(a: Seq<Seq<char>>, b: Seq<Seq<char>>)
    requires
        strictly_ascending(a),
        strictly_ascending(b),
        a.to_set() == b.to_set(),
    ensures
        a == b,
    decreases a.len(),
{
    if a.len() == 0 {
        if b.len() > 0 {
            assert(b.to_set().contains(b[0]));
        }
        assert(a =~= b);
    } else if b.len() == 0 {
        assert(a.to_set().contains(a[0]));
    } else {
        assert(b.to_set().contains(a[0]));
        assert(a.to_set().contains(b[0]));
        let j = choose|j: int| 0 <= j < a.len() && a[j] == b[0];
        let k = choose|k: int| 0 <= k < b.len() && b[k] == a[0];
        if a[0] != b[0] {
            assert(j > 0 && k > 0);
            lemma_text_before_asymmetric(a[0], a[j]);
        }
        let a1 = a.drop_first();
        let b1 = b.drop_first();
        assert forall|x: Seq<char>| a1.to_set().contains(x) implies b1.to_set().contains(x) by {
            let i = choose|i: int| 0 <= i < a1.len() && a1[i] == x;
            assert(a[i + 1] == x);
            assert(b.to_set().contains(x));
            let m = choose|m: int| 0 <= m < b.len() && b[m] == x;
            if m == 0 {
                lemma_text_before_irreflexive(a[0]);
            } else {
                assert(b1[m - 1] == x);
            }
        }
        assert forall|x: Seq<char>| b1.to_set().contains(x) implies a1.to_set().contains(x) by {
            let i = choose|i: int| 0 <= i < b1.len() && b1[i] == x;
            assert(b[i + 1] == x);
            assert(a.to_set().contains(x));
            let m = choose|m: int| 0 <= m < a.len() && a[m] == x;
            if m == 0 {
                lemma_text_before_irreflexive(b[0]);
            } else {
                assert(a1[m - 1] == x);
            }
        }
        assert(a1.to_set() =~= b1.to_set());
        lemma_strictly_ascending_unique(a1, b1);
        assert(a =~= seq![a[0]] + a1);
        assert(b =~= seq![b[0]] + b1);
    }
}

/// A split piece begun so far is always the first of the pieces to come.
pub proof fn lemma_split_from_nonempty(s: Seq<char>, sep: char, cur: Seq<char>)
    ensures
        split_from(s, sep, cur).len() >= 1,
    decreases s.len(),
{
    if s.len() > 0 {
        if s[0] == sep {
            lemma_split_from_nonempty(s.drop_first(), sep, seq![]);
        } else {
            lemma_split_from_nonempty(s.drop_first(), sep, cur.push(s[0]));
        }
    }
}

/// Splitting a text with no separator leaves one piece.
pub proof fn lemma_split_without_separator(s: Seq<char>, sep: char, cur: Seq<char>)
    requires
        !s.contains(sep),
    ensures
        split_from(s, sep, cur) == seq![cur + s],
    decreases s.len(),
{
    if s.len() == 0 {
        assert(cur + s =~= cur);
    } else {
        assert(s[0] != sep) by {
            if s[0] == sep {
                assert(s.contains(sep));
            }
        }
        assert forall|i: int| 0 <= i < s.drop_first().len() implies s.drop_first()[i] != sep by {
            assert(s.drop_first()[i] == s[i + 1]);
            if s[i + 1] == sep {
                assert(s.contains(sep));
            }
        }
        lemma_split_without_separator(s.drop_first(), sep, cur.push(s[0]));
        assert(cur.push(s[0]) + s.drop_first() =~= cur + s);
    }
}

/// Splitting a concatenation: the last piece of the front continues into the back.
pub proof fn lemma_split_concat(a: Seq<char>, b: Seq<char>, sep: char, cur: Seq<char>)
    ensures
        split_from(a + b, sep, cur) == split_from(a, sep, cur).drop_last() + split_from(
            b,
            sep,
            split_from(a, sep, cur).last(),
        ),
    decreases a.len(),
{
    if a.len() == 0 {
        assert(a + b =~= b);
        assert(seq![cur].drop_last() =~= Seq::<Seq<char>>::empty());
        assert(Seq::<Seq<char>>::empty() + split_from(b, sep, cur) =~= split_from(b, sep, cur));
    } else {
        let ab = a + b;
        assert(ab[0] == a[0]);
        assert(ab.drop_first() =~= a.drop_first() + b);
        if a[0] == sep {
            lemma_split_concat(a.drop_first(), b, sep, seq![]);
            lemma_split_from_nonempty(a.drop_first(), sep, seq![]);
            let x = split_from(a.drop_first(), sep, seq![]);
            assert((seq![cur] + x).drop_last() =~= seq![cur] + x.drop_last());
            assert((seq![cur] + x).last() == x.last());
            assert(seq![cur] + (x.drop_last() + split_from(b, sep, x.last())) =~= (seq![cur]
                + x.drop_last()) + split_from(b, sep, x.last()));
        } else {
            lemma_split_concat(a.drop_first(), b, sep, cur.push(a[0]));
        }
    }
}

/// Texts without the separator, joined by it, split back into the same texts.
pub proof fn lemma_split_joined(ts: Seq<Seq<char>>, sep: char)
    requires
        ts.len() > 0,
        forall|i: int| 0 <= i < ts.len() ==> !(#[trigger] ts[i]).contains(sep),
    ensures
        pieces(joined(ts, seq![sep]), sep) == ts,
    decreases ts.len(),
{
    if ts.len() == 1 {
        lemma_split_without_separator(ts[0], sep, seq![]);
        assert(Seq::<char>::empty() + ts[0] =~= ts[0]);
        assert(ts =~= seq![ts[0]]);
    } else {
        let d = ts.drop_last();
        assert forall|i: int| 0 <= i < d.len() implies !(#[trigger] d[i]).contains(sep) by {
            assert(d[i] == ts[i]);
        }
        lemma_split_joined(d, sep);
        let j = joined(d, seq![sep]);
        let last = ts.last();
        assert(!last.contains(sep));
        assert(joined(ts, seq![sep]) =~= j + (seq![sep] + last));
        lemma_split_concat(j, seq![sep] + last, sep, seq![]);
        assert((seq![sep] + last)[0] == sep);
        assert((seq![sep] + last).drop_first() =~= last);
        lemma_split_without_separator(last, sep, seq![]);
        assert(Seq::<char>::empty() + last =~= last);
        assert(split_from(seq![sep] + last, sep, d.last()) =~= seq![d.last()] + seq![last]);
        assert(d.drop_last() + (seq![d.last()] + seq![last]) =~= ts);
    }
}

/// Whether no character of `w` is whitespace.
pub open spec fn no_space(w: Seq<char>) -> bool {
    forall|i: int| 0 <= i < w.len() ==> !is_white_space(#[trigger] w[i])
}

/// Every word is non-empty and holds no whitespace.
pub proof fn lemma_words_from_clean(s: Seq<char>, cur: Seq<char>)
    requires
        no_space(cur),
    ensures
        forall|i: int| 0 <= i < words_from(s, cur).len() ==> {
            &&& (#[trigger] words_from(s, cur)[i]).len() > 0
            &&& no_space(words_from(s, cur)[i])
        },
    decreases s.len(),
{
    if s.len() > 0 {
        if is_white_space(s[0]) {
            lemma_words_from_clean(s.drop_first(), seq![]);
            let head: Seq<Seq<char>> = if cur.len() == 0 { seq![] } else { seq![cur] };
            let rest = words_from(s.drop_first(), seq![]);
            assert(words_from(s, cur) == head + rest);
            assert forall|i: int| 0 <= i < words_from(s, cur).len() implies {
                &&& (#[trigger] words_from(s, cur)[i]).len() > 0
                &&& no_space(words_from(s, cur)[i])
            } by {
                if i < head.len() {
                    assert(words_from(s, cur)[i] == cur);
                } else {
                    assert(words_from(s, cur)[i] == rest[i - head.len()]);
                }
            }
        } else {
            let next = cur.push(s[0]);
            assert forall|i: int| 0 <= i < next.len() implies !is_white_space(#[trigger] next[i]) by {
                if i < cur.len() {
                    assert(next[i] == cur[i]);
                }
            }
            lemma_words_from_clean(s.drop_first(), next);
            assert(words_from(s, cur) == words_from(s.drop_first(), next));
        }
    } else if cur.len() > 0 {
        assert(words_from(s, cur) == seq![cur]);
        assert(words_from(s, cur)[0] == cur);
    } else {
        assert(words_from(s, cur).len() == 0);
    }
}

/// The words of a text are non-empty and hold no whitespace.
pub proof fn lemma_words_clean(s: Seq<char>)
    ensures
        forall|i: int| 0 <= i < words(s).len() ==> (#[trigger] words(s)[i]).len() > 0 && no_space(words(s)[i]),
{
    lemma_words_from_clean(s, seq![]);
}

/// Two sorted lists of texts that hold the same texts, as many times each, are equal.
pub proof fn lemma_ascending_unique(a: Seq<Seq<char>>, b: Seq<Seq<char>>)
    requires
        ascending(a),
        ascending(b),
        a.to_multiset() == b.to_multiset(),
    ensures
        a == b,
    decreases a.len(),
{
    broadcast use vstd::seq_lib::group_to_multiset_ensures;
    broadcast use vstd::multiset::group_multiset_axioms;

    if a.len() == 0 {
        if b.len() > 0 {
            assert(b.to_multiset().count(b[0]) > 0);
        }
        assert(a =~= b);
    } else if b.len() == 0 {
        assert(a.to_multiset().count(a[0]) > 0);
    } else {
        assert(b.to_multiset().count(a[0]) > 0);
        assert(a.to_multiset().count(b[0]) > 0);
        assert(b.contains(a[0]));
        assert(a.contains(b[0]));
        let j = choose|j: int| 0 <= j < a.len() && a[j] == b[0];
        let k = choose|k: int| 0 <= k < b.len() && b[k] == a[0];
        if a[0] != b[0] {
            assert(!text_before(a[j], a[0])) by {
                if j > 0 {
                } else {
                    lemma_text_before_irreflexive(a[0]);
                }
            }
            assert(!text_before(b[k], b[0])) by {
                if k > 0 {
                } else {
                    lemma_text_before_irreflexive(b[0]);
                }
            }
            lemma_text_before_total(a[0], b[0]);
        }
        vstd::seq_lib::to_multiset_remove(a, 0);
        vstd::seq_lib::to_multiset_remove(b, 0);
        assert(a.remove(0) =~= a.drop_first());
        assert(b.remove(0) =~= b.drop_first());
        lemma_ascending_unique(a.drop_first(), b.drop_first());
        assert(a =~= seq![a[0]] + a.drop_first());
        assert(b =~= seq![b[0]] + b.drop_first());
    }
}

} // verus!
