use vstd::prelude::*;

verus! {

/// Whether `c` separates feed units: the characters with the Unicode
/// `White_Space` property.
pub open spec fn is_space(c: char) -> bool {
    ('\u{9}' <= c && c <= '\u{d}') || c == ' ' || c == '\u{85}' || c == '\u{a0}' || c
        == '\u{1680}' || ('\u{2000}' <= c && c <= '\u{200a}') || c == '\u{2028}' || c
        == '\u{2029}' || c == '\u{202f}' || c == '\u{205f}' || c == '\u{3000}'
}

/// Whether `c` separates feed units; the same set that `char::is_whitespace`
/// accepts.
fn is_whitespace(c: char) -> (r: bool)
    ensures
        r == is_space(c),
{
    ('\u{9}' <= c && c <= '\u{d}') || c == ' ' || c == '\u{85}' || c == '\u{a0}' || c
        == '\u{1680}' || ('\u{2000}' <= c && c <= '\u{200a}') || c == '\u{2028}' || c
        == '\u{2029}' || c == '\u{202f}' || c == '\u{205f}' || c == '\u{3000}'
}

/// The feed units of `s`: its maximal runs of non-separator characters, in
/// order. Separators are dropped and no two units are ever merged.
pub open spec fn words(s: Seq<char>) -> Seq<Seq<char>>
    decreases s.len(),
{
    if s.len() == 0 {
        seq![]
    } else {
        let w = words(s.drop_last());
        let c = s.last();
        if is_space(c) {
            w
        } else if s.len() >= 2 && !is_space(s[s.len() - 2]) {
            w.update(w.len() - 1, w.last().push(c))
        } else {
            w.push(seq![c])
        }
    }
}

/// A text that ends in a non-separator has at least one unit.
pub proof fn lemma_words_last(s: Seq<char>)
    requires
        s.len() > 0,
        !is_space(s.last()),
    ensures
        words(s).len() > 0,
    decreases s.len(),
{
    if s.len() >= 2 && !is_space(s[s.len() - 2]) {
        lemma_words_last(s.drop_last());
    }
}

/// Every feed unit is non-empty and holds no separator.
pub proof fn lemma_words_clean(s: Seq<char>)
    ensures
        forall|i: int| 0 <= i < words(s).len() ==> #[trigger] words(s)[i].len() > 0,
        forall|i: int, j: int|
            0 <= i < words(s).len() && 0 <= j < words(s)[i].len() ==> !is_space(
                #[trigger] words(s)[i][j],
            ),
    decreases s.len(),
{
    if s.len() > 0 {
        let w = words(s.drop_last());
        lemma_words_clean(s.drop_last());
        if !is_space(s.last()) && s.len() >= 2 && !is_space(s[s.len() - 2]) {
            lemma_words_last(s.drop_last());
            let u = w.last().push(s.last());
            assert forall|i: int, j: int|
                0 <= i < words(s).len() && 0 <= j < words(s)[i].len() implies !is_space(
                words(s)[i][j],
            ) by {
                if i == w.len() - 1 && j < w.last().len() {
                    assert(words(s)[i][j] == w[i][j]);
                }
            }
        } else if !is_space(s.last()) {
            assert forall|i: int, j: int|
                0 <= i < words(s).len() && 0 <= j < words(s)[i].len() implies !is_space(
                words(s)[i][j],
            ) by {
                if i < w.len() {
                    assert(words(s)[i] == w[i]);
                }
            }
        }
    }
}

/// The views of a list of character vectors.
pub open spec fn views(v: Seq<Vec<char>>) -> Seq<Seq<char>> {
    v.map_values(|u: Vec<char>| u@)
}

/// Splits `text` into its feed units.
pub fn feed_units(text: &Vec<char>) -> (r: Vec<Vec<char>>)
    ensures
        views(r@) == words(text@),
{
    let mut out: Vec<Vec<char>> = Vec::new();
    let mut cur: Vec<char> = Vec::new();
    let mut i: usize = 0;
    while i < text.len()
        invariant
            0 <= i <= text.len(),
            cur.len() > 0 <==> (i > 0 && !is_space(text@[i - 1])),
            cur.len() > 0 ==> views(out@).push(cur@) == words(text@.take(i as int)),
            cur.len() == 0 ==> views(out@) == words(text@.take(i as int)),
        decreases text.len() - i,
    {
        let c = text[i];
        let ghost before = text@.take(i as int);
        let ghost after = text@.take(i + 1);
        let ghost out0 = views(out@);
        let ghost cur0 = cur@;
        assert(after.drop_last() == before);
        assert(after.last() == c);
        proof {
            if i > 0 {
                assert(after[after.len() - 2] == text@[i - 1]);
            }
        }
        if is_whitespace(c) {
            if cur.len() > 0 {
                out.push(cur);
                cur = Vec::new();
                assert(views(out@) == out0.push(cur0));
            }
        } else {
            cur.push(c);
            proof {
                if cur0.len() == 0 {
                    assert(cur@ == seq![c]);
                } else {
                    assert(out0.push(cur0).update(out0.len() as int, cur0.push(c)) == out0.push(
                        cur@,
                    ));
                }
            }
        }
        i += 1;
    }
    let ghost out0 = views(out@);
    let ghost cur0 = cur@;
    if cur.len() > 0 {
        out.push(cur);
        assert(views(out@) == out0.push(cur0));
    }
    assert(text@.take(i as int) == text@);
    out
}

/// Relies on `str::chars`: the characters of `s`, in order.
#[verifier::external_body]
pub(crate) fn chars_of(s: &str) -> (r: Vec<char>)
    ensures
        r@ == s@,
{
    s.chars().collect()
}

} // verus!
