use vstd::prelude::*;

verus! {

/// The characters that carry the Unicode `White_Space` property.
pub open spec fn is_blank(c: char) -> bool {
    let u = c as u32;
    (0x09 <= u && u <= 0x0d) || u == 0x20 || u == 0x85 || u == 0xa0 || u == 0x1680
        || (0x2000 <= u && u <= 0x200a) || u == 0x2028 || u == 0x2029 || u == 0x202f
        || u == 0x205f || u == 0x3000
}

/// Tells whether `c` is a whitespace character, in the sense of `char::is_whitespace`.
pub fn is_blank_char(c: char) -> (r: bool)
    ensures
        r == is_blank(c),
{
    let u = c as u32;
    (0x09 <= u && u <= 0x0d) || u == 0x20 || u == 0x85 || u == 0xa0 || u == 0x1680
        || (0x2000 <= u && u <= 0x200a) || u == 0x2028 || u == 0x2029 || u == 0x202f
        || u == 0x205f || u == 0x3000
}


/// The words of `s`: its maximal runs of non-whitespace characters, in order.
pub open spec fn words(s: Seq<char>) -> Seq<Seq<char>>
    decreases s.len(),
{
    if s.len() == 0 {
        seq![]
    } else {
        let p = s.drop_last();
        let c = s.last();
        let w = words(p);
        if is_blank(c) {
            w
        } else if p.len() == 0 || is_blank(p.last()) {
            w.push(seq![c])
        } else {
            w.drop_last().push(w.last().push(c))
        }
    }
}

/// The words `ws` written one after the other, with a single space between two of them.
pub open spec fn join_words(ws: Seq<Seq<char>>) -> Seq<char>
    decreases ws.len(),
{
    if ws.len() == 0 {
        seq![]
    } else if ws.len() == 1 {
        ws[0]
    } else {
        join_words(ws.drop_last()) + seq![' '] + ws.last()
    }
}

/// `s` with every run of whitespace made a single space, and none at either end.
pub open spec fn normalized(s: Seq<char>) -> Seq<char> {
    join_words(words(s))
}

proof fn lemma_join_push(ws: Seq<Seq<char>>, w: Seq<char>)
    ensures
        join_words(ws.push(w)) == (if ws.len() == 0 {
            w
        } else {
            join_words(ws) + seq![' '] + w
        }),
{
    assert(ws.push(w).drop_last() =~= ws);
}

proof fn lemma_join_extend_last(ws: Seq<Seq<char>>, c: char)
    requires
        ws.len() > 0,
    ensures
        join_words(ws.drop_last().push(ws.last().push(c))) == join_words(ws).push(c),
{
    let init = ws.drop_last();
    lemma_join_push(init, ws.last().push(c));
    if init.len() == 0 {
        assert(ws =~= seq![ws.last()]);
    } else {
        assert(init.push(ws.last()) =~= ws);
        lemma_join_push(init, ws.last());
        assert(join_words(init) + seq![' '] + ws.last().push(c) =~= (join_words(init) + seq![
            ' ',
        ] + ws.last()).push(c));
    }
}

/// Every blank of `r` is a single space, with a non-blank character on each side.
pub open spec fn is_tidy(r: Seq<char>) -> bool {
    forall|k: int|
        0 <= k < r.len() && is_blank(#[trigger] r[k]) ==> r[k] == ' ' && 0 < k < r.len() - 1
            && !is_blank(r[k - 1]) && !is_blank(r[k + 1])
}

proof fn lemma_words_are_solid(s: Seq<char>)
    ensures
        forall|i: int|
            0 <= i < words(s).len() ==> (#[trigger] words(s)[i]).len() > 0 && forall|j: int|
                0 <= j < words(s)[i].len() ==> !is_blank(#[trigger] words(s)[i][j]),
    decreases s.len(),
{
    if s.len() > 0 {
        lemma_words_are_solid(s.drop_last());
        let w = words(s.drop_last());
        let c = s.last();
        if !is_blank(c) && !(s.drop_last().len() == 0 || is_blank(s.drop_last().last())) {
            assert(w.len() > 0);
            let last = w.last().push(c);
            assert forall|j: int| 0 <= j < last.len() implies !is_blank(#[trigger] last[j]) by {
                if j < w.last().len() {
                    assert(last[j] == w[w.len() - 1][j]);
                }
            }
        }
    }
}

proof fn lemma_join_is_tidy(ws: Seq<Seq<char>>)
    requires
        forall|i: int|
            0 <= i < ws.len() ==> (#[trigger] ws[i]).len() > 0 && forall|j: int|
                0 <= j < ws[i].len() ==> !is_blank(#[trigger] ws[i][j]),
    ensures
        is_tidy(join_words(ws)),
        ws.len() > 0 ==> join_words(ws).len() > 0 && !is_blank(join_words(ws)[0]) && !is_blank(
            join_words(ws).last(),
        ),
    decreases ws.len(),
{
    if ws.len() == 1 {
        let w = ws[0];
        assert(forall|j: int| 0 <= j < w.len() ==> !is_blank(#[trigger] w[j]));
    } else if ws.len() > 1 {
        let init = ws.drop_last();
        let w = ws.last();
        assert(forall|i: int| 0 <= i < init.len() ==> init[i] == ws[i]);
        lemma_join_is_tidy(init);
        let a = join_words(init);
        let r = join_words(ws);
        assert(r == a + seq![' '] + w);
        assert(forall|j: int| 0 <= j < w.len() ==> !is_blank(#[trigger] w[j]));
        assert forall|k: int| 0 <= k < r.len() && is_blank(#[trigger] r[k]) implies r[k] == ' '
            && 0 < k < r.len() - 1 && !is_blank(r[k - 1]) && !is_blank(r[k + 1]) by {
            if k < a.len() {
                assert(r[k] == a[k]);
                assert(r[k - 1] == a[k - 1]);
                assert(r[k + 1] == a[k + 1]);
            } else if k == a.len() {
                assert(r[k - 1] == a.last());
                assert(r[k + 1] == w[0]);
            } else {
                assert(r[k] == w[k - a.len() - 1]);
            }
        }
        assert(r[0] == a[0]);
        assert(r.last() == w.last());
    }
}

/// A normalized text has no whitespace but single spaces between two words: none
/// at either end, no two in a row, and no tab, newline or form feed.
pub proof fn lemma_normalized_is_tidy(s: Seq<char>)
    ensures
        is_tidy(normalized(s)),
{
    lemma_words_are_solid(s);
    lemma_join_is_tidy(words(s));
}

/// Relies on `String::push`: the character is appended at the end of the string.
#[verifier::external_body]
fn push_char(s: &mut String, c: char)
    ensures
        final(s)@ == old(s)@.push(c),
{
    s.push(c)
}

/// Collapses every run of whitespace in `s` (spaces, tabs, newlines, form feeds, ...)
/// into one space and drops the whitespace at both ends.
pub fn normalize_whitespace(s: &str) -> (r: String)
    ensures
        r@ == normalized(s@),
        is_tidy(r@),
{
    broadcast use vstd::string::axiom_spec_iter;

    let mut out = String::new();
    let mut have_word = false;
    let mut after_blank = true;
    for c in it: s.chars()
        invariant
            it.seq() == s@,
            out@ == join_words(words(s@.take(it.index()))),
            have_word == (words(s@.take(it.index())).len() > 0),
            after_blank == (it.index() == 0 || is_blank(s@[it.index() - 1])),
    {
        let ghost i = it.index();
        let ghost prev = s@.take(i);
        let ghost next = s@.take(i + 1);
        assert(next.drop_last() =~= prev);
        assert(next.last() == c);
        if is_blank_char(c) {
            after_blank = true;
        } else {
            if after_blank {
                proof {
                    lemma_join_push(words(prev), seq![c]);
                }
                if have_word {
                    push_char(&mut out, ' ');
                }
                push_char(&mut out, c);
                assert(out@ =~= join_words(words(next)));
            } else {
                proof {
                    lemma_join_extend_last(words(prev), c);
                }
                push_char(&mut out, c);
            }
            have_word = true;
            after_blank = false;
        }
    }
    assert(s@.take(s@.len() as int) =~= s@);
    proof {
        lemma_normalized_is_tidy(s@);
    }
    out
}

/// Tells whether `a` and `b` hold the same characters.
pub fn text_equals(a: &str, b: &str) -> (r: bool)
    ensures
        r == (a@ == b@),
{
    let n = a.unicode_len();
    if n != b.unicode_len() {
        return false;
    }
    let mut i: usize = 0;
    while i < n
        invariant
            n == a@.len(),
            n == b@.len(),
            i <= n,
            forall|j: int| 0 <= j < i ==> a@[j] == b@[j],
        decreases n - i,
    {
        if a.get_char(i) != b.get_char(i) {
            return false;
        }
        i = i + 1;
    }
    assert(a@ =~= b@);
    true
}

} // verus!
