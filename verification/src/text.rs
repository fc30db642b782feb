use vstd::prelude::*;

verus! {

/// `text` with every occurrence of `pattern` replaced by `replacement`,
/// scanning from the left and never reusing replaced characters: what
/// `str::replace` computes for a pattern that is not empty.
pub open spec fn replace_all(text: Seq<char>, pattern: Seq<char>, replacement: Seq<char>) -> Seq<char>
    decreases text.len(),
{
    if pattern.len() == 0 || text.len() < pattern.len() {
        text
    } else if text.take(pattern.len() as int) == pattern {
        replacement + replace_all(text.skip(pattern.len() as int), pattern, replacement)
    } else {
        seq![text[0]] + replace_all(text.skip(1), pattern, replacement)
    }
}

/// Text that holds no opening brace passes `replace_all` unchanged when the
/// pattern starts with one.
pub proof fn lemma_replace_skips_braceless(a: Seq<char>, rest: Seq<char>, pattern: Seq<char>, replacement: Seq<char>)
    requires
        pattern.len() > 0,
        pattern[0] == '{',
        !a.contains('{'),
    ensures
        replace_all(a + rest, pattern, replacement) == a + replace_all(rest, pattern, replacement),
    decreases a.len(),
{
    if a.len() > 0 {
        let t = a + rest;
        assert(t[0] == a[0]);
        assert(a[0] != '{') by {
            assert(a.contains(a[0]));
        }
        if t.len() >= pattern.len() {
            assert(t.take(pattern.len() as int)[0] != pattern[0]);
        }
        assert(!a.skip(1).contains('{')) by {
            if a.skip(1).contains('{') {
                let k = choose|k: int| 0 <= k < a.skip(1).len() && a.skip(1)[k] == '{';
                assert(a[k + 1] == '{');
            }
        }
        lemma_replace_skips_braceless(a.skip(1), rest, pattern, replacement);
        assert(t.skip(1) =~= a.skip(1) + rest);
        if t.len() < pattern.len() {
            assert(rest.len() < pattern.len());
            assert(a.skip(1) + rest == t.skip(1));
        } else {
            assert(seq![a[0]] + (a.skip(1) + replace_all(rest, pattern, replacement)) =~= a + replace_all(rest, pattern, replacement));
        }
    } else {
        assert(a + rest =~= rest);
        assert(a + replace_all(rest, pattern, replacement) =~= replace_all(rest, pattern, replacement));
    }
}

/// An occurrence of the pattern at the start is replaced.
pub proof fn lemma_replace_leading(rest: Seq<char>, pattern: Seq<char>, replacement: Seq<char>)
    requires
        pattern.len() > 0,
    ensures
        replace_all(pattern + rest, pattern, replacement) == replacement + replace_all(rest, pattern, replacement),
{
    let t = pattern + rest;
    assert(t.take(pattern.len() as int) =~= pattern);
    assert(t.skip(pattern.len() as int) =~= rest);
}

/// Whether `pattern` occurs in `text` at character position `at`.
fn matches_at(text: &str, pattern: &str, at: usize, text_len: usize, pattern_len: usize) -> (r: bool)
    requires
        text_len == text@.len(),
        pattern_len == pattern@.len(),
        at + pattern_len <= text_len,
    ensures
        r == (text@.subrange(at as int, at + pattern_len) == pattern@),
{
    let mut k: usize = 0;
    while k < pattern_len
        invariant
            text_len == text@.len(),
            pattern_len == pattern@.len(),
            at + pattern_len <= text_len,
            k <= pattern_len,
            forall|j: int| 0 <= j < k ==> text@[at + j] == pattern@[j],
        decreases pattern_len - k,
    {
        if text.get_char(at + k) != pattern.get_char(k) {
            assert(text@.subrange(at as int, at + pattern_len)[k as int] != pattern@[k as int]);
            return false;
        }
        k = k + 1;
    }
    assert(text@.subrange(at as int, at + pattern_len) =~= pattern@);
    true
}

proof fn lemma_replace_step(text: Seq<char>, pattern: Seq<char>, replacement: Seq<char>, i: int)
    requires
        pattern.len() > 0,
        0 <= i <= text.len(),
    ensures
        i + pattern.len() > text.len() ==> replace_all(text.skip(i), pattern, replacement) == text.skip(i),
        i + pattern.len() <= text.len() && text.subrange(i, i + pattern.len()) == pattern
            ==> replace_all(text.skip(i), pattern, replacement)
                == replacement + replace_all(text.skip(i + pattern.len()), pattern, replacement),
        i + pattern.len() <= text.len() && text.subrange(i, i + pattern.len()) != pattern
            ==> replace_all(text.skip(i), pattern, replacement)
                == seq![text[i]] + replace_all(text.skip(i + 1), pattern, replacement),
{
    let rest = text.skip(i);
    if i + pattern.len() <= text.len() {
        assert(rest.take(pattern.len() as int) =~= text.subrange(i, i + pattern.len()));
        assert(rest.skip(pattern.len() as int) =~= text.skip(i + pattern.len()));
        assert(rest.skip(1) =~= text.skip(i + 1));
    }
}

/// Replaces every occurrence of `pattern` in `text` by `replacement`.
pub fn replace_all_exec(text: &str, pattern: &str, replacement: &str) -> (r: String)
    requires
        pattern@.len() > 0,
    ensures
        r@ == replace_all(text@, pattern@, replacement@),
{
    let text_len = text.unicode_len();
    let pattern_len = pattern.unicode_len();
    let mut out = String::new();
    let mut i: usize = 0;
    proof {
        assert(text@.skip(0) =~= text@);
    }
    while i < text_len
        invariant
            text_len == text@.len(),
            pattern_len == pattern@.len(),
            pattern_len > 0,
            i <= text_len,
            out@ + replace_all(text@.skip(i as int), pattern@, replacement@)
                == replace_all(text@, pattern@, replacement@),
        decreases text_len - i,
    {
        proof {
            lemma_replace_step(text@, pattern@, replacement@, i as int);
        }
        if text_len - i < pattern_len {
            let tail = text.substring_char(i, text_len);
            assert(tail@ =~= text@.skip(i as int));
            out.append(tail);
            assert(text@.skip(text_len as int) =~= Seq::<char>::empty());
            i = text_len;
        } else if matches_at(text, pattern, i, text_len, pattern_len) {
            out.append(replacement);
            i = i + pattern_len;
        } else {
            let c = text.substring_char(i, i + 1);
            assert(c@ =~= seq![text@[i as int]]);
            out.append(c);
            i = i + 1;
        }
    }
    proof {
        assert(text@.skip(text_len as int) =~= Seq::<char>::empty());
    }
    out
}

/// Whether two texts are equal, character by character.
pub fn same_text(a: &str, b: &str) -> (r: bool)
    ensures
        r == (a@ == b@),
{
    let n = a.unicode_len();
    if n != b.unicode_len() {
        return false;
    }
    let mut i: usize = 0;
    while i < n
        invariant
            n == a@.len(),
            n == b@.len(),
            i <= n,
            forall|j: int| 0 <= j < i ==> a@[j] == b@[j],
        decreases n - i,
    {
        if a.get_char(i) != b.get_char(i) {
            return false;
        }
        i = i + 1;
    }
    assert(a@ =~= b@);
    true
}

/// The concatenation of two texts.
pub fn concat_texts(a: &str, b: &str) -> (r: String)
    ensures
        r@ == a@ + b@,
{
    let mut r = String::from_str(a);
    r.append(b);
    r
}

} // verus!
