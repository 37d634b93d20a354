//! Character sequences: the few operations on text that command
//! translation needs, each stated over `Seq<char>` and proved.

use vstd::prelude::*;

verus! {

/// Gives `String::push` its meaning on the string's view: the character is
/// appended at the end, as the standard library documents. Not proved here.
pub assume_specification[ String::push ](s: &mut String, ch: char)
    ensures
        final(s)@ == old(s)@.push(ch),
;

/// White space in the Unicode sense: the code points that carry the
/// `White_Space` property.
pub open spec fn is_space(c: char) -> bool {
    let n = c as u32;
    ||| n == 0x20
    ||| 0x09 <= n <= 0x0D
    ||| n == 0x85
    ||| n == 0xA0
    ||| n == 0x1680
    ||| 0x2000 <= n <= 0x200A
    ||| n == 0x2028
    ||| n == 0x2029
    ||| n == 0x202F
    ||| n == 0x205F
    ||| n == 0x3000
}

/// `p` stands in `s` at position `i`.
pub open spec fn occurs_at(s: Seq<char>, i: int, p: Seq<char>) -> bool {
    &&& 0 <= i
    &&& i + p.len() <= s.len()
    &&& s.subrange(i, i + p.len()) == p
}

/// `s` begins with `p`.
pub open spec fn has_prefix(s: Seq<char>, p: Seq<char>) -> bool {
    occurs_at(s, 0, p)
}

/// `p` stands somewhere in `s`.
pub open spec fn has_substring(s: Seq<char>, p: Seq<char>) -> bool {
    exists|i: int| occurs_at(s, i, p)
}

/// `s` with every occurrence of `p` taken out, scanning from the left and
/// never looking back into what was already passed. An empty `p` takes
/// nothing out.
pub open spec fn without(s: Seq<char>, p: Seq<char>) -> Seq<char>
    decreases s.len(),
{
    if s.len() == 0 {
        s
    } else if p.len() > 0 && occurs_at(s, 0, p) {
        without(s.skip(p.len() as int), p)
    } else {
        seq![s[0]] + without(s.skip(1), p)
    }
}

/// `s` without its leading white space.
pub open spec fn trimmed_start(s: Seq<char>) -> Seq<char>
    decreases s.len(),
{
    if s.len() > 0 && is_space(s[0]) {
        trimmed_start(s.skip(1))
    } else {
        s
    }
}

/// `s` without its trailing white space.
pub open spec fn trimmed_end(s: Seq<char>) -> Seq<char>
    decreases s.len(),
{
    if s.len() > 0 && is_space(s.last()) {
        trimmed_end(s.drop_last())
    } else {
        s
    }
}

/// `s` without leading and trailing white space.
pub open spec fn trimmed(s: Seq<char>) -> Seq<char> {
    trimmed_end(trimmed_start(s))
}

/// The length of the run of characters other than white space at the start
/// of `s`.
pub open spec fn word_len(s: Seq<char>) -> nat
    decreases s.len(),
{
    if s.len() == 0 || is_space(s[0]) {
        0
    } else {
        1 + word_len(s.skip(1))
    }
}

/// The words of `s`: its maximal runs of characters other than white space,
/// from left to right.
pub open spec fn tokens(s: Seq<char>) -> Seq<Seq<char>>
    decreases s.len(),
    via tokens_decreases
{
    if s.len() == 0 {
        Seq::empty()
    } else if is_space(s[0]) {
        tokens(s.skip(1))
    } else {
        seq![s.take(word_len(s) as int)] + tokens(s.skip(word_len(s) as int))
    }
}

#[via_fn]
proof fn tokens_decreases(s: Seq<char>) {
    lemma_word_len_bounds(s);
}

/// A word is never longer than the text it starts, and is not empty where
/// the text starts with a character other than white space.
pub proof fn lemma_word_len_bounds(s: Seq<char>)
    ensures
        word_len(s) <= s.len(),
        s.len() > 0 && !is_space(s[0]) ==> word_len(s) >= 1,
    decreases s.len(),
{
    if s.len() > 0 && !is_space(s[0]) {
        lemma_word_len_bounds(s.skip(1));
    }
}

/// The parts written one after another with a single space between
/// neighbours.
pub open spec fn joined(parts: Seq<Seq<char>>) -> Seq<char>
    decreases parts.len(),
{
    if parts.len() == 0 {
        Seq::empty()
    } else if parts.len() == 1 {
        parts[0]
    } else {
        joined(parts.drop_last()) + seq![' '] + parts.last()
    }
}

/// The views of a list of texts.
pub open spec fn views(v: Seq<Vec<char>>) -> Seq<Seq<char>> {
    Seq::new(v.len(), |i: int| v[i]@)
}

/// Tells white space from other characters.
pub fn is_space_char(c: char) -> (r: bool)
    ensures
        r == is_space(c),
{
    let n: u32 = c as u32;
    n == 0x20 || (0x09 <= n && n <= 0x0D) || n == 0x85 || n == 0xA0 || n == 0x1680 || (0x2000 <= n
        && n <= 0x200A) || n == 0x2028 || n == 0x2029 || n == 0x202F || n == 0x205F || n == 0x3000
}

/// The characters of a string slice, in order.
pub fn to_chars(s: &str) -> (v: Vec<char>)
    ensures
        v@ == s@,
{
    let mut v: Vec<char> = Vec::new();
    for c in it: s.chars()
        invariant
            it.seq() == s@,
            v@ == it.seq().take(it.index() as int),
    {
        v.push(c);
    }
    v
}

/// The string made of the given characters, in order.
pub fn from_chars(v: &Vec<char>) -> (s: String)
    ensures
        s@ == v@,
{
    let mut s = String::new();
    let mut i: usize = 0;
    while i < v.len()
        invariant
            i <= v.len(),
            s@ == v@.take(i as int),
        decreases v.len() - i,
    {
        s.push(v[i]);
        i += 1;
    }
    s
}

/// Whether two texts hold the same characters.
pub fn same_chars(a: &Vec<char>, b: &Vec<char>) -> (r: bool)
    ensures
        r == (a@ == b@),
{
    if a.len() != b.len() {
        return false;
    }
    let mut i: usize = 0;
    while i < a.len()
        invariant
            i <= a.len(),
            a.len() == b.len(),
            forall|k: int| 0 <= k < i ==> a@[k] == b@[k],
        decreases a.len() - i,
    {
        if a[i] != b[i] {
            return false;
        }
        i += 1;
    }
    assert(a@ =~= b@);
    true
}

/// A copy of a text.
pub fn copy_chars(s: &Vec<char>) -> (r: Vec<char>)
    ensures
        r@ == s@,
{
    let mut r: Vec<char> = Vec::new();
    let mut i: usize = 0;
    while i < s.len()
        invariant
            i <= s.len(),
            r@ == s@.take(i as int),
        decreases s.len() - i,
    {
        r.push(s[i]);
        assert(s@.take(i as int).push(s@[i as int]) =~= s@.take(i + 1));
        i += 1;
    }
    assert(s@.take(s@.len() as int) =~= s@);
    r
}

/// A copy of the characters of `s` from `from` up to, not including, `to`.
pub fn slice_chars(s: &Vec<char>, from: usize, to: usize) -> (r: Vec<char>)
    requires
        from <= to <= s.len(),
    ensures
        r@ == s@.subrange(from as int, to as int),
{
    let mut r: Vec<char> = Vec::new();
    let mut i: usize = from;
    while i < to
        invariant
            from <= i <= to <= s.len(),
            r@ == s@.subrange(from as int, i as int),
        decreases to - i,
    {
        r.push(s[i]);
        assert(s@.subrange(from as int, i as int).push(s@[i as int]) =~= s@.subrange(
            from as int,
            i + 1,
        ));
        i += 1;
    }
    r
}

/// Appends the characters of `tail` to `head`.
pub fn append_chars(head: &mut Vec<char>, tail: &Vec<char>)
    ensures
        final(head)@ == old(head)@ + tail@,
{
    let mut i: usize = 0;
    while i < tail.len()
        invariant
            i <= tail.len(),
            head@ == old(head)@ + tail@.take(i as int),
        decreases tail.len() - i,
    {
        head.push(tail[i]);
        assert(tail@.take(i as int).push(tail@[i as int]) =~= tail@.take(i + 1));
        assert(head@ =~= old(head)@ + tail@.take(i + 1));
        i += 1;
    }
    assert(tail@.take(tail@.len() as int) =~= tail@);
}

/// Whether `p` stands in `s` at position `i`.
pub fn occurs_at_index(s: &Vec<char>, i: usize, p: &Vec<char>) -> (r: bool)
    requires
        i <= s.len(),
    ensures
        r == occurs_at(s@, i as int, p@),
{
    if p.len() > s.len() - i {
        return false;
    }
    let mut k: usize = 0;
    while k < p.len()
        invariant
            k <= p.len(),
            i + p.len() <= s.len(),
            forall|j: int| 0 <= j < k ==> s@[i + j] == p@[j],
        decreases p.len() - k,
    {
        if s[i + k] != p[k] {
            assert(s@.subrange(i as int, i + p@.len())[k as int] != p@[k as int]);
            return false;
        }
        k += 1;
    }
    assert(s@.subrange(i as int, i + p@.len()) =~= p@);
    true
}

/// Whether `s` begins with `p`.
pub fn starts_with(s: &Vec<char>, p: &Vec<char>) -> (r: bool)
    ensures
        r == has_prefix(s@, p@),
{
    occurs_at_index(s, 0, p)
}

/// Whether `p` stands somewhere in `s`.
pub fn contains(s: &Vec<char>, p: &Vec<char>) -> (r: bool)
    ensures
        r == has_substring(s@, p@),
{
    let mut i: usize = 0;
    while i <= s.len()
        invariant
            i <= s.len() + 1,
            forall|k: int| 0 <= k < i ==> !occurs_at(s@, k, p@),
        decreases s.len() + 1 - i,
    {
        if occurs_at_index(s, i, p) {
            return true;
        }
        if i == s.len() {
            assert(forall|k: int| !occurs_at(s@, k, p@));
            return false;
        }
        i += 1;
    }
    false
}

/// `s` with every occurrence of `p` taken out.
pub fn remove_all(s: &Vec<char>, p: &Vec<char>) -> (r: Vec<char>)
    ensures
        r@ == without(s@, p@),
{
    let mut r: Vec<char> = Vec::new();
    let mut i: usize = 0;
    assert(s@.skip(0) =~= s@);
    assert(r@ + without(s@, p@) =~= without(s@, p@));
    while i < s.len()
        invariant
            i <= s.len(),
            r@ + without(s@.skip(i as int), p@) == without(s@, p@),
        decreases s.len() - i,
    {
        let ghost rest = s@.skip(i as int);
        let ghost before = r@;
        if p.len() > 0 && occurs_at_index(s, i, p) {
            proof {
                assert(rest.subrange(0, p@.len() as int) =~= s@.subrange(
                    i as int,
                    i + p@.len(),
                ));
                assert(rest.skip(p@.len() as int) =~= s@.skip(i + p@.len()));
            }
            i += p.len();
        } else {
            proof {
                if p@.len() > 0 && occurs_at(rest, 0, p@) {
                    assert(rest.subrange(0, p@.len() as int) =~= s@.subrange(
                        i as int,
                        i + p@.len(),
                    ));
                }
                assert(rest.skip(1) =~= s@.skip(i + 1));
                assert(before.push(s@[i as int]) + without(s@.skip(i + 1), p@) =~= before + (
                seq![s@[i as int]] + without(s@.skip(i + 1), p@)));
            }
            r.push(s[i]);
            i += 1;
        }
    }
    assert(s@.skip(s@.len() as int).len() == 0);
    assert(r@ + without(s@.skip(s@.len() as int), p@) =~= r@);
    r
}

/// `s` without leading and trailing white space.
pub fn trim(s: &Vec<char>) -> (r: Vec<char>)
    ensures
        r@ == trimmed(s@),
{
    let mut a: usize = 0;
    assert(s@.skip(0) =~= s@);
    while a < s.len() && is_space_char(s[a])
        invariant
            a <= s.len(),
            trimmed_start(s@.skip(a as int)) == trimmed_start(s@),
        decreases s.len() - a,
    {
        assert(s@.skip(a as int).skip(1) =~= s@.skip(a + 1));
        a += 1;
    }
    assert(trimmed_start(s@) == s@.skip(a as int));
    let mut b: usize = s.len();
    assert(s@.subrange(a as int, b as int) =~= s@.skip(a as int));
    while b > a && is_space_char(s[b - 1])
        invariant
            a <= b <= s.len(),
            trimmed_end(s@.subrange(a as int, b as int)) == trimmed(s@),
        decreases b - a,
    {
        assert(s@.subrange(a as int, b as int).drop_last() =~= s@.subrange(a as int, b - 1));
        b -= 1;
    }
    slice_chars(s, a, b)
}

/// The words of `s`, from left to right.
pub fn split_whitespace(s: &Vec<char>) -> (r: Vec<Vec<char>>)
    ensures
        views(r@) == tokens(s@),
{
    let mut r: Vec<Vec<char>> = Vec::new();
    let mut i: usize = 0;
    assert(s@.skip(0) =~= s@);
    assert(views(r@) =~= Seq::empty());
    while i < s.len()
        invariant
            i <= s.len(),
            views(r@) + tokens(s@.skip(i as int)) == tokens(s@),
        decreases s.len() - i,
    {
        let ghost rest = s@.skip(i as int);
        if is_space_char(s[i]) {
            assert(rest.skip(1) =~= s@.skip(i + 1));
            i += 1;
        } else {
            let mut j: usize = i;
            while j < s.len() && !is_space_char(s[j])
                invariant
                    i <= j <= s.len(),
                    word_len(rest) == (j - i) + word_len(s@.skip(j as int)),
                    rest == s@.skip(i as int),
                decreases s.len() - j,
            {
                assert(s@.skip(j as int).skip(1) =~= s@.skip(j + 1));
                j += 1;
            }
            let word = slice_chars(s, i, j);
            proof {
                assert(word_len(rest) == j - i);
                assert(rest.take(j - i) =~= word@);
                assert(rest.skip(j - i) =~= s@.skip(j as int));
                let ghost before = views(r@);
                assert(views(r@.push(word)) =~= before.push(word@));
                assert(before.push(word@) + tokens(s@.skip(j as int)) =~= before + (seq![word@]
                    + tokens(s@.skip(j as int))));
            }
            r.push(word);
            i = j;
        }
    }
    assert(s@.skip(s@.len() as int).len() == 0);
    assert(views(r@) + tokens(s@.skip(s@.len() as int)) =~= views(r@));
    r
}

/// The parts from position `from` on, written one after another with a
/// single space between neighbours.
pub fn join_from(parts: &Vec<Vec<char>>, from: usize) -> (r: Vec<char>)
    requires
        from <= parts.len(),
    ensures
        r@ == joined(views(parts@).skip(from as int)),
{
    let mut r: Vec<char> = Vec::new();
    let mut i: usize = from;
    let ghost all = views(parts@).skip(from as int);
    assert(all.take(0) =~= Seq::empty());
    while i < parts.len()
        invariant
            from <= i <= parts.len(),
            all == views(parts@).skip(from as int),
            r@ == joined(all.take(i - from)),
        decreases parts.len() - i,
    {
        let ghost before = r@;
        if i > from {
            r.push(' ');
        }
        append_chars(&mut r, &parts[i]);
        proof {
            let next = all.take(i - from + 1);
            assert(next.drop_last() =~= all.take(i - from));
            assert(next.last() == parts@[i as int]@);
            if i > from {
                assert(r@ =~= before + seq![' '] + parts@[i as int]@);
            } else {
                assert(r@ =~= parts@[i as int]@);
                assert(next.len() == 1);
            }
        }
        i += 1;
    }
    assert(all.take(parts@.len() - from) =~= all);
    r
}

/// A text that begins with `p` has the characters of `p` at its start.
pub proof fn lemma_prefix_chars(s: Seq<char>, p: Seq<char>)
    requires
        has_prefix(s, p),
    ensures
        p.len() <= s.len(),
        forall|i: int| 0 <= i < p.len() ==> s[i] == p[i],
{
    assert forall|i: int| 0 <= i < p.len() implies s[i] == p[i] by {
        assert(s.subrange(0, 0 + p.len() as int)[i] == s[i]);
    }
}

/// Trimming at the end leaves a start of the text that reaches past every
/// character other than white space and does not end in white space.
pub proof fn lemma_trimmed_end_is_start(s: Seq<char>)
    ensures
        trimmed_end(s).len() <= s.len(),
        trimmed_end(s) == s.take(trimmed_end(s).len() as int),
        forall|i: int| 0 <= i < s.len() && !is_space(s[i]) ==> i < trimmed_end(s).len(),
        trimmed_end(s).len() > 0 ==> !is_space(trimmed_end(s).last()),
    decreases s.len(),
{
    if s.len() > 0 && is_space(s.last()) {
        let t = s.drop_last();
        lemma_trimmed_end_is_start(t);
        assert(t.take(trimmed_end(t).len() as int) =~= s.take(trimmed_end(t).len() as int));
        assert forall|i: int| 0 <= i < s.len() && !is_space(s[i]) implies i < trimmed_end(
            s,
        ).len() by {
            assert(i < t.len());
            assert(t[i] == s[i]);
        }
    } else {
        assert(s.take(s.len() as int) =~= s);
    }
}

/// Trimming a text that starts with a character other than white space
/// keeps that start: the result is a start of the text and reaches past
/// every character other than white space.
pub proof fn lemma_trimmed_is_start(s: Seq<char>)
    requires
        s.len() > 0,
        !is_space(s[0]),
    ensures
        0 < trimmed(s).len() <= s.len(),
        trimmed(s) == s.take(trimmed(s).len() as int),
        forall|i: int| 0 <= i < s.len() && !is_space(s[i]) ==> i < trimmed(s).len(),
        !is_space(trimmed(s).last()),
{
    lemma_trimmed_end_is_start(s);
}

/// A text all of whose characters are other than white space, and that has
/// at least one.
pub open spec fn is_word(w: Seq<char>) -> bool {
    &&& w.len() > 0
    &&& forall|i: int| 0 <= i < w.len() ==> !is_space(#[trigger] w[i])
}

/// The first word of a text ends before the first white space.
pub proof fn lemma_word_len_before_space(s: Seq<char>, j: int)
    requires
        0 <= j < s.len(),
        is_space(s[j]),
    ensures
        word_len(s) <= j,
    decreases j,
{
    if j > 0 && !is_space(s[0]) {
        lemma_word_len_before_space(s.skip(1), j - 1);
    }
}

/// What follows a white space does not change the first word of what
/// stands before it.
pub proof fn lemma_word_len_ends_at_space(a: Seq<char>, b: Seq<char>)
    requires
        b.len() > 0,
        is_space(b[0]),
    ensures
        word_len(a + b) == word_len(a),
    decreases a.len(),
{
    if a.len() == 0 {
        assert(a + b =~= b);
    } else if is_space(a[0]) {
        assert((a + b)[0] == a[0]);
    } else {
        assert((a + b)[0] == a[0]);
        assert((a + b).skip(1) =~= a.skip(1) + b);
        lemma_word_len_ends_at_space(a.skip(1), b);
    }
}

/// A word spans the whole of itself.
pub proof fn lemma_word_len_of_word(w: Seq<char>)
    requires
        forall|i: int| 0 <= i < w.len() ==> !is_space(#[trigger] w[i]),
    ensures
        word_len(w) == w.len(),
    decreases w.len(),
{
    if w.len() > 0 {
        let rest = w.skip(1);
        assert forall|i: int| 0 <= i < rest.len() implies !is_space(#[trigger] rest[i]) by {
            assert(rest[i] == w[i + 1]);
        }
        lemma_word_len_of_word(rest);
    }
}

/// A word is its own single word.
pub proof fn lemma_tokens_of_word(w: Seq<char>)
    requires
        is_word(w),
    ensures
        tokens(w) == seq![w],
{
    lemma_word_len_of_word(w);
    assert(w.take(w.len() as int) =~= w);
    assert(w.skip(w.len() as int) =~= Seq::<char>::empty());
    assert(tokens(w.skip(w.len() as int)) =~= Seq::<Seq<char>>::empty());
    assert(seq![w] + Seq::<Seq<char>>::empty() =~= seq![w]);
}

/// The words of a text with a white space in it are the words before the
/// white space followed by the words after it.
pub proof fn lemma_tokens_split_at_space(a: Seq<char>, c: char, b: Seq<char>)
    requires
        is_space(c),
    ensures
        tokens(a + seq![c] + b) == tokens(a) + tokens(b),
    decreases a.len(),
{
    let x = a + seq![c] + b;
    if a.len() == 0 {
        assert(x.skip(1) =~= b);
        assert(tokens(a) + tokens(b) =~= tokens(b));
    } else if is_space(a[0]) {
        assert(x[0] == a[0]);
        assert(x.skip(1) =~= a.skip(1) + seq![c] + b);
        lemma_tokens_split_at_space(a.skip(1), c, b);
    } else {
        assert(x[0] == a[0]);
        let n = word_len(a) as int;
        lemma_word_len_bounds(a);
        assert(x =~= a + (seq![c] + b));
        lemma_word_len_ends_at_space(a, seq![c] + b);
        assert(x.take(n) =~= a.take(n));
        assert(x.skip(n) =~= a.skip(n) + seq![c] + b);
        lemma_tokens_split_at_space(a.skip(n), c, b);
        assert(seq![a.take(n)] + (tokens(a.skip(n)) + tokens(b)) =~= (seq![a.take(n)] + tokens(
            a.skip(n),
        )) + tokens(b));
    }
}

/// A text with a character other than white space has a word.
pub proof fn lemma_tokens_of_text_with_word(s: Seq<char>, j: int)
    requires
        0 <= j < s.len(),
        !is_space(s[j]),
    ensures
        tokens(s).len() >= 1,
    decreases s.len(),
{
    if is_space(s[0]) {
        lemma_tokens_of_text_with_word(s.skip(1), j - 1);
    }
}

/// Leading white space does not count for the words of a text.
pub proof fn lemma_tokens_of_trimmed_start(s: Seq<char>)
    ensures
        tokens(trimmed_start(s)) == tokens(s),
    decreases s.len(),
{
    if s.len() > 0 && is_space(s[0]) {
        lemma_tokens_of_trimmed_start(s.skip(1));
    }
}

/// Trailing white space does not count for the words of a text.
pub proof fn lemma_tokens_of_trimmed_end(s: Seq<char>)
    ensures
        tokens(trimmed_end(s)) == tokens(s),
    decreases s.len(),
{
    if s.len() > 0 && is_space(s.last()) {
        let t = s.drop_last();
        lemma_tokens_of_trimmed_end(t);
        assert(s =~= t + seq![s.last()] + Seq::<char>::empty());
        lemma_tokens_split_at_space(t, s.last(), Seq::<char>::empty());
        assert(tokens(t) + tokens(Seq::<char>::empty()) =~= tokens(t));
    }
}

/// Trimming a text does not change its words.
pub proof fn lemma_tokens_of_trimmed(s: Seq<char>)
    ensures
        tokens(trimmed(s)) == tokens(s),
{
    lemma_tokens_of_trimmed_start(s);
    lemma_tokens_of_trimmed_end(trimmed_start(s));
}

/// Joining words gives a text that begins as the first word does and ends
/// as the last word does.
pub proof fn lemma_joined_ends(parts: Seq<Seq<char>>)
    requires
        parts.len() > 0,
        forall|i: int| 0 <= i < parts.len() ==> is_word(#[trigger] parts[i]),
    ensures
        joined(parts).len() >= parts[0].len(),
        has_prefix(joined(parts), parts[0]),
        joined(parts).last() == parts.last().last(),
        parts.len() > 1 ==> has_prefix(joined(parts), parts[0] + seq![' ']),
    decreases parts.len(),
{
    if parts.len() == 1 {
        assert(joined(parts).subrange(0, 0 + parts[0].len() as int) =~= parts[0]);
    } else {
        let init = parts.drop_last();
        assert(is_word(parts.last()));
        assert forall|i: int| 0 <= i < init.len() implies is_word(#[trigger] init[i]) by {
            assert(init[i] == parts[i]);
        }
        lemma_joined_ends(init);
        let j = joined(parts);
        let n = parts[0].len() as int;
        assert(j.subrange(0, 0 + n) =~= joined(init).subrange(0, 0 + n));
        if init.len() > 1 {
            assert(j.subrange(0, 0 + (n + 1)) =~= joined(init).subrange(0, 0 + (n + 1)));
        } else {
            assert(joined(init) == parts[0]);
            assert(j.subrange(0, 0 + (n + 1)) =~= parts[0] + seq![' ']);
        }
    }
}

/// Joining and splitting are inverse on words: the words of the joined
/// text are the words that were joined.
pub proof fn lemma_tokens_of_joined(parts: Seq<Seq<char>>)
    requires
        forall|i: int| 0 <= i < parts.len() ==> is_word(#[trigger] parts[i]),
    ensures
        tokens(joined(parts)) == parts,
    decreases parts.len(),
{
    if parts.len() == 0 {
        assert(tokens(joined(parts)) =~= parts);
    } else if parts.len() == 1 {
        assert(is_word(parts[0]));
        lemma_tokens_of_word(parts[0]);
        assert(seq![parts[0]] =~= parts);
    } else {
        let init = parts.drop_last();
        assert(is_word(parts.last()));
        assert forall|i: int| 0 <= i < init.len() implies is_word(#[trigger] init[i]) by {
            assert(init[i] == parts[i]);
        }
        lemma_tokens_of_joined(init);
        lemma_tokens_split_at_space(joined(init), ' ', parts.last());
        lemma_tokens_of_word(parts.last());
        assert(init + seq![parts.last()] =~= parts);
    }
}

/// Joining a list of words followed by another is joining the first, then
/// a space and the second joined, if the second has any word.
pub proof fn lemma_joined_append(head: Seq<Seq<char>>, rest: Seq<Seq<char>>)
    requires
        head.len() > 0,
        forall|i: int| 0 <= i < rest.len() ==> is_word(#[trigger] rest[i]),
    ensures
        joined(head + rest) == joined(head) + if rest.len() == 0 {
            Seq::<char>::empty()
        } else {
            seq![' '] + joined(rest)
        },
        rest.len() > 0 ==> joined(rest).len() > 0,
    decreases rest.len(),
{
    if rest.len() == 0 {
        assert(head + rest =~= head);
        assert(joined(head) + Seq::<char>::empty() =~= joined(head));
    } else {
        let init = rest.drop_last();
        let last = rest.last();
        assert(is_word(last));
        assert forall|i: int| 0 <= i < init.len() implies is_word(#[trigger] init[i]) by {
            assert(init[i] == rest[i]);
        }
        lemma_joined_append(head, init);
        let all = head + rest;
        assert(all.drop_last() =~= head + init);
        assert(all.last() == last);
        if init.len() == 0 {
            assert(joined(rest) == last);
            assert(joined(all) =~= joined(head) + (seq![' '] + joined(rest)));
        } else {
            assert(joined(all) =~= joined(head) + (seq![' '] + joined(rest)));
        }
    }
}

/// Where a text stands in another, every part of it stands there too.
pub proof fn lemma_occurs_within(s: Seq<char>, i: int, p: Seq<char>, k: int, q: Seq<char>)
    requires
        occurs_at(s, i, p),
        occurs_at(p, k, q),
    ensures
        occurs_at(s, i + k, q),
{
    assert(s.subrange(i + k, i + k + q.len()) =~= s.subrange(i, i + p.len()).subrange(
        k,
        k + q.len(),
    ));
}

/// What stands in a text behind its first part stands in the rest.
pub proof fn lemma_occurs_in_rest(a: Seq<char>, b: Seq<char>, i: int, p: Seq<char>)
    requires
        occurs_at(a + b, i, p),
        i >= a.len(),
    ensures
        occurs_at(b, i - a.len(), p),
{
    assert(b.subrange(i - a.len(), i - a.len() + p.len()) =~= (a + b).subrange(i, i + p.len()));
}

/// Taking out what does not occur changes nothing.
pub proof fn lemma_without_absent(s: Seq<char>, p: Seq<char>)
    requires
        !has_substring(s, p),
    ensures
        without(s, p) == s,
    decreases s.len(),
{
    if s.len() > 0 {
        assert(!occurs_at(s, 0, p));
        let rest = s.skip(1);
        assert forall|i: int| !occurs_at(rest, i, p) by {
            if occurs_at(rest, i, p) {
                assert(s.subrange(i + 1, i + 1 + p.len()) =~= rest.subrange(i, i + p.len()));
                assert(occurs_at(s, i + 1, p));
            }
        }
        lemma_without_absent(rest, p);
        assert(seq![s[0]] + rest =~= s);
    }
}

/// What a text starts with is taken out first.
pub proof fn lemma_without_at_start(p: Seq<char>, rest: Seq<char>)
    requires
        p.len() > 0,
    ensures
        without(p + rest, p) == without(rest, p),
{
    let s = p + rest;
    assert(s.subrange(0, 0 + p.len() as int) =~= p);
    assert(s.skip(p.len() as int) =~= rest);
}

} // verus!
