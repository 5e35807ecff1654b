//! Character-sequence utilities shared by every parser in the crate.
use vstd::prelude::*;

verus! {

/// `String::push` appends one character: the text afterwards is the text
/// before with `ch` at its end.
pub assume_specification[ String::push ](s: &mut String, ch: char)
    ensures
        final(s)@ == old(s)@.push(ch),
;

/// The characters of `s`, in order.
pub fn chars_of(s: &str) -> (r: Vec<char>)
    ensures
        r@ == s@,
{
    let mut r: Vec<char> = Vec::new();
    for c in it: s.chars()
        invariant
            r@ == it.seq().take(it.index() as int),
    {
        r.push(c);
    }
    r
}

/// A `String` holding exactly the characters of `v`.
pub fn string_of(v: &Vec<char>) -> (r: String)
    ensures
        r@ == v@,
{
    let mut r = String::new();
    let mut i: usize = 0;
    while i < v.len()
        invariant
            i <= v.len(),
            r@ == v@.take(i as int),
        decreases v.len() - i,
    {
        r.push(v[i]);
        assert(v@.take(i as int).push(v@[i as int]) =~= v@.take(i + 1));
        i = i + 1;
    }
    assert(v@.take(v.len() as int) =~= v@);
    r
}


/// What `str::to_lowercase` gives for a string with these characters: the
/// Unicode lowercase mapping, which may change the length of the text.
pub uninterp spec fn lowercase_of(s: Seq<char>) -> Seq<char>;

/// The Unicode White_Space property, which `char::is_whitespace` tests:
/// tab to carriage return, space, next line, no-break space, ogham space
/// mark, the spaces from en quad to hair space, line and paragraph
/// separator, narrow no-break space, medium mathematical space, and
/// ideographic space.
pub open spec fn is_space(c: char) -> bool {
    let n = c as u32;
    (0x9 <= n <= 0xd) || n == 0x20 || n == 0x85 || n == 0xa0 || n == 0x1680 || (0x2000 <= n <= 0x200a) || n
        == 0x2028 || n == 0x2029 || n == 0x202f || n == 0x205f || n == 0x3000
}

/// Calls `str::to_lowercase`; the result is named `lowercase_of` of the input.
#[verifier::external_body]
pub(crate) fn to_lowercase(s: &str) -> (r: String)
    ensures
        r@ == lowercase_of(s@),
{
    s.to_lowercase()
}

/// Calls `char::is_whitespace`: whether `c` has the White_Space property
/// (`is_space`).
#[verifier::external_body]
pub(crate) fn char_is_whitespace(c: char) -> (r: bool)
    ensures
        r == is_space(c),
{
    c.is_whitespace()
}

/// The lowercase form of a character sequence.
pub fn lower(v: &Vec<char>) -> (r: Vec<char>)
    ensures
        r@ == lowercase_of(v@),
{
    let s = string_of(v);
    let l = to_lowercase(s.as_str());
    chars_of(l.as_str())
}

/// `p` occurs in `s` starting at index `i`.
pub open spec fn occurs_at(s: Seq<char>, p: Seq<char>, i: int) -> bool {
    0 <= i && i + p.len() <= s.len() && s.subrange(i, i + p.len()) == p
}

/// `p` is a substring of `s`.
pub open spec fn has_sub(s: Seq<char>, p: Seq<char>) -> bool {
    exists|i: int| occurs_at(s, p, i)
}

/// `s` begins with `p`.
pub open spec fn begins_with(s: Seq<char>, p: Seq<char>) -> bool {
    p.len() <= s.len() && s.take(p.len() as int) == p
}

/// `s` with leading whitespace removed.
pub open spec fn trim_start_of(s: Seq<char>) -> Seq<char>
    decreases s.len(),
{
    if s.len() > 0 && is_space(s[0]) {
        trim_start_of(s.drop_first())
    } else {
        s
    }
}

/// `s` with trailing whitespace removed.
pub open spec fn trim_end_of(s: Seq<char>) -> Seq<char>
    decreases s.len(),
{
    if s.len() > 0 && is_space(s.last()) {
        trim_end_of(s.drop_last())
    } else {
        s
    }
}

/// `s` with leading and trailing whitespace removed, as `str::trim` does.
pub open spec fn trim_of(s: Seq<char>) -> Seq<char> {
    trim_end_of(trim_start_of(s))
}

/// Does `p` occur in `s` at index `i`?
pub fn matches_at(s: &Vec<char>, p: &Vec<char>, i: usize) -> (r: bool)
    ensures
        r == occurs_at(s@, p@, i as int),
{
    if i > s.len() || p.len() > s.len() - i {
        return false;
    }
    let mut k: usize = 0;
    while k < p.len()
        invariant
            i + p.len() <= s.len(),
            k <= p.len(),
            forall|j: int| 0 <= j < k ==> s@[i + j] == p@[j],
        decreases p.len() - k,
    {
        if s[i + k] != p[k] {
            assert(s@.subrange(i as int, i + p.len())[k as int] != p@[k as int]);
            return false;
        }
        k = k + 1;
    }
    assert(s@.subrange(i as int, i + p.len()) =~= p@);
    true
}

/// Is `p` a substring of `s`? (`str::contains` with a string pattern.)
pub fn contains(s: &Vec<char>, p: &Vec<char>) -> (r: bool)
    ensures
        r == has_sub(s@, p@),
{
    if p.len() > s.len() {
        return false;
    }
    let last = s.len() - p.len();
    let mut i: usize = 0;
    loop
        invariant
            last == s.len() - p.len(),
            p.len() <= s.len(),
            i <= last,
            forall|j: int| 0 <= j < i ==> !occurs_at(s@, p@, j),
        decreases last - i,
    {
        if matches_at(s, p, i) {
            return true;
        }
        if i == last {
            return false;
        }
        i = i + 1;
    }
}

/// Does `s` begin with `p`?
pub fn starts_with(s: &Vec<char>, p: &Vec<char>) -> (r: bool)
    ensures
        r == begins_with(s@, p@),
{
    let r = matches_at(s, p, 0);
    proof {
        if r {
            assert(s@.subrange(0, p@.len() as int) =~= s@.take(p@.len() as int));
        }
        if begins_with(s@, p@) {
            assert(s@.subrange(0, p@.len() as int) =~= s@.take(p@.len() as int));
        }
    }
    r
}

proof fn lemma_trim_start_step(s: Seq<char>, i: int)
    requires
        0 <= i < s.len(),
        is_space(s[i]),
    ensures
        trim_start_of(s.subrange(i, s.len() as int)) == trim_start_of(s.subrange(i + 1, s.len() as int)),
{
    assert(s.subrange(i, s.len() as int).drop_first() =~= s.subrange(i + 1, s.len() as int));
}

proof fn lemma_trim_end_step(s: Seq<char>, j: int)
    requires
        0 < j <= s.len(),
        is_space(s[j - 1]),
    ensures
        trim_end_of(s.subrange(0, j)) == trim_end_of(s.subrange(0, j - 1)),
{
    assert(s.subrange(0, j).drop_last() =~= s.subrange(0, j - 1));
}

/// `s` with leading and trailing whitespace removed (`str::trim`).
pub fn trim(s: &Vec<char>) -> (r: Vec<char>)
    ensures
        r@ == trim_of(s@),
{
    let n = s.len();
    let mut i: usize = 0;
    assert(s@.subrange(0, n as int) =~= s@);
    while i < n && char_is_whitespace(s[i])
        invariant
            n == s.len(),
            i <= n,
            trim_start_of(s@) == trim_start_of(s@.subrange(i as int, n as int)),
        decreases n - i,
    {
        proof { lemma_trim_start_step(s@, i as int); }
        i = i + 1;
    }
    let ghost start = s@.subrange(i as int, n as int);
    assert(trim_start_of(start) == start);
    let mut j: usize = n;
    while j > i && char_is_whitespace(s[j - 1])
        invariant
            n == s.len(),
            i <= j <= n,
            start == s@.subrange(i as int, n as int),
            trim_end_of(start) == trim_end_of(s@.subrange(i as int, j as int)),
        decreases j,
    {
        proof { lemma_trim_end_step(start, j - i); 
            assert(start.subrange(0, j - i) =~= s@.subrange(i as int, j as int));
            assert(start.subrange(0, j - i - 1) =~= s@.subrange(i as int, j - 1));
        }
        j = j - 1;
    }
    let mut r: Vec<char> = Vec::new();
    let mut k: usize = i;
    while k < j
        invariant
            i <= k <= j <= n,
            n == s.len(),
            r@ == s@.subrange(i as int, k as int),
        decreases j - k,
    {
        r.push(s[k]);
        assert(s@.subrange(i as int, k as int).push(s@[k as int]) =~= s@.subrange(i as int, k + 1));
        k = k + 1;
    }
    r
}


/// The views of a vector of character vectors.
pub open spec fn seqs_of(v: Seq<Vec<char>>) -> Seq<Seq<char>> {
    Seq::new(v.len(), |i: int| v[i]@)
}

/// The pieces of `s` between occurrences of `sep` (`str::split` with a
/// character): one more piece than there are separators.
pub open spec fn split_on(s: Seq<char>, sep: char) -> Seq<Seq<char>>
    decreases s.len(),
{
    if s.len() == 0 {
        seq![Seq::<char>::empty()]
    } else {
        let p = split_on(s.drop_last(), sep);
        if s.last() == sep {
            p.push(Seq::<char>::empty())
        } else {
            p.update(p.len() - 1, p.last().push(s.last()))
        }
    }
}

pub proof fn lemma_split_on_nonempty(s: Seq<char>, sep: char)
    ensures
        split_on(s, sep).len() >= 1,
    decreases s.len(),
{
    if s.len() > 0 {
        lemma_split_on_nonempty(s.drop_last(), sep);
    }
}

/// `l` without one trailing carriage return.
pub open spec fn strip_cr(l: Seq<char>) -> Seq<char> {
    if l.len() > 0 && l.last() == '\r' {
        l.drop_last()
    } else {
        l
    }
}

/// The lines of `s` as `str::lines` gives them: split at `\n`, a `\r` before
/// a `\n` dropped, and no empty last line after a final `\n`.
pub open spec fn lines_of(s: Seq<char>) -> Seq<Seq<char>> {
    let p = split_on(s, '\n');
    if s.len() == 0 {
        Seq::<Seq<char>>::empty()
    } else if s.last() == '\n' {
        p.drop_last().map_values(|l: Seq<char>| strip_cr(l))
    } else {
        p.drop_last().map_values(|l: Seq<char>| strip_cr(l)).push(p.last())
    }
}

/// The pieces of `s` between occurrences of `sep`.
pub fn split(s: &Vec<char>, sep: char) -> (r: Vec<Vec<char>>)
    ensures
        seqs_of(r@) == split_on(s@, sep),
{
    let mut done: Vec<Vec<char>> = Vec::new();
    let mut cur: Vec<char> = Vec::new();
    let mut i: usize = 0;
    while i < s.len()
        invariant
            i <= s.len(),
            seqs_of(done@).push(cur@) == split_on(s@.take(i as int), sep),
        decreases s.len() - i,
    {
        let ghost before = s@.take(i as int);
        assert(s@.take(i + 1).drop_last() =~= before);
        proof { lemma_split_on_nonempty(before, sep); }
        let c = s[i];
        if c == sep {
            let piece = cur;
            done.push(piece);
            cur = Vec::new();
            assert(seqs_of(done@).push(cur@) =~= split_on(before, sep).push(Seq::<char>::empty()));
        } else {
            cur.push(c);
            assert(seqs_of(done@).push(cur@) =~= split_on(before, sep).update(
                split_on(before, sep).len() - 1, split_on(before, sep).last().push(c)));
        }
        i = i + 1;
    }
    assert(s@.take(s.len() as int) =~= s@);
    done.push(cur);
    assert(seqs_of(done@) =~= split_on(s@, sep));
    done
}

/// A fresh copy of `v`.
pub fn copy_chars(v: &Vec<char>) -> (r: Vec<char>)
    ensures
        r@ == v@,
{
    let mut r: Vec<char> = Vec::new();
    let mut i: usize = 0;
    while i < v.len()
        invariant
            i <= v.len(),
            r@ == v@.take(i as int),
        decreases v.len() - i,
    {
        r.push(v[i]);
        assert(v@.take(i as int).push(v@[i as int]) =~= v@.take(i + 1));
        i = i + 1;
    }
    assert(v@.take(v.len() as int) =~= v@);
    r
}

/// `l` without one trailing carriage return.
fn without_cr(l: Vec<char>) -> (r: Vec<char>)
    ensures
        r@ == strip_cr(l@),
{
    let mut l = l;
    if l.len() > 0 && l[l.len() - 1] == '\r' {
        l.pop();
    }
    l
}

/// The lines of `s` (`str::lines`).
pub fn lines(s: &Vec<char>) -> (r: Vec<Vec<char>>)
    ensures
        seqs_of(r@) == lines_of(s@),
{
    let p = split(s, '\n');
    proof { lemma_split_on_nonempty(s@, '\n'); }
    let ghost ps = split_on(s@, '\n');
    let mut r: Vec<Vec<char>> = Vec::new();
    if s.len() == 0 {
        assert(seqs_of(r@) =~= lines_of(s@));
        return r;
    }
    let n = p.len() - 1;
    let mut k: usize = 0;
    while k < n
        invariant
            n == p.len() - 1,
            k <= n,
            seqs_of(p@) == ps,
            seqs_of(r@) == ps.take(k as int).map_values(|l: Seq<char>| strip_cr(l)),
        decreases n - k,
    {
        let piece = without_cr(copy_chars(&p[k]));
        assert(seqs_of(p@)[k as int] == p@[k as int]@);
        let ghost old_r = seqs_of(r@);
        r.push(piece);
        assert(seqs_of(r@) =~= old_r.push(strip_cr(ps[k as int])));
        assert(ps.take(k + 1).map_values(|l: Seq<char>| strip_cr(l)) =~= ps.take(k as int).map_values(
            |l: Seq<char>| strip_cr(l)).push(strip_cr(ps[k as int])));
        k = k + 1;
    }
    assert(ps.take(n as int) =~= ps.drop_last());
    if s[s.len() - 1] != '\n' {
        r.push(copy_chars(&p[n]));
        assert(seqs_of(r@) =~= lines_of(s@));
    } else {
        assert(seqs_of(r@) =~= lines_of(s@));
    }
    r
}


/// The words of `s` as `str::split_whitespace` gives them, paired with the
/// word still being read at the end of `s`.
pub open spec fn words_acc(s: Seq<char>) -> (Seq<Seq<char>>, Seq<char>)
    decreases s.len(),
{
    if s.len() == 0 {
        (Seq::<Seq<char>>::empty(), Seq::<char>::empty())
    } else {
        let (w, cur) = words_acc(s.drop_last());
        if is_space(s.last()) {
            if cur.len() > 0 {
                (w.push(cur), Seq::<char>::empty())
            } else {
                (w, Seq::<char>::empty())
            }
        } else {
            (w, cur.push(s.last()))
        }
    }
}

/// The maximal runs of non-whitespace characters of `s`, in order
/// (`str::split_whitespace`).
pub open spec fn words_of(s: Seq<char>) -> Seq<Seq<char>> {
    let (w, cur) = words_acc(s);
    if cur.len() > 0 {
        w.push(cur)
    } else {
        w
    }
}

/// The words of `s` (`str::split_whitespace`).
pub fn words(s: &Vec<char>) -> (r: Vec<Vec<char>>)
    ensures
        seqs_of(r@) == words_of(s@),
{
    let mut done: Vec<Vec<char>> = Vec::new();
    let mut cur: Vec<char> = Vec::new();
    let mut i: usize = 0;
    while i < s.len()
        invariant
            i <= s.len(),
            (seqs_of(done@), cur@) == words_acc(s@.take(i as int)),
        decreases s.len() - i,
    {
        let ghost before = s@.take(i as int);
        assert(s@.take(i + 1).drop_last() =~= before);
        let c = s[i];
        if char_is_whitespace(c) {
            if cur.len() > 0 {
                let w = cur;
                done.push(w);
                assert(seqs_of(done@) =~= words_acc(before).0.push(words_acc(before).1));
            }
            cur = Vec::new();
        } else {
            cur.push(c);
        }
        i = i + 1;
    }
    assert(s@.take(s.len() as int) =~= s@);
    if cur.len() > 0 {
        done.push(cur);
        assert(seqs_of(done@) =~= words_of(s@));
    }
    done
}

/// Characters that are not whitespace extend the word being read.
proof fn lemma_words_acc_word(p: Seq<char>, y: Seq<char>)
    requires
        forall|i: int| 0 <= i < y.len() ==> !is_space(#[trigger] y[i]),
    ensures
        words_acc(p + y) == (words_acc(p).0, words_acc(p).1 + y),
    decreases y.len(),
{
    if y.len() == 0 {
        assert(p + y =~= p);
        assert(words_acc(p).1 + y =~= words_acc(p).1);
    } else {
        let y0 = y.drop_last();
        lemma_words_acc_word(p, y0);
        assert((p + y).drop_last() =~= p + y0);
        assert((p + y).last() == y.last());
        assert(words_acc(p).1 + y0.push(y.last()) =~= words_acc(p).1 + y);
        assert(y0.push(y.last()) =~= y);
        assert((words_acc(p).1 + y0).push(y.last()) =~= words_acc(p).1 + y);
    }
}

/// Whitespace ends the word being read, if any.
proof fn lemma_words_acc_gap(p: Seq<char>, g: Seq<char>)
    requires
        g.len() > 0,
        forall|i: int| 0 <= i < g.len() ==> is_space(#[trigger] g[i]),
    ensures
        words_acc(p + g) == (if words_acc(p).1.len() > 0 {
            words_acc(p).0.push(words_acc(p).1)
        } else {
            words_acc(p).0
        }, Seq::<char>::empty()),
    decreases g.len(),
{
    let g0 = g.drop_last();
    assert((p + g).drop_last() =~= p + g0);
    assert((p + g).last() == g.last());
    if g0.len() > 0 {
        lemma_words_acc_gap(p, g0);
    } else {
        assert(p + g0 =~= p);
    }
}

/// Two words separated by whitespace are the words of their text.
pub proof fn lemma_two_words(a: Seq<char>, g: Seq<char>, b: Seq<char>)
    requires
        a.len() > 0,
        b.len() > 0,
        g.len() > 0,
        forall|i: int| 0 <= i < a.len() ==> !is_space(#[trigger] a[i]),
        forall|i: int| 0 <= i < b.len() ==> !is_space(#[trigger] b[i]),
        forall|i: int| 0 <= i < g.len() ==> is_space(#[trigger] g[i]),
    ensures
        words_of(a + g + b) == seq![a, b],
{
    let e = Seq::<char>::empty();
    assert(e + a =~= a);
    lemma_words_acc_word(e, a);
    assert(words_acc(e) == (Seq::<Seq<char>>::empty(), e));
    assert(e + a =~= a);
    lemma_words_acc_gap(a, g);
    lemma_words_acc_word(a + g, b);
    assert(e + b =~= b);
    assert(Seq::<Seq<char>>::empty().push(a) =~= seq![a]);
    assert(seq![a].push(b) =~= seq![a, b]);
}

/// The pieces of `ws` joined with `sep` between neighbours (`[T]::join`).
pub open spec fn join_of(ws: Seq<Seq<char>>, sep: Seq<char>) -> Seq<char>
    decreases ws.len(),
{
    if ws.len() == 0 {
        Seq::<char>::empty()
    } else if ws.len() == 1 {
        ws[0]
    } else {
        join_of(ws.drop_last(), sep) + sep + ws.last()
    }
}

/// Append the characters of `b` to `a`.
pub fn extend(a: &mut Vec<char>, b: &Vec<char>)
    ensures
        final(a)@ == old(a)@ + b@,
{
    let mut i: usize = 0;
    while i < b.len()
        invariant
            i <= b.len(),
            a@ == old(a)@ + b@.take(i as int),
        decreases b.len() - i,
    {
        a.push(b[i]);
        assert(old(a)@ + b@.take(i + 1) =~= (old(a)@ + b@.take(i as int)).push(b@[i as int]));
        i = i + 1;
    }
    assert(b@.take(b.len() as int) =~= b@);
}

/// The pieces of `ws` joined with `sep`.
pub fn join(ws: &Vec<Vec<char>>, sep: &Vec<char>) -> (r: Vec<char>)
    ensures
        r@ == join_of(seqs_of(ws@), sep@),
{
    let mut r: Vec<char> = Vec::new();
    let mut i: usize = 0;
    while i < ws.len()
        invariant
            i <= ws.len(),
            r@ == join_of(seqs_of(ws@).take(i as int), sep@),
        decreases ws.len() - i,
    {
        let ghost t = seqs_of(ws@).take(i + 1);
        assert(t.drop_last() =~= seqs_of(ws@).take(i as int));
        if i > 0 {
            extend(&mut r, sep);
        }
        extend(&mut r, &ws[i]);
        if i == 0 {
            assert(r@ =~= join_of(t, sep@));
        }
        i = i + 1;
    }
    assert(seqs_of(ws@).take(ws.len() as int) =~= seqs_of(ws@));
    r
}

/// `s` with every `from` replaced by `to` (`str::replace` with characters).
pub open spec fn replace_char_of(s: Seq<char>, from: char, to: char) -> Seq<char> {
    s.map_values(|c: char| if c == from { to } else { c })
}

/// `s` with every `from` replaced by `to`.
pub fn replace_char(s: &Vec<char>, from: char, to: char) -> (r: Vec<char>)
    ensures
        r@ == replace_char_of(s@, from, to),
{
    let mut r: Vec<char> = Vec::new();
    let mut i: usize = 0;
    while i < s.len()
        invariant
            i <= s.len(),
            r@ == replace_char_of(s@.take(i as int), from, to),
        decreases s.len() - i,
    {
        let c = s[i];
        if c == from {
            r.push(to);
        } else {
            r.push(c);
        }
        assert(r@ =~= replace_char_of(s@.take(i + 1), from, to));
        i = i + 1;
    }
    assert(s@.take(s.len() as int) =~= s@);
    r
}

/// `s` with the prefix `p` removed, if `s` begins with `p` (`str::strip_prefix`).
pub open spec fn strip_prefix_of(s: Seq<char>, p: Seq<char>) -> Option<Seq<char>> {
    if begins_with(s, p) {
        Some(s.skip(p.len() as int))
    } else {
        None
    }
}

/// The characters `s[from..to]`.
pub fn slice(s: &Vec<char>, from: usize, to: usize) -> (r: Vec<char>)
    requires
        from <= to <= s.len(),
    ensures
        r@ == s@.subrange(from as int, to as int),
{
    let mut r: Vec<char> = Vec::new();
    let mut k: usize = from;
    while k < to
        invariant
            from <= k <= to <= s.len(),
            r@ == s@.subrange(from as int, k as int),
        decreases to - k,
    {
        r.push(s[k]);
        assert(s@.subrange(from as int, k as int).push(s@[k as int]) =~= s@.subrange(
            from as int,
            k + 1,
        ));
        k = k + 1;
    }
    r
}

/// `s` without the prefix `p`, or `None` when `s` does not begin with `p`.
pub fn strip_prefix(s: &Vec<char>, p: &Vec<char>) -> (r: Option<Vec<char>>)
    ensures
        match r {
            Some(v) => strip_prefix_of(s@, p@) == Some(v@),
            None => strip_prefix_of(s@, p@) is None,
        },
{
    if starts_with(s, p) {
        let rest = slice(s, p.len(), s.len());
        assert(rest@ =~= s@.skip(p@.len() as int));
        Some(rest)
    } else {
        None
    }
}

/// `c` is an ASCII decimal digit.
pub open spec fn is_digit(c: char) -> bool {
    '0' <= c && c <= '9'
}


/// The index of the first `c` in `s` at or after `k`.
pub open spec fn index_from(s: Seq<char>, c: char, k: int) -> Option<int>
    decreases s.len() - k,
{
    if k < 0 || k >= s.len() {
        None
    } else if s[k] == c {
        Some(k)
    } else {
        index_from(s, c, k + 1)
    }
}

/// `s` split around its first `c` (`str::split_once` with a character).
pub open spec fn split_once_of(s: Seq<char>, c: char) -> Option<(Seq<char>, Seq<char>)> {
    match index_from(s, c, 0) {
        Some(i) => Some((s.take(i), s.skip(i + 1))),
        None => None,
    }
}

/// `s` split around its first `c`.
pub fn split_once(s: &Vec<char>, c: char) -> (r: Option<(Vec<char>, Vec<char>)>)
    ensures
        match r {
            Some((a, b)) => split_once_of(s@, c) == Some((a@, b@)),
            None => split_once_of(s@, c) is None,
        },
{
    let mut i: usize = 0;
    while i < s.len()
        invariant
            i <= s.len(),
            index_from(s@, c, 0) == index_from(s@, c, i as int),
        decreases s.len() - i,
    {
        if s[i] == c {
            let a = slice(s, 0, i);
            let b = slice(s, i + 1, s.len());
            assert(a@ =~= s@.take(i as int));
            assert(b@ =~= s@.skip(i + 1));
            return Some((a, b));
        }
        i = i + 1;
    }
    None
}

/// `s` without leading double quotes.
pub open spec fn unquote_start(s: Seq<char>) -> Seq<char>
    decreases s.len(),
{
    if s.len() > 0 && s[0] == '"' {
        unquote_start(s.drop_first())
    } else {
        s
    }
}

/// `s` without trailing double quotes.
pub open spec fn unquote_end(s: Seq<char>) -> Seq<char>
    decreases s.len(),
{
    if s.len() > 0 && s.last() == '"' {
        unquote_end(s.drop_last())
    } else {
        s
    }
}

/// `s` without leading or trailing double quotes (`str::trim_matches('"')`).
pub open spec fn unquote_of(s: Seq<char>) -> Seq<char> {
    unquote_end(unquote_start(s))
}

/// `s` without leading or trailing double quotes.
pub fn unquote(s: &Vec<char>) -> (r: Vec<char>)
    ensures
        r@ == unquote_of(s@),
{
    let n = s.len();
    let mut i: usize = 0;
    assert(s@.subrange(0, n as int) =~= s@);
    while i < n && s[i] == '"'
        invariant
            n == s.len(),
            i <= n,
            unquote_start(s@) == unquote_start(s@.subrange(i as int, n as int)),
        decreases n - i,
    {
        assert(s@.subrange(i as int, n as int).drop_first() =~= s@.subrange(i + 1, n as int));
        i = i + 1;
    }
    let ghost start = s@.subrange(i as int, n as int);
    let mut j: usize = n;
    while j > i && s[j - 1] == '"'
        invariant
            n == s.len(),
            i <= j <= n,
            start == s@.subrange(i as int, n as int),
            unquote_end(start) == unquote_end(s@.subrange(i as int, j as int)),
        decreases j,
    {
        assert(s@.subrange(i as int, j as int).drop_last() =~= s@.subrange(i as int, j - 1));
        j = j - 1;
    }
    slice(s, i, j)
}


/// What `String::from_utf8_lossy` makes of these bytes: their UTF-8 text, with
/// U+FFFD in place of each invalid sequence.
pub uninterp spec fn lossy_text(b: Seq<u8>) -> Seq<char>;

/// Calls `String::from_utf8_lossy`; the result is named `lossy_text`.
#[verifier::external_body]
pub(crate) fn utf8_lossy(b: &[u8]) -> (r: String)
    ensures
        r@ == lossy_text(b@),
{
    String::from_utf8_lossy(b).into_owned()
}

/// The pieces of the bytes `b` between zero bytes (`[u8]::split`).
pub open spec fn split_nul(b: Seq<u8>) -> Seq<Seq<u8>>
    decreases b.len(),
{
    if b.len() == 0 {
        seq![Seq::<u8>::empty()]
    } else {
        let p = split_nul(b.drop_last());
        if b.last() == 0 {
            p.push(Seq::<u8>::empty())
        } else {
            p.update(p.len() - 1, p.last().push(b.last()))
        }
    }
}

pub proof fn lemma_split_nul_nonempty(b: Seq<u8>)
    ensures
        split_nul(b).len() >= 1,
    decreases b.len(),
{
    if b.len() > 0 {
        lemma_split_nul_nonempty(b.drop_last());
    }
}

/// The views of a vector of byte vectors.
pub open spec fn byte_seqs_of(v: Seq<Vec<u8>>) -> Seq<Seq<u8>> {
    Seq::new(v.len(), |i: int| v[i]@)
}

/// The pieces of `b` between zero bytes.
pub fn split_at_nul(b: &Vec<u8>) -> (r: Vec<Vec<u8>>)
    ensures
        byte_seqs_of(r@) == split_nul(b@),
{
    let mut done: Vec<Vec<u8>> = Vec::new();
    let mut cur: Vec<u8> = Vec::new();
    let mut i: usize = 0;
    while i < b.len()
        invariant
            i <= b.len(),
            byte_seqs_of(done@).push(cur@) == split_nul(b@.take(i as int)),
        decreases b.len() - i,
    {
        let ghost before = b@.take(i as int);
        assert(b@.take(i + 1).drop_last() =~= before);
        proof { lemma_split_nul_nonempty(before); }
        let x = b[i];
        if x == 0 {
            let piece = cur;
            done.push(piece);
            cur = Vec::new();
            assert(byte_seqs_of(done@).push(cur@) =~= split_nul(before).push(Seq::<u8>::empty()));
        } else {
            cur.push(x);
            assert(byte_seqs_of(done@).push(cur@) =~= split_nul(before).update(
                split_nul(before).len() - 1, split_nul(before).last().push(x)));
        }
        i = i + 1;
    }
    assert(b@.take(b.len() as int) =~= b@);
    done.push(cur);
    assert(byte_seqs_of(done@) =~= split_nul(b@));
    done
}

/// `s` with every leading repetition of `p` removed (`str::trim_start_matches`).
pub open spec fn strip_repeated_of(s: Seq<char>, p: Seq<char>) -> Seq<char>
    decreases s.len(),
{
    if p.len() > 0 && begins_with(s, p) {
        strip_repeated_of(s.skip(p.len() as int), p)
    } else {
        s
    }
}

/// `s` with every leading repetition of `p` removed.
pub fn strip_repeated(s: &Vec<char>, p: &Vec<char>) -> (r: Vec<char>)
    ensures
        r@ == strip_repeated_of(s@, p@),
{
    if p.len() == 0 {
        return copy_chars(s);
    }
    let n = s.len();
    let mut i: usize = 0;
    assert(s@.skip(0) =~= s@);
    while p.len() <= n - i && matches_at(s, p, i)
        invariant
            n == s.len(),
            i <= n,
            p.len() > 0,
            strip_repeated_of(s@, p@) == strip_repeated_of(s@.skip(i as int), p@),
        decreases n - i,
    {
        assert(s@.skip(i as int).take(p@.len() as int) =~= s@.subrange(i as int, i + p@.len()));
        assert(s@.skip(i as int).skip(p@.len() as int) =~= s@.skip(i + p@.len()));
        i = i + p.len();
    }
    proof {
        if i + p@.len() <= n {
            assert(s@.skip(i as int).take(p@.len() as int) =~= s@.subrange(i as int, i + p@.len()));
        }
    }
    let r = slice(s, i, n);
    assert(r@ =~= s@.skip(i as int));
    r
}

} // verus!
