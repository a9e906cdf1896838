//! Text handling for the script language: characters, words and lines.
//!
//! Every function here is stated over the sequence of characters that a
//! string holds.

use vstd::prelude::*;
use vstd::string::*;

verus! {

/// Whether `c` separates words: a character with the Unicode property
/// `White_Space`.
pub open spec fn is_space(c: char) -> bool {
    let n = c as u32;
    n == 0x20 || (0x09 <= n && n <= 0x0d) || n == 0x85 || n == 0xa0 || n == 0x1680 || (0x2000 <= n
        && n <= 0x200a) || n == 0x2028 || n == 0x2029 || n == 0x202f || n == 0x205f || n
        == 0x3000
}

/// The views of a sequence of strings.
pub open spec fn texts(v: Seq<String>) -> Seq<Seq<char>> {
    Seq::new(v.len(), |i: int| v[i]@)
}

/// The index of the first separator in `s` at or after `i`, or the length of
/// `s` if there is none.
pub open spec fn word_end(s: Seq<char>, i: int) -> int
    decreases s.len() - i,
{
    if 0 <= i < s.len() && !is_space(s[i]) {
        word_end(s, i + 1)
    } else {
        i
    }
}

/// The words of `s` that begin at or after `i`: a word begins at a character
/// that is no separator and runs up to the next separator.
pub open spec fn words_from(s: Seq<char>, i: int) -> Seq<Seq<char>>
    decreases s.len() - i,
{
    if i < 0 || i >= s.len() {
        Seq::empty()
    } else if is_space(s[i]) {
        words_from(s, i + 1)
    } else {
        proof {
            lemma_word_end(s, i);
        }
        seq![s.subrange(i, word_end(s, i))] + words_from(s, word_end(s, i))
    }
}

/// The words of `s`: its maximal runs of characters that are no separators.
pub open spec fn words(s: Seq<char>) -> Seq<Seq<char>> {
    words_from(s, 0)
}

/// A word that begins at `i` ends after `i`, inside `s`, at a separator or at
/// the end, and holds no separator.
pub proof fn lemma_word_end(s: Seq<char>, i: int)
    requires
        0 <= i <= s.len(),
    ensures
        i <= word_end(s, i) <= s.len(),
        i < s.len() && !is_space(s[i]) ==> i < word_end(s, i),
        word_end(s, i) < s.len() ==> is_space(s[word_end(s, i)]),
        forall|k: int| i <= k < word_end(s, i) ==> !is_space(#[trigger] s[k]),
    decreases s.len() - i,
{
    if i < s.len() && !is_space(s[i]) {
        lemma_word_end(s, i + 1);
    }
}

/// Whether `w` is non-empty and holds no separator.
pub open spec fn is_word(w: Seq<char>) -> bool {
    w.len() > 0 && forall|j: int| 0 <= j < w.len() ==> !is_space(#[trigger] w[j])
}

/// Every word is non-empty and free of separators.
pub proof fn lemma_words_are_solid(s: Seq<char>, i: int)
    requires
        0 <= i <= s.len(),
    ensures
        forall|k: int| 0 <= k < words_from(s, i).len() ==> is_word(#[trigger] words_from(s, i)[k]),
    decreases s.len() - i,
{
    if i >= s.len() {
        assert(words_from(s, i).len() == 0);
    } else if is_space(s[i]) {
        lemma_words_are_solid(s, i + 1);
        assert(words_from(s, i) == words_from(s, i + 1));
    } else {
        lemma_word_end(s, i);
        let e = word_end(s, i);
        lemma_words_are_solid(s, e);
        let first = s.subrange(i, e);
        let rest = words_from(s, e);
        assert(words_from(s, i) == seq![first] + rest);
        assert(is_word(first));
        assert forall|k: int| 0 <= k < words_from(s, i).len() implies is_word(
            #[trigger] words_from(s, i)[k],
        ) by {
            if k == 0 {
                assert(words_from(s, i)[k] == first);
            } else {
                assert(words_from(s, i)[k] == rest[k - 1]);
            }
        }
    }
}

/// The index of the first line feed in `s` at or after `i`, or the length of
/// `s` if there is none.
pub open spec fn line_end(s: Seq<char>, i: int) -> int
    decreases s.len() - i,
{
    if 0 <= i < s.len() && s[i] != '\n' {
        line_end(s, i + 1)
    } else {
        i
    }
}

/// The lines of `s` from `i` on: the pieces between line feeds. Text that
/// ends in a line feed has an empty last line.
pub open spec fn lines_from(s: Seq<char>, i: int) -> Seq<Seq<char>>
    decreases s.len() - i,
{
    let j = line_end(s, i);
    if 0 <= i <= j < s.len() {
        seq![s.subrange(i, j)] + lines_from(s, j + 1)
    } else {
        seq![s.subrange(i, s.len() as int)]
    }
}

/// The lines of `s`.
pub open spec fn lines(s: Seq<char>) -> Seq<Seq<char>> {
    lines_from(s, 0)
}

/// A line that begins at `i` ends at or after `i`, inside `s`.
pub proof fn lemma_line_end(s: Seq<char>, i: int)
    requires
        0 <= i <= s.len(),
    ensures
        i <= line_end(s, i) <= s.len(),
        line_end(s, i) < s.len() ==> s[line_end(s, i)] == '\n',
        forall|k: int| i <= k < line_end(s, i) ==> #[trigger] s[k] != '\n',
    decreases s.len() - i,
{
    if i < s.len() && s[i] != '\n' {
        lemma_line_end(s, i + 1);
    }
}

/// No line holds a line feed.
pub proof fn lemma_lines_hold_no_feed(s: Seq<char>, i: int)
    requires
        0 <= i <= s.len(),
    ensures
        forall|k: int, j: int|
            0 <= k < lines_from(s, i).len() && 0 <= j < lines_from(s, i)[k].len() ==> (
            #[trigger] lines_from(s, i)[k][j]) != '\n',
    decreases s.len() - i,
{
    lemma_line_end(s, i);
    let e = line_end(s, i);
    let first = s.subrange(i, e);
    if e < s.len() {
        lemma_lines_hold_no_feed(s, e + 1);
        let rest = lines_from(s, e + 1);
        assert(lines_from(s, i) == seq![first] + rest);
        assert forall|k: int, j: int|
            0 <= k < lines_from(s, i).len() && 0 <= j < lines_from(s, i)[k].len() implies (
        #[trigger] lines_from(s, i)[k][j]) != '\n' by {
            if k == 0 {
                assert(lines_from(s, i)[k] == first);
            } else {
                assert(lines_from(s, i)[k] == rest[k - 1]);
            }
        }
    } else {
        assert(lines_from(s, i) == seq![first]);
    }
}

/// The parts with one space between each two.
pub open spec fn joined(parts: Seq<Seq<char>>) -> Seq<char>
    decreases parts.len(),
{
    if parts.len() == 0 {
        Seq::empty()
    } else if parts.len() == 1 {
        parts[0]
    } else {
        joined(parts.drop_last()) + seq![' '] + parts.last()
    }
}

/// A word that is followed by a space ends where it ends without what
/// follows.
pub proof fn lemma_word_end_before_space(a: Seq<char>, tail: Seq<char>, i: int)
    requires
        0 <= i <= a.len(),
        tail.len() > 0,
        is_space(tail[0]),
    ensures
        word_end(a + tail, i) == word_end(a, i),
    decreases a.len() - i,
{
    let s = a + tail;
    if i < a.len() {
        assert(s[i] == a[i]);
        if !is_space(a[i]) {
            lemma_word_end_before_space(a, tail, i + 1);
        }
    } else {
        assert(s[i] == tail[0]);
    }
}

/// Inside a run of characters that are no separators, up to the end of the
/// text, a word ends at the end of the text.
pub proof fn lemma_word_end_of_last_word(s: Seq<char>, i: int)
    requires
        0 <= i <= s.len(),
        forall|k: int| i <= k < s.len() ==> !is_space(#[trigger] s[k]),
    ensures
        word_end(s, i) == s.len(),
    decreases s.len() - i,
{
    if i < s.len() {
        lemma_word_end_of_last_word(s, i + 1);
    }
}

/// A space and a word after a text add the word to the words of the text.
pub proof fn lemma_words_with_one_more(a: Seq<char>, w: Seq<char>, i: int)
    requires
        0 <= i <= a.len(),
        is_word(w),
    ensures
        words_from(a + seq![' '] + w, i) == words_from(a, i).push(w),
    decreases a.len() - i,
{
    let tail = seq![' '] + w;
    let s = a + seq![' '] + w;
    assert(s =~= a + tail);
    if i == a.len() {
        assert(s[i] == ' ');
        assert forall|k: int| i + 1 <= k < s.len() implies !is_space(#[trigger] s[k]) by {
            assert(s[k] == w[k - i - 1]);
        }
        lemma_word_end_of_last_word(s, i + 1);
        assert(s[i + 1] == w[0]);
        assert(s.subrange(i + 1, s.len() as int) =~= w);
        assert(words_from(s, s.len() as int) =~= Seq::<Seq<char>>::empty());
        assert(words_from(s, i + 1) =~= seq![w]);
        assert(words_from(a, i) =~= Seq::<Seq<char>>::empty());
    } else {
        assert(s[i] == a[i]);
        if is_space(a[i]) {
            lemma_words_with_one_more(a, w, i + 1);
        } else {
            lemma_word_end(a, i);
            lemma_word_end_before_space(a, tail, i);
            let e = word_end(a, i);
            lemma_words_with_one_more(a, w, e);
            assert(s.subrange(i, e) =~= a.subrange(i, e));
            assert(words_from(s, i) =~= words_from(a, i).push(w));
        }
    }
}

/// Words that are joined with spaces are found again as they were.
pub proof fn lemma_words_of_joined(parts: Seq<Seq<char>>)
    requires
        forall|k: int| 0 <= k < parts.len() ==> is_word(#[trigger] parts[k]),
    ensures
        words(joined(parts)) == parts,
    decreases parts.len(),
{
    if parts.len() == 0 {
    } else if parts.len() == 1 {
        let w = parts[0];
        lemma_word_end_of_last_word(w, 0);
        assert(w.subrange(0, w.len() as int) =~= w);
        assert(words_from(w, w.len() as int) =~= Seq::<Seq<char>>::empty());
        assert(words(w) =~= parts);
    } else {
        let front = parts.drop_last();
        lemma_words_of_joined(front);
        lemma_words_with_one_more(joined(front), parts.last(), 0);
        assert(front.push(parts.last()) =~= parts);
    }
}

/// The views of the strings from index `k` on are the views from index `k` on.
pub proof fn lemma_texts_skip(v: Seq<String>, k: int)
    requires
        0 <= k <= v.len(),
    ensures
        texts(v.subrange(k, v.len() as int)) == texts(v).skip(k),
{
    assert(texts(v.subrange(k, v.len() as int)) =~= texts(v).skip(k));
}

/// Whether `c` separates words.
pub fn is_space_char(c: char) -> (b: bool)
    ensures
        b == is_space(c),
{
    let n: u32 = c as u32;
    n == 0x20 || (0x09 <= n && n <= 0x0d) || n == 0x85 || n == 0xa0 || n == 0x1680 || (0x2000 <= n
        && n <= 0x200a) || n == 0x2028 || n == 0x2029 || n == 0x202f || n == 0x205f || n
        == 0x3000
}

/// The characters of `s`.
pub fn chars_of(s: &str) -> (v: Vec<char>)
    ensures
        v@ == s@,
{
    let mut v: Vec<char> = Vec::new();
    for c in it: s.chars()
        invariant
            it.seq() == s@,
            v@ == it.seq().take(it.index() as int),
    {
        v.push(c);
    }
    v
}

/// Whether `a` and `b` hold the same characters.
pub fn same(a: &str, b: &str) -> (r: bool)
    ensures
        r == (a@ == b@),
{
    let x = chars_of(a);
    let y = chars_of(b);
    if x.len() != y.len() {
        return false;
    }
    let mut i: usize = 0;
    while i < x.len()
        invariant
            x@ == a@,
            y@ == b@,
            x.len() == y.len(),
            i <= x.len(),
            forall|k: int| 0 <= k < i ==> x@[k] == y@[k],
        decreases x.len() - i,
    {
        if x[i] != y[i] {
            return false;
        }
        i += 1;
    }
    assert(x@ =~= y@);
    true
}

/// Whether `s` begins with `prefix`.
pub fn starts_with(s: &str, prefix: &str) -> (r: bool)
    ensures
        r == prefix@.is_prefix_of(s@),
{
    let x = chars_of(s);
    let p = chars_of(prefix);
    if p.len() > x.len() {
        return false;
    }
    let mut i: usize = 0;
    while i < p.len()
        invariant
            x@ == s@,
            p@ == prefix@,
            p.len() <= x.len(),
            i <= p.len(),
            forall|k: int| 0 <= k < i ==> x@[k] == p@[k],
        decreases p.len() - i,
    {
        if x[i] != p[i] {
            assert(x@.subrange(0, p@.len() as int)[i as int] != p@[i as int]);
            return false;
        }
        i += 1;
    }
    assert(p@ =~= x@.subrange(0, p@.len() as int));
    true
}

/// The words of `line`, in order.
pub fn split_whitespace(line: &str) -> (toks: Vec<String>)
    ensures
        texts(toks@) == words(line@),
{
    let cs = chars_of(line);
    let n = cs.len();
    let mut toks: Vec<String> = Vec::new();
    let mut i: usize = 0;
    assert(texts(toks@) =~= Seq::<Seq<char>>::empty());
    while i < n
        invariant
            cs@ == line@,
            n == cs.len(),
            i <= n,
            texts(toks@) + words_from(cs@, i as int) == words(cs@),
        decreases n - i,
    {
        if is_space_char(cs[i]) {
            i += 1;
        } else {
            let mut j: usize = i + 1;
            while j < n && !is_space_char(cs[j])
                invariant
                    n == cs.len(),
                    i < j <= n,
                    !is_space(cs@[i as int]),
                    word_end(cs@, j as int) == word_end(cs@, i as int),
                decreases n - j,
            {
                j += 1;
            }
            let tok = line.substring_char(i, j).to_owned();
            proof {
                assert(word_end(cs@, i as int) == j);
                assert(texts(toks@.push(tok)) =~= texts(toks@).push(tok@));
                assert(texts(toks@).push(tok@) + words_from(cs@, j as int) =~= texts(toks@) + (
                seq![tok@] + words_from(cs@, j as int)));
            }
            toks.push(tok);
            i = j;
        }
    }
    toks
}

/// The lines of `text`, in order.
pub fn split_lines(text: &str) -> (out: Vec<String>)
    ensures
        texts(out@) == lines(text@),
{
    let cs = chars_of(text);
    let n = cs.len();
    let mut out: Vec<String> = Vec::new();
    let mut i: usize = 0;
    assert(texts(out@) =~= Seq::<Seq<char>>::empty());
    loop
        invariant_except_break
            cs@ == text@,
            n == cs.len(),
            i <= n,
            texts(out@) + lines_from(cs@, i as int) == lines(cs@),
        ensures
            texts(out@) == lines(text@),
        decreases n - i,
    {
        let mut j: usize = i;
        while j < n && cs[j] != '\n'
            invariant
                n == cs.len(),
                i <= j <= n,
                line_end(cs@, j as int) == line_end(cs@, i as int),
            decreases n - j,
        {
            j += 1;
        }
        let line = text.substring_char(i, j).to_owned();
        proof {
            assert(line_end(cs@, i as int) == j);
            assert(texts(out@.push(line)) =~= texts(out@).push(line@));
            assert(texts(out@).push(line@) =~= texts(out@) + seq![line@]);
            if j < n {
                assert(texts(out@).push(line@) + lines_from(cs@, j + 1) =~= texts(out@) + (
                seq![line@] + lines_from(cs@, j + 1)));
            }
        }
        out.push(line);
        if j >= n {
            break ;
        }
        i = j + 1;
    }
    out
}

/// The parts from index `from` on, with one space between each two.
pub fn join(parts: &[String], from: usize) -> (s: String)
    requires
        from <= parts.len(),
    ensures
        s@ == joined(texts(parts@).skip(from as int)),
{
    let mut s = String::new();
    let mut i: usize = from;
    let ghost all = texts(parts@);
    while i < parts.len()
        invariant
            from <= i <= parts.len(),
            all == texts(parts@),
            s@ == joined(all.subrange(from as int, i as int)),
        decreases parts.len() - i,
    {
        proof {
            let next = all.subrange(from as int, i + 1);
            assert(next.drop_last() =~= all.subrange(from as int, i as int));
            assert(next.last() == parts@[i as int]@);
            reveal_strlit(" ");
            assert(" "@ =~= seq![' ']);
            if i == from {
                assert(s@ =~= Seq::<char>::empty());
                assert(s@ + parts@[i as int]@ =~= parts@[i as int]@);
            }
        }
        if i > from {
            s.append(" ");
        }
        s.append(parts[i].as_str());
        i += 1;
    }
    assert(all.subrange(from as int, parts.len() as int) =~= all.skip(from as int));
    s
}

/// Whether the line `l` of a script is to be read: it is not empty and does
/// not begin with `//`.
pub open spec fn is_script_line(l: Seq<char>) -> bool {
    l.len() != 0 && !"//"@.is_prefix_of(l)
}

/// The lines of `text` that are to be read, in order.
pub open spec fn script_lines(text: Seq<char>) -> Seq<Seq<char>> {
    lines(text).filter(|l: Seq<char>| is_script_line(l))
}

/// The lines of `text` that are to be read, in order.
pub fn command_lines(text: &str) -> (out: Vec<String>)
    ensures
        texts(out@) == script_lines(text@),
{
    let all = split_lines(text);
    let mut out: Vec<String> = Vec::new();
    let ghost keep = |l: Seq<char>| is_script_line(l);
    let mut i: usize = 0;
    proof {
        reveal(Seq::filter);
        assert(texts(out@) =~= texts(all@).take(0).filter(keep));
    }
    while i < all.len()
        invariant
            i <= all.len(),
            keep == |l: Seq<char>| is_script_line(l),
            texts(out@) == texts(all@).take(i as int).filter(keep),
        decreases all.len() - i,
    {
        let line = all[i].as_str();
        let ghost before = texts(out@);
        proof {
            reveal(Seq::filter);
            assert(texts(all@).take(i + 1).drop_last() =~= texts(all@).take(i as int));
            assert(texts(all@).take(i + 1).last() == line@);
        }
        if line.unicode_len() != 0 && !starts_with(line, "//") {
            out.push(all[i].clone());
            assert(texts(out@) =~= before.push(line@));
        }
        i += 1;
    }
    assert(texts(all@).take(i as int) =~= texts(all@));
    out
}

/// A place in the lines of a script: the lines, and the index of the next one
/// to read. At or past the end nothing is left to read.
pub struct LineCursor {
    pub lines: Vec<String>,
    pub pos: usize,
}

impl LineCursor {
    /// A cursor at the first of `lines`.
    pub fn new(lines: Vec<String>) -> (c: LineCursor)
        ensures
            c.lines == lines,
            c.pos == 0,
    {
        LineCursor { lines, pos: 0 }
    }

    /// Whether no line is left to read.
    pub fn is_done(&self) -> (b: bool)
        ensures
            b == (self.pos >= self.lines@.len()),
    {
        self.pos >= self.lines.len()
    }
}

} // verus!
