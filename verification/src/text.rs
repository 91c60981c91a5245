//! Character-level helpers shared by the parsers of backend replies.
//!
//! Text is modelled as `Seq<char>`. Trimming, line splitting and word
//! splitting follow the conventions of `str::trim`, `str::lines` and
//! `str::split_whitespace`.

use vstd::prelude::*;

verus! {

/// Whether `c` has the Unicode `White_Space` property.
pub open spec fn is_space(c: char) -> bool {
    let u = c as u32;
    ||| 0x09 <= u <= 0x0D
    ||| u == 0x20
    ||| u == 0x85
    ||| u == 0xA0
    ||| u == 0x1680
    ||| 0x2000 <= u <= 0x200A
    ||| u == 0x2028
    ||| u == 0x2029
    ||| u == 0x202F
    ||| u == 0x205F
    ||| u == 0x3000
}

/// `s` without its leading white space.
pub open spec fn trim_start(s: Seq<char>) -> Seq<char>
    decreases s.len(),
{
    if s.len() > 0 && is_space(s[0]) {
        trim_start(s.drop_first())
    } else {
        s
    }
}

/// `s` without its trailing white space.
pub open spec fn trim_end(s: Seq<char>) -> Seq<char>
    decreases s.len(),
{
    if s.len() > 0 && is_space(s.last()) {
        trim_end(s.drop_last())
    } else {
        s
    }
}

/// `s` without leading and trailing white space.
pub open spec fn trimmed(s: Seq<char>) -> Seq<char> {
    trim_end(trim_start(s))
}

/// Number of characters of `s` before the first occurrence of `stop`; the
/// length of `s` if `stop` does not occur.
pub open spec fn len_before(s: Seq<char>, stop: char) -> nat
    decreases s.len(),
{
    if s.len() == 0 || s[0] == stop {
        0
    } else {
        1 + len_before(s.drop_first(), stop)
    }
}

/// Number of characters before the first line feed of `s`.
pub open spec fn line_len(s: Seq<char>) -> nat {
    len_before(s, '\n')
}

/// `s` without one trailing carriage return.
pub open spec fn strip_cr(s: Seq<char>) -> Seq<char> {
    if s.len() > 0 && s.last() == '\r' {
        s.drop_last()
    } else {
        s
    }
}

/// The lines of `s`. A line ends at a line feed or at a carriage return
/// followed by a line feed; the ending is not part of the line, and a final
/// line needs no ending.
pub open spec fn split_lines(s: Seq<char>) -> Seq<Seq<char>>
    decreases s.len(),
{
    if s.len() == 0 {
        Seq::empty()
    } else {
        let n = line_len(s) as int;
        if n >= s.len() {
            seq![s]
        } else {
            seq![strip_cr(s.take(n))] + split_lines(s.skip(n + 1))
        }
    }
}

/// Number of characters before the first white space of `s`.
pub open spec fn word_len(s: Seq<char>) -> nat
    decreases s.len(),
{
    if s.len() == 0 || is_space(s[0]) {
        0
    } else {
        1 + word_len(s.drop_first())
    }
}

/// The maximal runs of characters of `s` that hold no white space, in order.
pub open spec fn split_words(s: Seq<char>) -> Seq<Seq<char>>
    decreases s.len(),
{
    if s.len() == 0 {
        Seq::empty()
    } else if is_space(s[0]) {
        split_words(s.drop_first())
    } else {
        let n = word_len(s) as int;
        if n >= s.len() {
            seq![s]
        } else {
            seq![s.take(n)] + split_words(s.skip(n))
        }
    }
}

/// Whether `w` is a word: not empty, and without white space.
pub open spec fn is_word(w: Seq<char>) -> bool {
    w.len() > 0 && forall|i: int| 0 <= i < w.len() ==> !is_space(#[trigger] w[i])
}

/// The words of `words`, joined by single spaces.
pub open spec fn join_words(words: Seq<Seq<char>>) -> Seq<char>
    decreases words.len(),
{
    if words.len() == 0 {
        Seq::empty()
    } else if words.len() == 1 {
        words[0]
    } else {
        words[0] + seq![' '] + join_words(words.drop_first())
    }
}

/// Whether `needle` stands in `haystack` from position `at` on.
pub open spec fn occurs_at(haystack: Seq<char>, needle: Seq<char>, at: int) -> bool {
    &&& 0 <= at
    &&& at + needle.len() <= haystack.len()
    &&& haystack.subrange(at, at + needle.len()) == needle
}

/// Whether `needle` occurs in `haystack` as a contiguous run.
pub open spec fn contains_seq(haystack: Seq<char>, needle: Seq<char>) -> bool {
    exists|i: int| occurs_at(haystack, needle, i)
}

/// `s` with every occurrence of `from` replaced by `to`.
pub open spec fn replace_char(s: Seq<char>, from: char, to: char) -> Seq<char> {
    Seq::new(
        s.len(),
        |i: int|
            if s[i] == from {
                to
            } else {
                s[i]
            },
    )
}

/// The characters of an optional text.
pub open spec fn text_view(t: Option<String>) -> Option<Seq<char>> {
    match t {
        Some(s) => Some(s@),
        None => None,
    }
}

/// The character sequences that a sequence of strings stands for.
pub open spec fn strings_view(v: Seq<String>) -> Seq<Seq<char>> {
    Seq::new(v.len(), |i: int| v[i]@)
}

/// If the first `k` characters of `s` differ from `stop`, and `s` ends there
/// or goes on with `stop`, then `k` characters stand before `stop`.
pub proof fn lemma_len_before(s: Seq<char>, stop: char, k: int)
    requires
        0 <= k <= s.len(),
        forall|j: int| 0 <= j < k ==> s[j] != stop,
        k == s.len() || s[k] == stop,
    ensures
        len_before(s, stop) == k,
    decreases k,
{
    if k > 0 {
        let rest = s.drop_first();
        assert(forall|j: int| 0 <= j < k - 1 ==> rest[j] == s[j + 1]);
        lemma_len_before(rest, stop, k - 1);
    }
}

/// A word that starts with `k` characters other than white space, and then
/// ends, has length `k`.
pub proof fn lemma_word_len(s: Seq<char>, k: int)
    requires
        0 <= k <= s.len(),
        forall|j: int| 0 <= j < k ==> !is_space(s[j]),
        k == s.len() || is_space(s[k]),
    ensures
        word_len(s) == k,
    decreases k,
{
    if k > 0 {
        let rest = s.drop_first();
        assert(forall|j: int| 0 <= j < k - 1 ==> rest[j] == s[j + 1]);
        lemma_word_len(rest, k - 1);
    }
}

/// Words joined by single spaces begin with the first word.
proof fn lemma_join_starts_with_word(words: Seq<Seq<char>>)
    requires
        words.len() > 0,
        forall|i: int| 0 <= i < words.len() ==> is_word(#[trigger] words[i]),
    ensures
        join_words(words).len() >= words[0].len(),
        join_words(words).take(words[0].len() as int) == words[0],
{
    if words.len() == 1 {
        assert(words[0].take(words[0].len() as int) == words[0]);
    } else {
        let joined = join_words(words);
        assert(joined.take(words[0].len() as int) =~= words[0]);
    }
}

/// Splitting at white space gives back the words that were joined by
/// single spaces.
pub proof fn law_split_inverts_join(words: Seq<Seq<char>>)
    requires
        forall|i: int| 0 <= i < words.len() ==> is_word(#[trigger] words[i]),
    ensures
        split_words(join_words(words)) == words,
    decreases words.len(),
{
    let joined = join_words(words);
    if words.len() == 0 {
        assert(split_words(joined) =~= words);
    } else {
        let first = words[0];
        let k = first.len() as int;
        assert(is_word(first));
        lemma_join_starts_with_word(words);
        assert forall|j: int| 0 <= j < k implies !is_space(joined[j]) by {
            assert(joined.take(k)[j] == joined[j]);
            assert(!is_space(first[j]));
        }
        assert(joined[0] == first[0]) by {
            assert(joined.take(k)[0] == joined[0]);
        }
        if words.len() == 1 {
            lemma_word_len(joined, k);
            assert(split_words(joined) =~= words);
        } else {
            let tail = words.drop_first();
            let rest = join_words(tail);
            assert forall|i: int| 0 <= i < tail.len() implies is_word(#[trigger] tail[i]) by {
                assert(tail[i] == words[i + 1]);
            }
            law_split_inverts_join(tail);
            assert(joined == first + seq![' '] + rest);
            assert(joined[k] == ' ');
            lemma_word_len(joined, k);
            assert(joined.take(k) == first);
            let after = joined.skip(k);
            assert(after =~= seq![' '] + rest);
            assert(after[0] == ' ');
            assert(after.drop_first() =~= rest);
            assert(split_words(after) == split_words(rest));
            assert(split_words(joined) == seq![first] + split_words(after));
            assert(seq![first] + tail =~= words);
        }
    }
}

/// Executable test for [`is_space`].
pub fn char_is_space(c: char) -> (r: bool)
    ensures
        r == is_space(c),
{
    let u: u32 = c as u32;
    (0x09 <= u && u <= 0x0D) || u == 0x20 || u == 0x85 || u == 0xA0 || u == 0x1680 || (0x2000 <= u
        && u <= 0x200A) || u == 0x2028 || u == 0x2029 || u == 0x202F || u == 0x205F || u == 0x3000
}

/// The characters of `s`, in order.
pub fn to_chars(s: &str) -> (v: Vec<char>)
    ensures
        v@ == s@,
{
    let mut v: Vec<char> = Vec::new();
    for c in it: s.chars()
        invariant
            it.seq() == s@,
            v@ == s@.take(it.index() as int),
    {
        v.push(c);
    }
    v
}

/// Bounds of the trimmed part of the window `from..to` of `v`.
fn trim_window(v: &Vec<char>, from: usize, to: usize) -> (r: (usize, usize))
    requires
        from <= to <= v@.len(),
    ensures
        from <= r.0 <= r.1 <= to,
        v@.subrange(r.0 as int, r.1 as int) == trimmed(v@.subrange(from as int, to as int)),
{
    let mut a: usize = from;
    while a < to && char_is_space(v[a])
        invariant
            from <= a <= to <= v@.len(),
            trim_start(v@.subrange(from as int, to as int)) == trim_start(
                v@.subrange(a as int, to as int),
            ),
        decreases to - a,
    {
        proof {
            let w = v@.subrange(a as int, to as int);
            assert(w[0] == v@[a as int]);
            assert(w.drop_first() == v@.subrange(a + 1, to as int));
        }
        a = a + 1;
    }
    proof {
        let w = v@.subrange(a as int, to as int);
        if a < to {
            assert(w[0] == v@[a as int]);
        }
        assert(trim_start(w) == w);
    }
    let mut b: usize = to;
    while b > a && char_is_space(v[b - 1])
        invariant
            a <= b <= to <= v@.len(),
            trim_end(v@.subrange(a as int, to as int)) == trim_end(
                v@.subrange(a as int, b as int),
            ),
        decreases b - a,
    {
        proof {
            let w = v@.subrange(a as int, b as int);
            assert(w.last() == v@[b - 1]);
            assert(w.drop_last() == v@.subrange(a as int, b - 1));
        }
        b = b - 1;
    }
    proof {
        let w = v@.subrange(a as int, b as int);
        if b > a {
            assert(w.last() == v@[b - 1]);
        }
        assert(trim_end(w) == w);
    }
    (a, b)
}

/// `s` without leading and trailing white space.
pub fn trim(s: &str) -> (r: String)
    ensures
        r@ == trimmed(s@),
{
    let v = to_chars(s);
    let (a, b) = trim_window(&v, 0, v.len());
    proof {
        assert(v@.subrange(0, v@.len() as int) == v@);
    }
    s.substring_char(a, b).to_owned()
}

/// The lines of `s`, as [`split_lines`] defines them.
pub fn lines(s: &str) -> (r: Vec<String>)
    ensures
        strings_view(r@) == split_lines(s@),
{
    let v = to_chars(s);
    let n = v.len();
    let mut out: Vec<String> = Vec::new();
    let mut pos: usize = 0;
    proof {
        assert(v@.skip(0) == v@);
        assert(strings_view(out@) + split_lines(v@) == split_lines(v@));
    }
    while pos < n
        invariant
            n == v@.len(),
            v@ == s@,
            pos <= n,
            split_lines(v@) == strings_view(out@) + split_lines(v@.skip(pos as int)),
        decreases n - pos,
    {
        let ghost rest = v@.skip(pos as int);
        let ghost before = strings_view(out@);
        let mut e: usize = pos;
        while e < n && v[e] != '\n'
            invariant
                n == v@.len(),
                pos <= e <= n,
                forall|j: int| pos <= j < e ==> v@[j] != '\n',
            decreases n - e,
        {
            e = e + 1;
        }
        proof {
            assert(forall|j: int| 0 <= j < e - pos ==> rest[j] == v@[pos + j]);
            lemma_len_before(rest, '\n', e - pos);
        }
        if e == n {
            let line = s.substring_char(pos, n).to_owned();
            out.push(line);
            proof {
                assert(rest == v@.subrange(pos as int, n as int));
                assert(v@.skip(n as int) == Seq::<char>::empty());
                assert(strings_view(out@) == before + seq![rest]);
            }
            pos = n;
        } else {
            let end: usize = if e > pos && v[e - 1] == '\r' {
                e - 1
            } else {
                e
            };
            let line = s.substring_char(pos, end).to_owned();
            out.push(line);
            proof {
                let content = rest.take(e - pos);
                assert(content == v@.subrange(pos as int, e as int));
                if e > pos {
                    assert(content.last() == v@[e - 1]);
                }
                assert(strip_cr(content) == v@.subrange(pos as int, end as int));
                assert(rest.skip(e - pos + 1) == v@.skip(e + 1));
                assert(strings_view(out@) == before + seq![strip_cr(content)]);
            }
            pos = e + 1;
        }
    }
    proof {
        assert(v@.skip(pos as int) == Seq::<char>::empty());
        assert(strings_view(out@) + Seq::<Seq<char>>::empty() == strings_view(out@));
    }
    out
}

/// The words of `s`, as [`split_words`] defines them.
pub fn split_whitespace(s: &str) -> (r: Vec<String>)
    ensures
        strings_view(r@) == split_words(s@),
{
    let v = to_chars(s);
    let n = v.len();
    let mut out: Vec<String> = Vec::new();
    let mut pos: usize = 0;
    proof {
        assert(v@.skip(0) == v@);
        assert(strings_view(out@) + split_words(v@) == split_words(v@));
    }
    while pos < n
        invariant
            n == v@.len(),
            v@ == s@,
            pos <= n,
            split_words(v@) == strings_view(out@) + split_words(v@.skip(pos as int)),
        decreases n - pos,
    {
        let ghost rest = v@.skip(pos as int);
        let ghost before = strings_view(out@);
        proof {
            assert(rest[0] == v@[pos as int]);
            assert(rest.drop_first() == v@.skip(pos + 1));
        }
        if char_is_space(v[pos]) {
            pos = pos + 1;
        } else {
            let mut e: usize = pos;
            while e < n && !char_is_space(v[e])
                invariant
                    n == v@.len(),
                    pos <= e <= n,
                    forall|j: int| pos <= j < e ==> !is_space(v@[j]),
                decreases n - e,
            {
                e = e + 1;
            }
            proof {
                assert(forall|j: int| 0 <= j < e - pos ==> rest[j] == v@[pos + j]);
                lemma_word_len(rest, e - pos);
            }
            let word = s.substring_char(pos, e).to_owned();
            out.push(word);
            proof {
                if e == n {
                    assert(rest == v@.subrange(pos as int, n as int));
                    assert(v@.skip(n as int) == Seq::<char>::empty());
                    assert(strings_view(out@) == before + seq![rest]);
                } else {
                    assert(rest.take(e - pos) == v@.subrange(pos as int, e as int));
                    assert(rest.skip(e - pos) == v@.skip(e as int));
                    assert(strings_view(out@) == before + seq![rest.take(e - pos)]);
                }
            }
            pos = e;
        }
    }
    proof {
        assert(v@.skip(pos as int) == Seq::<char>::empty());
        assert(strings_view(out@) + Seq::<Seq<char>>::empty() == strings_view(out@));
    }
    out
}

/// Whether `needle` occurs in `haystack` at position `at`.
fn matches_at(haystack: &Vec<char>, needle: &Vec<char>, at: usize) -> (r: bool)
    requires
        at + needle@.len() <= haystack@.len(),
    ensures
        r == occurs_at(haystack@, needle@, at as int),
{
    let n = haystack.len();
    let m = needle.len();
    let mut k: usize = 0;
    while k < m
        invariant
            m == needle@.len(),
            n == haystack@.len(),
            at + m <= n,
            k <= m,
            forall|j: int| 0 <= j < k ==> haystack@[at + j] == needle@[j],
        decreases m - k,
    {
        if haystack[at + k] != needle[k] {
            proof {
                let w = haystack@.subrange(at as int, at + m);
                assert(w[k as int] == haystack@[at + k]);
            }
            return false;
        }
        k = k + 1;
    }
    proof {
        let w = haystack@.subrange(at as int, at + m);
        assert(forall|j: int| 0 <= j < m ==> w[j] == haystack@[at + j]);
        assert(w =~= needle@);
    }
    true
}

/// Whether `needle` occurs somewhere in `haystack`.
pub fn contains_chars(haystack: &Vec<char>, needle: &Vec<char>) -> (r: bool)
    ensures
        r == contains_seq(haystack@, needle@),
{
    let n = haystack.len();
    let m = needle.len();
    if m > n {
        return false;
    }
    if m == 0 {
        proof {
            assert(haystack@.subrange(0, 0) == needle@);
            assert(occurs_at(haystack@, needle@, 0));
        }
        return true;
    }
    let mut i: usize = 0;
    while i <= n - m
        invariant
            n == haystack@.len(),
            m == needle@.len(),
            0 < m <= n,
            i <= n - m + 1,
            forall|j: int| 0 <= j < i ==> !occurs_at(haystack@, needle@, j),
        decreases n - m + 1 - i,
    {
        if matches_at(haystack, needle, i) {
            return true;
        }
        i = i + 1;
    }
    false
}

/// Whether the text `needle` occurs somewhere in the text `haystack`.
pub fn contains(haystack: &str, needle: &str) -> (r: bool)
    ensures
        r == contains_seq(haystack@, needle@),
{
    let h = to_chars(haystack);
    let n = to_chars(needle);
    contains_chars(&h, &n)
}

/// Whether two texts hold the same characters.
pub fn same_text(a: &str, b: &str) -> (r: bool)
    ensures
        r == (a@ == b@),
{
    let x = String::from_str(a);
    let y = String::from_str(b);
    x == y
}

/// `s` with a decimal point in place of every comma.
pub fn point_for_comma(s: &str) -> (r: String)
    ensures
        r@ == replace_char(s@, ',', '.'),
{
    let from = ',';
    let to = ".";
    proof {
        reveal_strlit(".");
    }
    let v = to_chars(s);
    let n = v.len();
    let mut out = String::new();
    let mut done: usize = 0;
    let mut i: usize = 0;
    while i < n
        invariant
            n == v@.len(),
            v@ == s@,
            from == ',',
            to@ == seq!['.'],
            done <= i <= n,
            forall|j: int| done <= j < i ==> v@[j] != from,
            out@ == replace_char(s@, from, to@[0]).take(done as int),
        decreases n - i,
    {
        if v[i] == from {
            let ghost before = out@;
            out.append(s.substring_char(done, i));
            out.append(to);
            proof {
                let want = replace_char(s@, from, to@[0]);
                assert(to@ =~= seq![to@[0]]);
                assert(out@ =~= want.take(i + 1)) by {
                    assert(out@ == before + s@.subrange(done as int, i as int) + to@);
                    assert forall|j: int| 0 <= j < i + 1 implies out@[j] == want[j] by {
                        if j < done {
                            assert(out@[j] == before[j]);
                        } else if j < i {
                            assert(out@[j] == s@[j]);
                        }
                    }
                }
            }
            done = i + 1;
        }
        i = i + 1;
    }
    let ghost before = out@;
    out.append(s.substring_char(done, n));
    proof {
        let want = replace_char(s@, from, to@[0]);
        assert(out@ == before + s@.subrange(done as int, n as int));
        assert forall|j: int| 0 <= j < n implies out@[j] == want[j] by {
            if j < done {
                assert(out@[j] == before[j]);
            } else {
                assert(out@[j] == s@[j]);
            }
        }
        assert(out@ =~= want);
    }
    out
}

} // verus!
