//! Character-level text handling: the model of strings used by every
//! contract in this crate, and the verified operations on it.
//!
//! Text is modelled as `Seq<char>`. Executable helpers work on `Vec<char>`
//! and convert at the edges from `&str` and to `String`.

use vstd::prelude::*;

verus! {

// ---------------------------------------------------------------------------
// Conversions between `str`/`String` and `Vec<char>`
// ---------------------------------------------------------------------------

/// Calls std's `String::push`. Trusted: the contract claims that afterwards
/// the string holds its old characters followed by `c`, as std documents.
#[verifier::external_body]
fn push_char(s: &mut String, c: char)
    ensures
        final(s)@ == old(s)@.push(c),
{
    s.push(c);
}

/// An owned copy of `s`.
pub fn string_from(s: &str) -> (r: String)
    ensures
        r@ == s@,
{
    s.to_owned()
}

/// The characters of `s`, in order.
pub fn chars_of(s: &str) -> (v: Vec<char>)
    ensures
        v@ == s@,
{
    let mut v: Vec<char> = Vec::new();
    for c in it: s.chars()
        invariant
            v@ == it.seq().take(it.index() as int),
    {
        v.push(c);
    }
    v
}

/// A `String` holding exactly the characters of `v`.
pub fn string_of(v: &Vec<char>) -> (s: String)
    ensures
        s@ == v@,
{
    let mut s = String::new();
    for i in 0..v.len()
        invariant
            s@ == v@.take(i as int),
    {
        push_char(&mut s, v[i]);
        assert(v@.take(i + 1) == v@.take(i as int).push(v@[i as int]));
    }
    assert(v@.take(v.len() as int) == v@);
    s
}

/// Appends all of `src` to the end of `dst`.
pub fn extend(dst: &mut Vec<char>, src: &Vec<char>)
    ensures
        final(dst)@ == old(dst)@ + src@,
{
    let ghost start = dst@;
    for i in 0..src.len()
        invariant
            dst@ == start + src@.take(i as int),
    {
        dst.push(src[i]);
        assert(src@.take(i + 1) == src@.take(i as int).push(src@[i as int]));
    }
    assert(src@.take(src.len() as int) == src@);
}

/// Appends the characters of `src` to the end of `dst`.
pub fn extend_str(dst: &mut Vec<char>, src: &str)
    ensures
        final(dst)@ == old(dst)@ + src@,
{
    let cs = chars_of(src);
    extend(dst, &cs);
}

/// Whether two character vectors hold the same text.
pub fn eq_chars(a: &Vec<char>, b: &Vec<char>) -> (r: bool)
    ensures
        r == (a@ == b@),
{
    if a.len() != b.len() {
        return false;
    }
    for i in 0..a.len()
        invariant
            a.len() == b.len(),
            forall|j: int| 0 <= j < i ==> a@[j] == b@[j],
    {
        if a[i] != b[i] {
            return false;
        }
    }
    assert(a@ =~= b@);
    true
}

/// Whether `a` holds the same text as the literal or slice `b`.
pub fn eq_str(a: &Vec<char>, b: &str) -> (r: bool)
    ensures
        r == (a@ == b@),
{
    let bs = chars_of(b);
    eq_chars(a, &bs)
}

/// The characters `v[i..j]`.
pub fn slice(v: &Vec<char>, i: usize, j: usize) -> (r: Vec<char>)
    requires
        i <= j <= v.len(),
    ensures
        r@ == v@.subrange(i as int, j as int),
{
    let mut r: Vec<char> = Vec::new();
    let mut k = i;
    while k < j
        invariant
            i <= k <= j <= v.len(),
            r@ == v@.subrange(i as int, k as int),
        decreases j - k,
    {
        r.push(v[k]);
        assert(v@.subrange(i as int, k + 1) == v@.subrange(i as int, k as int).push(v@[k as int]));
        k = k + 1;
    }
    r
}

/// Whether `p` is a prefix of `s`.
pub fn starts_with(s: &Vec<char>, p: &Vec<char>) -> (r: bool)
    ensures
        r == p@.is_prefix_of(s@),
{
    if p.len() > s.len() {
        return false;
    }
    for i in 0..p.len()
        invariant
            p.len() <= s.len(),
            forall|j: int| 0 <= j < i ==> p@[j] == s@[j],
    {
        if p[i] != s[i] {
            return false;
        }
    }
    true
}

/// Whether `c` occurs in `s`.
pub fn contains_char(s: &Vec<char>, c: char) -> (r: bool)
    ensures
        r == s@.contains(c),
{
    for i in 0..s.len()
        invariant
            forall|j: int| 0 <= j < i ==> s@[j] != c,
    {
        if s[i] == c {
            assert(s@[i as int] == c);
            return true;
        }
    }
    false
}


// ---------------------------------------------------------------------------
// Whitespace and trimming
// ---------------------------------------------------------------------------

/// Unicode `White_Space`, the set `char::is_whitespace` accepts.
pub open spec fn is_ws(c: char) -> bool {
    ||| c == ' '
    ||| ('\u{9}' <= c && c <= '\u{d}')
    ||| c == '\u{85}'
    ||| c == '\u{a0}'
    ||| c == '\u{1680}'
    ||| ('\u{2000}' <= c && c <= '\u{200a}')
    ||| c == '\u{2028}'
    ||| c == '\u{2029}'
    ||| c == '\u{202f}'
    ||| c == '\u{205f}'
    ||| c == '\u{3000}'
}

/// Whether `c` is whitespace in the Unicode sense.
pub fn is_whitespace(c: char) -> (b: bool)
    ensures
        b == is_ws(c),
{
    c == ' ' || ('\u{9}' <= c && c <= '\u{d}') || c == '\u{85}' || c == '\u{a0}' || c == '\u{1680}'
        || ('\u{2000}' <= c && c <= '\u{200a}') || c == '\u{2028}' || c == '\u{2029}'
        || c == '\u{202f}' || c == '\u{205f}' || c == '\u{3000}'
}

/// `s` without its leading whitespace.
pub open spec fn trim_start(s: Seq<char>) -> Seq<char>
    decreases s.len(),
{
    if s.len() > 0 && is_ws(s[0]) {
        trim_start(s.drop_first())
    } else {
        s
    }
}

/// `s` without its trailing whitespace.
pub open spec fn trim_end(s: Seq<char>) -> Seq<char>
    decreases s.len(),
{
    if s.len() > 0 && is_ws(s.last()) {
        trim_end(s.drop_last())
    } else {
        s
    }
}

/// `s` without leading or trailing whitespace (`str::trim`).
pub open spec fn trim(s: Seq<char>) -> Seq<char> {
    trim_end(trim_start(s))
}

/// `s` without leading or trailing copies of `c` (`str::trim_matches` with a char).
pub open spec fn strip_char(s: Seq<char>, c: char) -> Seq<char> {
    strip_end_char(strip_start_char(s, c), c)
}

/// `s` without leading copies of `c`.
pub open spec fn strip_start_char(s: Seq<char>, c: char) -> Seq<char>
    decreases s.len(),
{
    if s.len() > 0 && s[0] == c {
        strip_start_char(s.drop_first(), c)
    } else {
        s
    }
}

/// `s` without trailing copies of `c`.
pub open spec fn strip_end_char(s: Seq<char>, c: char) -> Seq<char>
    decreases s.len(),
{
    if s.len() > 0 && s.last() == c {
        strip_end_char(s.drop_last(), c)
    } else {
        s
    }
}

/// What to cut text at: any whitespace character, or one given character.
#[derive(Clone, Copy)]
pub enum Sep {
    Whitespace,
    Char(char),
}

pub open spec fn is_sep(sep: Sep, c: char) -> bool {
    match sep {
        Sep::Whitespace => is_ws(c),
        Sep::Char(d) => c == d,
    }
}

fn matches_sep(sep: Sep, c: char) -> (b: bool)
    ensures
        b == is_sep(sep, c),
{
    match sep {
        Sep::Whitespace => is_whitespace(c),
        Sep::Char(d) => c == d,
    }
}

proof fn lemma_strip_start_skip(s: Seq<char>, i: int)
    requires
        0 <= i <= s.len(),
        forall|j: int| 0 <= j < i ==> is_ws(#[trigger] s[j]),
    ensures
        trim_start(s) == trim_start(s.subrange(i, s.len() as int)),
    decreases i,
{
    if i > 0 {
        assert(s.drop_first().subrange(i - 1, s.drop_first().len() as int) =~= s.subrange(i, s.len() as int));
        lemma_strip_start_skip(s.drop_first(), i - 1);
    } else {
        assert(s.subrange(0, s.len() as int) =~= s);
    }
}

proof fn lemma_strip_end_skip(s: Seq<char>, j: int)
    requires
        0 <= j <= s.len(),
        forall|k: int| j <= k < s.len() ==> is_ws(#[trigger] s[k]),
    ensures
        trim_end(s) == trim_end(s.subrange(0, j)),
    decreases s.len() - j,
{
    if j < s.len() {
        assert(s.drop_last().subrange(0, j) =~= s.subrange(0, j));
        lemma_strip_end_skip(s.drop_last(), j);
    } else {
        assert(s.subrange(0, s.len() as int) =~= s);
    }
}

proof fn lemma_strip_char_start_skip(s: Seq<char>, c: char, i: int)
    requires
        0 <= i <= s.len(),
        forall|j: int| 0 <= j < i ==> #[trigger] s[j] == c,
    ensures
        strip_start_char(s, c) == strip_start_char(s.subrange(i, s.len() as int), c),
    decreases i,
{
    if i > 0 {
        assert(s.drop_first().subrange(i - 1, s.drop_first().len() as int) =~= s.subrange(i, s.len() as int));
        lemma_strip_char_start_skip(s.drop_first(), c, i - 1);
    } else {
        assert(s.subrange(0, s.len() as int) =~= s);
    }
}

proof fn lemma_strip_char_end_skip(s: Seq<char>, c: char, j: int)
    requires
        0 <= j <= s.len(),
        forall|k: int| j <= k < s.len() ==> #[trigger] s[k] == c,
    ensures
        strip_end_char(s, c) == strip_end_char(s.subrange(0, j), c),
    decreases s.len() - j,
{
    if j < s.len() {
        assert(s.drop_last().subrange(0, j) =~= s.subrange(0, j));
        lemma_strip_char_end_skip(s.drop_last(), c, j);
    } else {
        assert(s.subrange(0, s.len() as int) =~= s);
    }
}

/// `s` without leading or trailing whitespace.
pub fn trim_chars(s: &Vec<char>) -> (r: Vec<char>)
    ensures
        r@ == trim(s@),
{
    let n = s.len();
    let mut i: usize = 0;
    while i < n && is_whitespace(s[i])
        invariant
            n == s.len(),
            0 <= i <= n,
            forall|j: int| 0 <= j < i ==> is_ws(#[trigger] s@[j]),
        decreases n - i,
    {
        i = i + 1;
    }
    proof {
        lemma_strip_start_skip(s@, i as int);
    }
    let ghost t = s@.subrange(i as int, n as int);
    assert(trim_start(t) == t);
    let mut j: usize = n;
    while j > i && is_whitespace(s[j - 1])
        invariant
            n == s.len(),
            i <= j <= n,
            forall|k: int| j <= k < n ==> is_ws(#[trigger] s@[k]),
        decreases j,
    {
        j = j - 1;
    }
    proof {
        assert forall|k: int| j - i <= k < t.len() implies is_ws(#[trigger] t[k]) by {
            assert(t[k] == s@[k + i]);
        }
        lemma_strip_end_skip(t, j - i);
        assert(t.subrange(0, j - i) =~= s@.subrange(i as int, j as int));
    }
    slice(s, i, j)
}

/// `s` without leading or trailing copies of `c`.
pub fn strip_char_chars(s: &Vec<char>, c: char) -> (r: Vec<char>)
    ensures
        r@ == strip_char(s@, c),
{
    let n = s.len();
    let mut i: usize = 0;
    while i < n && s[i] == c
        invariant
            n == s.len(),
            0 <= i <= n,
            forall|j: int| 0 <= j < i ==> #[trigger] s@[j] == c,
        decreases n - i,
    {
        i = i + 1;
    }
    proof {
        lemma_strip_char_start_skip(s@, c, i as int);
    }
    let ghost t = s@.subrange(i as int, n as int);
    assert(strip_start_char(t, c) == t);
    let mut j: usize = n;
    while j > i && s[j - 1] == c
        invariant
            n == s.len(),
            i <= j <= n,
            forall|k: int| j <= k < n ==> #[trigger] s@[k] == c,
        decreases j,
    {
        j = j - 1;
    }
    proof {
        assert forall|k: int| j - i <= k < t.len() implies #[trigger] t[k] == c by {
            assert(t[k] == s@[k + i]);
        }
        lemma_strip_char_end_skip(t, c, j - i);
        assert(t.subrange(0, j - i) =~= s@.subrange(i as int, j as int));
    }
    slice(s, i, j)
}


// ---------------------------------------------------------------------------
// Splitting
// ---------------------------------------------------------------------------

/// `str::splitn(n, sep)`: at most `n` pieces, cut at the first `n - 1`
/// separator characters; the last piece keeps the rest of the text.
pub open spec fn splitn(s: Seq<char>, n: nat, sep: Sep) -> Seq<Seq<char>>
    decreases s.len(),
{
    if n <= 1 || s.len() == 0 {
        seq![s]
    } else if is_sep(sep, s[0]) {
        seq![Seq::<char>::empty()] + splitn(s.drop_first(), (n - 1) as nat, sep)
    } else {
        prepend(seq![s[0]], splitn(s.drop_first(), n, sep))
    }
}

/// `p` with `c` put in front of its first piece.
pub open spec fn prepend(c: Seq<char>, p: Seq<Seq<char>>) -> Seq<Seq<char>> {
    p.update(0, c + p[0])
}

proof fn lemma_splitn_nonempty(s: Seq<char>, n: nat, sep: Sep)
    ensures
        splitn(s, n, sep).len() >= 1,
        splitn(s, n, sep).len() <= n || n == 0,
    decreases s.len(),
{
    if n <= 1 || s.len() == 0 {
    } else if is_sep(sep, s[0]) {
        lemma_splitn_nonempty(s.drop_first(), (n - 1) as nat, sep);
    } else {
        lemma_splitn_nonempty(s.drop_first(), n, sep);
    }
}

proof fn lemma_prepend_push(cur: Seq<char>, c: char, tail: Seq<Seq<char>>)
    requires
        tail.len() >= 1,
    ensures
        prepend(cur, prepend(seq![c], tail)) == prepend(cur.push(c), tail),
{
    assert(cur + (seq![c] + tail[0]) =~= cur.push(c) + tail[0]);
    assert(prepend(cur, prepend(seq![c], tail)) =~= prepend(cur.push(c), tail));
}

proof fn lemma_prepend_empty(tail: Seq<Seq<char>>)
    requires
        tail.len() >= 1,
    ensures
        prepend(Seq::<char>::empty(), tail) == tail,
{
    assert(Seq::<char>::empty() + tail[0] =~= tail[0]);
    assert(prepend(Seq::<char>::empty(), tail) =~= tail);
}

/// Cuts `s` at separators into at most `n` pieces, as `str::splitn` does.
pub fn splitn_chars(s: &Vec<char>, n: usize, sep: Sep) -> (r: Vec<Vec<char>>)
    requires
        n >= 1,
    ensures
        r@.map_values(|v: Vec<char>| v@) == splitn(s@, n as nat, sep),
        1 <= r@.len() <= n,
{
    let mut pieces: Vec<Vec<char>> = Vec::new();
    let mut cur: Vec<char> = Vec::new();
    let mut i: usize = 0;
    let len = s.len();
    proof {
        lemma_splitn_nonempty(s@, n as nat, sep);
        lemma_prepend_empty(splitn(s@, n as nat, sep));
        assert(s@.subrange(0, len as int) =~= s@);
        assert(pieces@.map_values(|v: Vec<char>| v@) =~= Seq::<Seq<char>>::empty());
    }
    while i < len && pieces.len() + 1 < n
        invariant
            len == s.len(),
            i <= len,
            pieces.len() + 1 <= n,
            n >= 1,
            splitn(s@, n as nat, sep) == pieces@.map_values(|v: Vec<char>| v@) + prepend(
                cur@,
                splitn(s@.subrange(i as int, len as int), (n - pieces.len()) as nat, sep),
            ),
        decreases len - i,
    {
        let ghost rest = s@.subrange(i as int, len as int);
        let ghost k = (n - pieces.len()) as nat;
        assert(rest.drop_first() =~= s@.subrange(i + 1, len as int));
        assert(rest[0] == s@[i as int]);
        if matches_sep(sep, s[i]) {
            proof {
                lemma_splitn_nonempty(rest.drop_first(), (k - 1) as nat, sep);
                let tail = splitn(rest.drop_first(), (k - 1) as nat, sep);
                assert(prepend(cur@, seq![Seq::<char>::empty()] + tail) =~= seq![cur@] + tail);
            }
            let done = cur;
            let ghost before = pieces@.map_values(|v: Vec<char>| v@);
            pieces.push(done);
            assert(pieces@.map_values(|v: Vec<char>| v@) =~= before.push(done@));
            cur = Vec::new();
            proof {
                let tail = splitn(rest.drop_first(), (k - 1) as nat, sep);
                lemma_splitn_nonempty(rest.drop_first(), (k - 1) as nat, sep);
                lemma_prepend_empty(tail);
                assert(before + (seq![done@] + tail) =~= before.push(done@) + tail);
            }
        } else {
            proof {
                lemma_splitn_nonempty(rest.drop_first(), k, sep);
                let tail = splitn(rest.drop_first(), k, sep);
                lemma_prepend_push(cur@, s@[i as int], tail);
            }
            cur.push(s[i]);
        }
        i = i + 1;
    }
    let ghost rest = s@.subrange(i as int, len as int);
    let ghost k = (n - pieces.len()) as nat;
    let tail = slice(s, i, len);
    proof {
        if i == len {
            assert(rest.len() == 0);
        }
        assert(splitn(rest, k, sep) == seq![rest]);
        assert(prepend(cur@, seq![rest]) =~= seq![cur@ + rest]);
    }
    let ghost before = pieces@.map_values(|v: Vec<char>| v@);
    let mut last = cur;
    extend(&mut last, &tail);
    pieces.push(last);
    assert(pieces@.map_values(|v: Vec<char>| v@) =~= before + seq![last@]);
    proof {
        lemma_splitn_nonempty(s@, n as nat, sep);
        assert(pieces@.len() == pieces@.map_values(|v: Vec<char>| v@).len());
    }
    pieces
}

/// `str::split(sep)`: `s` cut at every separator character.
pub open spec fn split_all(s: Seq<char>, sep: Sep) -> Seq<Seq<char>>
    decreases s.len(),
{
    if s.len() == 0 {
        seq![s]
    } else if is_sep(sep, s[0]) {
        seq![Seq::<char>::empty()] + split_all(s.drop_first(), sep)
    } else {
        prepend(seq![s[0]], split_all(s.drop_first(), sep))
    }
}

proof fn lemma_split_all_nonempty(s: Seq<char>, sep: Sep)
    ensures
        split_all(s, sep).len() >= 1,
    decreases s.len(),
{
    if s.len() > 0 {
        lemma_split_all_nonempty(s.drop_first(), sep);
    }
}

/// Cuts `s` at every separator, as `str::split` does.
pub fn split_all_chars(s: &Vec<char>, sep: Sep) -> (r: Vec<Vec<char>>)
    ensures
        r@.map_values(|v: Vec<char>| v@) == split_all(s@, sep),
{
    let mut pieces: Vec<Vec<char>> = Vec::new();
    let mut cur: Vec<char> = Vec::new();
    let mut i: usize = 0;
    let len = s.len();
    proof {
        lemma_split_all_nonempty(s@, sep);
        lemma_prepend_empty(split_all(s@, sep));
        assert(s@.subrange(0, len as int) =~= s@);
        assert(pieces@.map_values(|v: Vec<char>| v@) =~= Seq::<Seq<char>>::empty());
    }
    while i < len
        invariant
            len == s.len(),
            i <= len,
            split_all(s@, sep) == pieces@.map_values(|v: Vec<char>| v@) + prepend(
                cur@,
                split_all(s@.subrange(i as int, len as int), sep),
            ),
        decreases len - i,
    {
        let ghost rest = s@.subrange(i as int, len as int);
        assert(rest.drop_first() =~= s@.subrange(i + 1, len as int));
        assert(rest[0] == s@[i as int]);
        if matches_sep(sep, s[i]) {
            let ghost tail = split_all(rest.drop_first(), sep);
            proof {
                lemma_split_all_nonempty(rest.drop_first(), sep);
                assert(prepend(cur@, seq![Seq::<char>::empty()] + tail) =~= seq![cur@] + tail);
            }
            let done = cur;
            let ghost before = pieces@.map_values(|v: Vec<char>| v@);
            pieces.push(done);
            assert(pieces@.map_values(|v: Vec<char>| v@) =~= before.push(done@));
            cur = Vec::new();
            proof {
                lemma_prepend_empty(tail);
                assert(before + (seq![done@] + tail) =~= before.push(done@) + tail);
            }
        } else {
            proof {
                lemma_split_all_nonempty(rest.drop_first(), sep);
                let tail = split_all(rest.drop_first(), sep);
                lemma_prepend_push(cur@, s@[i as int], tail);
            }
            cur.push(s[i]);
        }
        i = i + 1;
    }
    proof {
        let rest = s@.subrange(i as int, len as int);
        assert(rest.len() == 0);
        assert(prepend(cur@, seq![rest]) =~= seq![cur@]);
    }
    let ghost before = pieces@.map_values(|v: Vec<char>| v@);
    pieces.push(cur);
    assert(pieces@.map_values(|v: Vec<char>| v@) =~= before + seq![cur@]);
    pieces
}

/// Text cut into lines at `'\n'`, with no empty piece after a final newline.
/// A `'\r'` before the newline stays on the line; every reader trims it.
pub open spec fn split_lines(s: Seq<char>) -> Seq<Seq<char>> {
    let p = split_all(s, Sep::Char('\n'));
    if p.last().len() == 0 {
        p.drop_last()
    } else {
        p
    }
}

/// The lines of `s`.
pub fn lines_of(s: &Vec<char>) -> (r: Vec<Vec<char>>)
    ensures
        r@.map_values(|v: Vec<char>| v@) == split_lines(s@),
{
    let mut p = split_all_chars(s, Sep::Char('\n'));
    proof {
        lemma_split_all_nonempty(s@, Sep::Char('\n'));
    }
    let k = p.len() - 1;
    if p[k].len() == 0 {
        let ghost before = p@.map_values(|v: Vec<char>| v@);
        p.pop();
        assert(p@.map_values(|v: Vec<char>| v@) =~= before.drop_last());
    }
    p
}

/// The characters of `s` up to its first whitespace.
pub open spec fn leading_word(s: Seq<char>) -> Seq<char>
    decreases s.len(),
{
    if s.len() == 0 || is_ws(s[0]) {
        Seq::<char>::empty()
    } else {
        seq![s[0]] + leading_word(s.drop_first())
    }
}

/// `s.split_whitespace().next()`, with an all-blank `s` giving the empty word.
pub open spec fn first_word(s: Seq<char>) -> Seq<char> {
    leading_word(trim_start(s))
}

proof fn lemma_leading_word_prefix(s: Seq<char>, i: int)
    requires
        0 <= i <= s.len(),
        forall|j: int| 0 <= j < i ==> !is_ws(#[trigger] s[j]),
        i == s.len() || is_ws(s[i]),
    ensures
        leading_word(s) == s.subrange(0, i),
    decreases i,
{
    if i > 0 {
        lemma_leading_word_prefix(s.drop_first(), i - 1);
        assert(seq![s[0]] + s.drop_first().subrange(0, i - 1) =~= s.subrange(0, i));
    } else {
        assert(s.subrange(0, 0) =~= Seq::<char>::empty());
    }
}

/// The first whitespace-separated word of `s` (empty when `s` is blank).
pub fn first_word_chars(s: &Vec<char>) -> (r: Vec<char>)
    ensures
        r@ == first_word(s@),
{
    let n = s.len();
    let mut i: usize = 0;
    while i < n && is_whitespace(s[i])
        invariant
            n == s.len(),
            i <= n,
            forall|j: int| 0 <= j < i ==> is_ws(#[trigger] s@[j]),
        decreases n - i,
    {
        i = i + 1;
    }
    proof {
        lemma_strip_start_skip(s@, i as int);
    }
    let ghost t = s@.subrange(i as int, n as int);
    assert(trim_start(t) == t);
    let mut j: usize = i;
    while j < n && !is_whitespace(s[j])
        invariant
            n == s.len(),
            i <= j <= n,
            forall|k: int| i <= k < j ==> !is_ws(#[trigger] s@[k]),
        decreases n - j,
    {
        j = j + 1;
    }
    proof {
        assert forall|k: int| 0 <= k < j - i implies !is_ws(#[trigger] t[k]) by {
            assert(t[k] == s@[k + i]);
        }
        lemma_leading_word_prefix(t, j - i);
        assert(t.subrange(0, j - i) =~= s@.subrange(i as int, j as int));
    }
    slice(s, i, j)
}

// ---------------------------------------------------------------------------
// Searching for a pattern
// ---------------------------------------------------------------------------

/// Whether `pat` occurs in `s` starting at index `i`.
pub open spec fn occurs_at(s: Seq<char>, pat: Seq<char>, i: int) -> bool {
    0 <= i && i + pat.len() <= s.len() && s.subrange(i, i + pat.len()) == pat
}

/// Index of the first occurrence of `pat` in `s`.
#[verifier::opaque]
pub open spec fn find(s: Seq<char>, pat: Seq<char>) -> Option<int> {
    if exists|i: int| occurs_at(s, pat, i) {
        Some(choose|i: int| occurs_at(s, pat, i) && forall|j: int| 0 <= j < i ==> !occurs_at(s, pat, j))
    } else {
        None
    }
}

/// Whether `pat` occurs anywhere in `s` (`str::contains` with a string).
pub open spec fn contains_seq(s: Seq<char>, pat: Seq<char>) -> bool {
    exists|i: int| occurs_at(s, pat, i)
}

/// `str::split_once`: the text before and after the first occurrence of `pat`.
pub open spec fn split_once(s: Seq<char>, pat: Seq<char>) -> Option<(Seq<char>, Seq<char>)> {
    match find(s, pat) {
        Some(i) => Some((s.subrange(0, i), s.subrange(i + pat.len(), s.len() as int))),
        None => None,
    }
}

proof fn lemma_find_is(s: Seq<char>, pat: Seq<char>, i: int)
    requires
        occurs_at(s, pat, i),
        forall|j: int| 0 <= j < i ==> !occurs_at(s, pat, j),
    ensures
        find(s, pat) == Some(i),
{
    reveal(find);
    let k = choose|k: int| occurs_at(s, pat, k) && forall|j: int| 0 <= j < k ==> !occurs_at(s, pat, j);
    assert(occurs_at(s, pat, k));
    if k < i {
        assert(!occurs_at(s, pat, k));
    }
    if i < k {
        assert(!occurs_at(s, pat, i));
    }
}

fn occurs_at_exec(s: &Vec<char>, pat: &Vec<char>, i: usize) -> (r: bool)
    requires
        i <= s.len(),
    ensures
        r == occurs_at(s@, pat@, i as int),
{
    if pat.len() > s.len() - i {
        return false;
    }
    for k in 0..pat.len()
        invariant
            i + pat.len() <= s.len(),
            forall|j: int| 0 <= j < k ==> s@[i + j] == pat@[j],
    {
        if s[i + k] != pat[k] {
            assert(s@.subrange(i as int, i + pat.len())[k as int] != pat@[k as int]);
            return false;
        }
    }
    assert(s@.subrange(i as int, i + pat.len()) =~= pat@);
    true
}

/// The index of the first occurrence of `pat` in `s`, if any.
pub fn find_chars(s: &Vec<char>, pat: &Vec<char>) -> (r: Option<usize>)
    ensures
        match r {
            Some(i) => find(s@, pat@) == Some(i as int) && occurs_at(s@, pat@, i as int),
            None => find(s@, pat@) is None && !contains_seq(s@, pat@),
        },
{
    let n = s.len();
    for i in 0..n
        invariant
            n == s.len(),
            forall|j: int| 0 <= j < i ==> !occurs_at(s@, pat@, j),
    {
        if occurs_at_exec(s, pat, i) {
            proof {
                lemma_find_is(s@, pat@, i as int);
            }
            return Some(i);
        }
    }
    if occurs_at_exec(s, pat, n) {
        proof {
            lemma_find_is(s@, pat@, n as int);
        }
        return Some(n);
    }
    proof {
        reveal(find);
        assert forall|j: int| !occurs_at(s@, pat@, j) by {
            if 0 <= j < n {
            }
        }
    }
    None
}

/// Whether the literal `pat` occurs in `s`.
pub fn contains_str(s: &Vec<char>, pat: &str) -> (r: bool)
    ensures
        r == contains_seq(s@, pat@),
{
    let p = chars_of(pat);
    match find_chars(s, &p) {
        Some(_) => true,
        None => false,
    }
}

/// The text before and after the first occurrence of the literal `pat`.
pub fn split_once_chars(s: &Vec<char>, pat: &str) -> (r: Option<(Vec<char>, Vec<char>)>)
    ensures
        match r {
            Some((a, b)) => split_once(s@, pat@) == Some((a@, b@)),
            None => split_once(s@, pat@) is None,
        },
{
    let p = chars_of(pat);
    match find_chars(s, &p) {
        Some(i) => {
            assert(occurs_at(s@, p@, i as int));
            assert(i + p@.len() <= s@.len());
            let a = slice(s, 0, i);
            let plen = p.len();
            assert(i + plen <= s.len());
            let b = slice(s, i + plen, s.len());
            Some((a, b))
        },
        None => None,
    }
}

// ---------------------------------------------------------------------------
// Joining
// ---------------------------------------------------------------------------

/// `parts` joined with `sep` between neighbours (`[..].join(sep)`).
pub open spec fn join(parts: Seq<Seq<char>>, sep: Seq<char>) -> Seq<char>
    decreases parts.len(),
{
    if parts.len() == 0 {
        Seq::<char>::empty()
    } else if parts.len() == 1 {
        parts[0]
    } else {
        join(parts.drop_last(), sep) + sep + parts.last()
    }
}

/// Joins `parts` with the literal `sep`.
pub fn join_chars(parts: &Vec<Vec<char>>, sep: &str) -> (r: Vec<char>)
    ensures
        r@ == join(parts@.map_values(|v: Vec<char>| v@), sep@),
{
    let ghost ps = parts@.map_values(|v: Vec<char>| v@);
    let mut r: Vec<char> = Vec::new();
    for i in 0..parts.len()
        invariant
            ps == parts@.map_values(|v: Vec<char>| v@),
            r@ == join(ps.take(i as int), sep@),
    {
        assert(ps.take(i + 1).drop_last() =~= ps.take(i as int));
        if i > 0 {
            extend_str(&mut r, sep);
        }
        extend(&mut r, &parts[i]);
        proof {
            if i == 0 {
                assert(Seq::<char>::empty() + parts@[0]@ =~= parts@[0]@);
            }
        }
    }
    assert(ps.take(parts.len() as int) =~= ps);
    r
}


// ---------------------------------------------------------------------------
// Integers
// ---------------------------------------------------------------------------

/// Whether `c` is an ASCII decimal digit.
pub open spec fn is_digit(c: char) -> bool {
    '0' <= c && c <= '9'
}

/// The value of decimal digit `c`.
pub open spec fn digit_value(c: char) -> int {
    c as int - '0' as int
}

/// The number that a run of decimal digits spells.
pub open spec fn digits_value(s: Seq<char>) -> int
    decreases s.len(),
{
    if s.len() == 0 {
        0
    } else {
        digits_value(s.drop_last()) * 10 + digit_value(s.last())
    }
}

/// Whether every character of `s` is a decimal digit.
pub open spec fn all_digits(s: Seq<char>) -> bool {
    forall|i: int| 0 <= i < s.len() ==> is_digit(#[trigger] s[i])
}

/// What `str::parse::<i64>` gives: an optional sign, then one or more decimal
/// digits, and a value that fits in `i64`.
pub open spec fn parse_i64(s: Seq<char>) -> Option<i64> {
    let neg = s.len() > 0 && s[0] == '-';
    let body = if s.len() > 0 && (s[0] == '-' || s[0] == '+') {
        s.drop_first()
    } else {
        s
    };
    if body.len() == 0 || !all_digits(body) {
        None
    } else {
        let v = if neg {
            -digits_value(body)
        } else {
            digits_value(body)
        };
        if i64::MIN <= v <= i64::MAX {
            Some(v as i64)
        } else {
            None
        }
    }
}

proof fn lemma_digits_value_grows(s: Seq<char>, k: int)
    requires
        0 <= k <= s.len(),
        forall|i: int| 0 <= i < s.len() ==> is_digit(#[trigger] s[i]),
    ensures
        0 <= digits_value(s.take(k)) <= digits_value(s),
    decreases s.len(),
{
    if s.len() > 0 {
        if k == s.len() {
            assert(s.take(k) =~= s);
            lemma_digits_value_grows(s.drop_last(), s.len() - 1);
            assert(s.drop_last().take(s.len() - 1) =~= s.drop_last());
        } else {
            lemma_digits_value_grows(s.drop_last(), k);
            assert(s.drop_last().take(k) =~= s.take(k));
            lemma_digits_value_grows(s.drop_last(), s.len() - 1);
            assert(s.drop_last().take(s.len() - 1) =~= s.drop_last());
            assert(is_digit(s.last()));
        }
    } else {
        assert(s.take(k) =~= s);
    }
}

/// Reads `s` as a decimal `i64`, as `str::parse::<i64>` does.
pub fn parse_i64_chars(s: &Vec<char>) -> (r: Option<i64>)
    ensures
        r == parse_i64(s@),
{
    let n = s.len();
    if n == 0 {
        return None;
    }
    let neg = s[0] == '-';
    let start: usize = if s[0] == '-' || s[0] == '+' { 1 } else { 0 };
    let ghost body = if s@.len() > 0 && (s@[0] == '-' || s@[0] == '+') {
        s@.drop_first()
    } else {
        s@
    };
    assert(body =~= s@.subrange(start as int, n as int));
    if start == n {
        return None;
    }
    let mut acc: i128 = 0;
    let mut i: usize = start;
    while i < n
        invariant
            n == s.len(),
            start <= i <= n,
            body == s@.subrange(start as int, n as int),
            n > 0,
            neg == (s@[0] == '-'),
            body == (if s@[0] == '-' || s@[0] == '+' { s@.drop_first() } else { s@ }),
            forall|j: int| 0 <= j < i - start ==> is_digit(#[trigger] body[j]),
            acc == digits_value(body.take(i - start)),
            0 <= acc <= 9223372036854775808,
        decreases n - i,
    {
        let c = s[i];
        assert(body[i - start] == c);
        if !('0' <= c && c <= '9') {
            assert(!is_digit(body[i - start]));
            assert(!all_digits(body));
            return None;
        }
        let d = (c as u32 - '0' as u32) as i128;
        assert(body.take(i + 1 - start).drop_last() =~= body.take(i - start));
        assert(body.take(i + 1 - start).last() == c);
        acc = acc * 10 + d;
        assert(acc == digits_value(body.take(i + 1 - start)));
        if acc > 9223372036854775808 {
            proof {
                if all_digits(body) {
                    lemma_digits_value_grows(body, i + 1 - start);
                }
            }
            return None;
        }
        i = i + 1;
    }
    assert(body.take(n - start) =~= body);
    if neg {
        Some((0 - acc) as i64)
    } else if acc <= 9223372036854775807 {
        Some(acc as i64)
    } else {
        None
    }
}

/// The character for decimal digit `d`.
pub open spec fn digit_char(d: int) -> char {
    ('0' as int + d) as char
}

/// The decimal digits of `n`, most significant first.
pub open spec fn nat_digits(n: nat) -> Seq<char>
    decreases n,
{
    if n < 10 {
        seq![digit_char(n as int)]
    } else {
        nat_digits(n / 10).push(digit_char((n % 10) as int))
    }
}

/// `n` in decimal, with a leading `-` when negative (`format!("{}", n)`).
pub open spec fn decimal(n: int) -> Seq<char> {
    if n < 0 {
        seq!['-'] + nat_digits((-n) as nat)
    } else {
        nat_digits(n as nat)
    }
}

/// `n` in decimal padded with zeros to two places (`format!("{:02}", n)`).
pub open spec fn pad2(n: int) -> Seq<char> {
    if 0 <= n < 10 {
        seq!['0'] + decimal(n)
    } else {
        decimal(n)
    }
}

fn digit_of(d: u64) -> (c: char)
    requires
        d < 10,
    ensures
        c == digit_char(d as int),
{
    ((48 + d) as u8) as char
}

/// The decimal digits of `n`.
pub fn fmt_u64(n: u64) -> (r: Vec<char>)
    ensures
        r@ == nat_digits(n as nat),
    decreases n,
{
    if n < 10 {
        let mut v: Vec<char> = Vec::new();
        v.push(digit_of(n));
        assert(v@ =~= seq![digit_char(n as int)]);
        v
    } else {
        let mut v = fmt_u64(n / 10);
        v.push(digit_of(n % 10));
        v
    }
}

/// `n` in decimal.
pub fn fmt_i64(n: i64) -> (r: Vec<char>)
    ensures
        r@ == decimal(n as int),
{
    if n < 0 {
        let m = (0 - (n as i128)) as u64;
        let digits = fmt_u64(m);
        let mut v: Vec<char> = Vec::new();
        v.push('-');
        extend(&mut v, &digits);
        assert(v@ =~= seq!['-'] + nat_digits((-n) as nat));
        v
    } else {
        fmt_u64(n as u64)
    }
}

/// `n` in decimal, zero-padded to two places.
pub fn fmt_pad2(n: i64) -> (r: Vec<char>)
    ensures
        r@ == pad2(n as int),
{
    if 0 <= n && n < 10 {
        let mut v: Vec<char> = Vec::new();
        v.push('0');
        let d = fmt_i64(n);
        extend(&mut v, &d);
        assert(v@ =~= seq!['0'] + decimal(n as int));
        v
    } else {
        fmt_i64(n)
    }
}

} // verus!
