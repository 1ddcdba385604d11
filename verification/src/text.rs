//! Text operations, stated over the sequence of a text's characters.

use vstd::prelude::*;

verus! {

/// `String::push` appends the given character to the end of the string.
pub assume_specification[ std::string::String::push ](s: &mut std::string::String, c: char)
    ensures
        final(s)@ == old(s)@.push(c),
;

/// What `str::to_lowercase` gives for a text.
pub uninterp spec fn lowercase(s: Seq<char>) -> Seq<char>;

/// `str::to_lowercase` gives the lowercase equivalent of a text, which depends on the text alone.
#[verifier::external_body]
pub(crate) fn to_lowercase(s: &str) -> (r: String)
    ensures
        r@ == lowercase(s@),
{
    s.to_lowercase()
}

/// What `String::from_utf8_lossy` gives for bytes.
pub uninterp spec fn lossy_text(bytes: Seq<u8>) -> Seq<char>;

/// `String::from_utf8_lossy` decodes valid UTF-8 as it is; in other bytes it puts replacement
/// characters where they are invalid. Its result depends on the bytes alone.
#[verifier::external_body]
pub(crate) fn from_utf8_lossy(bytes: &[u8]) -> (r: String)
    ensures
        r@ == lossy_text(bytes@),
        vstd::utf8::valid_utf8(bytes@) ==> vstd::utf8::encode_utf8(r@) == bytes@,
{
    String::from_utf8_lossy(bytes).into_owned()
}

/// The characters with the Unicode property `White_Space`.
pub open spec fn is_space(c: char) -> bool {
    ||| '\u{9}' <= c <= '\u{d}'
    ||| c == '\u{20}'
    ||| c == '\u{85}'
    ||| c == '\u{a0}'
    ||| c == '\u{1680}'
    ||| '\u{2000}' <= c <= '\u{200a}'
    ||| c == '\u{2028}'
    ||| c == '\u{2029}'
    ||| c == '\u{202f}'
    ||| c == '\u{205f}'
    ||| c == '\u{3000}'
}

/// Whether `c` is white space.
pub fn is_white_space(c: char) -> (r: bool)
    ensures
        r == is_space(c),
{
    ('\u{9}' <= c && c <= '\u{d}') || c == '\u{20}' || c == '\u{85}' || c == '\u{a0}' || c
        == '\u{1680}' || ('\u{2000}' <= c && c <= '\u{200a}') || c == '\u{2028}' || c == '\u{2029}'
        || c == '\u{202f}' || c == '\u{205f}' || c == '\u{3000}'
}

/// The characters of `s`.
pub fn chars_of(s: &str) -> (r: Vec<char>)
    ensures
        r@ == s@,
{
    let mut out: Vec<char> = Vec::new();
    for c in it: s.chars()
        invariant
            it.seq() == s@,
            out@ == s@.take(it.index() as int),
    {
        out.push(c);
        assert(out@ =~= s@.take(it.index() as int + 1));
    }
    assert(out@ =~= s@);
    out
}

/// The text made of the characters `cs[lo..hi]`.
pub fn text_of(cs: &Vec<char>, lo: usize, hi: usize) -> (r: String)
    requires
        lo <= hi <= cs@.len(),
    ensures
        r@ == cs@.subrange(lo as int, hi as int),
{
    let mut out = String::new();
    let mut i: usize = lo;
    while i < hi
        invariant
            lo <= i <= hi <= cs@.len(),
            out@ == cs@.subrange(lo as int, i as int),
        decreases hi - i,
    {
        out.push(cs[i]);
        i = i + 1;
        assert(out@ =~= cs@.subrange(lo as int, i as int));
    }
    out
}

/// Whether two texts hold the same characters.
pub fn same(a: &str, b: &str) -> (r: bool)
    ensures
        r == (a@ == b@),
{
    let xs = chars_of(a);
    let mut i: usize = 0;
    for c in it: b.chars()
        invariant
            it.seq() == b@,
            xs@ == a@,
            i == it.index(),
            i <= xs@.len(),
            a@.take(i as int) == b@.take(i as int),
    {
        if i >= xs.len() || xs[i] != c {
            return false;
        }
        i = i + 1;
        assert(a@.take(i as int) =~= b@.take(i as int));
    }
    assert(b@.take(i as int) =~= b@);
    if i == xs.len() {
        assert(a@.take(i as int) =~= a@);
        true
    } else {
        false
    }
}

/// The views of the texts in `v`.
pub open spec fn texts(v: Seq<String>) -> Seq<Seq<char>> {
    v.map_values(|s: String| s@)
}

/// The view of an optional text.
pub open spec fn opt_text(o: Option<String>) -> Option<Seq<char>> {
    match o {
        Some(s) => Some(s@),
        None => None,
    }
}

/// Whether `s` is among the texts in `list`.
pub fn any_same(list: &Vec<String>, s: &str) -> (r: bool)
    ensures
        r == texts(list@).contains(s@),
{
    let mut i: usize = 0;
    while i < list.len()
        invariant
            i <= list@.len(),
            forall|j: int| 0 <= j < i ==> texts(list@)[j] != s@,
        decreases list@.len() - i,
    {
        if same(list[i].as_str(), s) {
            assert(texts(list@)[i as int] == s@);
            return true;
        }
        i = i + 1;
    }
    false
}

/// `s` without its leading white space.
pub open spec fn trim_start(s: Seq<char>) -> Seq<char>
    decreases s.len(),
{
    if s.len() > 0 && is_space(s[0]) {
        trim_start(s.drop_first())
    } else {
        s
    }
}

/// `s` without its trailing white space.
pub open spec fn trim_end(s: Seq<char>) -> Seq<char>
    decreases s.len(),
{
    if s.len() > 0 && is_space(s.last()) {
        trim_end(s.drop_last())
    } else {
        s
    }
}

/// `s` without the white space at its ends.
pub open spec fn trimmed(s: Seq<char>) -> Seq<char> {
    trim_end(trim_start(s))
}

/// `s` without the white space at its ends.
pub fn trim(s: &str) -> (r: String)
    ensures
        r@ == trimmed(s@),
{
    let cs = chars_of(s);
    let n: usize = cs.len();
    let mut lo: usize = 0;
    assert(s@.subrange(0, n as int) =~= s@);
    while lo < n && is_white_space(cs[lo])
        invariant
            lo <= n,
            n == cs@.len(),
            cs@ == s@,
            trim_start(s@.subrange(lo as int, n as int)) == trim_start(s@),
        decreases n - lo,
    {
        assert(s@.subrange(lo as int, n as int).drop_first() =~= s@.subrange(lo + 1, n as int));
        lo = lo + 1;
    }
    let ghost rest = s@.subrange(lo as int, n as int);
    assert(trim_start(s@) == rest);
    let mut hi: usize = n;
    while hi > lo && is_white_space(cs[hi - 1])
        invariant
            lo <= hi <= n,
            n == cs@.len(),
            cs@ == s@,
            trim_end(s@.subrange(lo as int, hi as int)) == trim_end(rest),
        decreases hi,
    {
        assert(s@.subrange(lo as int, hi as int).drop_last() =~= s@.subrange(lo as int, hi - 1));
        hi = hi - 1;
    }
    text_of(&cs, lo, hi)
}

/// Whether the pattern `p` stands in `s` at position `i`.
pub open spec fn occurs_at(s: Seq<char>, p: Seq<char>, i: int) -> bool {
    &&& 0 <= i
    &&& i + p.len() <= s.len()
    &&& s.subrange(i, i + p.len()) == p
}

/// Whether `s` begins with `p`.
pub open spec fn has_prefix(s: Seq<char>, p: Seq<char>) -> bool {
    occurs_at(s, p, 0)
}

/// Whether `p` stands somewhere in `s`.
pub open spec fn has_part(s: Seq<char>, p: Seq<char>) -> bool {
    exists|i: int| occurs_at(s, p, i)
}

/// Whether `i` is the first position at which `p` stands in `s`.
pub open spec fn first_at(s: Seq<char>, p: Seq<char>, i: int) -> bool {
    &&& occurs_at(s, p, i)
    &&& forall|j: int| 0 <= j < i ==> !occurs_at(s, p, j)
}

/// Whether the pattern `p` stands in `cs` at position `i`.
fn stands_at(cs: &Vec<char>, p: &Vec<char>, i: usize) -> (r: bool)
    ensures
        r == occurs_at(cs@, p@, i as int),
{
    let n: usize = cs.len();
    if i > n || p.len() > n - i {
        return false;
    }
    let mut k: usize = 0;
    while k < p.len()
        invariant
            k <= p@.len(),
            n == cs@.len(),
            i + p@.len() <= n,
            cs@.subrange(i as int, i + k) == p@.take(k as int),
        decreases p@.len() - k,
    {
        if cs[i + k] != p[k] {
            assert(cs@.subrange(i as int, i + p@.len())[k as int] != p@[k as int]);
            return false;
        }
        k = k + 1;
        assert(cs@.subrange(i as int, i + k) =~= p@.take(k as int));
    }
    assert(p@.take(k as int) =~= p@);
    true
}

/// The first position in `cs` from `from` on at which `p` stands.
fn find(cs: &Vec<char>, p: &Vec<char>, from: usize) -> (r: Option<usize>)
    ensures
        match r {
            Some(i) => from <= i && occurs_at(cs@, p@, i as int) && forall|j: int|
                from <= j < i ==> !occurs_at(cs@, p@, j),
            None => forall|j: int| from <= j ==> !occurs_at(cs@, p@, j),
        },
{
    let mut i: usize = from;
    while i <= cs.len()
        invariant
            from <= i,
            forall|j: int| from <= j < i ==> !occurs_at(cs@, p@, j),
            i <= cs@.len() || forall|j: int| i <= j ==> !occurs_at(cs@, p@, j),
        decreases cs@.len() + 1 - i,
    {
        if stands_at(cs, p, i) {
            return Some(i);
        }
        if i == cs.len() {
            return None;
        }
        i = i + 1;
    }
    None
}

/// Whether `s` begins with `p`.
pub fn starts_with(s: &str, p: &str) -> (r: bool)
    ensures
        r == has_prefix(s@, p@),
{
    stands_at(&chars_of(s), &chars_of(p), 0)
}

/// Whether `p` stands somewhere in `s`.
pub fn contains(s: &str, p: &str) -> (r: bool)
    ensures
        r == has_part(s@, p@),
{
    find(&chars_of(s), &chars_of(p), 0).is_some()
}

/// `s` without all the copies of `p` that it begins with.
pub open spec fn strip_all(s: Seq<char>, p: Seq<char>) -> Seq<char>
    decreases s.len(),
{
    if p.len() > 0 && has_prefix(s, p) {
        strip_all(s.skip(p.len() as int), p)
    } else {
        s
    }
}

/// `s` without all the copies of `p` that it begins with.
pub fn trim_start_matches(s: &str, p: &str) -> (r: String)
    ensures
        r@ == strip_all(s@, p@),
{
    let cs = chars_of(s);
    let ps = chars_of(p);
    let n: usize = cs.len();
    let mut lo: usize = 0;
    assert(s@.skip(0) =~= s@);
    while ps.len() > 0 && stands_at(&cs, &ps, lo)
        invariant
            lo <= n,
            n == cs@.len(),
            cs@ == s@,
            ps@ == p@,
            strip_all(s@.skip(lo as int), p@) == strip_all(s@, p@),
        decreases n - lo,
    {
        assert(s@.skip(lo as int).subrange(0, p@.len() as int) =~= s@.subrange(
            lo as int,
            lo + p@.len(),
        ));
        assert(s@.skip(lo as int).skip(p@.len() as int) =~= s@.skip(lo + p@.len()));
        lo = lo + ps.len();
    }
    proof {
        let rest = s@.skip(lo as int);
        if has_prefix(rest, p@) {
            assert(rest.subrange(0, p@.len() as int) =~= s@.subrange(lo as int, lo + p@.len()));
        }
        assert(rest =~= s@.subrange(lo as int, n as int));
    }
    text_of(&cs, lo, n)
}

/// `s` without the copies of `c` that it begins with.
pub open spec fn strip_left(s: Seq<char>, c: char) -> Seq<char>
    decreases s.len(),
{
    if s.len() > 0 && s[0] == c {
        strip_left(s.drop_first(), c)
    } else {
        s
    }
}

/// `s` without the copies of `c` that it ends with.
pub open spec fn strip_right(s: Seq<char>, c: char) -> Seq<char>
    decreases s.len(),
{
    if s.len() > 0 && s.last() == c {
        strip_right(s.drop_last(), c)
    } else {
        s
    }
}

/// `s` without the copies of `c` at its ends.
pub open spec fn stripped(s: Seq<char>, c: char) -> Seq<char> {
    strip_right(strip_left(s, c), c)
}

/// The characters `cs[from..to]` without the copies of `c` at their ends.
fn trim_matches(cs: &Vec<char>, from: usize, to: usize, c: char) -> (r: String)
    requires
        from <= to <= cs@.len(),
    ensures
        r@ == stripped(cs@.subrange(from as int, to as int), c),
{
    let ghost s = cs@.subrange(from as int, to as int);
    let mut lo: usize = from;
    while lo < to && cs[lo] == c
        invariant
            from <= lo <= to <= cs@.len(),
            strip_left(cs@.subrange(lo as int, to as int), c) == strip_left(s, c),
        decreases to - lo,
    {
        assert(cs@.subrange(lo as int, to as int).drop_first() =~= cs@.subrange(lo + 1, to as int));
        lo = lo + 1;
    }
    let ghost rest = cs@.subrange(lo as int, to as int);
    assert(strip_left(s, c) == rest);
    let mut hi: usize = to;
    while hi > lo && cs[hi - 1] == c
        invariant
            lo <= hi <= to <= cs@.len(),
            strip_right(cs@.subrange(lo as int, hi as int), c) == strip_right(rest, c),
        decreases hi,
    {
        assert(cs@.subrange(lo as int, hi as int).drop_last() =~= cs@.subrange(lo as int, hi - 1));
        hi = hi - 1;
    }
    text_of(cs, lo, hi)
}

/// The pieces of `s` between the copies of the separator `sep`, found from left to right.
pub open spec fn pieces(s: Seq<char>, sep: Seq<char>) -> Seq<Seq<char>>
    decreases s.len(),
{
    if sep.len() > 0 && exists|i: int| first_at(s, sep, i) {
        let i = choose|i: int| first_at(s, sep, i);
        seq![s.take(i)] + pieces(s.skip(i + sep.len()), sep)
    } else {
        seq![s]
    }
}

/// The pieces of `s` that the separator parts are the text before its first copy, and then the
/// pieces of what follows that copy.
proof fn lemma_pieces_step(s: Seq<char>, sep: Seq<char>, i: int)
    requires
        sep.len() > 0,
        first_at(s, sep, i),
    ensures
        pieces(s, sep) == seq![s.take(i)] + pieces(s.skip(i + sep.len()), sep),
{
    let k = choose|k: int| first_at(s, sep, k);
    assert(first_at(s, sep, k));
    assert(k == i) by {
        if k < i {
            assert(!occurs_at(s, sep, k));
        }
        if i < k {
            assert(!occurs_at(s, sep, i));
        }
    }
}

/// The pieces of `s` between the copies of `sep`, each without the copies of `c` at its ends.
pub fn split_stripped(s: &str, sep: &str, c: char) -> (r: Vec<String>)
    requires
        sep@.len() > 0,
    ensures
        texts(r@) == pieces(s@, sep@).map_values(|piece: Seq<char>| stripped(piece, c)),
{
    let cs = chars_of(s);
    let ps = chars_of(sep);
    let n: usize = cs.len();
    let ghost strip = |piece: Seq<char>| stripped(piece, c);
    let ghost goal = pieces(s@, sep@).map_values(strip);
    let mut out: Vec<String> = Vec::new();
    let mut lo: usize = 0;
    assert(s@.skip(0) =~= s@);
    assert(texts(out@) + goal =~= goal);
    loop
        invariant
            lo <= n,
            n == cs@.len(),
            cs@ == s@,
            ps@ == sep@,
            sep@.len() > 0,
            strip == (|piece: Seq<char>| stripped(piece, c)),
            goal == pieces(s@, sep@).map_values(strip),
            texts(out@) + pieces(s@.skip(lo as int), sep@).map_values(strip) == goal,
        decreases n - lo,
    {
        let ghost start = lo as int;
        let ghost rest = s@.skip(start);
        let ghost before = texts(out@);
        match find(&cs, &ps, lo) {
            Some(i) => {
                proof {
                    let k = i - lo;
                    assert(rest.subrange(k, k + sep@.len()) =~= s@.subrange(i as int, i + sep@.len()));
                    assert forall|j: int| 0 <= j < k implies !occurs_at(rest, sep@, j) by {
                        if occurs_at(rest, sep@, j) {
                            assert(rest.subrange(j, j + sep@.len()) =~= s@.subrange(
                                lo + j,
                                lo + j + sep@.len(),
                            ));
                            assert(occurs_at(s@, sep@, lo + j));
                        }
                    }
                    lemma_pieces_step(rest, sep@, k);
                    assert(rest.take(k) =~= s@.subrange(lo as int, i as int));
                    assert(rest.skip(k + sep@.len()) =~= s@.skip(i + sep@.len()));
                }
                out.push(trim_matches(&cs, lo, i, c));
                lo = i + ps.len();
                proof {
                    let piece = s@.subrange(start, i as int);
                    let tail = pieces(s@.skip(lo as int), sep@);
                    assert(texts(out@) =~= before.push(strip(piece)));
                    assert((seq![piece] + tail).map_values(strip) =~= seq![strip(piece)]
                        + tail.map_values(strip));
                    assert(texts(out@) + tail.map_values(strip) =~= goal);
                }
            },
            None => {
                proof {
                    assert forall|j: int| !occurs_at(rest, sep@, j) by {
                        if occurs_at(rest, sep@, j) {
                            assert(rest.subrange(j, j + sep@.len()) =~= s@.subrange(
                                lo + j,
                                lo + j + sep@.len(),
                            ));
                            assert(occurs_at(s@, sep@, lo + j));
                        }
                    }
                    assert(rest =~= s@.subrange(lo as int, n as int));
                }
                out.push(trim_matches(&cs, lo, n, c));
                proof {
                    assert(seq![rest].map_values(strip) =~= seq![strip(rest)]);
                    assert(texts(out@) =~= before + seq![strip(rest)]);
                }
                return out;
            },
        }
    }
}

/// `s` without one trailing carriage return.
pub open spec fn without_return(s: Seq<char>) -> Seq<char> {
    if s.len() > 0 && s.last() == '\r' {
        s.drop_last()
    } else {
        s
    }
}

/// The position of the first line feed in `s`, or the length of `s` if it has none.
pub open spec fn line_end(s: Seq<char>) -> nat
    decreases s.len(),
{
    if s.len() == 0 || s[0] == '\n' {
        0
    } else {
        1 + line_end(s.drop_first())
    }
}

/// The lines of `s`. A line ends with a line feed or with a carriage return and a line feed; for
/// the last line the ending may be missing.
pub open spec fn text_lines(s: Seq<char>) -> Seq<Seq<char>>
    decreases s.len(),
{
    if s.len() == 0 {
        Seq::empty()
    } else {
        let n = line_end(s) as int;
        if n < s.len() {
            seq![without_return(s.take(n))] + text_lines(s.skip(n + 1))
        } else {
            seq![s]
        }
    }
}

/// A line ends at its first line feed.
proof fn lemma_line_end(s: Seq<char>, n: int)
    requires
        0 <= n <= s.len(),
        forall|j: int| 0 <= j < n ==> s[j] != '\n',
        n < s.len() ==> s[n] == '\n',
    ensures
        line_end(s) == n,
    decreases n,
{
    if n > 0 {
        lemma_line_end(s.drop_first(), n - 1);
    }
}

/// The lines of `s`.
pub fn lines(s: &str) -> (r: Vec<String>)
    ensures
        texts(r@) == text_lines(s@),
{
    let cs = chars_of(s);
    let n: usize = cs.len();
    let mut out: Vec<String> = Vec::new();
    let mut lo: usize = 0;
    assert(s@.skip(0) =~= s@);
    assert(texts(out@) + text_lines(s@) =~= text_lines(s@));
    while lo < n
        invariant
            lo <= n,
            n == cs@.len(),
            cs@ == s@,
            texts(out@) + text_lines(s@.skip(lo as int)) == text_lines(s@),
        decreases n - lo,
    {
        let ghost rest = s@.skip(lo as int);
        let ghost before = texts(out@);
        let mut hi: usize = lo;
        while hi < n && cs[hi] != '\n'
            invariant
                lo <= hi <= n,
                n == cs@.len(),
                forall|j: int| lo <= j < hi ==> cs@[j] != '\n',
            decreases n - hi,
        {
            hi = hi + 1;
        }
        proof {
            lemma_line_end(rest, hi - lo);
        }
        if hi < n {
            let end: usize = if hi > lo && cs[hi - 1] == '\r' {
                hi - 1
            } else {
                hi
            };
            out.push(text_of(&cs, lo, end));
            proof {
                let line = rest.take(hi - lo);
                assert(cs@.subrange(lo as int, end as int) =~= without_return(line));
                assert(rest.skip(hi - lo + 1) =~= s@.skip(hi + 1));
                assert(texts(out@) =~= before + seq![without_return(line)]);
                assert(texts(out@) + text_lines(s@.skip(hi + 1)) =~= before + (
                seq![without_return(line)] + text_lines(s@.skip(hi + 1))));
            }
            lo = hi + 1;
        } else {
            out.push(text_of(&cs, lo, n));
            proof {
                assert(cs@.subrange(lo as int, n as int) =~= rest);
                assert(texts(out@) =~= before + seq![rest]);
                assert(text_lines(s@.skip(n as int)) =~= Seq::<Seq<char>>::empty());
            }
            lo = n;
        }
    }
    assert(text_lines(s@.skip(lo as int)) =~= Seq::<Seq<char>>::empty());
    assert(texts(out@) =~= text_lines(s@));
    out
}

/// The number of characters before the first white space in `s`.
pub open spec fn word_len(s: Seq<char>) -> nat
    decreases s.len(),
{
    if s.len() == 0 || is_space(s[0]) {
        0
    } else {
        1 + word_len(s.drop_first())
    }
}

/// The parts of `s` that white space separates, none of them empty.
pub open spec fn words(s: Seq<char>) -> Seq<Seq<char>>
    decreases s.len(),
    via words_decreases
{
    let t = trim_start(s);
    let n = word_len(t) as int;
    if t.len() == 0 {
        Seq::empty()
    } else {
        seq![t.take(n)] + words(t.skip(n))
    }
}

#[via_fn]
proof fn words_decreases(s: Seq<char>) {
    lemma_first_word(s);
}

/// What is left of `s` without its leading white space is no longer than `s`, and begins with a
/// word unless it is empty.
proof fn lemma_first_word(s: Seq<char>)
    ensures
        trim_start(s).len() <= s.len(),
        trim_start(s).len() > 0 ==> 0 < word_len(trim_start(s)) <= trim_start(s).len(),
    decreases s.len(),
{
    if s.len() > 0 && is_space(s[0]) {
        lemma_first_word(s.drop_first());
    } else {
        lemma_word_fits(s);
    }
}

/// A word is no longer than the text that it begins.
proof fn lemma_word_fits(s: Seq<char>)
    ensures
        word_len(s) <= s.len(),
    decreases s.len(),
{
    if s.len() > 0 && !is_space(s[0]) {
        lemma_word_fits(s.drop_first());
    }
}

/// A word ends before its first white space.
proof fn lemma_word_len(s: Seq<char>, n: int)
    requires
        0 <= n <= s.len(),
        forall|j: int| 0 <= j < n ==> !is_space(s[j]),
        n < s.len() ==> is_space(s[n]),
    ensures
        word_len(s) == n,
    decreases n,
{
    if n > 0 {
        lemma_word_len(s.drop_first(), n - 1);
    }
}

/// Trimming drops exactly the leading white space.
proof fn lemma_trim_start(s: Seq<char>, n: int)
    requires
        0 <= n <= s.len(),
        forall|j: int| 0 <= j < n ==> is_space(s[j]),
        n < s.len() ==> !is_space(s[n]),
    ensures
        trim_start(s) == s.skip(n),
    decreases n,
{
    if n > 0 {
        lemma_trim_start(s.drop_first(), n - 1);
        assert(s.drop_first().skip(n - 1) =~= s.skip(n));
    } else {
        assert(s.skip(0) =~= s);
    }
}

/// The parts of `s` that white space separates, none of them empty.
pub fn split_whitespace(s: &str) -> (r: Vec<String>)
    ensures
        texts(r@) == words(s@),
{
    let cs = chars_of(s);
    let n: usize = cs.len();
    let mut out: Vec<String> = Vec::new();
    let mut at: usize = 0;
    assert(s@.skip(0) =~= s@);
    assert(texts(out@) + words(s@) =~= words(s@));
    loop
        invariant
            at <= n,
            n == cs@.len(),
            cs@ == s@,
            texts(out@) + words(s@.skip(at as int)) == words(s@),
        decreases n - at,
    {
        let ghost rest = s@.skip(at as int);
        let ghost before = texts(out@);
        let mut lo: usize = at;
        while lo < n && is_white_space(cs[lo])
            invariant
                at <= lo <= n,
                n == cs@.len(),
                forall|j: int| at <= j < lo ==> is_space(cs@[j]),
            decreases n - lo,
        {
            lo = lo + 1;
        }
        let mut hi: usize = lo;
        while hi < n && !is_white_space(cs[hi])
            invariant
                lo <= hi <= n,
                n == cs@.len(),
                forall|j: int| lo <= j < hi ==> !is_space(cs@[j]),
            decreases n - hi,
        {
            hi = hi + 1;
        }
        proof {
            lemma_trim_start(rest, lo - at);
            assert(rest.skip(lo - at) =~= s@.skip(lo as int));
            lemma_word_len(s@.skip(lo as int), hi - lo);
        }
        if hi == lo {
            assert(words(rest) =~= Seq::<Seq<char>>::empty());
            assert(texts(out@) =~= words(s@));
            return out;
        }
        out.push(text_of(&cs, lo, hi));
        proof {
            let word = s@.subrange(lo as int, hi as int);
            assert(s@.skip(lo as int).take(hi - lo) =~= word);
            assert(s@.skip(lo as int).skip(hi - lo) =~= s@.skip(hi as int));
            assert(texts(out@) =~= before + seq![word]);
            assert(texts(out@) + words(s@.skip(hi as int)) =~= before + (seq![word] + words(
                s@.skip(hi as int),
            )));
        }
        at = hi;
    }
}

/// The part of `s` before the last `c`, or all of `s` if it holds no `c`.
pub open spec fn before_last(s: Seq<char>, c: char) -> Seq<char>
    decreases s.len(),
{
    if !s.contains(c) {
        s
    } else if s.last() == c {
        s.drop_last()
    } else if s.len() > 0 {
        before_last(s.drop_last(), c)
    } else {
        s
    }
}

/// The part before the last `c` ends where no further `c` follows.
proof fn lemma_before_last(s: Seq<char>, c: char, i: int)
    requires
        0 <= i < s.len(),
        s[i] == c,
        forall|j: int| i < j < s.len() ==> s[j] != c,
    ensures
        before_last(s, c) == s.take(i),
    decreases s.len(),
{
    assert(s.contains(c));
    if i == s.len() - 1 {
        assert(s.drop_last() =~= s.take(i));
    } else {
        lemma_before_last(s.drop_last(), c, i);
        assert(s.drop_last().take(i) =~= s.take(i));
    }
}

/// The part of `s` before the last `c`, or all of `s` if it holds no `c`.
pub fn up_to_last(s: &str, c: char) -> (r: String)
    ensures
        r@ == before_last(s@, c),
{
    let cs = chars_of(s);
    let n: usize = cs.len();
    let mut i: usize = n;
    while i > 0
        invariant
            i <= n,
            n == cs@.len(),
            cs@ == s@,
            forall|j: int| i <= j < n ==> cs@[j] != c,
        decreases i,
    {
        i = i - 1;
        if cs[i] == c {
            proof {
                lemma_before_last(s@, c, i as int);
                assert(s@.take(i as int) =~= s@.subrange(0, i as int));
            }
            return text_of(&cs, 0, i);
        }
    }
    assert(!s@.contains(c));
    assert(s@.subrange(0, n as int) =~= s@);
    text_of(&cs, 0, n)
}

/// Among the ASCII characters, white space is the space and the characters from tab to carriage
/// return. Beyond them it is the next line, the spaces that do not break, the space of Ogham, those
/// of general punctuation, its line and paragraph separators, and the ideographic space.
pub proof fn white_space_by_code(c: char)
    ensures
        c as u32 <= 0x7f ==> (is_space(c) <==> (c == ' ' || c == '\t' || c == '\n' || c == '\u{b}'
            || c == '\u{c}' || c == '\r')),
        0x80 <= c as u32 <= 0x1fff ==> (is_space(c) <==> (c as u32 == 0x85 || c as u32 == 0xa0 || c
            as u32 == 0x1680)),
        0x2000 <= c as u32 <= 0x206f ==> (is_space(c) <==> (c as u32 <= 0x200a || c as u32 == 0x2028
            || c as u32 == 0x2029 || c as u32 == 0x202f || c as u32 == 0x205f)),
        0x2070 <= c as u32 ==> (is_space(c) <==> c as u32 == 0x3000),
{
}

/// Trimming a text cuts off white space and nothing else, and leaves none at the ends: a text
/// that neither begins nor ends with white space is what is left of it between any white space.
pub proof fn trimming_cuts_white_space(before: Seq<char>, s: Seq<char>, after: Seq<char>)
    requires
        forall|i: int| 0 <= i < before.len() ==> is_space(#[trigger] before[i]),
        forall|i: int| 0 <= i < after.len() ==> is_space(#[trigger] after[i]),
        s.len() > 0 ==> !is_space(s[0]) && !is_space(s.last()),
    ensures
        trimmed(before + s + after) == s,
{
    let t = before + s + after;
    if s.len() == 0 {
        lemma_trim_start(t, t.len() as int);
        assert(t.skip(t.len() as int) =~= s);
        assert(trim_end(s) == s);
    } else {
        lemma_trim_start(t, before.len() as int);
        assert(t.skip(before.len() as int) =~= s + after);
        lemma_trim_end(s, after);
    }
}

/// Trimming drops exactly the trailing white space.
proof fn lemma_trim_end(s: Seq<char>, after: Seq<char>)
    requires
        s.len() > 0,
        !is_space(s.last()),
        forall|i: int| 0 <= i < after.len() ==> is_space(#[trigger] after[i]),
    ensures
        trim_end(s + after) == s,
    decreases after.len(),
{
    if after.len() == 0 {
        assert(s + after =~= s);
    } else {
        assert((s + after).drop_last() =~= s + after.drop_last());
        assert((s + after).last() == after.last());
        lemma_trim_end(s, after.drop_last());
    }
}

/// Every text is some white space, what trimming leaves of it, and again some white space.
pub proof fn trimmed_text_stands_between_white_space(s: Seq<char>)
    ensures
        exists|lo: int, hi: int|
            #![trigger s.subrange(lo, hi)]
            0 <= lo <= hi <= s.len() && trimmed(s) == s.subrange(lo, hi) && (forall|i: int|
                0 <= i < lo || hi <= i < s.len() ==> is_space(#[trigger] s[i])),
        trimmed(s).len() > 0 ==> !is_space(trimmed(s)[0]) && !is_space(trimmed(s).last()),
{
    let lo = lemma_leading_space(s);
    let rest = s.skip(lo);
    lemma_trim_start(s, lo);
    let n = lemma_trailing_space(rest);
    lemma_trim_end_exact(rest, n);
    let hi = lo + n;
    assert(rest.take(n) =~= s.subrange(lo, hi));
    assert forall|i: int| 0 <= i < lo || hi <= i < s.len() implies is_space(#[trigger] s[i]) by {
        if hi <= i {
            assert(rest[i - lo] == s[i]);
        }
    }
    assert(trimmed(s) == s.subrange(lo, hi));
}

/// How many characters of white space a text begins with.
proof fn lemma_leading_space(s: Seq<char>) -> (n: int)
    ensures
        0 <= n <= s.len(),
        forall|i: int| 0 <= i < n ==> is_space(#[trigger] s[i]),
        n < s.len() ==> !is_space(s[n]),
    decreases s.len(),
{
    if s.len() > 0 && is_space(s[0]) {
        let rest = s.drop_first();
        let m = lemma_leading_space(rest);
        assert forall|i: int| 0 <= i < m + 1 implies is_space(#[trigger] s[i]) by {
            if i > 0 {
                assert(rest[i - 1] == s[i]);
            }
        }
        m + 1
    } else {
        0
    }
}

/// Where the white space at the end of a text begins.
proof fn lemma_trailing_space(s: Seq<char>) -> (n: int)
    ensures
        0 <= n <= s.len(),
        forall|i: int| n <= i < s.len() ==> is_space(#[trigger] s[i]),
        n > 0 ==> !is_space(s[n - 1]),
    decreases s.len(),
{
    if s.len() > 0 && is_space(s.last()) {
        let n = lemma_trailing_space(s.drop_last());
        assert forall|i: int| n <= i < s.len() implies is_space(#[trigger] s[i]) by {
            if i < s.len() - 1 {
                assert(s.drop_last()[i] == s[i]);
            }
        }
        n
    } else {
        s.len() as int
    }
}

/// Trimming the end of a text leaves what stands before the white space there.
proof fn lemma_trim_end_exact(s: Seq<char>, n: int)
    requires
        0 <= n <= s.len(),
        forall|i: int| n <= i < s.len() ==> is_space(#[trigger] s[i]),
        n > 0 ==> !is_space(s[n - 1]),
    ensures
        trim_end(s) == s.take(n),
    decreases s.len(),
{
    if n < s.len() {
        lemma_trim_end_exact(s.drop_last(), n);
        assert(s.drop_last().take(n) =~= s.take(n));
    } else {
        assert(s.take(n) =~= s);
    }
}

/// A pattern stands in a text wherever the text can be parted around it, and only there.
pub proof fn patterns_part_texts(a: Seq<char>, p: Seq<char>, b: Seq<char>)
    ensures
        occurs_at(a + p + b, p, a.len() as int),
        has_part(a + p + b, p),
        has_prefix(p + b, p),
{
    assert((a + p + b).subrange(a.len() as int, (a.len() + p.len()) as int) =~= p);
    assert(occurs_at(a + p + b, p, a.len() as int));
    assert((p + b).subrange(0, p.len() as int) =~= p);
}

/// A text that holds a pattern is the pattern with a text before it and one behind it; one that
/// begins with it is the pattern with a text behind it.
pub proof fn texts_part_at_patterns(s: Seq<char>, p: Seq<char>)
    ensures
        has_part(s, p) ==> exists|a: Seq<char>, b: Seq<char>| s == #[trigger] (a + p + b),
        has_prefix(s, p) ==> s == p + s.skip(p.len() as int),
{
    if has_part(s, p) {
        let i = choose|i: int| occurs_at(s, p, i);
        let a = s.take(i);
        let b = s.skip(i + p.len());
        assert(s.subrange(i, i + p.len()) == p);
        assert(s =~= a + p + b) by {
            assert forall|k: int| i <= k < i + p.len() implies s[k] == p[k - i] by {
                assert(s.subrange(i, i + p.len())[k - i] == s[k]);
            }
        }
    }
    if has_prefix(s, p) {
        assert(s =~= p + s.skip(p.len() as int)) by {
            assert forall|k: int| 0 <= k < p.len() implies s[k] == p[k] by {
                assert(s.subrange(0, p.len() as int)[k] == s[k]);
            }
        }
    }
}

/// Stripping takes every copy of the prefix off and nothing else: a copy in front makes no
/// difference, and a text that does not begin with the prefix stays as it is.
pub proof fn stripping_takes_copies_off(s: Seq<char>, p: Seq<char>)
    requires
        p.len() > 0,
    ensures
        strip_all(p + s, p) == strip_all(s, p),
        !has_prefix(s, p) ==> strip_all(s, p) == s,
        !has_prefix(strip_all(s, p), p),
    decreases s.len(),
{
    assert((p + s).subrange(0, p.len() as int) =~= p);
    assert((p + s).skip(p.len() as int) =~= s);
    if has_prefix(s, p) {
        stripping_takes_copies_off(s.skip(p.len() as int), p);
    }
}

/// Stripping a text of a character takes its copies off both ends and nothing else.
pub proof fn stripping_takes_ends_off(before: nat, s: Seq<char>, after: nat, c: char)
    requires
        s.len() > 0 ==> s[0] != c && s.last() != c,
    ensures
        stripped(Seq::new(before, |i: int| c) + s + Seq::new(after, |i: int| c), c) == s,
    decreases before + after,
{
    let t = Seq::new(before, |i: int| c) + s + Seq::new(after, |i: int| c);
    if before > 0 {
        let fewer = (before - 1) as nat;
        assert(t.drop_first() =~= Seq::new(fewer, |i: int| c) + s + Seq::new(after, |i: int| c));
        stripping_takes_ends_off(fewer, s, after, c);
    } else if s.len() == 0 {
        lemma_strip_left_all(t, c);
    } else {
        assert(t[0] == s[0]);
        assert(strip_left(t, c) == t);
        if after > 0 {
            let fewer = (after - 1) as nat;
            let u = Seq::new(before, |i: int| c) + s + Seq::new(fewer, |i: int| c);
            assert(t.drop_last() =~= u);
            stripping_takes_ends_off(before, s, fewer, c);
            assert(u[0] == s[0]);
            assert(strip_left(u, c) == u);
        } else {
            assert(t =~= s);
        }
    }
}

/// Nothing is left of copies of a character without those.
proof fn lemma_strip_left_all(s: Seq<char>, c: char)
    requires
        forall|i: int| 0 <= i < s.len() ==> #[trigger] s[i] == c,
    ensures
        stripped(s, c) == Seq::<char>::empty(),
    decreases s.len(),
{
    if s.len() > 0 {
        lemma_strip_left_all(s.drop_first(), c);
    } else {
        assert(s =~= Seq::empty());
    }
}

/// A text is parted at the first copy of the separator, and what follows that copy is parted on;
/// a text without the separator is one piece.
pub proof fn separators_part_texts(a: Seq<char>, b: Seq<char>, sep: Seq<char>)
    requires
        sep.len() > 0,
    ensures
        (forall|i: int| 0 <= i < a.len() ==> !occurs_at(a + sep + b, sep, i)) ==> pieces(
            a + sep + b,
            sep,
        ) == seq![a] + pieces(b, sep),
        !has_part(a, sep) ==> pieces(a, sep) == seq![a],
{
    let s = a + sep + b;
    if forall|i: int| 0 <= i < a.len() ==> !occurs_at(s, sep, i) {
        patterns_part_texts(a, sep, b);
        assert(first_at(s, sep, a.len() as int));
        lemma_pieces_step(s, sep, a.len() as int);
        assert(s.take(a.len() as int) =~= a);
        assert(s.skip((a.len() + sep.len()) as int) =~= b);
    }
    if !has_part(a, sep) {
        assert(forall|i: int| !first_at(a, sep, i));
    }
}

/// The lines of a text are those of its parts: a line stands before the first line feed, without
/// a carriage return right before it, and the lines of what follows come after it. What no line
/// feed ends is a line as it is.
pub proof fn line_feeds_end_lines(line: Seq<char>, rest: Seq<char>)
    requires
        !line.contains('\n'),
    ensures
        text_lines(line + seq!['\r', '\n'] + rest) == seq![line] + text_lines(rest),
        (line.len() == 0 || line.last() != '\r') ==> text_lines(line + seq!['\n'] + rest) == seq![
            line,
        ] + text_lines(rest),
        line.len() > 0 ==> text_lines(line) == seq![line],
        text_lines(Seq::empty()) == Seq::<Seq<char>>::empty(),
{
    let n = line.len() as int;
    assert forall|i: int| 0 <= i < n implies line[i] != '\n' by {
        assert(line.contains(line[i]));
    }
    let a = line + seq!['\r', '\n'] + rest;
    lemma_line_end(a, n + 1);
    assert(a.take(n + 1) =~= line.push('\r'));
    assert(without_return(line.push('\r')) =~= line);
    assert(a.skip(n + 2) =~= rest);
    let b = line + seq!['\n'] + rest;
    lemma_line_end(b, n);
    assert(b.take(n) =~= line);
    assert(b.skip(n + 1) =~= rest);
    lemma_line_end(line, n);
}

/// White space parts words: the words of two texts with white space between them are the words of
/// the first and then those of the second. A text without white space is one word, as it is, and
/// the empty text has none.
pub proof fn white_space_parts_words(a: Seq<char>, c: char, b: Seq<char>)
    ensures
        is_space(c) ==> words(a.push(c) + b) == words(a) + words(b),
        a.len() > 0 && (forall|i: int| 0 <= i < a.len() ==> !is_space(#[trigger] a[i])) ==> words(a)
            == seq![a],
        words(Seq::empty()) == Seq::<Seq<char>>::empty(),
    decreases a.len(),
{
    if is_space(c) {
        lemma_words_of_parts(a, c, b);
    }
    if a.len() > 0 && forall|i: int| 0 <= i < a.len() ==> !is_space(#[trigger] a[i]) {
        lemma_word_len(a, a.len() as int);
        assert(a.take(a.len() as int) =~= a);
        assert(a.skip(a.len() as int) =~= Seq::empty());
        assert(words(Seq::empty()) =~= Seq::<Seq<char>>::empty());
        assert(words(a) =~= seq![a]);
    }
}

/// The words of two texts with white space between them.
proof fn lemma_words_of_parts(a: Seq<char>, c: char, b: Seq<char>)
    requires
        is_space(c),
    ensures
        words(a.push(c) + b) == words(a) + words(b),
    decreases a.len(),
{
    let s = a.push(c) + b;
    let lo = lemma_leading_space(a);
    lemma_trim_start(a, lo);
    if lo == a.len() {
        assert(trim_start(a) =~= Seq::empty());
        assert(words(a) =~= Seq::<Seq<char>>::empty());
        let m = lemma_leading_space(b);
        lemma_trim_start(b, m);
        assert forall|i: int| 0 <= i < a.len() + 1 + m implies is_space(#[trigger] s[i]) by {
            if i > a.len() {
                assert(s[i] == b[i - a.len() - 1]);
            }
        }
        lemma_trim_start(s, a.len() + 1 + m);
        assert(s.skip(a.len() + 1 + m) =~= b.skip(m));
        assert(words(s) =~= words(b));
        assert(words(a) + words(b) =~= words(b));
    } else {
        let t = a.skip(lo);
        assert forall|i: int| 0 <= i < lo implies is_space(#[trigger] s[i]) by {
            assert(s[i] == a[i]);
        }
        assert(s[lo] == a[lo]);
        lemma_trim_start(s, lo);
        assert(s.skip(lo) =~= t.push(c) + b);
        let n = lemma_word_end(t);
        lemma_word_len(t, n);
        let u = t.push(c) + b;
        assert(forall|i: int| 0 <= i < n ==> u[i] == t[i]);
        lemma_word_len(u, n);
        assert(u.take(n) =~= t.take(n));
        assert(u.skip(n) =~= t.skip(n).push(c) + b);
        lemma_words_of_parts(t.skip(n), c, b);
        assert(words(s) =~= words(a) + words(b));
    }
}

/// How many characters a word at the beginning of a text has.
proof fn lemma_word_end(s: Seq<char>) -> (n: int)
    requires
        s.len() > 0,
        !is_space(s[0]),
    ensures
        0 < n <= s.len(),
        forall|i: int| 0 <= i < n ==> !is_space(#[trigger] s[i]),
        n < s.len() ==> is_space(s[n]),
    decreases s.len(),
{
    let rest = s.drop_first();
    if rest.len() > 0 && !is_space(rest[0]) {
        let m = lemma_word_end(rest);
        assert forall|i: int| 0 <= i < m + 1 implies !is_space(#[trigger] s[i]) by {
            if i > 0 {
                assert(rest[i - 1] == s[i]);
            }
        }
        if m < rest.len() {
            assert(rest[m] == s[m + 1]);
        }
        m + 1
    } else {
        if rest.len() > 0 {
            assert(rest[0] == s[1]);
        }
        1
    }
}

/// A text is cut at the last copy of a character: what stands behind it holds no other. A text
/// without the character stays as it is.
pub proof fn last_copy_cuts(a: Seq<char>, c: char, b: Seq<char>)
    requires
        !b.contains(c),
    ensures
        before_last(a.push(c) + b, c) == a,
        before_last(b, c) == b,
{
    let s = a.push(c) + b;
    assert forall|j: int| a.len() < j < s.len() implies s[j] != c by {
        assert(b.contains(b[j - a.len() - 1]));
    }
    lemma_before_last(s, c, a.len() as int);
    assert(s.take(a.len() as int) =~= a);
}

/// The views of texts are those of each text, in order.
pub proof fn views_of_texts(list: Seq<String>, o: Option<String>)
    ensures
        texts(list).len() == list.len(),
        forall|i: int| 0 <= i < list.len() ==> #[trigger] texts(list)[i] == list[i]@,
        opt_text(o) is Some <==> o is Some,
        o is Some ==> opt_text(o)->0 == o->0@,
{
}

} // verus!
