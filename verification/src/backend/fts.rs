//! Full-text search in the catalog.

use crate::text::{
    chars_of, is_space, split_whitespace, texts, trim_start, white_space_parts_words, words,
};
use vstd::prelude::*;
use vstd::string::*;

verus! {

/// `s` with every double quote doubled.
pub open spec fn doubled(s: Seq<char>) -> Seq<char>
    decreases s.len(),
{
    if s.len() == 0 {
        Seq::empty()
    } else if s.last() == '"' {
        doubled(s.drop_last()).push('"').push('"')
    } else {
        doubled(s.drop_last()).push(s.last())
    }
}

/// The term that matches the words that begin with `token`: the token in double quotes, with an
/// asterisk behind it.
pub open spec fn prefix_term(token: Seq<char>) -> Seq<char> {
    seq!['"'] + doubled(token) + seq!['"', '*']
}

/// `parts` one after the other, with a space between each two.
pub open spec fn spaced(parts: Seq<Seq<char>>) -> Seq<char>
    decreases parts.len(),
{
    if parts.len() == 0 {
        Seq::empty()
    } else if parts.len() == 1 {
        parts[0]
    } else {
        spaced(parts.drop_last()).push(' ') + parts.last()
    }
}

/// The terms for the words of `query`.
pub open spec fn query_terms(query: Seq<char>) -> Seq<Seq<char>> {
    words(query).map_values(|token: Seq<char>| prefix_term(token))
}

/// A number of results as the database takes it, which reads its 64 bits as a signed number.
pub open spec fn signed_limit(limit: usize) -> int {
    if limit <= i64::MAX {
        limit as int
    } else {
        limit - 0x1_0000_0000_0000_0000
    }
}

/// What to search the catalog for.
#[derive(Clone, Debug, PartialEq, Eq)]
pub struct FtsRequest {
    /// The match expression
    pub expression: String,
    /// How many results to ask for
    pub limit: i64,
}

/// The term that matches the words that begin with `token`.
fn term_for(token: &str) -> (r: String)
    ensures
        r@ == prefix_term(token@),
{
    let cs = chars_of(token);
    let mut out = String::new();
    out.push('"');
    let mut i: usize = 0;
    assert(out@ =~= seq!['"'] + doubled(token@.take(0)));
    while i < cs.len()
        invariant
            i <= cs@.len(),
            cs@ == token@,
            out@ == seq!['"'] + doubled(token@.take(i as int)),
        decreases cs@.len() - i,
    {
        assert(token@.take(i + 1).drop_last() =~= token@.take(i as int));
        if cs[i] == '"' {
            out.push('"');
        }
        out.push(cs[i]);
        i = i + 1;
        assert(out@ =~= seq!['"'] + doubled(token@.take(i as int)));
    }
    assert(token@.take(i as int) =~= token@);
    out.push('"');
    out.push('*');
    assert(out@ =~= prefix_term(token@));
    out
}

/// The search for `query` that asks for at most `limit` results; `None` if the query has no words,
/// so that there is nothing to search for.
pub fn fts_request(query: &str, limit: usize) -> (r: Option<FtsRequest>)
    ensures
        match r {
            Some(request) => words(query@).len() > 0 && request.expression@ == spaced(
                query_terms(query@),
            ) && request.limit == signed_limit(limit),
            None => words(query@).len() == 0,
        },
{
    let tokens = split_whitespace(query);
    let ghost terms = query_terms(query@);
    assert(texts(tokens@).len() == tokens@.len());
    if tokens.len() == 0 {
        return None;
    }
    let mut expression = String::new();
    let mut i: usize = 0;
    assert(expression@ =~= spaced(terms.take(0)));
    while i < tokens.len()
        invariant
            i <= tokens@.len(),
            texts(tokens@) == words(query@),
            terms == query_terms(query@),
            terms.len() == tokens@.len(),
            expression@ == spaced(terms.take(i as int)),
        decreases tokens@.len() - i,
    {
        assert(terms.take(i + 1).drop_last() =~= terms.take(i as int));
        assert(texts(tokens@)[i as int] == tokens@[i as int]@);
        if i > 0 {
            expression.push(' ');
        }
        let term = term_for(tokens[i].as_str());
        expression.append(term.as_str());
        i = i + 1;
        assert(expression@ =~= spaced(terms.take(i as int)));
    }
    assert(terms.take(i as int) =~= terms);
    let bits: u64 = limit as u64;
    let signed: i64 = if bits <= i64::MAX as u64 {
        bits as i64
    } else {
        -((u64::MAX - bits) as i64) - 1
    };
    Some(FtsRequest { expression, limit: signed })
}

/// A search result: the source of an application and its id.
pub type Hit = (String, String);

/// The content of a search result.
pub open spec fn hit_view(hit: Hit) -> (Seq<char>, Seq<char>) {
    (hit.0@, hit.1@)
}

/// The contents of search results.
pub open spec fn hit_views(hits: Seq<Hit>) -> Seq<(Seq<char>, Seq<char>)> {
    hits.map_values(|hit: Hit| hit_view(hit))
}

/// The rows that could be read, in order.
pub open spec fn readable_hits(rows: Seq<Option<Hit>>) -> Seq<(Seq<char>, Seq<char>)>
    decreases rows.len(),
{
    if rows.len() == 0 {
        Seq::empty()
    } else {
        match rows.last() {
            Some(hit) => readable_hits(rows.drop_last()).push(hit_view(hit)),
            None => readable_hits(rows.drop_last()),
        }
    }
}

/// The results in the rows of a search, in order. A row that could not be read is left out.
pub fn fts_results(rows: Vec<Option<Hit>>) -> (r: Vec<Hit>)
    ensures
        hit_views(r@) == readable_hits(rows@),
{
    let mut out: Vec<Hit> = Vec::new();
    let mut i: usize = 0;
    assert(hit_views(out@) =~= readable_hits(rows@.take(0)));
    while i < rows.len()
        invariant
            i <= rows@.len(),
            hit_views(out@) == readable_hits(rows@.take(i as int)),
        decreases rows@.len() - i,
    {
        let ghost before = hit_views(out@);
        assert(rows@.take(i + 1).drop_last() =~= rows@.take(i as int));
        if let Some(hit) = &rows[i] {
            out.push((hit.0.clone(), hit.1.clone()));
            assert(hit_views(out@) =~= before.push(hit_view(*hit)));
        }
        i = i + 1;
    }
    assert(rows@.take(i as int) =~= rows@);
    out
}

/// There is nothing to search for exactly if the query holds white space only.
pub proof fn blank_queries_have_no_terms(query: Seq<char>)
    ensures
        words(query).len() == 0 <==> forall|i: int|
            0 <= i < query.len() ==> is_space(#[trigger] query[i]),
{
    lemma_trim_start_blank(query);
}

/// Nothing is left of a text without its leading white space exactly if it holds only that.
proof fn lemma_trim_start_blank(s: Seq<char>)
    ensures
        trim_start(s).len() == 0 <==> forall|i: int| 0 <= i < s.len() ==> is_space(#[trigger] s[i]),
    decreases s.len(),
{
    if s.len() > 0 && is_space(s[0]) {
        let rest = s.drop_first();
        lemma_trim_start_blank(rest);
        assert forall|i: int| 0 <= i < s.len() && trim_start(s).len() == 0 implies is_space(
            #[trigger] s[i],
        ) by {
            if i > 0 {
                assert(rest[i - 1] == s[i]);
            }
        }
    }
}

/// Every row that could be read is among the results, in its place: if all rows could be read,
/// the results are the rows, one for one.
pub proof fn readable_rows_are_results(rows: Seq<Option<Hit>>, r: Seq<Hit>)
    requires
        hit_views(r) == readable_hits(rows),
        forall|i: int| 0 <= i < rows.len() ==> (#[trigger] rows[i]) is Some,
    ensures
        r.len() == rows.len(),
        forall|i: int|
            0 <= i < rows.len() ==> (#[trigger] r[i]).0@ == (rows[i]->0).0@ && r[i].1@ == (
            rows[i]->0).1@,
{
    lemma_all_readable(rows);
    assert(hit_views(r).len() == r.len());
    assert forall|i: int| 0 <= i < rows.len() implies (#[trigger] r[i]).0@ == (rows[i]->0).0@
        && r[i].1@ == (rows[i]->0).1@ by {
        assert(hit_views(r)[i] == hit_view(r[i]));
        assert(readable_hits(rows)[i] == hit_view(rows[i]->0));
    }
}

/// Rows that could all be read give their contents, one for one.
proof fn lemma_all_readable(rows: Seq<Option<Hit>>)
    requires
        forall|i: int| 0 <= i < rows.len() ==> (#[trigger] rows[i]) is Some,
    ensures
        readable_hits(rows).len() == rows.len(),
        forall|i: int|
            0 <= i < rows.len() ==> #[trigger] readable_hits(rows)[i] == hit_view(rows[i]->0),
    decreases rows.len(),
{
    if rows.len() > 0 {
        let fewer = rows.drop_last();
        assert forall|i: int| 0 <= i < fewer.len() implies (#[trigger] fewer[i]) is Some by {
            assert(fewer[i] == rows[i]);
        }
        lemma_all_readable(fewer);
        assert(rows.last() == rows[rows.len() - 1]);
        assert forall|i: int| 0 <= i < rows.len() implies #[trigger] readable_hits(rows)[i]
            == hit_view(rows[i]->0) by {
            if i < fewer.len() {
                assert(fewer[i] == rows[i]);
                assert(readable_hits(rows)[i] == readable_hits(fewer)[i]);
            }
        }
    }
}

/// The results of two runs of rows are those of the first and then those of the second. A row that
/// could be read gives one result, its own, and one that could not gives none.
pub proof fn results_keep_the_order(a: Seq<Option<Hit>>, b: Seq<Option<Hit>>, hit: Hit)
    ensures
        readable_hits(a + b) == readable_hits(a) + readable_hits(b),
        readable_hits(seq![Some(hit)]) == seq![(hit.0@, hit.1@)],
        readable_hits(seq![None::<Hit>]).len() == 0,
        readable_hits(Seq::empty()).len() == 0,
    decreases b.len(),
{
    let one = seq![Some(hit)];
    assert(one.drop_last() =~= Seq::<Option<Hit>>::empty());
    assert(one.last() == Some(hit));
    assert(readable_hits(Seq::empty()) =~= Seq::<(Seq<char>, Seq<char>)>::empty());
    assert(readable_hits(one) =~= seq![(hit.0@, hit.1@)]);
    let none = seq![None::<Hit>];
    assert(none.drop_last() =~= Seq::<Option<Hit>>::empty());
    assert(none.last() is None);
    if b.len() == 0 {
        assert(a + b =~= a);
        assert(readable_hits(a) + readable_hits(b) =~= readable_hits(a));
    } else {
        results_keep_the_order(a, b.drop_last(), hit);
        assert((a + b).drop_last() =~= a + b.drop_last());
        assert((a + b).last() == b.last());
        assert(readable_hits(a + b) =~= readable_hits(a) + readable_hits(b));
    }
}

/// There are as many results as rows that could be read.
pub proof fn results_are_counted(rows: Seq<Option<Hit>>, r: Seq<Hit>)
    requires
        hit_views(r) == readable_hits(rows),
    ensures
        r.len() == rows.filter(|row: Option<Hit>| row is Some).len(),
{
    lemma_results_are_counted(rows);
    assert(hit_views(r).len() == r.len());
}

/// There are as many results as rows that could be read.
proof fn lemma_results_are_counted(rows: Seq<Option<Hit>>)
    ensures
        readable_hits(rows).len() == rows.filter(|row: Option<Hit>| row is Some).len(),
    decreases rows.len(),
{
    reveal(Seq::filter);
    if rows.len() > 0 {
        lemma_results_are_counted(rows.drop_last());
    }
}

/// Doubling keeps every character in its order and doubles the quotes only: the doubled forms of
/// two texts in a row are that of the whole, a quote becomes two, and any other character stays.
pub proof fn quotes_are_doubled(a: Seq<char>, b: Seq<char>, c: char)
    ensures
        doubled(a + b) == doubled(a) + doubled(b),
        c != '"' ==> doubled(seq![c]) == seq![c],
        doubled(seq!['"']) == seq!['"', '"'],
        doubled(Seq::empty()) == Seq::<char>::empty(),
    decreases b.len(),
{
    reveal_with_fuel(doubled, 2);
    assert(seq![c].drop_last() =~= Seq::<char>::empty());
    assert(doubled(seq![c]) =~= if c == '"' {
        seq!['"', '"']
    } else {
        seq![c]
    });
    assert(seq!['"'].drop_last() =~= Seq::<char>::empty());
    assert(doubled(seq!['"']) =~= seq!['"', '"']);
    if b.len() == 0 {
        assert(a + b =~= a);
        assert(doubled(a) + doubled(b) =~= doubled(a));
    } else {
        quotes_are_doubled(a, b.drop_last(), c);
        assert((a + b).drop_last() =~= a + b.drop_last());
        assert((a + b).last() == b.last());
        assert(doubled(a + b) =~= doubled(a) + doubled(b));
    }
}

/// The search for a single word is for what begins with it: the word in double quotes, its own
/// quotes doubled, and an asterisk.
pub proof fn words_are_searched_as_prefixes(word: Seq<char>, limit: usize, r: FtsRequest)
    requires
        word.len() > 0,
        forall|i: int| 0 <= i < word.len() ==> !is_space(#[trigger] word[i]),
        r.expression@ == spaced(query_terms(word)),
        r.limit == signed_limit(limit),
    ensures
        r.expression@.len() == doubled(word).len() + 3,
        r.expression@[0] == '"',
        r.expression@.subrange(1, r.expression@.len() - 2) == doubled(word),
        r.expression@[r.expression@.len() - 2] == '"',
        r.expression@.last() == '*',
        !word.contains('"') ==> r.expression@ == seq!['"'] + word + seq!['"', '*'],
        limit <= i64::MAX ==> r.limit == limit,
        limit > i64::MAX ==> r.limit < 0 && limit - r.limit == 0x1_0000_0000_0000_0000,
{
    white_space_parts_words(word, ' ', Seq::empty());
    assert(query_terms(word) =~= seq![prefix_term(word)]);
    assert(spaced(query_terms(word)) == prefix_term(word));
    assert(r.expression@.subrange(1, r.expression@.len() - 2) =~= doubled(word));
    if !word.contains('"') {
        lemma_doubled_plain(word);
    }
}

/// A text without quotes is its own doubled form.
proof fn lemma_doubled_plain(s: Seq<char>)
    requires
        !s.contains('"'),
    ensures
        doubled(s) == s,
    decreases s.len(),
{
    if s.len() > 0 {
        assert(s.contains(s.last()));
        assert forall|c: char| s.drop_last().contains(c) implies s.contains(c) by {
            let i = choose|i: int| 0 <= i < s.drop_last().len() && s.drop_last()[i] == c;
            assert(s[i] == c);
        }
        lemma_doubled_plain(s.drop_last());
        assert(s.drop_last().push(s.last()) =~= s);
    } else {
        assert(s =~= Seq::empty());
    }
}

/// Every word of a query is searched for, in order: the search for two queries with white space
/// between them is the search for the first, a space, and the search for the second. A query
/// without words adds nothing.
pub proof fn all_words_are_searched(a: Seq<char>, c: char, b: Seq<char>)
    requires
        is_space(c),
    ensures
        words(a).len() > 0 && words(b).len() > 0 ==> spaced(query_terms(a.push(c) + b)) == spaced(
            query_terms(a),
        ) + seq![' '] + spaced(query_terms(b)),
        words(a).len() == 0 ==> spaced(query_terms(a.push(c) + b)) == spaced(query_terms(b)),
        words(b).len() == 0 ==> spaced(query_terms(a.push(c) + b)) == spaced(query_terms(a)),
        words(a.push(c) + b).len() == words(a).len() + words(b).len(),
{
    white_space_parts_words(a, c, b);
    assert(query_terms(a.push(c) + b) =~= query_terms(a) + query_terms(b));
    if words(a).len() == 0 {
        assert(query_terms(a.push(c) + b) =~= query_terms(b));
    }
    if words(b).len() == 0 {
        assert(query_terms(a.push(c) + b) =~= query_terms(a));
    }
    if words(a).len() > 0 && words(b).len() > 0 {
        lemma_spaced_parts(query_terms(a), query_terms(b));
    }
}

/// Two lists of parts one after the other have a space between them.
proof fn lemma_spaced_parts(a: Seq<Seq<char>>, b: Seq<Seq<char>>)
    requires
        a.len() > 0,
        b.len() > 0,
    ensures
        spaced(a + b) == spaced(a) + seq![' '] + spaced(b),
    decreases b.len(),
{
    assert((a + b).drop_last() =~= a + b.drop_last());
    assert((a + b).last() == b.last());
    if b.len() == 1 {
        assert(a + b.drop_last() =~= a);
        assert(b.last() == b[0]);
        assert(spaced(a + b) =~= spaced(a) + seq![' '] + spaced(b));
    } else {
        lemma_spaced_parts(a, b.drop_last());
        assert(spaced(a + b) =~= spaced(a) + seq![' '] + spaced(b));
    }
}

} // verus!
