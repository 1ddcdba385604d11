//! Values written as Nix expressions.

use crate::json::{Json, JsonTree, MemberTree};
use crate::text::{
    chars_of, contains, has_part, has_prefix, occurs_at, patterns_part_texts, starts_with,
};
use vstd::prelude::*;
use vstd::string::*;

verus! {

/// The beginning of `s`, one character, as it stands in a Nix string. A quote, a backslash and the
/// beginning of an interpolation stand behind a backslash. So does a carriage return, which Nix
/// would read as the end of a line.
pub open spec fn escaped_first(s: Seq<char>) -> Seq<char> {
    if s[0] == '"' || s[0] == '\\' || (s[0] == '$' && s.len() > 1 && s[1] == '{') {
        seq!['\\', s[0]]
    } else if s[0] == '\r' {
        seq!['\\', 'r']
    } else {
        seq![s[0]]
    }
}

/// The text `s` as it stands between the quotes of a Nix string.
pub open spec fn escaped(s: Seq<char>) -> Seq<char>
    decreases s.len(),
{
    if s.len() == 0 {
        Seq::empty()
    } else {
        escaped_first(s) + escaped(s.drop_first())
    }
}

/// The Nix string that stands for the text `s`.
pub open spec fn nix_string(s: Seq<char>) -> Seq<char> {
    seq!['"'] + escaped(s) + seq!['"']
}

/// A number's text with decimals in front of its exponent.
pub open spec fn with_decimals(text: Seq<char>) -> Seq<char>
    decreases text.len(),
{
    if text.len() == 0 {
        Seq::empty()
    } else {
        with_decimals(text.drop_last()) + if text.last() == 'e' {
            seq!['.', '0', 'e']
        } else {
            seq![text.last()]
        }
    }
}

/// The Nix number that stands for a JSON number. It is the same text, except that Nix has exponents
/// only behind decimals.
pub open spec fn nix_number(text: Seq<char>) -> Seq<char> {
    if has_part(text, "."@) {
        text
    } else {
        with_decimals(text)
    }
}

/// Whether a value is a number below zero.
pub open spec fn is_negative(json: JsonTree) -> bool {
    match json {
        JsonTree::Number(_, text) => has_prefix(text, "-"@),
        _ => false,
    }
}

/// The Nix expression that stands for a JSON value.
pub open spec fn nix_expression(json: JsonTree) -> Seq<char>
    decreases json, 0nat,
{
    match json {
        JsonTree::Null => "null"@,
        JsonTree::Bool(b) => if b {
            "true"@
        } else {
            "false"@
        },
        JsonTree::Number(_, text) => nix_number(text),
        JsonTree::Text(s) => nix_string(s),
        JsonTree::Array(items) => "["@ + nix_items(items, items.len()) + " ]"@,
        JsonTree::Object(members) => "{"@ + nix_members(members, members.len()) + " }"@,
    }
}

/// The first `n` items of a Nix list, each behind a space. A number below zero stands in
/// parentheses, as Nix takes no operator there.
pub open spec fn nix_items(items: Seq<JsonTree>, n: nat) -> Seq<char>
    decreases items, n,
{
    if n == 0 || n > items.len() {
        Seq::empty()
    } else {
        let item = nix_expression(items[n - 1]);
        nix_items(items, (n - 1) as nat) + " "@ + if is_negative(items[n - 1]) {
            "("@ + item + ")"@
        } else {
            item
        }
    }
}

/// The first `n` attributes of a Nix attribute set, each behind a space.
pub open spec fn nix_members(members: Seq<MemberTree>, n: nat) -> Seq<char>
    decreases members, n,
{
    if n == 0 || n > members.len() {
        Seq::empty()
    } else {
        nix_members(members, (n - 1) as nat) + " "@ + nix_string(members[n - 1].key) + " = "@
            + nix_expression(members[n - 1].value) + ";"@
    }
}

/// Appends the Nix string that stands for `s`.
fn push_string(out: &mut String, s: &str)
    ensures
        final(out)@ == old(out)@ + nix_string(s@),
{
    let cs = chars_of(s);
    let ghost start = old(out)@.push('"');
    out.push('"');
    assert(s@.skip(0) =~= s@);
    let mut i: usize = 0;
    while i < cs.len()
        invariant
            i <= cs@.len(),
            cs@ == s@,
            out@ + escaped(s@.skip(i as int)) == start + escaped(s@),
        decreases cs@.len() - i,
    {
        let c = cs[i];
        let ghost rest = s@.skip(i as int);
        let ghost before = out@;
        assert(rest.drop_first() =~= s@.skip(i + 1));
        if c == '"' || c == '\\' || (c == '$' && i + 1 < cs.len() && cs[i + 1] == '{') {
            out.push('\\');
            out.push(c);
        } else if c == '\r' {
            out.push('\\');
            out.push('r');
        } else {
            out.push(c);
        }
        assert(out@ =~= before + escaped_first(rest));
        assert(out@ + escaped(s@.skip(i + 1)) =~= before + escaped(rest));
        i = i + 1;
    }
    assert(out@ + escaped(s@.skip(i as int)) =~= out@);
    out.push('"');
    assert(out@ =~= old(out)@ + nix_string(s@));
}

/// The Nix number that stands for a JSON number.
fn number_of(text: &str) -> (r: String)
    ensures
        r@ == nix_number(text@),
{
    if contains(text, ".") {
        return text.to_owned();
    }
    let cs = chars_of(text);
    let mut out = String::new();
    let mut i: usize = 0;
    assert(out@ =~= with_decimals(text@.take(0)));
    while i < cs.len()
        invariant
            i <= cs@.len(),
            cs@ == text@,
            out@ == with_decimals(text@.take(i as int)),
        decreases cs@.len() - i,
    {
        let ghost before = out@;
        if cs[i] == 'e' {
            out.push('.');
            out.push('0');
        }
        out.push(cs[i]);
        assert(text@.take(i + 1).drop_last() =~= text@.take(i as int));
        assert(out@ =~= before + if cs@[i as int] == 'e' {
            seq!['.', '0', 'e']
        } else {
            seq![cs@[i as int]]
        });
        i = i + 1;
    }
    assert(text@.take(i as int) =~= text@);
    out
}

/// Whether a value is a number below zero.
fn below_zero(json: &Json) -> (r: bool)
    ensures
        r == is_negative(json@),
{
    match json {
        Json::Number(_, text) => starts_with(text.as_str(), "-"),
        _ => false,
    }
}

/// The Nix expression that stands for a JSON value.
pub fn nix_value(json: &Json) -> (r: String)
    ensures
        r@ == nix_expression(json@),
    decreases json,
{
    match json {
        Json::Null => "null".to_owned(),
        Json::Bool(b) => if *b {
            "true".to_owned()
        } else {
            "false".to_owned()
        },
        Json::Number(_, text) => number_of(text.as_str()),
        Json::Text(s) => {
            let mut out = String::new();
            push_string(&mut out, s.as_str());
            assert(out@ =~= nix_string(s@));
            out
        },
        Json::Array(items) => {
            let ghost all = json@->Array_0;
            let mut out = "[".to_owned();
            let mut i: usize = 0;
            assert(out@ =~= "["@ + nix_items(all, 0));
            while i < items.len()
                invariant
                    i <= items@.len(),
                    json == Json::Array(*items),
                    all.len() == items@.len(),
                    forall|j: int| 0 <= j < all.len() ==> all[j] == items@[j]@,
                    out@ == "["@ + nix_items(all, i as nat),
                decreases items@.len() - i,
            {
                assert(all[i as int] == items@[i as int]@);
                assert(decreases_to!(*json => json->Array_0));
                assert(decreases_to!(items@ => items@[i as int]));
                let item = nix_value(&items[i]);
                out.append(" ");
                if below_zero(&items[i]) {
                    out.append("(");
                    out.append(item.as_str());
                    out.append(")");
                } else {
                    out.append(item.as_str());
                }
                i = i + 1;
                assert(out@ =~= "["@ + nix_items(all, i as nat));
            }
            out.append(" ]");
            out
        },
        Json::Object(members) => {
            let ghost all = json@->Object_0;
            let mut out = "{".to_owned();
            let mut i: usize = 0;
            assert(out@ =~= "{"@ + nix_members(all, 0));
            while i < members.len()
                invariant
                    i <= members@.len(),
                    json == Json::Object(*members),
                    all.len() == members@.len(),
                    forall|j: int| 0 <= j < all.len() ==> all[j] == members@[j].tree(),
                    out@ == "{"@ + nix_members(all, i as nat),
                decreases members@.len() - i,
            {
                let member = &members[i];
                assert(all[i as int] == member.tree());
                assert(decreases_to!(*json => json->Object_0));
                assert(decreases_to!(members@ => members@[i as int]));
                assert(decreases_to!(members@[i as int] => members@[i as int].value));
                let value = nix_value(&member.value);
                out.append(" ");
                push_string(&mut out, member.key.as_str());
                out.append(" = ");
                out.append(value.as_str());
                out.append(";");
                i = i + 1;
                assert(out@ =~= "{"@ + nix_members(all, i as nat));
            }
            out.append(" }");
            out
        },
    }
}

/// The character that a backslash and `c` stand for in a Nix string.
pub open spec fn unescaped(c: char) -> char {
    if c == 'n' {
        '\n'
    } else if c == 'r' {
        '\r'
    } else if c == 't' {
        '\t'
    } else {
        c
    }
}

/// The text of a Nix string, read from behind its opening quote to the end. There is none if the
/// string ends early or not at all, or if it holds an interpolation or a bare carriage return.
pub open spec fn string_text(t: Seq<char>) -> Option<Seq<char>>
    decreases t.len(),
{
    if t.len() == 0 {
        None
    } else if t[0] == '"' {
        if t.len() == 1 {
            Some(Seq::empty())
        } else {
            None
        }
    } else if t[0] == '\\' {
        if t.len() == 1 {
            None
        } else {
            match string_text(t.skip(2)) {
                Some(rest) => Some(seq![unescaped(t[1])] + rest),
                None => None,
            }
        }
    } else if t[0] == '\r' || (t[0] == '$' && t.len() > 1 && t[1] == '{') {
        None
    } else {
        match string_text(t.skip(1)) {
            Some(rest) => Some(seq![t[0]] + rest),
            None => None,
        }
    }
}

/// Nix reads the string that stands for a text as that text.
pub proof fn strings_read_back(s: Seq<char>)
    ensures
        nix_string(s)[0] == '"',
        string_text(nix_string(s).skip(1)) == Some(s),
{
    lemma_escaped_reads_back(s);
    assert(nix_string(s).skip(1) =~= escaped(s).push('"'));
}

/// An escaped text in front of the closing quote reads as that text.
proof fn lemma_escaped_reads_back(s: Seq<char>)
    ensures
        string_text(escaped(s).push('"')) == Some(s),
    decreases s.len(),
{
    let t = escaped(s).push('"');
    if s.len() == 0 {
        assert(s =~= Seq::empty());
    } else {
        let rest = s.drop_first();
        lemma_escaped_reads_back(rest);
        assert(t.skip(escaped_first(s).len() as int) =~= escaped(rest).push('"'));
        assert(s =~= seq![s[0]] + rest);
        if rest.len() > 0 {
            assert(s[1] == rest[0]);
            assert(escaped(rest)[0] == escaped_first(rest)[0]);
        }
    }
}

/// Numbers keep their text: one with decimals or without an exponent stays as it is, and one with
/// an exponent only gets decimals of zero in front of it.
pub proof fn numbers_keep_their_text(a: Seq<char>, b: Seq<char>, n: Option<i64>)
    requires
        !a.contains('e'),
        !b.contains('e'),
        !a.contains('.'),
        !b.contains('.'),
    ensures
        nix_expression(JsonTree::Number(n, a)) == a,
        nix_expression(JsonTree::Number(n, a + seq!['e'] + b)) == a + seq!['.', '0', 'e'] + b,
        nix_expression(JsonTree::Number(n, a + seq!['.'] + b)) == a + seq!['.'] + b,
{
    reveal_strlit(".");
    lemma_no_point(a);
    lemma_decimals_plain(a, b);
    lemma_decimals_plain(Seq::empty(), a);
    assert(Seq::<char>::empty() + a =~= a);
    let t = a + seq!['e'] + b;
    assert(!t.contains('.')) by {
        if t.contains('.') {
            let i = choose|i: int| 0 <= i < t.len() && t[i] == '.';
            if i < a.len() {
                assert(a[i] == '.');
            } else {
                assert(b[i - a.len() - 1] == '.');
            }
        }
    }
    lemma_no_point(t);
    lemma_decimals_plain(a.push('e'), b);
    assert(a.push('e') + b =~= t);
    assert(a.push('e').drop_last() =~= a);
    assert(with_decimals(a.push('e')) =~= a + seq!['.', '0', 'e']);
    assert("."@ =~= seq!['.']);
    patterns_part_texts(a, "."@, b);
}

/// A text without a point does not hold the text that is one.
proof fn lemma_no_point(s: Seq<char>)
    requires
        !s.contains('.'),
    ensures
        !has_part(s, "."@),
{
    reveal_strlit(".");
    if has_part(s, "."@) {
        let i = choose|i: int| occurs_at(s, "."@, i);
        assert(s.subrange(i, i + 1)[0] == s[i]);
        assert(s.contains('.'));
    }
}

/// What holds no exponent stays as it is behind any number.
proof fn lemma_decimals_plain(a: Seq<char>, b: Seq<char>)
    requires
        !b.contains('e'),
    ensures
        with_decimals(a + b) == with_decimals(a) + b,
        a.len() == 0 ==> with_decimals(b) == b,
    decreases b.len(),
{
    if b.len() == 0 {
        assert(a + b =~= a);
        assert(with_decimals(a) + b =~= with_decimals(a));
        assert(with_decimals(b) =~= b);
    } else {
        let fewer = b.drop_last();
        assert(b.contains(b.last()));
        assert(!fewer.contains('e')) by {
            if fewer.contains('e') {
                let i = choose|i: int| 0 <= i < fewer.len() && fewer[i] == 'e';
                assert(b[i] == 'e');
            }
        }
        lemma_decimals_plain(a, fewer);
        assert((a + b).drop_last() =~= a + fewer);
        assert((a + b).last() == b.last());
        assert(with_decimals(a + b) =~= with_decimals(a) + b);
        if a.len() == 0 {
            assert(a + b =~= b);
            assert(with_decimals(a) =~= Seq::<char>::empty());
            assert(with_decimals(b) =~= b);
        }
    }
}

/// A list holds the expressions of all its items, in order: with a further item it is the same up
/// to the closing bracket, and then a space and the item's expression, which stands in parentheses
/// if it is a number below zero.
pub proof fn lists_hold_their_items(items: Seq<JsonTree>, item: JsonTree)
    ensures
        nix_expression(JsonTree::Array(Seq::empty())) == "["@ + " ]"@,
        exists|inner: Seq<char>| #[trigger]
            nix_expression(JsonTree::Array(items)) == "["@ + inner + " ]"@ && nix_expression(
                JsonTree::Array(items.push(item)),
            ) == "["@ + inner + " "@ + (if is_negative(item) {
                "("@ + nix_expression(item) + ")"@
            } else {
                nix_expression(item)
            }) + " ]"@,
        is_negative(item) <==> item is Number && has_prefix(item->Number_1, "-"@),
{
    let none = Seq::<JsonTree>::empty();
    assert(nix_expression(JsonTree::Array(none)) =~= "["@ + " ]"@);
    let more = items.push(item);
    let inner = nix_items(items, items.len());
    lemma_items_same(items, more, items.len());
    assert(more[more.len() - 1] == item);
    assert(nix_expression(JsonTree::Array(items)) == "["@ + inner + " ]"@);
    assert(nix_expression(JsonTree::Array(more)) =~= "["@ + inner + " "@ + (if is_negative(item) {
        "("@ + nix_expression(item) + ")"@
    } else {
        nix_expression(item)
    }) + " ]"@);
}

/// The first items do not depend on those that follow.
proof fn lemma_items_same(a: Seq<JsonTree>, b: Seq<JsonTree>, n: nat)
    requires
        n <= a.len(),
        a.is_prefix_of(b),
    ensures
        nix_items(a, n) == nix_items(b, n),
    decreases n,
{
    if n > 0 {
        assert(a[n - 1] == b[n - 1]);
        lemma_items_same(a, b, (n - 1) as nat);
    }
}

/// An attribute set holds all its members, in order: with a further member it is the same up to
/// the closing brace, and then a space, the member's key as a string, an equals sign, the value's
/// expression and a semicolon.
pub proof fn sets_hold_their_members(members: Seq<MemberTree>, member: MemberTree)
    ensures
        nix_expression(JsonTree::Object(Seq::empty())) == "{"@ + " }"@,
        exists|inner: Seq<char>| #[trigger]
            nix_expression(JsonTree::Object(members)) == "{"@ + inner + " }"@ && nix_expression(
                JsonTree::Object(members.push(member)),
            ) == "{"@ + inner + " "@ + nix_expression(JsonTree::Text(member.key)) + " = "@
                + nix_expression(member.value) + ";"@ + " }"@,
{
    let none = Seq::<MemberTree>::empty();
    assert(nix_expression(JsonTree::Object(none)) =~= "{"@ + " }"@);
    let more = members.push(member);
    let inner = nix_members(members, members.len());
    lemma_members_same(members, more, members.len());
    assert(more[more.len() - 1] == member);
    assert(nix_expression(JsonTree::Object(members)) == "{"@ + inner + " }"@);
    assert(nix_expression(JsonTree::Object(more)) =~= "{"@ + inner + " "@ + nix_expression(
        JsonTree::Text(member.key),
    ) + " = "@ + nix_expression(member.value) + ";"@ + " }"@);
}

/// The first members do not depend on those that follow.
proof fn lemma_members_same(a: Seq<MemberTree>, b: Seq<MemberTree>, n: nat)
    requires
        n <= a.len(),
        a.is_prefix_of(b),
    ensures
        nix_members(a, n) == nix_members(b, n),
    decreases n,
{
    if n > 0 {
        assert(a[n - 1] == b[n - 1]);
        lemma_members_same(a, b, (n - 1) as nat);
    }
}

/// The constants are written as Nix writes them, and a text as a string that Nix reads as the text.
pub proof fn constants_and_texts(s: Seq<char>)
    ensures
        nix_expression(JsonTree::Null) == "null"@,
        nix_expression(JsonTree::Bool(true)) == "true"@,
        nix_expression(JsonTree::Bool(false)) == "false"@,
        nix_expression(JsonTree::Text(s))[0] == '"',
        string_text(nix_expression(JsonTree::Text(s)).skip(1)) == Some(s),
{
    strings_read_back(s);
}

/// A number with decimals stays as it is, with or without an exponent.
pub proof fn numbers_with_decimals_stay(text: Seq<char>, n: Option<i64>)
    requires
        text.contains('.'),
    ensures
        nix_expression(JsonTree::Number(n, text)) == text,
{
    reveal_strlit(".");
    let i = choose|i: int| 0 <= i < text.len() && text[i] == '.';
    assert(text.subrange(i, i + 1) =~= "."@);
    assert(occurs_at(text, "."@, i));
}

} // verus!
