//! Filters: which songs a search or a listing is about.

use vstd::prelude::*;

use crate::mpd::args;
use crate::text;

verus! {

/// The tags that a filter may name, in lower case.
pub open spec fn is_tag(s: Seq<char>) -> bool {
    ||| s == "any"@
    ||| s == "title"@
    ||| s == "artist"@
    ||| s == "album"@
    ||| s == "albumartist"@
    ||| s == "track"@
    ||| s == "genre"@
    ||| s == "date"@
    ||| s == "composer"@
    ||| s == "performer"@
    ||| s == "comment"@
    ||| s == "disc"@
    ||| s == "file"@
    ||| s == "base"@
    ||| s == "modified-since"@
    ||| s == "albumartistsort"@
    ||| s == "artistsort"@
}

fn is_filter_tag(s: &str) -> (r: bool)
    ensures
        r == is_tag(s@),
{
    text::same(s, "any") || text::same(s, "title") || text::same(s, "artist") || text::same(
        s,
        "album",
    ) || text::same(s, "albumartist") || text::same(s, "track") || text::same(s, "genre")
        || text::same(s, "date") || text::same(s, "composer") || text::same(s, "performer")
        || text::same(s, "comment") || text::same(s, "disc") || text::same(s, "file")
        || text::same(s, "base") || text::same(s, "modified-since") || text::same(
        s,
        "albumartistsort",
    ) || text::same(s, "artistsort")
}

/// The tags and values that the arguments from `i` on write: a tag takes the argument
/// behind it as its value, and any other argument is a value under `any`.
pub open spec fn filters(a: Seq<Seq<char>>, i: int) -> Seq<(Seq<char>, Seq<char>)>
    decreases a.len() - i + 1,
{
    if i < 0 || i >= a.len() {
        Seq::empty()
    } else if is_tag(text::lower(a[i])) {
        seq![(text::lower(a[i]), args::arg_or_empty(a, i + 1))] + filters(a, i + 2)
    } else {
        seq![("any"@, a[i])] + filters(a, i + 1)
    }
}

/// The tags and values that the arguments write.
pub fn parse_filter(a: &[String]) -> (r: Vec<(String, String)>)
    ensures
        text::pairs(r@) == filters(text::texts(a@), 0),
{
    let mut out: Vec<(String, String)> = Vec::new();
    let n: usize = a.len();
    let mut i: usize = 0;
    let ghost all = text::texts(a@);
    assert(text::pairs(out@) + filters(all, 0) =~= filters(all, 0));
    while i < n
        invariant
            n == a@.len(),
            all == text::texts(a@),
            text::pairs(out@) + filters(all, i as int) == filters(all, 0),
        decreases n - i,
    {
        broadcast use text::pairs_push;

        let ghost done = text::pairs(out@);
        let lower = text::to_lower(a[i].as_str());
        if is_filter_tag(lower.as_str()) {
            let value = args::arg_or_default(a, i + 1);
            assert(filters(all, i as int) == seq![(lower@, value@)] + filters(all, i + 2));
            out.push((lower, value));
            if i + 1 < n {
                i += 2;
                assert(text::pairs(out@) + filters(all, i as int) =~= filters(all, 0));
            } else {
                assert(filters(all, i + 2) =~= filters(all, i + 1));
                i += 1;
                assert(text::pairs(out@) + filters(all, i as int) =~= filters(all, 0));
            }
        } else {
            assert(filters(all, i as int) == seq![("any"@, all[i as int])] + filters(
                all,
                i + 1,
            ));
            out.push(("any".to_owned(), a[i].clone()));
            i += 1;
            assert(text::pairs(out@) + filters(all, i as int) =~= filters(all, 0));
        }
    }
    assert(text::pairs(out@) + Seq::<(Seq<char>, Seq<char>)>::empty() =~= text::pairs(out@));
    out
}

/// A grouping clause begins at `i`: the word `group`, and a tag behind it.
pub open spec fn group_at(a: Seq<Seq<char>>, i: int) -> bool {
    &&& args::is_word(a, i, "group"@)
    &&& args::keyword(a, i + 1) matches Some(t)
    &&& is_tag(t)
}

/// The first place at or after `i` at which a grouping clause begins, or the end.
pub open spec fn group_start(a: Seq<Seq<char>>, i: int) -> int
    decreases a.len() - i,
{
    if i >= a.len() {
        a.len() as int
    } else if group_at(a, i) {
        i
    } else {
        group_start(a, i + 1)
    }
}

/// The arguments before the grouping clause.
pub open spec fn ungrouped(a: Seq<Seq<char>>) -> Seq<Seq<char>> {
    a.take(group_start(a, 0))
}

/// The arguments before the grouping clause. A value that reads `group` stays, as no tag
/// follows it.
pub fn strip_group(a: &[String]) -> (r: &[String])
    ensures
        text::texts(r@) == ungrouped(text::texts(a@)),
{
    let n: usize = a.len();
    let ghost all = text::texts(a@);
    let mut i: usize = 0;
    while i < n
        invariant
            i <= n == a@.len(),
            all == text::texts(a@),
            group_start(all, 0) == group_start(all, i as int),
        ensures
            i <= n,
            group_start(all, 0) == i,
        decreases n - i,
    {
        if args::has_word(a, i, "group") {
            if let Some(t) = args::lower_arg(a, i + 1) {
                if is_filter_tag(t.as_str()) {
                    break ;
                }
            }
        }
        i += 1;
    }
    let r = args::part(a, 0, i);
    assert(text::texts(r@) =~= ungrouped(all));
    r
}

/// The tag and the value of an expression `(tag == "value")`.
pub open spec fn expression_of(e: Seq<char>) -> Option<(Seq<char>, Seq<char>)> {
    let inner = text::trim_end_in(
        text::trim_start_in(text::trimmed(e), text::just('(')),
        text::just(')'),
    );
    match text::parted(inner, "=="@) {
        None => None,
        Some((t, v)) => {
            let tag = text::lower(text::trimmed(t));
            if tag.len() == 0 {
                None
            } else {
                Some((tag, text::trim_in(text::trimmed(v), text::just('"'))))
            }
        },
    }
}

/// The tag and the value of an expression `(tag == "value")`, whose brackets and quotes
/// may be missing.
pub fn parse_filter_expression(expr: &str) -> (r: Option<(String, String)>)
    ensures
        (match r {
            Some(p) => Some((p.0@, p.1@)),
            None => None,
        }) == expression_of(expr@),
{
    let t = text::trim(expr);
    let t = text::trim_start_char(t.as_str(), '(');
    let inner = text::trim_end_char(t.as_str(), ')');
    match text::split_once(inner.as_str(), "==") {
        None => None,
        Some((tag, value)) => {
            let tag = text::trim(tag.as_str());
            let tag = text::to_lower(tag.as_str());
            let value = text::trim(value.as_str());
            let value = text::trim_start_char(value.as_str(), '"');
            let value = text::trim_end_char(value.as_str(), '"');
            if tag.as_str().is_empty() {
                None
            } else {
                Some((tag, value))
            }
        },
    }
}

/// The filter of a listing: a single expression, or tags and values, in either case
/// before a grouping clause.
pub open spec fn list_filter(a: Seq<Seq<char>>) -> Seq<(Seq<char>, Seq<char>)> {
    let r = ungrouped(a);
    if r.len() == 1 && text::has(r[0], "=="@) && expression_of(r[0]) is Some {
        seq![expression_of(r[0])->0]
    } else {
        filters(r, 0)
    }
}

/// The filter of a listing.
pub fn parse_list_filter(rest: &[String]) -> (r: Vec<(String, String)>)
    ensures
        text::pairs(r@) == list_filter(text::texts(rest@)),
{
    let rest = strip_group(rest);
    if rest.len() == 1 && text::contains(rest[0].as_str(), "==") {
        if let Some(pair) = parse_filter_expression(rest[0].as_str()) {
            let mut v: Vec<(String, String)> = Vec::new();
            v.push(pair);
            assert(text::pairs(v@) =~= seq![(pair.0@, pair.1@)]);
            return v;
        }
    }
    parse_filter(rest)
}

/// Each tag, in letters of either case, takes the argument behind it as its value, and the
/// filter goes on behind that value; a tag at the end takes none.
pub proof fn a_tag_takes_the_value_behind_it(a: Seq<Seq<char>>, i: int)
    requires
        0 <= i < a.len(),
    ensures
        text::lower(a[i]) == "any"@ && i + 1 < a.len() ==> filters(a, i) == seq![
            ("any"@, a[i + 1]),
        ] + filters(a, i + 2),
        text::lower(a[i]) == "title"@ && i + 1 < a.len() ==> filters(a, i) == seq![
            ("title"@, a[i + 1]),
        ] + filters(a, i + 2),
        text::lower(a[i]) == "artist"@ && i + 1 < a.len() ==> filters(a, i) == seq![
            ("artist"@, a[i + 1]),
        ] + filters(a, i + 2),
        text::lower(a[i]) == "album"@ && i + 1 < a.len() ==> filters(a, i) == seq![
            ("album"@, a[i + 1]),
        ] + filters(a, i + 2),
        text::lower(a[i]) == "albumartist"@ && i + 1 < a.len() ==> filters(a, i) == seq![
            ("albumartist"@, a[i + 1]),
        ] + filters(a, i + 2),
        text::lower(a[i]) == "track"@ && i + 1 < a.len() ==> filters(a, i) == seq![
            ("track"@, a[i + 1]),
        ] + filters(a, i + 2),
        text::lower(a[i]) == "genre"@ && i + 1 < a.len() ==> filters(a, i) == seq![
            ("genre"@, a[i + 1]),
        ] + filters(a, i + 2),
        text::lower(a[i]) == "date"@ && i + 1 < a.len() ==> filters(a, i) == seq![
            ("date"@, a[i + 1]),
        ] + filters(a, i + 2),
        text::lower(a[i]) == "composer"@ && i + 1 < a.len() ==> filters(a, i) == seq![
            ("composer"@, a[i + 1]),
        ] + filters(a, i + 2),
        text::lower(a[i]) == "performer"@ && i + 1 < a.len() ==> filters(a, i) == seq![
            ("performer"@, a[i + 1]),
        ] + filters(a, i + 2),
        text::lower(a[i]) == "comment"@ && i + 1 < a.len() ==> filters(a, i) == seq![
            ("comment"@, a[i + 1]),
        ] + filters(a, i + 2),
        text::lower(a[i]) == "disc"@ && i + 1 < a.len() ==> filters(a, i) == seq![
            ("disc"@, a[i + 1]),
        ] + filters(a, i + 2),
        text::lower(a[i]) == "file"@ && i + 1 < a.len() ==> filters(a, i) == seq![
            ("file"@, a[i + 1]),
        ] + filters(a, i + 2),
        text::lower(a[i]) == "base"@ && i + 1 < a.len() ==> filters(a, i) == seq![
            ("base"@, a[i + 1]),
        ] + filters(a, i + 2),
        text::lower(a[i]) == "modified-since"@ && i + 1 < a.len() ==> filters(a, i) == seq![
            ("modified-since"@, a[i + 1]),
        ] + filters(a, i + 2),
        text::lower(a[i]) == "albumartistsort"@ && i + 1 < a.len() ==> filters(a, i) == seq![
            ("albumartistsort"@, a[i + 1]),
        ] + filters(a, i + 2),
        text::lower(a[i]) == "artistsort"@ && i + 1 < a.len() ==> filters(a, i) == seq![
            ("artistsort"@, a[i + 1]),
        ] + filters(a, i + 2),
        text::lower(a[i]) == "artist"@ && i + 1 == a.len() ==> filters(a, i) == seq![
            ("artist"@, Seq::<char>::empty()),
        ],
{
    if i + 1 == a.len() {
        assert(filters(a, i + 2) =~= Seq::empty());
        assert(seq![("artist"@, Seq::<char>::empty())] + filters(a, i + 2) =~= seq![
            ("artist"@, Seq::<char>::empty()),
        ]);
    }
}

/// An argument that is no tag is looked for under any tag, and the filter goes on behind it.
pub proof fn another_word_is_looked_for_anywhere(a: Seq<Seq<char>>, i: int)
    requires
        0 <= i < a.len(),
        text::lower(a[i]) != "any"@,
        text::lower(a[i]) != "title"@,
        text::lower(a[i]) != "artist"@,
        text::lower(a[i]) != "album"@,
        text::lower(a[i]) != "albumartist"@,
        text::lower(a[i]) != "track"@,
        text::lower(a[i]) != "genre"@,
        text::lower(a[i]) != "date"@,
        text::lower(a[i]) != "composer"@,
        text::lower(a[i]) != "performer"@,
        text::lower(a[i]) != "comment"@,
        text::lower(a[i]) != "disc"@,
        text::lower(a[i]) != "file"@,
        text::lower(a[i]) != "base"@,
        text::lower(a[i]) != "modified-since"@,
        text::lower(a[i]) != "albumartistsort"@,
        text::lower(a[i]) != "artistsort"@,
    ensures
        filters(a, i) == seq![("any"@, a[i])] + filters(a, i + 1),
{
}

/// A grouping clause and what follows it are no part of the filter of a listing.
pub proof fn a_grouping_is_no_filter(a: Seq<Seq<char>>, tag: Seq<char>, rest: Seq<Seq<char>>)
    requires
        text::lower(tag) == "artist"@ || text::lower(tag) == "album"@ || text::lower(tag)
            == "albumartist"@ || text::lower(tag) == "genre"@ || text::lower(tag) == "date"@,
        forall|i: int| 0 <= i < a.len() ==> !args::alike(#[trigger] a[i], "group"@),
    ensures
        list_filter(a + seq!["group"@, tag] + rest) == list_filter(a),
{
    let all = a + seq!["group"@, tag] + rest;
    group_found(all, 0, a.len() as int);
    group_found(a, 0, a.len() as int);
    assert(ungrouped(all) =~= a);
    assert(ungrouped(a) =~= a);
}

proof fn group_found(a: Seq<Seq<char>>, i: int, k: int)
    requires
        0 <= i <= k <= a.len(),
        forall|j: int| i <= j < k ==> !args::alike(#[trigger] a[j], "group"@),
        k == a.len() || group_at(a, k),
    ensures
        group_start(a, i) == k,
    decreases k - i,
{
    if i < k {
        group_found(a, i + 1, k);
    }
}

/// An expression names its tag before the first `==` and its value behind it, without the
/// brackets and the quotes around them.
pub proof fn an_expression_is_its_tag_and_its_value(tag: Seq<char>, v: Seq<char>)
    requires
        tag.len() > 0,
        forall|i: int| 0 <= i < tag.len() ==> 'a' <= #[trigger] tag[i] <= 'z',
        v.len() > 0,
        v[0] != '"',
        v.last() != '"',
    ensures
        expression_of(seq!['('] + tag + " == "@ + seq!['"'] + v + seq!['"', ')']) == Some((tag, v)),
{
    reveal_strlit(" == ");
    reveal_strlit("==");
    let e = seq!['('] + tag + " == "@ + seq!['"'] + v + seq!['"', ')'];
    let none = Seq::<char>::empty();
    assert(e[0] == '(' && e.last() == ')');
    text::only_white_space_is_trimmed(none, e, none);
    assert(none + e + none =~= e);
    let a = tag + " == "@ + seq!['"'] + v + seq!['"', ')'];
    assert(e.drop_first() =~= a);
    assert(a[0] == tag[0]);
    assert(text::trim_start_in(a, text::just('(')) == a);
    assert(text::trim_start_in(e, text::just('(')) == a);
    let inner = tag + " == "@ + seq!['"'] + v + seq!['"'];
    assert(a.drop_last() =~= inner);
    assert(a.last() == ')' && inner.last() == '"');
    assert(text::trim_end_in(inner, text::just(')')) == inner);
    assert(text::trim_end_in(a, text::just(')')) == inner);
    let k = tag.len() as int + 1;
    text::first_from_is_first(inner, "=="@, 0);
    assert(inner.subrange(k, k + 2) =~= "=="@);
    assert(text::occurs_at(inner, "=="@, k));
    assert forall|j: int| 0 <= j < k implies !text::occurs_at(inner, "=="@, j) by {
        if text::occurs_at(inner, "=="@, j) {
            assert(inner.subrange(j, j + 2)[0] == inner[j]);
            if j < tag.len() {
                assert(inner[j] == tag[j]);
            }
        }
    }
    assert(inner.take(k) =~= none + tag + seq![' ']);
    assert(!text::is_ws(tag[0]) && !text::is_ws(tag[tag.len() - 1]));
    text::only_white_space_is_trimmed(none, tag, seq![' ']);
    text::small_letters_stay(tag);
    let q = seq!['"'] + v + seq!['"'];
    assert(inner.skip(k + 2) =~= seq![' '] + q + none);
    assert(q[0] == '"' && q.last() == '"');
    text::only_white_space_is_trimmed(seq![' '], q, none);
    assert(q.drop_first() =~= v + seq!['"']);
    assert((v + seq!['"'])[0] == v[0]);
    assert(text::trim_start_in(q, text::just('"')) == v + seq!['"']) by {
        assert(text::trim_start_in(v + seq!['"'], text::just('"')) == v + seq!['"']);
    }
    assert((v + seq!['"']).drop_last() =~= v);
    assert(text::trim_end_in(v, text::just('"')) == v);
    assert(text::trim_end_in(v + seq!['"'], text::just('"')) == v);
}

/// A listing that is filtered by one expression is filtered by its tag and its value.
pub proof fn one_expression_is_a_filter(tag: Seq<char>, v: Seq<char>)
    requires
        tag.len() > 0,
        forall|i: int| 0 <= i < tag.len() ==> 'a' <= #[trigger] tag[i] <= 'z',
        v.len() > 0,
        v[0] != '"',
        v.last() != '"',
    ensures
        list_filter(seq![seq!['('] + tag + " == "@ + seq!['"'] + v + seq!['"', ')']]) == seq![
            (tag, v),
        ],
{
    let e = seq!['('] + tag + " == "@ + seq!['"'] + v + seq!['"', ')'];
    let a = seq![e];
    an_expression_is_its_tag_and_its_value(tag, v);
    reveal_strlit(" == ");
    reveal_strlit("==");
    reveal_strlit("group");
    assert(text::ascii_lower(e)[0] == '(' && text::ascii_lower("group"@)[0] == 'g');
    group_found(a, 0, 1);
    assert(ungrouped(a) =~= a);
    let k = tag.len() as int + 2;
    assert(e.subrange(k, k + 2) =~= "=="@);
    assert(text::occurs_at(e, "=="@, k));
    assert(text::has(e, "=="@));
}

} // verus!
