//! The tokens of a request line.

use vstd::prelude::*;

use crate::text;

verus! {

/// What follows an opening quote: the characters up to the closing one, a backslash
/// giving the character behind it, and the rest of the line.
pub open spec fn quoted(s: Seq<char>) -> (Seq<char>, Seq<char>)
    decreases s.len(),
{
    if s.len() == 0 {
        (Seq::empty(), Seq::empty())
    } else if s[0] == '"' {
        (Seq::empty(), s.drop_first())
    } else if s[0] == '\\' {
        if s.len() == 1 {
            (Seq::empty(), Seq::empty())
        } else {
            let (t, rest) = quoted(s.skip(2));
            (seq![s[1]] + t, rest)
        }
    } else {
        let (t, rest) = quoted(s.drop_first());
        (seq![s[0]] + t, rest)
    }
}

/// What is left behind a quoted token is shorter than the token and it.
pub proof fn quoted_consumes(s: Seq<char>)
    ensures
        quoted(s).1.len() <= s.len(),
    decreases s.len(),
{
    if s.len() > 0 && s[0] != '"' {
        if s[0] == '\\' {
            if s.len() > 1 {
                quoted_consumes(s.skip(2));
            }
        } else {
            quoted_consumes(s.drop_first());
        }
    }
}

/// The tokens of a line: runs without white space, and quoted texts.
pub open spec fn tokens(s: Seq<char>) -> Seq<Seq<char>>
    decreases s.len(),
{
    if s.len() == 0 {
        Seq::empty()
    } else if text::is_ws(s[0]) {
        tokens(s.drop_first())
    } else if s[0] == '"' {
        proof {
            quoted_consumes(s.drop_first());
        }
        let (t, rest) = quoted(s.drop_first());
        seq![t] + tokens(rest)
    } else {
        let n = text::word_len(s) as int;
        if 0 < n <= s.len() {
            seq![s.take(n)] + tokens(s.skip(n))
        } else {
            Seq::empty()
        }
    }
}

/// Reads a quoted token of `v` from `from` on, just behind the opening quote. Gives it
/// and the index of what follows it.
fn read_quoted(v: &Vec<char>, from: usize) -> (r: (String, usize))
    requires
        from <= v@.len(),
    ensures
        from <= r.1 <= v@.len(),
        quoted(v@.skip(from as int)) == (r.0@, v@.skip(r.1 as int)),
{
    let mut s = String::new();
    let mut i: usize = from;
    let len: usize = v.len();
    let ghost all = v@.skip(from as int);
    assert(s@ + quoted(v@.skip(i as int)).0 =~= quoted(all).0);
    while i < len
        invariant
            from <= i <= len == v@.len(),
            all == v@.skip(from as int),
            quoted(all).0 == s@ + quoted(v@.skip(i as int)).0,
            quoted(all).1 == quoted(v@.skip(i as int)).1,
        decreases len - i,
    {
        let ghost rest = v@.skip(i as int);
        let ghost before = s@;
        assert(rest[0] == v@[i as int]);
        let c = v[i];
        if c == '"' {
            assert(rest.drop_first() =~= v@.skip(i + 1));
            assert(s@ + Seq::<char>::empty() =~= s@);
            return (s, i + 1);
        }
        if c == '\\' {
            if i + 1 < len {
                assert(rest[1] == v@[i + 1]);
                assert(rest.skip(2) =~= v@.skip(i + 2));
                s.push(v[i + 1]);
                assert(before + (seq![rest[1]] + quoted(rest.skip(2)).0) =~= s@ + quoted(
                    v@.skip(i + 2),
                ).0);
                i += 2;
            } else {
                assert(s@ + Seq::<char>::empty() =~= s@);
                assert(v@.skip(len as int) =~= Seq::<char>::empty());
                return (s, len);
            }
        } else {
            assert(rest.drop_first() =~= v@.skip(i + 1));
            s.push(c);
            assert(before + (seq![rest[0]] + quoted(rest.drop_first()).0) =~= s@ + quoted(
                v@.skip(i + 1),
            ).0);
            i += 1;
        }
    }
    assert(v@.skip(len as int) =~= Seq::<char>::empty());
    assert(s@ + Seq::<char>::empty() =~= s@);
    (s, len)
}

/// The tokens of a line.
pub fn split_line(line: &str) -> (r: Vec<String>)
    ensures
        text::texts(r@) == tokens(line@),
{
    let v = text::chars(line);
    let len: usize = v.len();
    let mut r: Vec<String> = Vec::new();
    let mut i: usize = 0;
    assert(v@.skip(0) =~= v@);
    assert(text::texts(r@) + tokens(v@.skip(0)) =~= tokens(line@));
    while i < len
        invariant
            i <= len == v@.len(),
            v@ == line@,
            text::texts(r@) + tokens(v@.skip(i as int)) == tokens(line@),
        decreases len - i,
    {
        broadcast use text::texts_push;

        let ghost rest = v@.skip(i as int);
        let ghost done = text::texts(r@);
        assert(rest[0] == v@[i as int]);
        if text::is_whitespace(v[i]) {
            assert(rest.drop_first() =~= v@.skip(i + 1));
            i += 1;
        } else if v[i] == '"' {
            assert(rest.drop_first() =~= v@.skip(i + 1));
            let (t, next) = read_quoted(&v, i + 1);
            assert(tokens(rest) == seq![t@] + tokens(v@.skip(next as int)));
            r.push(t);
            assert(text::texts(r@) + tokens(v@.skip(next as int)) =~= done + tokens(rest));
            i = next;
        } else {
            let start: usize = i;
            proof {
                text::word_len_bound(rest);
            }
            while i < len && !text::is_whitespace(v[i])
                invariant
                    start <= i <= len == v@.len(),
                    forall|k: int| start <= k < i ==> !text::is_ws(#[trigger] v@[k]),
                decreases len - i,
            {
                i += 1;
            }
            proof {
                let n = text::word_len(rest) as int;
                if n < i - start {
                    assert(text::is_ws(rest[n]));
                    assert(rest[n] == v@[start + n]);
                }
                if n > i - start {
                    assert(!text::is_ws(rest[i - start]));
                    assert(rest[i - start] == v@[i as int]);
                }
                assert(n == i - start);
                assert(v@.subrange(start as int, i as int) =~= rest.take(n));
                assert(v@.skip(i as int) =~= rest.skip(n));
                assert(n > 0) by {
                    assert(!text::is_ws(rest[0]));
                }
                assert(tokens(rest) == seq![rest.take(n)] + tokens(rest.skip(n)));
            }
            let w = text::text_between(&v, start, i);
            r.push(w);
            assert(text::texts(r@) + tokens(v@.skip(i as int)) =~= done + tokens(rest));
        }
    }
    assert(v@.skip(len as int) =~= Seq::<char>::empty());
    assert(text::texts(r@) + Seq::<Seq<char>>::empty() =~= text::texts(r@));
    r
}

/// The command name of a line in lower case, and its arguments. A line without a token
/// has none.
pub fn tokenize(line: &str) -> (r: Option<(String, Vec<String>)>)
    ensures
        match r {
            None => tokens(line@).len() == 0,
            Some((name, args)) => {
                &&& tokens(line@).len() > 0
                &&& name@ == text::lower(tokens(line@)[0])
                &&& text::texts(args@) == tokens(line@).skip(1)
            },
        },
{
    let mut toks = split_line(line);
    let ghost all = toks@;
    assert(text::texts(all).len() == all.len());
    if toks.len() == 0 {
        return None;
    }
    let first = toks.remove(0);
    assert(text::texts(all)[0] == first@);
    assert(text::texts(toks@) =~= text::texts(all).skip(1));
    Some((text::to_lower(first.as_str()), toks))
}

/// White space before a token is no part of it, however much there is, and a line of white
/// space has no token.
pub proof fn white_space_parts_tokens(gap: Seq<char>, s: Seq<char>)
    requires
        forall|i: int| 0 <= i < gap.len() ==> text::is_ws(#[trigger] gap[i]),
    ensures
        tokens(gap + s) == tokens(s),
        tokens(gap).len() == 0,
    decreases gap.len(),
{
    if gap.len() == 0 {
        assert(gap + s =~= s);
    } else {
        white_space_parts_tokens(gap.drop_first(), s);
        assert((gap + s)[0] == gap[0]);
        assert((gap + s).drop_first() =~= gap.drop_first() + s);
    }
}

/// A quote that is not closed goes to the end of the line.
pub proof fn an_open_quote_goes_to_the_end(s: Seq<char>)
    requires
        forall|i: int| 0 <= i < s.len() ==> #[trigger] s[i] != '"' && s[i] != '\\',
    ensures
        quoted(s) == (s, Seq::<char>::empty()),
        tokens(seq!['"'] + s) == seq![s],
    decreases s.len(),
{
    if s.len() > 0 {
        let t = s.drop_first();
        assert forall|i: int| 0 <= i < t.len() implies #[trigger] t[i] != '"' && t[i] != '\\' by {
            assert(t[i] == s[i + 1]);
        }
        an_open_quote_goes_to_the_end(t);
        assert(seq![s[0]] + t =~= s);
    }
    let q = seq!['"'] + s;
    assert(q.drop_first() =~= s);
    assert(tokens(Seq::<char>::empty()) =~= Seq::<Seq<char>>::empty());
    assert(seq![s] + Seq::<Seq<char>>::empty() =~= seq![s]);
}

} // verus!
