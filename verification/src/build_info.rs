//! The version that is shown: the release, and how far beyond it a build is.

use vstd::prelude::*;

use crate::number;
use crate::text;

verus! {

/// The parts of what `git describe` tells: the digits of the count, the hash, and
/// whether the tree has changes.
pub open spec fn described(d: Seq<char>) -> Option<(Seq<char>, Seq<char>, bool)> {
    let (rest, dirty) = match text::without_suffix(d, "-dirty"@) {
        Some(r) => (r, true),
        None => (d, false),
    };
    match text::last_of(rest, "-g"@) {
        None => None,
        Some(g) => {
            let hash = rest.skip(g + 2);
            let front = rest.take(g);
            match text::last_of(front, "-"@) {
                None => None,
                Some(c) => {
                    let count = front.skip(c + 1);
                    if hash.len() > 0 && text::all_hex(hash) && count.len() > 0
                        && text::all_digits(count) {
                        Some((count, hash, dirty))
                    } else {
                        None
                    }
                },
            }
        },
    }
}

/// The fields of a build.
pub open spec fn fields(count: Seq<char>, hash: Seq<char>, dirty: bool) -> Seq<char> {
    "count="@ + count + " hash="@ + hash + " dirty="@ + if dirty {
        "1"@
    } else {
        "0"@
    }
}

/// The fields of a build, from what `git describe --long --dirty` tells. The tag may
/// hold hyphens: it is read from the right.
pub fn parse_describe(d: &str) -> (r: Option<String>)
    ensures
        match described(d@) {
            Some((count, hash, dirty)) => text::opt(r) == Some(fields(count, hash, dirty)),
            None => r is None,
        },
{
    let (rest, dirty) = match text::strip_suffix(d, "-dirty") {
        Some(r) => (r, true),
        None => (d.to_owned(), false),
    };
    proof {
        reveal_strlit("-g");
        reveal_strlit("-");
        text::last_before_is_last(rest@, "-g"@, rest@.len() as int);
    }
    let v = text::chars(rest.as_str());
    let n: usize = v.len();
    let g: usize = match text::rfind(rest.as_str(), "-g") {
        Some(g) => g,
        None => return None,
    };
    let hash = text::text_between(&v, g + 2, n);
    let front = text::text_between(&v, 0, g);
    assert(hash@ =~= rest@.skip(g + 2));
    assert(front@ =~= rest@.take(g as int));
    proof {
        text::last_before_is_last(front@, "-"@, front@.len() as int);
    }
    let c: usize = match text::rfind(front.as_str(), "-") {
        Some(c) => c,
        None => return None,
    };
    let count = text::text_between(&v, c + 1, g);
    assert(count@ =~= front@.skip(c + 1));
    if g + 2 >= n || !text::only_hex(hash.as_str()) || c + 1 >= g || !text::only_digits(
        count.as_str(),
    ) {
        return None;
    }
    let mut s = "count=".to_owned();
    s.append(count.as_str());
    s.append(" hash=");
    s.append(hash.as_str());
    s.append(" dirty=");
    if dirty {
        s.append("1");
    } else {
        s.append("0");
    }
    Some(s)
}

/// A build.
#[derive(Clone, Debug, PartialEq, Eq)]
pub struct BuildInfo {
    /// How many commits it is beyond the tag.
    pub count: Option<u64>,
    /// The hash of its commit.
    pub hash: Option<String>,
    /// Whether its tree had changes.
    pub dirty: bool,
}

impl Default for BuildInfo {
    fn default() -> (r: Self)
        ensures
            r == (BuildInfo { count: None, hash: None, dirty: false }),
    {
        BuildInfo { count: None, hash: None, dirty: false }
    }
}

/// What the fields say of a build.
#[verifier::ext_equal]
pub struct Build {
    /// How many commits it is beyond the tag.
    pub count: Option<nat>,
    /// The hash of its commit.
    pub hash: Option<Seq<char>>,
    /// Whether its tree had changes.
    pub dirty: bool,
}

/// What one more field says.
pub open spec fn with_field(b: Build, field: Seq<char>) -> Build {
    match text::parted(field, "="@) {
        Some((key, val)) => if key == "count"@ {
            Build { count: number::unsigned_of(val, u64::MAX as nat), ..b }
        } else if key == "hash"@ {
            if val.len() > 0 {
                Build { hash: Some(val), ..b }
            } else {
                b
            }
        } else if key == "dirty"@ {
            Build { dirty: val == "1"@, ..b }
        } else {
            b
        },
        None => b,
    }
}

/// What a row of fields says.
pub open spec fn read_fields(fields: Seq<Seq<char>>) -> Build
    decreases fields.len(),
{
    if fields.len() == 0 {
        Build { count: None, hash: None, dirty: false }
    } else {
        with_field(read_fields(fields.drop_last()), fields.last())
    }
}

impl BuildInfo {
    /// What this says of a build.
    pub open spec fn build(self) -> Build {
        Build {
            count: match self.count {
                Some(n) => Some(n as nat),
                None => None,
            },
            hash: text::opt(self.hash),
            dirty: self.dirty,
        }
    }

    /// Reads the fields of a build. What is not a field is passed over.
    pub fn parse(raw: &str) -> (r: BuildInfo)
        ensures
            r.build() == read_fields(text::words(raw@)),
    {
        let fields = text::split_whitespace(raw);
        let ghost all = text::texts(fields@);
        let mut info = BuildInfo::default();
        let mut i: usize = 0;
        assert(all.take(0) =~= Seq::<Seq<char>>::empty());
        while i < fields.len()
            invariant
                i <= fields@.len(),
                all == text::texts(fields@),
                info.build() == read_fields(all.take(i as int)),
            decreases fields@.len() - i,
        {
            assert(all.take(i + 1).drop_last() =~= all.take(i as int));
            assert(all.take(i + 1).last() == fields@[i as int]@);
            if let Some((key, val)) = text::split_once(fields[i].as_str(), "=") {
                if text::same(key.as_str(), "count") {
                    info.count = number::parse_u64(val.as_str());
                } else if text::same(key.as_str(), "hash") {
                    let n: usize = text::chars(val.as_str()).len();
                    if n > 0 {
                        info.hash = Some(val);
                    }
                } else if text::same(key.as_str(), "dirty") {
                    info.dirty = text::same(val.as_str(), "1");
                }
            }
            i += 1;
            assert(info.build() =~= read_fields(all.take(i as int)));
        }
        assert(all.take(i as int) =~= all);
        info
    }
}

/// The characters behind which a version has more than its numbers.
pub open spec fn suffix_marks() -> Set<char> {
    set!['-', '+']
}

/// A part of a version is a number.
pub open spec fn is_part(p: Seq<char>) -> bool {
    p.len() > 0 && text::all_digits(p)
}

/// A text begins like a version: three numbers with dots between them, and nothing
/// behind them but a suffix.
pub open spec fn is_semver(s: Seq<char>) -> bool {
    let core = s.take(number::span_without(s, suffix_marks()) as int);
    let parts = text::pieces(core, "."@);
    parts.len() == 3 && is_part(parts[0]) && is_part(parts[1]) && is_part(parts[2])
}

fn part_is_number(p: &str) -> (r: bool)
    ensures
        r == is_part(p@),
{
    let n: usize = text::chars(p).len();
    n > 0 && text::only_digits(p)
}

fn looks_like_semver(s: &str) -> (r: bool)
    ensures
        r == is_semver(s@),
{
    let v = text::chars(s);
    let n: usize = v.len();
    let mut i: usize = 0;
    while i < n && v[i] != '-' && v[i] != '+'
        invariant
            i <= n == v@.len(),
            v@ == s@,
            forall|k: int| 0 <= k < i ==> !suffix_marks().contains(#[trigger] v@[k]),
        decreases n - i,
    {
        i += 1;
    }
    let core = text::text_between(&v, 0, i);
    proof {
        number::span_without_is_first(s@, suffix_marks());
        let k = number::span_without(s@, suffix_marks()) as int;
        if k < i {
            assert(suffix_marks().contains(s@[k]));
        }
        if k > i {
            assert(!suffix_marks().contains(s@[i as int]));
        }
        assert(core@ =~= s@.take(k));
        reveal_strlit(".");
    }
    let parts = text::split(core.as_str(), ".");
    let ghost views = text::texts(parts@);
    if parts.len() != 3 {
        return false;
    }
    assert(views[0] == parts@[0]@ && views[1] == parts@[1]@ && views[2] == parts@[2]@);
    part_is_number(parts[0].as_str()) && part_is_number(parts[1].as_str()) && part_is_number(
        parts[2].as_str(),
    )
}

/// What is shown behind the release of a build.
pub open spec fn suffix_of(b: Build) -> Seq<char> {
    let dirty = if b.dirty {
        "-dirty"@
    } else {
        ""@
    };
    match (b.count, b.hash) {
        (Some(n), Some(h)) => if n == 0 && !b.dirty {
            Seq::empty()
        } else if n == 0 {
            " (g"@ + h + dirty + ")"@
        } else {
            " +"@ + number::dec(n) + " (g"@ + h + dirty + ")"@
        },
        (Some(n), None) => if n == 0 && !b.dirty {
            Seq::empty()
        } else {
            " +"@ + number::dec(n) + dirty
        },
        (None, Some(h)) => " (g"@ + h + dirty + ")"@,
        (None, None) => Seq::empty(),
    }
}

/// The version that is shown.
pub open spec fn shown(base: Seq<char>, raw: Seq<char>) -> Seq<char> {
    let b = text::trimmed(base);
    if is_semver(b) && text::trimmed(raw).len() > 0 {
        b + suffix_of(read_fields(text::words(text::trimmed(raw))))
    } else {
        b
    }
}

/// The version that is shown: the release, and behind it how many commits beyond it the
/// build is and its hash. A build of the release itself, without changes, shows nothing
/// more, and neither does one whose release is no version.
pub fn compose(base: &str, raw_build_info: Option<&str>) -> (r: String)
    ensures
        r@ == shown(
            base@,
            match raw_build_info {
                Some(s) => s@,
                None => Seq::empty(),
            },
        ),
{
    let base = text::trim(base);
    let raw = match raw_build_info {
        Some(s) => text::trim(s),
        None => {
            proof {
                assert(text::trimmed(Seq::empty()) =~= Seq::<char>::empty());
            }
            String::new()
        },
    };
    let n: usize = text::chars(raw.as_str()).len();
    if n == 0 || !looks_like_semver(base.as_str()) {
        return base;
    }
    let info = BuildInfo::parse(raw.as_str());
    proof {
        reveal_strlit("");
    }
    let dirty = if info.dirty {
        "-dirty"
    } else {
        ""
    };
    let mut s = base.clone();
    match (info.count, &info.hash) {
        (Some(n), Some(h)) => {
            if n == 0 && !info.dirty {
                assert(s@ =~= base@ + suffix_of(info.build()));
                return s;
            }
            if n > 0 {
                s.append(" +");
                s.append(number::dec_u64(n).as_str());
            }
            s.append(" (g");
            s.append(h.as_str());
            s.append(dirty);
            s.append(")");
        },
        (Some(n), None) => {
            if n == 0 && !info.dirty {
                assert(s@ =~= base@ + suffix_of(info.build()));
                return s;
            }
            s.append(" +");
            s.append(number::dec_u64(n).as_str());
            s.append(dirty);
        },
        (None, Some(h)) => {
            s.append(" (g");
            s.append(h.as_str());
            s.append(dirty);
            s.append(")");
        },
        (None, None) => {},
    }
    assert(s@ =~= base@ + suffix_of(info.build()));
    s
}

/// The text, where it is more than white space.
pub open spec fn told(s: Option<Seq<char>>) -> Option<Seq<char>> {
    match s {
        Some(t) => if text::trimmed(t).len() > 0 {
            Some(t)
        } else {
            None
        },
        None => None,
    }
}

/// The fields of the build: those that were compiled in, or else those that the
/// environment gives.
pub fn resolve(compile_time: Option<&str>, environment: Option<&str>) -> (r: Option<String>)
    ensures
        text::opt(r) == (if told(text::opt_ref(compile_time)) is Some {
            told(text::opt_ref(compile_time))
        } else {
            told(text::opt_ref(environment))
        }),
{
    if let Some(ct) = compile_time {
        let n: usize = text::chars(text::trim(ct).as_str()).len();
        if n > 0 {
            return Some(ct.to_owned());
        }
    }
    match environment {
        Some(v) => {
            let n: usize = text::chars(text::trim(v).as_str()).len();
            if n > 0 {
                Some(v.to_owned())
            } else {
                None
            }
        },
        None => None,
    }
}

/// The version that is shown, from the fields that were compiled in or that the
/// environment gives.
pub fn version(base: &str, compile_time: Option<&str>, environment: Option<&str>) -> (r: String)
    ensures
        r@ == shown(
            base@,
            match (told(text::opt_ref(compile_time)), told(text::opt_ref(environment))) {
                (Some(s), _) => s,
                (None, Some(s)) => s,
                (None, None) => Seq::empty(),
            },
        ),
{
    let raw = resolve(compile_time, environment);
    match &raw {
        Some(s) => compose(base, Some(s.as_str())),
        None => compose(base, None),
    }
}

// ---------------------------------------------------------------------------
// Laws
// ---------------------------------------------------------------------------

/// What is shown begins with the release.
pub proof fn the_release_is_shown(base: Seq<char>, raw: Seq<char>)
    ensures
        text::begins(shown(base, raw), text::trimmed(base)),
{
    let b = text::trimmed(base);
    let s = shown(base, raw);
    assert(s.subrange(0, b.len() as int) =~= b);
}

/// A build of the release itself, without changes, shows the release alone.
pub proof fn a_release_shows_itself(base: Seq<char>, raw: Seq<char>)
    requires
        read_fields(text::words(text::trimmed(raw))).count == Some(0nat),
        !read_fields(text::words(text::trimmed(raw))).dirty,
    ensures
        shown(base, raw) == text::trimmed(base),
{
    let b = text::trimmed(base);
    assert(b + Seq::<char>::empty() =~= b);
}

/// A word and a space before the rest.
proof fn words_front(w: Seq<char>, rest: Seq<char>)
    requires
        w.len() > 0,
        forall|i: int| 0 <= i < w.len() ==> !text::is_ws(#[trigger] w[i]),
        rest.len() > 0 ==> text::is_ws(rest[0]),
    ensures
        text::words(w + rest) == seq![w] + text::words(rest),
{
    let s = w + rest;
    text::word_len_bound(s);
    let n = text::word_len(s) as int;
    assert(s[0] == w[0]);
    if n < w.len() {
        assert(s[n] == w[n]);
    }
    if n > w.len() {
        assert(s[w.len() as int] == rest[0]);
    }
    assert(s.take(n) =~= w);
    assert(s.skip(n) =~= rest);
}

/// A field parts at its first `=`.
proof fn field_parts(key: Seq<char>, val: Seq<char>)
    requires
        forall|i: int| 0 <= i < key.len() ==> #[trigger] key[i] != '=',
    ensures
        text::parted(key + seq!['='] + val, "="@) == Some((key, val)),
{
    reveal_strlit("=");
    let s = key + seq!['='] + val;
    let k = key.len() as int;
    text::first_from_is_first(s, "="@, 0);
    assert(s.subrange(k, k + 1) =~= "="@);
    assert(text::occurs_at(s, "="@, k));
    match text::first_of(s, "="@) {
        Some(i) => {
            assert(s.subrange(i, i + 1)[0] == s[i]);
            if i < k {
                assert(s[i] == key[i]);
            }
            assert(i == k);
            assert(s.take(k) =~= key);
            assert(s.skip(k + 1) =~= val);
        },
        None => {},
    }
}

/// What `git describe` tells comes out of the fields again.
pub proof fn fields_read_back(count: Seq<char>, hash: Seq<char>, dirty: bool)
    requires
        count.len() > 0,
        text::all_digits(count),
        hash.len() > 0,
        text::all_hex(hash),
    ensures
        read_fields(text::words(fields(count, hash, dirty))) == (Build {
            count: number::unsigned_of(count, u64::MAX as nat),
            hash: Some(hash),
            dirty,
        }),
{
    reveal_strlit("count=");
    reveal_strlit(" hash=");
    reveal_strlit(" dirty=");
    reveal_strlit("count");
    reveal_strlit("hash");
    reveal_strlit("dirty");
    reveal_strlit("1");
    reveal_strlit("0");
    let flag = if dirty {
        "1"@
    } else {
        "0"@
    };
    let a = "count"@ + seq!['='] + count;
    let b = "hash"@ + seq!['='] + hash;
    let c = "dirty"@ + seq!['='] + flag;
    let none = Seq::<char>::empty();
    let r1 = seq![' '] + c;
    let r0 = seq![' '] + (b + r1);
    assert(fields(count, hash, dirty) =~= a + r0);
    assert forall|i: int| 0 <= i < a.len() implies !text::is_ws(#[trigger] a[i]) by {
        if i >= 6 {
            assert(a[i] == count[i - 6]);
        }
    }
    assert forall|i: int| 0 <= i < b.len() implies !text::is_ws(#[trigger] b[i]) by {
        if i >= 5 {
            assert(b[i] == hash[i - 5]);
        }
    }
    assert forall|i: int| 0 <= i < c.len() implies !text::is_ws(#[trigger] c[i]) by {
        if i >= 6 {
            assert(c[i] == flag[i - 6]);
        }
    }
    words_front(a, r0);
    assert(r0.drop_first() =~= b + r1);
    words_front(b, r1);
    assert(r1.drop_first() =~= c + none);
    words_front(c, none);
    let w = text::words(fields(count, hash, dirty));
    assert(text::words(none) =~= Seq::<Seq<char>>::empty());
    assert(w =~= seq![a, b, c]);
    field_parts("count"@, count);
    field_parts("hash"@, hash);
    field_parts("dirty"@, flag);
    assert("hash"@ != "count"@ && "dirty"@ != "count"@ && "dirty"@ != "hash"@) by {
        assert("hash"@.len() == 4 && "count"@.len() == 5 && "dirty"@.len() == 5);
        assert("dirty"@[0] == 'd' && "count"@[0] == 'c');
    }
    assert("0"@ != "1"@) by {
        assert("0"@[0] == '0' && "1"@[0] == '1');
    }
    assert(w.drop_last() =~= seq![a, b]);
    assert(w.drop_last().drop_last() =~= seq![a]);
    assert(w.drop_last().drop_last().drop_last() =~= Seq::<Seq<char>>::empty());
    reveal_with_fuel(read_fields, 4);
}

/// What `git describe` tells of a tag, whatever it holds, is read from the right: the count of
/// commits, the hash, and whether the tree has changes.
pub proof fn a_description_is_read_from_the_right(tag: Seq<char>, count: Seq<char>, hash: Seq<char>)
    requires
        count.len() > 0,
        text::all_digits(count),
        hash.len() > 0,
        text::all_hex(hash),
    ensures
        described(tag + "-"@ + count + "-g"@ + hash) == Some((count, hash, false)),
        described(tag + "-"@ + count + "-g"@ + hash + "-dirty"@) == Some((count, hash, true)),
{
    reveal_strlit("-");
    reveal_strlit("-g");
    reveal_strlit("-dirty");
    let front = tag + "-"@ + count;
    let rest = front + "-g"@ + hash;
    let c = tag.len() as int;
    let g = front.len() as int;
    text::last_before_is_last(rest, "-g"@, rest.len() - 2 + 1);
    assert(rest.subrange(g, g + 2) =~= "-g"@);
    assert(text::occurs_at(rest, "-g"@, g));
    assert forall|j: int| g < j < rest.len() implies !text::occurs_at(rest, "-g"@, j) by {
        if text::occurs_at(rest, "-g"@, j) {
            assert(rest.subrange(j, j + 2)[0] == rest[j]);
            if j == g + 1 {
                assert(rest[j] == 'g');
            } else {
                assert(rest[j] == hash[j - g - 2]);
                assert(text::is_hex(hash[j - g - 2]));
            }
        }
    }
    assert(rest.skip(g + 2) =~= hash);
    assert(rest.take(g) =~= front);
    text::last_before_is_last(front, "-"@, front.len() - 1 + 1);
    assert(front.subrange(c, c + 1) =~= "-"@);
    assert(text::occurs_at(front, "-"@, c));
    assert forall|j: int| c < j < front.len() implies !text::occurs_at(front, "-"@, j) by {
        if text::occurs_at(front, "-"@, j) {
            assert(front.subrange(j, j + 1)[0] == front[j]);
            assert(front[j] == count[j - c - 1]);
            assert(text::is_digit(count[j - c - 1]));
        }
    }
    assert(front.skip(c + 1) =~= count);
    let n = rest.len() as int;
    assert(rest[n - 1] == hash[hash.len() - 1]);
    assert(text::is_hex(hash[hash.len() - 1]));
    if text::ends(rest, "-dirty"@) {
        assert(rest.subrange(n - 6, n)[5] == rest[n - 1]);
    }
    let all = rest + "-dirty"@;
    let m = all.len() as int;
    assert(all.subrange(m - 6, m) =~= "-dirty"@);
    assert(all.take(m - 6) =~= rest);
}

/// Behind the release stand the commits beyond it, the hash of the build and whether its
/// tree had changes; a part that is not known is left out.
pub proof fn a_suffix_tells_the_build(n: nat, h: Seq<char>)
    requires
        n > 0,
    ensures
        suffix_of(Build { count: Some(n), hash: Some(h), dirty: false }) == " +"@ + number::dec(n)
            + " (g"@ + h + ")"@,
        suffix_of(Build { count: Some(n), hash: Some(h), dirty: true }) == " +"@ + number::dec(n)
            + " (g"@ + h + "-dirty"@ + ")"@,
        suffix_of(Build { count: Some(0), hash: Some(h), dirty: true }) == " (g"@ + h + "-dirty"@
            + ")"@,
        suffix_of(Build { count: Some(0), hash: Some(h), dirty: false }).len() == 0,
        suffix_of(Build { count: Some(n), hash: None, dirty: false }) == " +"@ + number::dec(n),
        suffix_of(Build { count: None, hash: Some(h), dirty: false }) == " (g"@ + h + ")"@,
        suffix_of(Build { count: None, hash: None, dirty: true }).len() == 0,
{
    reveal_strlit("");
    assert(""@ =~= Seq::<char>::empty());
    assert(h + ""@ =~= h);
    let a = " +"@ + number::dec(n) + " (g"@ + h;
    assert(a + ""@ =~= a);
    let b = " (g"@ + h;
    assert(b + ""@ =~= b);
    let c = " +"@ + number::dec(n);
    assert(c + ""@ =~= c);
}

} // verus!
