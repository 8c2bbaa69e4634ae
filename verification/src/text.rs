//! Text as sequences of characters.
//!
//! Every executable function here is stated over the view of its arguments, a
//! `Seq<char>`, so that the parsers and renderers of the other modules can be
//! specified without speaking of bytes.

use vstd::prelude::*;

verus! {

/// `String::push` appends one character.
pub assume_specification[ String::push ](s: &mut String, c: char)
    ensures
        final(s)@ == old(s)@.push(c),
;

/// The views of a sequence of texts.
pub open spec fn texts(v: Seq<String>) -> Seq<Seq<char>> {
    Seq::new(v.len(), |i: int| v[i]@)
}

/// The views of a sequence of pairs of texts.
pub open spec fn pairs(v: Seq<(String, String)>) -> Seq<(Seq<char>, Seq<char>)> {
    Seq::new(v.len(), |i: int| (v[i].0@, v[i].1@))
}

/// The views of a sequence grow with it.
pub broadcast proof fn texts_push(v: Seq<String>, s: String)
    ensures
        #[trigger] texts(v.push(s)) == texts(v).push(s@),
{
    assert(texts(v.push(s)) =~= texts(v).push(s@));
}

/// The views of a sequence of pairs grow with it.
pub broadcast proof fn pairs_push(v: Seq<(String, String)>, p: (String, String))
    ensures
        #[trigger] pairs(v.push(p)) == pairs(v).push((p.0@, p.1@)),
{
    assert(pairs(v.push(p)) =~= pairs(v).push((p.0@, p.1@)));
}

/// The view of an optional text.
pub open spec fn opt(o: Option<String>) -> Option<Seq<char>> {
    match o {
        Some(s) => Some(s@),
        None => None,
    }
}

/// The view of an optional borrowed text.
pub open spec fn opt_ref(o: Option<&str>) -> Option<Seq<char>> {
    match o {
        Some(s) => Some(s@),
        None => None,
    }
}

// ---------------------------------------------------------------------------
// Conversions
// ---------------------------------------------------------------------------

/// The characters of `s`, in order.
pub fn chars(s: &str) -> (v: Vec<char>)
    ensures
        v@ == s@,
{
    let mut v: Vec<char> = Vec::new();
    for c in it: s.chars()
        invariant
            v@ == s@.take(it.index() as int),
            it.seq() == s@,
    {
        v.push(c);
    }
    assert(s@.take(s@.len() as int) == s@);
    v
}

/// The text made of the characters `v[from..to]`.
pub fn text_between(v: &[char], from: usize, to: usize) -> (s: String)
    requires
        from <= to <= v@.len(),
    ensures
        s@ == v@.subrange(from as int, to as int),
{
    let mut s = String::new();
    let mut i: usize = from;
    while i < to
        invariant
            from <= i <= to <= v@.len(),
            s@ == v@.subrange(from as int, i as int),
        decreases to - i,
    {
        s.push(v[i]);
        i += 1;
        assert(v@.subrange(from as int, i as int) == v@.subrange(from as int, i - 1).push(
            v@[i - 1],
        ));
    }
    s
}

/// An owned copy of each text.
pub fn copy_texts(v: &[String]) -> (r: Vec<String>)
    ensures
        texts(r@) == texts(v@),
{
    let mut r: Vec<String> = Vec::new();
    let mut i: usize = 0;
    while i < v.len()
        invariant
            i <= v.len(),
            texts(r@) == texts(v@).take(i as int),
        decreases v.len() - i,
    {
        broadcast use texts_push;

        r.push(v[i].clone());
        i += 1;
        assert(texts(v@).take(i as int) == texts(v@).take(i - 1).push(v@[i - 1]@));
    }
    assert(texts(v@).take(v@.len() as int) == texts(v@));
    r
}

/// Whether two texts are equal.
pub fn same(a: &str, b: &str) -> (r: bool)
    ensures
        r == (a@ == b@),
{
    a.to_owned() == b.to_owned()
}

/// An owned copy of an optional text.
pub fn copy_opt(o: &Option<String>) -> (r: Option<String>)
    ensures
        opt(r) == opt(*o),
{
    match o {
        Some(s) => Some(s.clone()),
        None => None,
    }
}

/// The views of words.
pub open spec fn views(words: Seq<&str>) -> Seq<Seq<char>> {
    Seq::new(words.len(), |i: int| words[i]@)
}

/// A text holds one of the words.
pub open spec fn has_any(s: Seq<char>, words: Seq<Seq<char>>) -> bool {
    exists|i: int| 0 <= i < words.len() && has(s, #[trigger] words[i])
}

/// A text is one of the words.
pub open spec fn is_any(s: Seq<char>, words: Seq<Seq<char>>) -> bool {
    exists|i: int| 0 <= i < words.len() && s == #[trigger] words[i]
}

/// Whether a text holds one of the words.
pub fn holds_any(s: &str, words: &Vec<&str>) -> (r: bool)
    ensures
        r == has_any(s@, views(words@)),
{
    let mut i: usize = 0;
    while i < words.len()
        invariant
            i <= words@.len(),
            forall|k: int| 0 <= k < i ==> (has(s@, #[trigger] views(words@)[k]) == false),
        decreases words@.len() - i,
    {
        if contains(s, words[i]) {
            assert(has(s@, views(words@)[i as int]));
            return true;
        }
        i += 1;
    }
    false
}

/// Whether a text is one of the words.
pub fn is_one_of(s: &str, words: &Vec<&str>) -> (r: bool)
    ensures
        r == is_any(s@, views(words@)),
{
    let mut i: usize = 0;
    while i < words.len()
        invariant
            i <= words@.len(),
            forall|k: int| 0 <= k < i ==> s@ != #[trigger] views(words@)[k],
        decreases words@.len() - i,
    {
        if same(s, words[i]) {
            assert(s@ == views(words@)[i as int]);
            return true;
        }
        i += 1;
    }
    false
}

// ---------------------------------------------------------------------------
// Character classes
// ---------------------------------------------------------------------------

/// The Unicode `White_Space` property.
pub open spec fn is_ws(c: char) -> bool {
    let n = c as u32;
    ||| 0x9 <= n <= 0xd
    ||| n == 0x20
    ||| n == 0x85
    ||| n == 0xa0
    ||| n == 0x1680
    ||| 0x2000 <= n <= 0x200a
    ||| n == 0x2028
    ||| n == 0x2029
    ||| n == 0x202f
    ||| n == 0x205f
    ||| n == 0x3000
}

/// Whether `c` is white space.
pub fn is_whitespace(c: char) -> (r: bool)
    ensures
        r == is_ws(c),
{
    let n: u32 = c as u32;
    (0x9 <= n && n <= 0xd) || n == 0x20 || n == 0x85 || n == 0xa0 || n == 0x1680 || (0x2000 <= n
        && n <= 0x200a) || n == 0x2028 || n == 0x2029 || n == 0x202f || n == 0x205f || n == 0x3000
}

/// A decimal digit.
pub open spec fn is_digit(c: char) -> bool {
    '0' <= c <= '9'
}

/// Whether `c` is a decimal digit.
pub fn is_decimal_digit(c: char) -> (r: bool)
    ensures
        r == is_digit(c),
{
    '0' <= c && c <= '9'
}

/// A hexadecimal digit, in either case.
pub open spec fn is_hex(c: char) -> bool {
    is_digit(c) || 'a' <= c <= 'f' || 'A' <= c <= 'F'
}

/// Whether `c` is a hexadecimal digit.
pub fn is_hex_digit(c: char) -> (r: bool)
    ensures
        r == is_hex(c),
{
    ('0' <= c && c <= '9') || ('a' <= c && c <= 'f') || ('A' <= c && c <= 'F')
}

/// A control character (Unicode general category `Cc`).
pub open spec fn is_ctl(c: char) -> bool {
    (c as u32) < 0x20 || 0x7f <= (c as u32) <= 0x9f
}

/// Whether `c` is a control character.
pub fn is_control(c: char) -> (r: bool)
    ensures
        r == is_ctl(c),
{
    let n: u32 = c as u32;
    n < 0x20 || (0x7f <= n && n <= 0x9f)
}

/// Every character of `s` is a decimal digit.
pub open spec fn all_digits(s: Seq<char>) -> bool {
    forall|i: int| 0 <= i < s.len() ==> is_digit(#[trigger] s[i])
}

/// Every character of `s` is a hexadecimal digit.
pub open spec fn all_hex(s: Seq<char>) -> bool {
    forall|i: int| 0 <= i < s.len() ==> is_hex(#[trigger] s[i])
}

/// Whether `s` is made of decimal digits alone.
pub fn only_digits(s: &str) -> (r: bool)
    ensures
        r == all_digits(s@),
{
    let v = chars(s);
    let mut i: usize = 0;
    while i < v.len()
        invariant
            i <= v@.len(),
            v@ == s@,
            forall|k: int| 0 <= k < i ==> is_digit(#[trigger] v@[k]),
        decreases v@.len() - i,
    {
        if !is_decimal_digit(v[i]) {
            assert(!is_digit(s@[i as int]));
            return false;
        }
        i += 1;
    }
    true
}

/// Whether `s` is made of hexadecimal digits alone.
pub fn only_hex(s: &str) -> (r: bool)
    ensures
        r == all_hex(s@),
{
    let v = chars(s);
    let mut i: usize = 0;
    while i < v.len()
        invariant
            i <= v@.len(),
            v@ == s@,
            forall|k: int| 0 <= k < i ==> is_hex(#[trigger] v@[k]),
        decreases v@.len() - i,
    {
        if !is_hex_digit(v[i]) {
            assert(!is_hex(s@[i as int]));
            return false;
        }
        i += 1;
    }
    true
}

// ---------------------------------------------------------------------------
// Letter case
// ---------------------------------------------------------------------------

/// The ASCII lower-case form of one character.
pub open spec fn ascii_lower_char(c: char) -> char {
    if 'A' <= c <= 'Z' {
        ((c as u8) + 32) as char
    } else {
        c
    }
}

/// The ASCII lower-case form of a text.
pub open spec fn ascii_lower(s: Seq<char>) -> Seq<char> {
    Seq::new(s.len(), |i: int| ascii_lower_char(s[i]))
}

/// Every character of `s` is ASCII.
pub open spec fn ascii(s: Seq<char>) -> bool {
    forall|i: int| 0 <= i < s.len() ==> (#[trigger] s[i] as u32) < 128
}

/// What `str::to_lowercase` gives for a text that is not all ASCII.
pub uninterp spec fn unicode_lower(s: Seq<char>) -> Seq<char>;

/// The lower-case form of a text.
pub open spec fn lower(s: Seq<char>) -> Seq<char> {
    if ascii(s) {
        ascii_lower(s)
    } else {
        unicode_lower(s)
    }
}

/// Small letters are their own lower-case form.
pub proof fn small_letters_stay(w: Seq<char>)
    requires
        forall|i: int| 0 <= i < w.len() ==> 'a' <= #[trigger] w[i] <= 'z',
    ensures
        lower(w) == w,
        ascii_lower(w) == w,
{
    assert(ascii_lower(w) =~= w);
    assert(ascii(w));
}

/// `str::to_lowercase`: the lower-case form by the Unicode property, which on a text of
/// ASCII characters maps the letters and nothing else.
#[verifier::external_body]
pub(crate) fn to_lower(s: &str) -> (r: String)
    ensures
        r@ == (if ascii(s@) {
            ascii_lower(s@)
        } else {
            unicode_lower(s@)
        }),
{
    s.to_lowercase()
}

/// What `char::is_alphanumeric` answers for a character beyond ASCII.
pub uninterp spec fn unicode_alphanumeric(c: char) -> bool;

/// A letter or a number.
pub open spec fn alphanumeric(c: char) -> bool {
    if (c as u32) < 128 {
        is_digit(c) || 'a' <= c <= 'z' || 'A' <= c <= 'Z'
    } else {
        unicode_alphanumeric(c)
    }
}

/// `char::is_alphanumeric`: the Unicode property, which on ASCII holds of the letters
/// and the decimal digits.
#[verifier::external_body]
pub(crate) fn is_alphanumeric(c: char) -> (r: bool)
    ensures
        r == (if (c as u32) < 128 {
            is_digit(c) || 'a' <= c <= 'z' || 'A' <= c <= 'Z'
        } else {
            unicode_alphanumeric(c)
        }),
{
    c.is_alphanumeric()
}

fn lower_char(c: char) -> (r: char)
    ensures
        r == ascii_lower_char(c),
{
    if 'A' <= c && c <= 'Z' {
        ((c as u8) + 32) as char
    } else {
        c
    }
}

/// Whether two texts are equal but for the case of their ASCII letters.
pub fn same_ignoring_case(a: &str, b: &str) -> (r: bool)
    ensures
        r == (ascii_lower(a@) == ascii_lower(b@)),
{
    let x = chars(a);
    let y = chars(b);
    if x.len() != y.len() {
        assert(ascii_lower(a@).len() != ascii_lower(b@).len());
        return false;
    }
    let mut i: usize = 0;
    while i < x.len()
        invariant
            i <= x@.len() == y@.len(),
            x@ == a@,
            y@ == b@,
            forall|k: int|
                0 <= k < i ==> ascii_lower_char(#[trigger] x@[k]) == ascii_lower_char(y@[k]),
        decreases x@.len() - i,
    {
        if lower_char(x[i]) != lower_char(y[i]) {
            assert(ascii_lower(a@)[i as int] != ascii_lower(b@)[i as int]);
            return false;
        }
        i += 1;
    }
    assert(ascii_lower(a@) =~= ascii_lower(b@));
    true
}


// ---------------------------------------------------------------------------
// Prefixes, suffixes and occurrences
// ---------------------------------------------------------------------------

/// `p` occurs in `s` at position `i`.
pub open spec fn occurs_at(s: Seq<char>, p: Seq<char>, i: int) -> bool {
    &&& 0 <= i
    &&& i + p.len() <= s.len()
    &&& s.subrange(i, i + p.len()) == p
}

/// `s` begins with `p`.
pub open spec fn begins(s: Seq<char>, p: Seq<char>) -> bool {
    occurs_at(s, p, 0)
}

/// `s` ends with `p`.
pub open spec fn ends(s: Seq<char>, p: Seq<char>) -> bool {
    occurs_at(s, p, s.len() - p.len())
}

/// `s` without the prefix `p`, where it begins with it.
pub open spec fn without_prefix(s: Seq<char>, p: Seq<char>) -> Option<Seq<char>> {
    if begins(s, p) {
        Some(s.skip(p.len() as int))
    } else {
        None
    }
}

/// `s` without the suffix `p`, where it ends with it.
pub open spec fn without_suffix(s: Seq<char>, p: Seq<char>) -> Option<Seq<char>> {
    if ends(s, p) {
        Some(s.take(s.len() - p.len()))
    } else {
        None
    }
}

/// The first position at or after `i` at which `p` occurs in `s`.
pub open spec fn first_from(s: Seq<char>, p: Seq<char>, i: int) -> Option<int>
    decreases s.len() - i + 1,
{
    if i + p.len() > s.len() {
        None
    } else if occurs_at(s, p, i) {
        Some(i)
    } else {
        first_from(s, p, i + 1)
    }
}

/// The first position at which `p` occurs in `s`.
pub open spec fn first_of(s: Seq<char>, p: Seq<char>) -> Option<int> {
    first_from(s, p, 0)
}

/// The last position before `n` at which `p` occurs in `s`.
pub open spec fn last_before(s: Seq<char>, p: Seq<char>, n: int) -> Option<int>
    decreases n,
{
    if n <= 0 {
        None
    } else if occurs_at(s, p, n - 1) {
        Some(n - 1)
    } else {
        last_before(s, p, n - 1)
    }
}

/// The last position at which `p` occurs in `s`.
pub open spec fn last_of(s: Seq<char>, p: Seq<char>) -> Option<int> {
    last_before(s, p, s.len() - p.len() + 1)
}

/// `p` occurs somewhere in `s`.
pub open spec fn has(s: Seq<char>, p: Seq<char>) -> bool {
    exists|i: int| occurs_at(s, p, i)
}

/// What `first_from` finds is the first occurrence; where it finds none there is none.
pub proof fn first_from_is_first(s: Seq<char>, p: Seq<char>, i: int)
    requires
        0 <= i,
    ensures
        first_from(s, p, i) matches Some(k) ==> i <= k && occurs_at(s, p, k) && forall|j: int|
            i <= j < k ==> !occurs_at(s, p, j),
        first_from(s, p, i) is None ==> forall|j: int| i <= j ==> !occurs_at(s, p, j),
    decreases s.len() - i + 1,
{
    if i + p.len() <= s.len() && !occurs_at(s, p, i) {
        first_from_is_first(s, p, i + 1);
    }
}

/// What `last_before` finds is the last occurrence; where it finds none there is none.
pub proof fn last_before_is_last(s: Seq<char>, p: Seq<char>, n: int)
    ensures
        last_before(s, p, n) matches Some(k) ==> 0 <= k < n && occurs_at(s, p, k) && forall|j: int|
            k < j < n ==> !occurs_at(s, p, j),
        last_before(s, p, n) is None ==> forall|j: int| j < n ==> !occurs_at(s, p, j),
    decreases n,
{
    if n > 0 && !occurs_at(s, p, n - 1) {
        last_before_is_last(s, p, n - 1);
    }
}

fn matches_at(s: &Vec<char>, p: &Vec<char>, i: usize) -> (r: bool)
    requires
        i + p@.len() <= s@.len(),
    ensures
        r == occurs_at(s@, p@, i as int),
{
    let n: usize = s.len();
    let mut k: usize = 0;
    while k < p.len()
        invariant
            k <= p@.len(),
            i + p@.len() <= s@.len() == n,
            forall|j: int| 0 <= j < k ==> s@[i + j] == #[trigger] p@[j],
        decreases p@.len() - k,
    {
        if s[i + k] != p[k] {
            assert(s@.subrange(i as int, i + p@.len())[k as int] != p@[k as int]);
            return false;
        }
        k += 1;
    }
    assert(s@.subrange(i as int, i + p@.len()) =~= p@);
    true
}

/// Whether `s` begins with `p`.
pub fn starts_with(s: &str, p: &str) -> (r: bool)
    ensures
        r == begins(s@, p@),
{
    let x = chars(s);
    let y = chars(p);
    y.len() <= x.len() && matches_at(&x, &y, 0)
}

/// Whether `s` ends with `p`.
pub fn ends_with(s: &str, p: &str) -> (r: bool)
    ensures
        r == ends(s@, p@),
{
    let x = chars(s);
    let y = chars(p);
    y.len() <= x.len() && matches_at(&x, &y, x.len() - y.len())
}

/// `s` without the prefix `p`, where it begins with it.
pub fn strip_prefix(s: &str, p: &str) -> (r: Option<String>)
    ensures
        opt(r) == without_prefix(s@, p@),
{
    let x = chars(s);
    let y = chars(p);
    if y.len() <= x.len() && matches_at(&x, &y, 0) {
        let t = text_between(&x, y.len(), x.len());
        assert(t@ =~= s@.skip(p@.len() as int));
        Some(t)
    } else {
        None
    }
}

/// `s` without the suffix `p`, where it ends with it.
pub fn strip_suffix(s: &str, p: &str) -> (r: Option<String>)
    ensures
        opt(r) == without_suffix(s@, p@),
{
    let x = chars(s);
    let y = chars(p);
    if y.len() <= x.len() && matches_at(&x, &y, x.len() - y.len()) {
        let t = text_between(&x, 0, x.len() - y.len());
        assert(t@ =~= s@.take(s@.len() - p@.len()));
        Some(t)
    } else {
        None
    }
}

/// The first position at which `p` occurs in `s`, counted in characters.
pub fn find(s: &str, p: &str) -> (r: Option<usize>)
    ensures
        (match r {
            Some(i) => Some(i as int),
            None => None::<int>,
        }) == first_of(s@, p@),
        r matches Some(i) ==> i + p@.len() <= s@.len(),
{
    let x = chars(s);
    let y = chars(p);
    let mut i: usize = 0;
    if y.len() > x.len() {
        return None;
    }
    while i <= x.len() - y.len()
        invariant
            x@ == s@,
            y@ == p@,
            y@.len() <= x@.len(),
            i <= x@.len() - y@.len() + 1,
            first_of(s@, p@) == first_from(s@, p@, i as int),
        decreases x@.len() - i,
    {
        if matches_at(&x, &y, i) {
            return Some(i);
        }
        if i == x.len() - y.len() {
            assert(first_from(s@, p@, i + 1) is None);
            return None;
        }
        i += 1;
    }
    None
}

/// The last position at which `p` occurs in `s`, counted in characters.
pub fn rfind(s: &str, p: &str) -> (r: Option<usize>)
    ensures
        (match r {
            Some(i) => Some(i as int),
            None => None::<int>,
        }) == last_of(s@, p@),
        r matches Some(i) ==> i + p@.len() <= s@.len(),
{
    let x = chars(s);
    let y = chars(p);
    if y.len() > x.len() {
        return None;
    }
    let mut n: usize = x.len() - y.len();
    if matches_at(&x, &y, n) {
        return Some(n);
    }
    while n > 0
        invariant
            x@ == s@,
            y@ == p@,
            y@.len() <= x@.len(),
            n <= x@.len() - y@.len(),
            last_of(s@, p@) == last_before(s@, p@, n as int),
        decreases n,
    {
        n -= 1;
        if matches_at(&x, &y, n) {
            return Some(n);
        }
    }
    None
}

/// Whether `p` occurs in `s`.
pub fn contains(s: &str, p: &str) -> (r: bool)
    ensures
        r == has(s@, p@),
{
    let r = find(s, p);
    proof {
        first_from_is_first(s@, p@, 0);
    }
    if let Some(i) = r {
        assert(occurs_at(s@, p@, i as int));
        true
    } else {
        assert forall|i: int| !occurs_at(s@, p@, i) by {
            if i >= 0 {
            }
        }
        false
    }
}

/// `s` split at the first occurrence of `p`, which belongs to neither part.
pub open spec fn parted(s: Seq<char>, p: Seq<char>) -> Option<(Seq<char>, Seq<char>)> {
    match first_of(s, p) {
        Some(i) => Some((s.take(i), s.skip(i + p.len()))),
        None => None,
    }
}

/// `s` split at the first occurrence of `p`.
pub fn split_once(s: &str, p: &str) -> (r: Option<(String, String)>)
    ensures
        (match r {
            Some(t) => Some((t.0@, t.1@)),
            None => None,
        }) == parted(s@, p@),
{
    match find(s, p) {
        Some(i) => {
            let x = chars(s);
            let n: usize = chars(p).len();
            let m: usize = x.len();
            let a = text_between(&x, 0, i);
            let b = text_between(&x, i + n, m);
            assert(a@ =~= s@.take(i as int));
            assert(b@ =~= s@.skip(i + p@.len()));
            Some((a, b))
        },
        None => None,
    }
}


// ---------------------------------------------------------------------------
// Trimming
// ---------------------------------------------------------------------------

/// The white-space characters.
pub open spec fn ws() -> Set<char> {
    Set::new(|c: char| is_ws(c))
}

/// The set of one character.
pub open spec fn just(c: char) -> Set<char> {
    set![c]
}

/// The characters that end a line.
pub open spec fn line_ends() -> Set<char> {
    set!['\r', '\n']
}

/// `s` without its longest prefix of characters in `cs`.
pub open spec fn trim_start_in(s: Seq<char>, cs: Set<char>) -> Seq<char>
    decreases s.len(),
{
    if s.len() > 0 && cs.contains(s[0]) {
        trim_start_in(s.drop_first(), cs)
    } else {
        s
    }
}

/// `s` without its longest suffix of characters in `cs`.
pub open spec fn trim_end_in(s: Seq<char>, cs: Set<char>) -> Seq<char>
    decreases s.len(),
{
    if s.len() > 0 && cs.contains(s.last()) {
        trim_end_in(s.drop_last(), cs)
    } else {
        s
    }
}

/// `s` without the characters in `cs` at either end.
pub open spec fn trim_in(s: Seq<char>, cs: Set<char>) -> Seq<char> {
    trim_end_in(trim_start_in(s, cs), cs)
}

/// `s` without the white space at either end.
pub open spec fn trimmed(s: Seq<char>) -> Seq<char> {
    trim_in(s, ws())
}

fn trim_start_by(s: &str, f: impl Fn(char) -> bool, Ghost(cs): Ghost<Set<char>>) -> (r: String)
    requires
        forall|c: char| f.requires((c,)),
        forall|c: char, b: bool| f.ensures((c,), b) ==> b == cs.contains(c),
    ensures
        r@ == trim_start_in(s@, cs),
{
    let v = chars(s);
    let mut i: usize = 0;
    assert(v@.skip(0) == v@);
    while i < v.len()
        invariant
            i <= v@.len(),
            v@ == s@,
            forall|c: char| f.requires((c,)),
            forall|c: char, b: bool| f.ensures((c,), b) ==> b == cs.contains(c),
            trim_start_in(s@, cs) == trim_start_in(v@.skip(i as int), cs),
        ensures
            i <= v@.len(),
            trim_start_in(s@, cs) == v@.skip(i as int),
        decreases v@.len() - i,
    {
        assert(v@.skip(i as int)[0] == v@[i as int]);
        if !f(v[i]) {
            break;
        }
        assert(v@.skip(i as int).drop_first() == v@.skip(i + 1));
        i += 1;
    }
    let r = text_between(&v, i, v.len());
    assert(r@ =~= v@.skip(i as int));
    r
}

fn trim_end_by(s: &str, f: impl Fn(char) -> bool, Ghost(cs): Ghost<Set<char>>) -> (r: String)
    requires
        forall|c: char| f.requires((c,)),
        forall|c: char, b: bool| f.ensures((c,), b) ==> b == cs.contains(c),
    ensures
        r@ == trim_end_in(s@, cs),
{
    let v = chars(s);
    let mut n: usize = v.len();
    assert(v@.take(v@.len() as int) == v@);
    while n > 0
        invariant
            n <= v@.len(),
            v@ == s@,
            forall|c: char| f.requires((c,)),
            forall|c: char, b: bool| f.ensures((c,), b) ==> b == cs.contains(c),
            trim_end_in(s@, cs) == trim_end_in(v@.take(n as int), cs),
        ensures
            n <= v@.len(),
            trim_end_in(s@, cs) == v@.take(n as int),
        decreases n,
    {
        assert(v@.take(n as int).last() == v@[n - 1]);
        if !f(v[n - 1]) {
            break;
        }
        assert(v@.take(n as int).drop_last() == v@.take(n - 1));
        n -= 1;
    }
    let r = text_between(&v, 0, n);
    assert(r@ =~= v@.take(n as int));
    r
}

/// `s` without the white space at its start.
pub fn trim_start(s: &str) -> (r: String)
    ensures
        r@ == trim_start_in(s@, ws()),
{
    let f = |c: char| -> (b: bool)
        ensures
            b == ws().contains(c),
        { is_whitespace(c) };
    trim_start_by(s, f, Ghost(ws()))
}

/// `s` without the white space at its end.
pub fn trim_end(s: &str) -> (r: String)
    ensures
        r@ == trim_end_in(s@, ws()),
{
    let f = |c: char| -> (b: bool)
        ensures
            b == ws().contains(c),
        { is_whitespace(c) };
    trim_end_by(s, f, Ghost(ws()))
}

/// `s` without the white space at either end.
pub fn trim(s: &str) -> (r: String)
    ensures
        r@ == trimmed(s@),
{
    let t = trim_start(s);
    trim_end(t.as_str())
}

/// `s` without the characters `x` at its start.
pub fn trim_start_char(s: &str, x: char) -> (r: String)
    ensures
        r@ == trim_start_in(s@, just(x)),
{
    let f = |c: char| -> (b: bool)
        ensures
            b == just(x).contains(c),
        { c == x };
    trim_start_by(s, f, Ghost(just(x)))
}

/// `s` without the characters `x` at its end.
pub fn trim_end_char(s: &str, x: char) -> (r: String)
    ensures
        r@ == trim_end_in(s@, just(x)),
{
    let f = |c: char| -> (b: bool)
        ensures
            b == just(x).contains(c),
        { c == x };
    trim_end_by(s, f, Ghost(just(x)))
}

/// `s` without the line ends at its end.
pub fn trim_line_end(s: &str) -> (r: String)
    ensures
        r@ == trim_end_in(s@, line_ends()),
{
    let f = |c: char| -> (b: bool)
        ensures
            b == line_ends().contains(c),
        { c == '\r' || c == '\n' };
    trim_end_by(s, f, Ghost(line_ends()))
}

// ---------------------------------------------------------------------------
// Splitting and joining
// ---------------------------------------------------------------------------

/// The pieces of `s` between the occurrences of `p`.
pub open spec fn pieces(s: Seq<char>, p: Seq<char>) -> Seq<Seq<char>>
    decreases s.len(),
{
    match first_of(s, p) {
        Some(i) => if p.len() > 0 && 0 <= i && i + p.len() <= s.len() {
            seq![s.take(i)] + pieces(s.skip(i + p.len()), p)
        } else {
            seq![s]
        },
        None => seq![s],
    }
}

/// The pieces of `s` between the occurrences of `p`.
pub fn split(s: &str, p: &str) -> (r: Vec<String>)
    requires
        p@.len() > 0,
    ensures
        texts(r@) == pieces(s@, p@),
{
    let mut r: Vec<String> = Vec::new();
    let mut rest: String = s.to_owned();
    assert(texts(r@) + pieces(rest@, p@) =~= pieces(s@, p@));
    loop
        invariant
            p@.len() > 0,
            texts(r@) + pieces(rest@, p@) == pieces(s@, p@),
        decreases rest@.len(),
    {
        broadcast use texts_push;

        proof {
            first_from_is_first(rest@, p@, 0);
        }
        let ghost done = texts(r@);
        match split_once(rest.as_str(), p) {
            Some((a, b)) => {
                assert(pieces(rest@, p@) == seq![a@] + pieces(b@, p@));
                r.push(a);
                rest = b;
                assert(texts(r@) + pieces(rest@, p@) =~= done + (seq![a@] + pieces(b@, p@)));
            },
            None => {
                assert(pieces(rest@, p@) == seq![rest@]);
                assert(done + seq![rest@] =~= done.push(rest@));
                r.push(rest);
                return r;
            },
        }
    }
}

/// The length of the longest prefix of `s` without white space.
pub open spec fn word_len(s: Seq<char>) -> nat
    decreases s.len(),
{
    if s.len() > 0 && !is_ws(s[0]) {
        1 + word_len(s.drop_first())
    } else {
        0
    }
}

/// A word is no longer than the text it begins.
pub proof fn word_len_bound(s: Seq<char>)
    ensures
        word_len(s) <= s.len(),
        forall|i: int| 0 <= i < word_len(s) ==> !is_ws(#[trigger] s[i]),
        word_len(s) < s.len() ==> is_ws(s[word_len(s) as int]),
    decreases s.len(),
{
    if s.len() > 0 && !is_ws(s[0]) {
        word_len_bound(s.drop_first());
        assert forall|i: int| 0 <= i < word_len(s) implies !is_ws(#[trigger] s[i]) by {
            if i > 0 {
                assert(s[i] == s.drop_first()[i - 1]);
            }
        }
    }
}

/// The words of `s`: its longest runs without white space.
pub open spec fn words(s: Seq<char>) -> Seq<Seq<char>>
    decreases s.len(),
{
    if s.len() == 0 {
        Seq::empty()
    } else if is_ws(s[0]) {
        words(s.drop_first())
    } else {
        let n = word_len(s) as int;
        if 0 < n <= s.len() {
            seq![s.take(n)] + words(s.skip(n))
        } else {
            Seq::empty()
        }
    }
}

/// The words of `s`.
pub fn split_whitespace(s: &str) -> (r: Vec<String>)
    ensures
        texts(r@) == words(s@),
{
    let v = chars(s);
    let mut r: Vec<String> = Vec::new();
    let mut i: usize = 0;
    assert(v@.skip(0) == v@);
    assert(texts(r@) + words(v@.skip(0)) =~= words(s@));
    while i < v.len()
        invariant
            i <= v@.len(),
            v@ == s@,
            texts(r@) + words(v@.skip(i as int)) == words(s@),
        decreases v@.len() - i,
    {
        broadcast use texts_push;

        let ghost rest = v@.skip(i as int);
        assert(rest[0] == v@[i as int]);
        if is_whitespace(v[i]) {
            assert(rest.drop_first() == v@.skip(i + 1));
            i += 1;
        } else {
            let start: usize = i;
            proof {
                word_len_bound(rest);
            }
            while i < v.len() && !is_whitespace(v[i])
                invariant
                    start <= i <= v@.len(),
                    forall|k: int| start <= k < i ==> !is_ws(#[trigger] v@[k]),
                decreases v@.len() - i,
            {
                i += 1;
            }
            proof {
                let n = word_len(rest) as int;
                assert(rest[0] == v@[start as int]);
                if n < i - start {
                    assert(is_ws(rest[n]));
                    assert(rest[n] == v@[start + n]);
                }
                if n > i - start {
                    assert(!is_ws(rest[i - start]));
                    assert(rest[i - start] == v@[i as int]);
                }
                assert(n == i - start);
                assert(v@.subrange(start as int, i as int) =~= rest.take(n));
                assert(v@.skip(i as int) =~= rest.skip(n));
                assert(words(rest) == seq![rest.take(n)] + words(rest.skip(n)));
            }
            let ghost done = texts(r@);
            let w = text_between(&v, start, i);
            r.push(w);
            assert(texts(r@) + words(v@.skip(i as int)) =~= done + words(rest));
        }
    }
    assert(v@.skip(v@.len() as int) == Seq::<char>::empty());
    assert(texts(r@) + Seq::<Seq<char>>::empty() =~= texts(r@));
    r
}

/// The texts `v` with `sep` between each two.
pub open spec fn joined(v: Seq<Seq<char>>, sep: Seq<char>) -> Seq<char>
    decreases v.len(),
{
    if v.len() == 0 {
        Seq::empty()
    } else if v.len() == 1 {
        v[0]
    } else {
        joined(v.drop_last(), sep) + sep + v.last()
    }
}

/// The texts `v` with `sep` between each two.
pub fn join(v: &[String], sep: &str) -> (r: String)
    ensures
        r@ == joined(texts(v@), sep@),
{
    let mut r = String::new();
    let mut i: usize = 0;
    while i < v.len()
        invariant
            i <= v@.len(),
            r@ == joined(texts(v@).take(i as int), sep@),
        decreases v@.len() - i,
    {
        let ghost before = r@;
        if i > 0 {
            r.append(sep);
        }
        r.append(v[i].as_str());
        proof {
            let t = texts(v@).take(i + 1);
            assert(t.drop_last() == texts(v@).take(i as int));
            assert(t.last() == v@[i as int]@);
            if i == 0 {
                assert(t.len() == 1);
                assert(r@ =~= t[0]);
            } else {
                assert(r@ =~= before + sep@ + v@[i as int]@);
            }
        }
        i += 1;
    }
    assert(texts(v@).take(v@.len() as int) == texts(v@));
    r
}

// ---------------------------------------------------------------------------
// Laws
// ---------------------------------------------------------------------------

/// A letter has a small form 32 places on, and every other character is its own.
pub proof fn capitals_have_a_small_form(c: char)
    ensures
        'A' <= c <= 'Z' ==> ascii_lower_char(c) as u32 == c as u32 + 32,
        !('A' <= c <= 'Z') ==> ascii_lower_char(c) == c,
{
}

/// Blanks, tabs and ends of lines are white space; letters, digits and other visible
/// characters of ASCII are not.
pub proof fn white_space_is_what_is_not_seen(c: char)
    requires
        (c as u32) < 128,
    ensures
        is_ws(c) <==> c == ' ' || c == '\t' || c == '\n' || c == '\r' || c as u32 == 11 || c as u32
            == 12,
        is_hex(c) <==> ('0' <= c <= '9' || 'a' <= c <= 'f' || 'A' <= c <= 'F'),
        is_digit(c) <==> '0' <= c <= '9',
        alphanumeric(c) <==> ('0' <= c <= '9' || 'a' <= c <= 'z' || 'A' <= c <= 'Z'),
        is_ctl(c) <==> (c as u32) < 32 || c as u32 == 127,
{
}

/// White space around a text is trimmed away, and nothing else.
pub proof fn only_white_space_is_trimmed(a: Seq<char>, s: Seq<char>, b: Seq<char>)
    requires
        forall|i: int| 0 <= i < a.len() ==> is_ws(#[trigger] a[i]),
        forall|i: int| 0 <= i < b.len() ==> is_ws(#[trigger] b[i]),
        s.len() > 0,
        !is_ws(s[0]),
        !is_ws(s.last()),
    ensures
        trimmed(a + s + b) == s,
        trimmed(a) == Seq::<char>::empty(),
{
    starts_are_trimmed(a, s + b);
    assert((s + b)[0] == s[0]);
    assert(a + s + b =~= a + (s + b));
    ends_are_trimmed(s, b);
    starts_are_trimmed(a, Seq::empty());
    assert(a + Seq::<char>::empty() =~= a);
}

proof fn starts_are_trimmed(a: Seq<char>, s: Seq<char>)
    requires
        forall|i: int| 0 <= i < a.len() ==> is_ws(#[trigger] a[i]),
        s.len() > 0 ==> !is_ws(s[0]),
    ensures
        trim_start_in(a + s, ws()) == s,
    decreases a.len(),
{
    if a.len() == 0 {
        assert(a + s =~= s);
    } else {
        assert((a + s)[0] == a[0]);
        assert((a + s).drop_first() =~= a.drop_first() + s);
        starts_are_trimmed(a.drop_first(), s);
    }
}

proof fn ends_are_trimmed(s: Seq<char>, b: Seq<char>)
    requires
        forall|i: int| 0 <= i < b.len() ==> is_ws(#[trigger] b[i]),
        s.len() > 0,
        !is_ws(s.last()),
    ensures
        trim_end_in(s + b, ws()) == s,
    decreases b.len(),
{
    if b.len() == 0 {
        assert(s + b =~= s);
    } else {
        assert((s + b).last() == b[b.len() - 1]);
        assert((s + b).drop_last() =~= s + b.drop_last());
        ends_are_trimmed(s, b.drop_last());
    }
}

/// Words are what stands between white space: a word ends where white space begins, and
/// white space before a word is no part of it, however much there is.
pub proof fn words_are_parted_by_white_space(w: Seq<char>, rest: Seq<char>, c: char)
    requires
        w.len() > 0,
        forall|i: int| 0 <= i < w.len() ==> !is_ws(#[trigger] w[i]),
        rest.len() > 0 ==> is_ws(rest[0]),
        is_ws(c),
    ensures
        words(w + rest) == seq![w] + words(rest),
        words(seq![c] + rest) == words(rest),
        words(seq![c] + (w + rest)) == seq![w] + words(rest),
{
    let s = w + rest;
    word_len_bound(s);
    let n = word_len(s) as int;
    assert(s[0] == w[0]);
    if n < w.len() {
        assert(s[n] == w[n]);
    }
    if n > w.len() {
        assert(s[w.len() as int] == rest[0]);
    }
    assert(s.take(n) =~= w);
    assert(s.skip(n) =~= rest);
    assert((seq![c] + rest).drop_first() =~= rest);
    assert((seq![c] + s).drop_first() =~= s);
}

/// Texts are joined in order, with the separator between each two and nowhere else.
pub proof fn texts_are_joined_in_order(v: Seq<Seq<char>>, x: Seq<char>, sep: Seq<char>)
    ensures
        joined(Seq::empty(), sep).len() == 0,
        joined(seq![x], sep) == x,
        v.len() > 0 ==> joined(v.push(x), sep) == joined(v, sep) + sep + x,
{
    if v.len() > 0 {
        assert(v.push(x).drop_last() =~= v);
    }
}

/// The pieces of a text, joined again, are the text; and none of them holds the
/// separator.
pub proof fn pieces_make_the_text(s: Seq<char>, p: Seq<char>)
    requires
        p.len() > 0,
    ensures
        joined(pieces(s, p), p) == s,
        pieces(s, p).len() > 0,
        forall|i: int| 0 <= i < pieces(s, p).len() ==> has(#[trigger] pieces(s, p)[i], p) == false,
    decreases s.len(),
{
    first_from_is_first(s, p, 0);
    match first_of(s, p) {
        Some(i) => {
            let head = s.take(i);
            let rest = s.skip(i + p.len());
            pieces_make_the_text(rest, p);
            joined_from_front(head, pieces(rest, p), p);
            assert(s.subrange(i, i + p.len()) == p);
            assert(head + p + rest =~= s);
            assert(has(head, p) == false) by {
                if has(head, p) {
                    let k = choose|k: int| occurs_at(head, p, k);
                    assert(s.subrange(k, k + p.len()) =~= head.subrange(k, k + p.len()));
                    assert(occurs_at(s, p, k));
                }
            }
            let all = pieces(s, p);
            assert(all == seq![head] + pieces(rest, p));
            assert forall|k: int| 0 <= k < all.len() implies has(#[trigger] all[k], p)
                == false by {
                if k > 0 {
                    assert(all[k] == pieces(rest, p)[k - 1]);
                }
            }
        },
        None => {
            assert(pieces(s, p) =~= seq![s]);
            assert(has(s, p) == false) by {
                if has(s, p) {
                    let k = choose|k: int| occurs_at(s, p, k);
                    assert(!occurs_at(s, p, k));
                }
            }
        },
    }
}

proof fn joined_from_front(x: Seq<char>, v: Seq<Seq<char>>, sep: Seq<char>)
    requires
        v.len() > 0,
    ensures
        joined(seq![x] + v, sep) == x + sep + joined(v, sep),
    decreases v.len(),
{
    let all = seq![x] + v;
    assert(all.last() == v.last());
    assert(all.drop_last() =~= seq![x] + v.drop_last());
    assert(joined(all, sep) == joined(all.drop_last(), sep) + sep + all.last());
    if v.len() == 1 {
        assert(all.drop_last() =~= seq![x]);
        assert(joined(seq![x], sep) == x);
        assert(joined(v, sep) == v[0]);
    } else {
        joined_from_front(x, v.drop_last(), sep);
        assert(x + sep + joined(v.drop_last(), sep) + sep + v.last() =~= x + sep + (joined(
            v.drop_last(),
            sep,
        ) + sep + v.last()));
    }
}

} // verus!
