//! The arguments of a command.

use vstd::prelude::*;

use crate::number;
use crate::text;

verus! {

/// The argument at `i`, where there is one.
pub open spec fn arg(args: Seq<Seq<char>>, i: int) -> Option<Seq<char>> {
    if 0 <= i < args.len() {
        Some(args[i])
    } else {
        None
    }
}

/// The argument at `i`, or nothing where there is none.
pub open spec fn arg_or_empty(args: Seq<Seq<char>>, i: int) -> Seq<char> {
    match arg(args, i) {
        Some(s) => s,
        None => Seq::empty(),
    }
}

/// The whole number that the argument at `i` writes, where it is at most `max`.
pub open spec fn num(args: Seq<Seq<char>>, i: int, max: nat) -> Option<nat> {
    match arg(args, i) {
        Some(s) => number::unsigned_of(s, max),
        None => None,
    }
}

/// There is an argument at `i`, and it writes no whole number that is at most `max`.
pub open spec fn is_malformed(args: Seq<Seq<char>>, i: int, max: nat) -> bool {
    arg(args, i) is Some && num(args, i, max) is None
}

/// The arguments from `k` on.
pub open spec fn tail(args: Seq<Seq<char>>, k: int) -> Seq<Seq<char>> {
    if k <= args.len() {
        args.skip(k)
    } else {
        Seq::empty()
    }
}

/// Two texts that differ at most in the case of their ASCII letters.
pub open spec fn alike(a: Seq<char>, b: Seq<char>) -> bool {
    text::ascii_lower(a) == text::ascii_lower(b)
}

/// The first place at or after `i` that holds the word `w`, in any letter case.
pub open spec fn first_word(args: Seq<Seq<char>>, w: Seq<char>, i: int) -> Option<int>
    decreases args.len() - i,
{
    if i >= args.len() {
        None
    } else if alike(args[i], w) {
        Some(i)
    } else {
        first_word(args, w, i + 1)
    }
}

/// What `first_word` finds is such a place, and no place before it is.
pub proof fn first_word_is_first(args: Seq<Seq<char>>, w: Seq<char>, i: int)
    requires
        0 <= i,
    ensures
        first_word(args, w, i) matches Some(k) ==> i <= k < args.len() && alike(args[k], w)
            && forall|j: int| i <= j < k ==> !alike(#[trigger] args[j], w),
        first_word(args, w, i) is None ==> forall|j: int|
            i <= j < args.len() ==> !alike(#[trigger] args[j], w),
    decreases args.len() - i,
{
    if i < args.len() && !alike(args[i], w) {
        first_word_is_first(args, w, i + 1);
    }
}

/// The views of a part are a part of the views.
pub proof fn texts_of_part(v: Seq<String>, i: int, j: int)
    requires
        0 <= i <= j <= v.len(),
    ensures
        text::texts(v.subrange(i, j)) == text::texts(v).subrange(i, j),
{
    assert(text::texts(v.subrange(i, j)) =~= text::texts(v).subrange(i, j));
}

/// The argument at `i`, where there is one.
pub fn arg_str(args: &[String], i: usize) -> (r: Option<&str>)
    ensures
        text::opt_ref(r) == arg(text::texts(args@), i as int),
{
    if i < args.len() {
        Some(args[i].as_str())
    } else {
        None
    }
}

/// A copy of the argument at `i`, where there is one.
pub fn arg_copy(args: &[String], i: usize) -> (r: Option<String>)
    ensures
        text::opt(r) == arg(text::texts(args@), i as int),
{
    if i < args.len() {
        Some(args[i].clone())
    } else {
        None
    }
}

/// A copy of the argument at `i`, or nothing where there is none.
pub fn arg_or_default(args: &[String], i: usize) -> (r: String)
    ensures
        r@ == arg_or_empty(text::texts(args@), i as int),
{
    if i < args.len() {
        args[i].clone()
    } else {
        String::new()
    }
}

/// The arguments from `i` to `j`.
pub fn part(args: &[String], i: usize, j: usize) -> (r: &[String])
    requires
        i <= j <= args@.len(),
    ensures
        text::texts(r@) == text::texts(args@).subrange(i as int, j as int),
{
    proof {
        texts_of_part(args@, i as int, j as int);
    }
    vstd::slice::slice_subrange(args, i, j)
}

/// The arguments from `k` on.
pub fn tail_of(args: &[String], k: usize) -> (r: &[String])
    ensures
        text::texts(r@) == tail(text::texts(args@), k as int),
{
    let n: usize = args.len();
    if k <= n {
        let r = part(args, k, n);
        assert(text::texts(r@) =~= text::texts(args@).skip(k as int));
        r
    } else {
        let r = part(args, n, n);
        assert(text::texts(r@) =~= Seq::<Seq<char>>::empty());
        r
    }
}

/// The first place that holds the word `w`, in any letter case.
pub fn position(args: &[String], w: &str) -> (r: Option<usize>)
    ensures
        (match r {
            Some(i) => Some(i as int),
            None => None::<int>,
        }) == first_word(text::texts(args@), w@, 0),
        r matches Some(i) ==> i < args@.len(),
{
    position_from(args, w, 0)
}

/// The first place at or after `from` that holds the word `w`, in any letter case.
pub fn position_from(args: &[String], w: &str, from: usize) -> (r: Option<usize>)
    ensures
        (match r {
            Some(i) => Some(i as int),
            None => None::<int>,
        }) == first_word(text::texts(args@), w@, from as int),
        r matches Some(i) ==> from <= i < args@.len(),
{
    let mut i: usize = from;
    while i < args.len()
        invariant
            from <= i,
            first_word(text::texts(args@), w@, from as int) == first_word(
                text::texts(args@),
                w@,
                i as int,
            ),
        decreases args@.len() - i,
    {
        if text::same_ignoring_case(args[i].as_str(), w) {
            return Some(i);
        }
        i += 1;
    }
    None
}

/// The argument at `i` holds the word `w`, in any letter case.
pub open spec fn is_word(args: Seq<Seq<char>>, i: int, w: Seq<char>) -> bool {
    arg(args, i) matches Some(s) && alike(s, w)
}

/// Whether the argument at `i` holds the word `w`, in any letter case.
pub fn has_word(args: &[String], i: usize, w: &str) -> (r: bool)
    ensures
        r == is_word(text::texts(args@), i as int, w@),
{
    i < args.len() && text::same_ignoring_case(args[i].as_str(), w)
}

/// The argument at `i` in lower case, where there is one.
pub open spec fn keyword(args: Seq<Seq<char>>, i: int) -> Option<Seq<char>> {
    match arg(args, i) {
        Some(s) => Some(text::lower(s)),
        None => None,
    }
}

/// The argument at `i` in lower case, where there is one.
pub fn lower_arg(args: &[String], i: usize) -> (r: Option<String>)
    ensures
        text::opt(r) == keyword(text::texts(args@), i as int),
{
    if i < args.len() {
        Some(text::to_lower(args[i].as_str()))
    } else {
        None
    }
}

/// The `usize` that the argument at `i` writes.
pub fn usize_arg(args: &[String], i: usize) -> (r: Option<usize>)
    ensures
        (match r {
            Some(n) => Some(n as nat),
            None => None::<nat>,
        }) == num(text::texts(args@), i as int, usize::MAX as nat),
{
    match arg_str(args, i) {
        Some(s) => number::parse_usize(s),
        None => None,
    }
}

/// The `u64` that the argument at `i` writes.
pub fn u64_arg(args: &[String], i: usize) -> (r: Option<u64>)
    ensures
        (match r {
            Some(n) => Some(n as nat),
            None => None::<nat>,
        }) == num(text::texts(args@), i as int, u64::MAX as nat),
{
    match arg_str(args, i) {
        Some(s) => number::parse_u64(s),
        None => None,
    }
}

/// The `u32` that the argument at `i` writes.
pub fn u32_arg(args: &[String], i: usize) -> (r: Option<u32>)
    ensures
        (match r {
            Some(n) => Some(n as nat),
            None => None::<nat>,
        }) == num(text::texts(args@), i as int, u32::MAX as nat),
{
    match arg_str(args, i) {
        Some(s) => number::parse_u32(s),
        None => None,
    }
}

/// The `u8` that the argument at `i` writes.
pub fn u8_arg(args: &[String], i: usize) -> (r: Option<u8>)
    ensures
        (match r {
            Some(n) => Some(n as nat),
            None => None::<nat>,
        }) == num(text::texts(args@), i as int, u8::MAX as nat),
{
    match arg_str(args, i) {
        Some(s) => number::parse_u8(s),
        None => None,
    }
}

} // verus!
