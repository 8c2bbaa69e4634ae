//! What the command line asks for.

use vstd::prelude::*;

use crate::number;
use crate::text;

verus! {

/// What the command line asks for.
#[derive(Debug)]
pub struct Parsed {
    /// The host.
    pub host: Option<String>,
    /// The port.
    pub port: Option<u16>,
    /// Whether the help is asked for.
    pub help: bool,
    /// The words behind the flags.
    pub words: Vec<String>,
}

/// What the command line asks for, as text.
#[verifier::ext_equal]
pub struct Asked {
    /// The host.
    pub host: Option<Seq<char>>,
    /// The port.
    pub port: Option<nat>,
    /// Whether the help is asked for.
    pub help: bool,
    /// The words behind the flags.
    pub words: Seq<Seq<char>>,
}

impl Parsed {
    /// This, as text.
    pub open spec fn asked(self) -> Asked {
        Asked {
            host: text::opt(self.host),
            port: match self.port {
                Some(p) => Some(p as nat),
                None => None,
            },
            help: self.help,
            words: text::texts(self.words@),
        }
    }
}

/// What the arguments from `i` on ask for, on top of what those before them did, or why
/// they cannot be read. The flags come first: from the first other word on everything is
/// a word.
pub open spec fn read_from(a: Seq<Seq<char>>, i: int, so_far: Asked) -> Result<Asked, Seq<char>>
    decreases a.len() - i,
{
    if i >= a.len() {
        Ok(so_far)
    } else if a[i] == "--host"@ {
        if i + 1 < a.len() {
            read_from(a, i + 2, Asked { host: Some(a[i + 1]), ..so_far })
        } else {
            Err("--host needs a value"@)
        }
    } else if a[i] == "--port"@ {
        if i + 1 < a.len() {
            match number::unsigned_of(a[i + 1], u16::MAX as nat) {
                Some(p) => read_from(a, i + 2, Asked { port: Some(p), ..so_far }),
                None => Err("bad port: "@ + a[i + 1]),
            }
        } else {
            Err("--port needs a value"@)
        }
    } else if a[i] == "-h"@ || a[i] == "--help"@ {
        read_from(a, i + 1, Asked { help: true, ..so_far })
    } else {
        Ok(Asked { words: a.skip(i), ..so_far })
    }
}

/// Nothing is asked for.
pub open spec fn nothing() -> Asked {
    Asked { host: None, port: None, help: false, words: Seq::empty() }
}

/// What the command line asks for, or why it cannot be read.
pub fn parse_args(raw: Vec<String>) -> (r: Result<Parsed, String>)
    ensures
        match r {
            Ok(p) => read_from(text::texts(raw@), 0, nothing()) == Ok::<Asked, Seq<char>>(
                p.asked(),
            ),
            Err(e) => read_from(text::texts(raw@), 0, nothing()) == Err::<Asked, Seq<char>>(e@),
        },
{
    let ghost a = text::texts(raw@);
    let n: usize = raw.len();
    let mut host: Option<String> = None;
    let mut port: Option<u16> = None;
    let mut help = false;
    let ghost mut so_far = nothing();
    let mut i: usize = 0;
    while i < n
        invariant
            i <= n == raw@.len(),
            a == text::texts(raw@),
            so_far.host == text::opt(host),
            so_far.port == (match port {
                Some(p) => Some(p as nat),
                None => None,
            }),
            so_far.help == help,
            so_far.words == Seq::<Seq<char>>::empty(),
            read_from(a, 0, nothing()) == read_from(a, i as int, so_far),
        decreases n - i,
    {
        let w = raw[i].as_str();
        assert(a[i as int] == w@);
        if text::same(w, "--host") {
            if n - i < 2 {
                return Err("--host needs a value".to_owned());
            }
            host = Some(raw[i + 1].clone());
            proof {
                so_far = Asked { host: Some(a[i + 1]), ..so_far };
            }
            i += 2;
        } else if text::same(w, "--port") {
            if n - i < 2 {
                return Err("--port needs a value".to_owned());
            }
            match number::parse_u16(raw[i + 1].as_str()) {
                Some(p) => {
                    port = Some(p);
                    proof {
                        so_far = Asked { port: Some(p as nat), ..so_far };
                    }
                },
                None => {
                    let mut e = "bad port: ".to_owned();
                    e.append(raw[i + 1].as_str());
                    return Err(e);
                },
            }
            i += 2;
        } else if text::same(w, "-h") || text::same(w, "--help") {
            help = true;
            proof {
                so_far = Asked { help: true, ..so_far };
            }
            i += 1;
        } else {
            let rest = vstd::slice::slice_subrange(raw.as_slice(), i, n);
            let words = text::copy_texts(rest);
            assert(text::texts(words@) =~= a.skip(i as int));
            let p = Parsed { host, port, help, words };
            assert(p.asked() =~= Asked { words: a.skip(i as int), ..so_far });
            return Ok(p);
        }
    }
    let p = Parsed { host, port, help, words: Vec::new() };
    assert(p.asked() =~= so_far);
    Ok(p)
}

/// Whether the user confirms: with `y` or `yes`, in any letter case, and nothing else.
pub open spec fn is_yes(line: Seq<char>) -> bool {
    let s = text::lower(text::trimmed(line));
    s == "y"@ || s == "yes"@
}

/// Whether the user confirms. `None` is the end of the input.
pub fn confirms(line: Option<&str>) -> (r: bool)
    ensures
        r == (match line {
            Some(s) => is_yes(s@),
            None => false,
        }),
{
    match line {
        Some(s) => {
            let t = text::to_lower(text::trim(s).as_str());
            text::same(t.as_str(), "y") || text::same(t.as_str(), "yes")
        },
        None => false,
    }
}

/// Words without a flag before them are taken as they are.
pub proof fn words_are_words(a: Seq<Seq<char>>)
    requires
        a.len() > 0,
        a[0] != "--host"@,
        a[0] != "--port"@,
        a[0] != "-h"@,
        a[0] != "--help"@,
    ensures
        read_from(a, 0, nothing()) == Ok::<Asked, Seq<char>>((Asked { words: a, ..nothing() })),
{
    assert(a.skip(0) =~= a);
}

/// The flags take the value behind them, whatever comes behind that; a flag without a value
/// and a port that is none are refused.
pub proof fn flags_take_their_values(a: Seq<Seq<char>>, i: int, so_far: Asked, p: u16)
    requires
        0 <= i < a.len(),
    ensures
        a[i] == "--host"@ && i + 1 < a.len() ==> read_from(a, i, so_far) == read_from(
            a,
            i + 2,
            Asked { host: Some(a[i + 1]), ..so_far },
        ),
        a[i] == "--host"@ && i + 1 == a.len() ==> read_from(a, i, so_far) is Err,
        a[i] == "--port"@ && i + 1 < a.len() && a[i + 1] == number::dec(p as nat) ==> read_from(
            a,
            i,
            so_far,
        ) == read_from(a, i + 2, Asked { port: Some(p as nat), ..so_far }),
        a[i] == "--port"@ && i + 1 == a.len() ==> read_from(a, i, so_far) is Err,
        a[i] == "-h"@ || a[i] == "--help"@ ==> read_from(a, i, so_far) == read_from(
            a,
            i + 1,
            Asked { help: true, ..so_far },
        ),
        a[i] != "--host"@ && a[i] != "--port"@ && a[i] != "-h"@ && a[i] != "--help"@ ==> read_from(
            a,
            i,
            so_far,
        ) == Ok::<Asked, Seq<char>>((Asked { words: a.skip(i), ..so_far })),
        read_from(a, a.len() as int, so_far) == Ok::<Asked, Seq<char>>(so_far),
{
    number::dec_is_unsigned(p as nat, u16::MAX as nat);
    reveal_strlit("--host");
    reveal_strlit("--port");
    reveal_strlit("-h");
    reveal_strlit("--help");
    assert("--host"@[2] == 'h' && "--port"@[2] == 'p' && "--help"@[2] == 'h');
    assert("--host"@[3] == 'o' && "--help"@[3] == 'e' && "-h"@.len() == 2);
}

/// The user confirms with `y` or `yes`, in letters of either case, and with nothing else.
pub proof fn only_yes_confirms(w: Seq<char>)
    requires
        forall|i: int| 0 <= i < w.len() ==> 'a' <= #[trigger] w[i] <= 'z',
        w.len() > 0,
    ensures
        is_yes(w) <==> w == "y"@ || w == "yes"@,
{
    text::small_letters_stay(w);
    assert(!text::is_ws(w[0]) && !text::is_ws(w[w.len() - 1]));
    assert(text::trimmed(w) == w);
}

} // verus!
