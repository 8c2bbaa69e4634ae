//! Where the daemon is.

use vstd::prelude::*;

use crate::number;
use crate::text;

verus! {

/// The host, where none is given.
pub const DEFAULT_HOST: &'static str = "127.0.0.1";

/// The port, where none is given.
pub const DEFAULT_PORT: u16 = 6600;

/// The environment.
#[derive(Debug)]
pub struct Env {
    /// Its variables with their values. Of two with one name the first counts.
    pub vars: Vec<(String, String)>,
}

/// The value of a variable, from the place `i` on.
pub open spec fn value_from(vars: Seq<(String, String)>, k: Seq<char>, i: int) -> Option<Seq<char>>
    decreases vars.len() - i,
{
    if i >= vars.len() {
        None
    } else if vars[i].0@ == k {
        Some(vars[i].1@)
    } else {
        value_from(vars, k, i + 1)
    }
}

impl Env {
    /// The value of a variable.
    pub open spec fn value(self, k: Seq<char>) -> Option<Seq<char>> {
        value_from(self.vars@, k, 0)
    }

    /// The value of a variable.
    pub fn v(&self, k: &str) -> (r: Option<String>)
        ensures
            text::opt(r) == self.value(k@),
    {
        let mut i: usize = 0;
        while i < self.vars.len()
            invariant
                i <= self.vars@.len(),
                self.value(k@) == value_from(self.vars@, k@, i as int),
            decreases self.vars@.len() - i,
        {
            if text::same(self.vars[i].0.as_str(), k) {
                return Some(self.vars[i].1.clone());
            }
            i += 1;
        }
        None
    }

    /// The port in a variable, where it is one.
    pub open spec fn port(self, k: Seq<char>) -> Option<nat> {
        match self.value(k) {
            Some(s) => number::unsigned_of(s, u16::MAX as nat),
            None => None,
        }
    }

    fn read_port(&self, k: &str) -> (r: Option<u16>)
        ensures
            match r {
                Some(p) => self.port(k@) == Some(p as nat),
                None => self.port(k@) is None,
            },
    {
        match self.v(k) {
            Some(s) => number::parse_u16(s.as_str()),
            None => None,
        }
    }
}

/// A host with a port behind its last colon, where what stands there is a port.
pub open spec fn hostspec(s: Seq<char>) -> Option<(Seq<char>, Seq<char>)> {
    match text::last_of(s, ":"@) {
        Some(i) => {
            let p = s.skip(i + 1);
            if text::all_digits(p) && number::unsigned_of(p, u16::MAX as nat) is Some {
                Some((s.take(i), p))
            } else {
                None
            }
        },
        None => None,
    }
}

/// Parts a host from the port behind its last colon. What is no port belongs to the host.
pub fn split_hostspec(s: &str) -> (r: Option<(String, String)>)
    ensures
        match r {
            Some((h, p)) => hostspec(s@) == Some((h@, p@)),
            None => hostspec(s@) is None,
        },
{
    proof {
        reveal_strlit(":");
        text::last_before_is_last(s@, ":"@, s@.len() as int);
    }
    let v = text::chars(s);
    let n: usize = v.len();
    let i: usize = match text::rfind(s, ":") {
        Some(i) => i,
        None => return None,
    };
    let h = text::text_between(&v, 0, i);
    let p = text::text_between(&v, i + 1, n);
    assert(h@ =~= s@.take(i as int));
    assert(p@ =~= s@.skip(i + 1));
    if text::only_digits(p.as_str()) && number::parse_u16(p.as_str()).is_some() {
        Some((h, p))
    } else {
        None
    }
}

/// What follows the last `@`: a password may stand before it.
pub open spec fn without_password(s: Seq<char>) -> Seq<char> {
    match text::last_of(s, "@"@) {
        Some(i) => s.skip(i + 1),
        None => s,
    }
}

fn drop_password(s: String) -> (r: String)
    ensures
        r@ == without_password(s@),
{
    proof {
        reveal_strlit("@");
        text::last_before_is_last(s@, "@"@, s@.len() as int);
    }
    match text::rfind(s.as_str(), "@") {
        Some(i) => {
            let v = text::chars(s.as_str());
            let n: usize = v.len();
            let r = text::text_between(&v, i + 1, n);
            assert(r@ =~= s@.skip(i + 1));
            r
        },
        None => s,
    }
}

/// The host and the port that the environment gives.
pub open spec fn from_env(env: Env) -> (Option<Seq<char>>, Option<nat>) {
    let (host, inner) = match env.value("HYPODJ_HOST"@) {
        Some(h) => (Some(h), None),
        None => match env.value("MPD_HOST"@) {
            Some(h) => match hostspec(without_password(h)) {
                Some((host, port)) => (Some(host), number::unsigned_of(port, u16::MAX as nat)),
                None => (Some(without_password(h)), None),
            },
            None => (None, None),
        },
    };
    let port = if env.port("HYPODJ_PORT"@) is Some {
        env.port("HYPODJ_PORT"@)
    } else if env.port("MPD_PORT"@) is Some {
        env.port("MPD_PORT"@)
    } else {
        inner
    };
    (host, port)
}

/// Where the daemon is: as the flags say, or else the project's own variables, or else
/// those that every client of its kind reads, or else by default.
pub fn resolve(flag_host: Option<String>, flag_port: Option<u16>, env: &Env) -> (r: (String, u16))
    ensures
        r.0@ == (match (flag_host, from_env(*env).0) {
            (Some(h), _) => h@,
            (None, Some(h)) => h,
            (None, None) => DEFAULT_HOST@,
        }),
        r.1 == (match (flag_port, from_env(*env).1) {
            (Some(p), _) => p as nat,
            (None, Some(p)) => p,
            (None, None) => DEFAULT_PORT as nat,
        }),
{
    let mut host: Option<String> = None;
    let mut inner: Option<u16> = None;
    if let Some(h) = env.v("HYPODJ_HOST") {
        host = Some(h);
    } else if let Some(h) = env.v("MPD_HOST") {
        let h = drop_password(h);
        match split_hostspec(h.as_str()) {
            Some((name, port)) => {
                host = Some(name);
                inner = number::parse_u16(port.as_str());
            },
            None => {
                host = Some(h);
            },
        }
    }
    let port: Option<u16> = if let Some(p) = env.read_port("HYPODJ_PORT") {
        Some(p)
    } else if let Some(p) = env.read_port("MPD_PORT") {
        Some(p)
    } else {
        inner
    };
    let name = match flag_host {
        Some(h) => h,
        None => match host {
            Some(h) => h,
            None => DEFAULT_HOST.to_owned(),
        },
    };
    let number: u16 = match flag_port {
        Some(p) => p,
        None => match port {
            Some(p) => p,
            None => DEFAULT_PORT,
        },
    };
    (name, number)
}

/// The value of a variable is the first that is given under its name.
pub proof fn the_first_value_counts(env: Env, k: Seq<char>)
    ensures
        env.value(k) matches Some(v) ==> exists|i: int|
            0 <= i < env.vars@.len() && (#[trigger] env.vars@[i]).0@ == k && env.vars@[i].1@ == v
                && forall|j: int| 0 <= j < i ==> (#[trigger] env.vars@[j]).0@ != k,
        env.value(k) is None ==> forall|j: int|
            0 <= j < env.vars@.len() ==> (#[trigger] env.vars@[j]).0@ != k,
{
    first_value_from(env.vars@, k, 0);
}

proof fn first_value_from(vars: Seq<(String, String)>, k: Seq<char>, i: int)
    requires
        0 <= i,
    ensures
        value_from(vars, k, i) matches Some(v) ==> exists|m: int|
            i <= m < vars.len() && (#[trigger] vars[m]).0@ == k && vars[m].1@ == v && forall|j: int|
                i <= j < m ==> (#[trigger] vars[j]).0@ != k,
        value_from(vars, k, i) is None ==> forall|j: int|
            i <= j < vars.len() ==> (#[trigger] vars[j]).0@ != k,
    decreases vars.len() - i,
{
    if i < vars.len() && vars[i].0@ != k {
        first_value_from(vars, k, i + 1);
        if let Some(v) = value_from(vars, k, i) {
            let m = choose|m: int|
                i + 1 <= m < vars.len() && (#[trigger] vars[m]).0@ == k && vars[m].1@ == v
                    && forall|j: int| i + 1 <= j < m ==> (#[trigger] vars[j]).0@ != k;
            assert(i <= m && forall|j: int| i <= j < m ==> (#[trigger] vars[j]).0@ != k);
        }
    }
}

/// Of a host with a password before it and a port behind it, the host and the port are
/// what counts; and the project's own variables go before those of every client.
pub proof fn a_host_is_told_from_its_port(
    env: Env,
    password: Seq<char>,
    host: Seq<char>,
    port: u16,
)
    requires
        forall|i: int| 0 <= i < host.len() ==> #[trigger] host[i] != '@',
    ensures
        hostspec(host + ":"@ + number::dec(port as nat)) == Some((host, number::dec(port as nat))),
        without_password(password + "@"@ + host) == host,
        env.value("HYPODJ_HOST"@) is None && env.value("MPD_HOST"@) == Some(
            password + "@"@ + (host + ":"@ + number::dec(port as nat)),
        ) ==> {
            &&& from_env(env).0 == Some(host)
            &&& env.value("HYPODJ_PORT"@) is None && env.value("MPD_PORT"@) is None ==> from_env(
                env,
            ).1 == Some(port as nat)
        },
        env.value("HYPODJ_HOST"@) == Some(host) ==> from_env(env).0 == Some(host),
        env.value("HYPODJ_PORT"@) == Some(number::dec(port as nat)) ==> from_env(env).1 == Some(
            port as nat,
        ),
        env.value("HYPODJ_PORT"@) is None && env.value("MPD_PORT"@) == Some(
            number::dec(port as nat),
        ) ==> from_env(env).1 == Some(port as nat),
        env.value("HYPODJ_HOST"@) is None && env.value("MPD_HOST"@) is None
            ==> from_env(env).0 is None,
{
    reveal_strlit(":");
    reveal_strlit("@");
    let p = number::dec(port as nat);
    number::dec_is_unsigned(port as nat, u16::MAX as nat);
    number::dec_reads_back(port as nat);
    let spec = host + ":"@ + p;
    last_mark(host, ':', p);
    assert(spec =~= host + seq![':'] + p);
    assert(":"@ =~= seq![':']);
    assert("@"@ =~= seq!['@']);
    last_mark(password, '@', host);
    last_mark(password, '@', spec);
    assert(spec.skip(host.len() as int + 1) =~= p);
    assert(spec.take(host.len() as int) =~= host);
    let whole = password + "@"@ + spec;
    assert(whole.skip(password.len() as int + 1) =~= spec);
    assert((password + "@"@ + host).skip(password.len() as int + 1) =~= host);
}

proof fn last_mark(a: Seq<char>, c: char, b: Seq<char>)
    requires
        forall|i: int| 0 <= i < b.len() ==> #[trigger] b[i] != c,
    ensures
        text::last_of(a + seq![c] + b, seq![c]) == Some(a.len() as int),
{
    let s = a + seq![c] + b;
    let p = seq![c];
    text::last_before_is_last(s, p, s.len() - p.len() + 1);
    let k = a.len() as int;
    assert(s.subrange(k, k + 1) =~= p);
    assert(text::occurs_at(s, p, k));
    assert forall|j: int| k < j < s.len() implies !text::occurs_at(s, p, j) by {
        assert(s[j] == b[j - k - 1]);
        assert(s.subrange(j, j + 1)[0] == s[j]);
    }
}

/// Where nothing says where the daemon is, it is on this machine, at the usual port.
pub proof fn the_daemon_is_here_by_default(env: Env)
    requires
        env.vars@.len() == 0,
    ensures
        from_env(env).0 is None,
        from_env(env).1 is None,
        DEFAULT_HOST@ == "127.0.0.1"@,
        DEFAULT_PORT == 6600,
{
}

} // verus!
