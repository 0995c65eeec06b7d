//! Startup configuration: when the server counts as deployed, what a
//! deployment must provide, and which browser origins may call it.

use vstd::prelude::*;
use vstd::utf8::encode_utf8;

use crate::auth::{
    check_deployment_secret, is_production_env, production_alias, production_name, SecretError,
    MIN_DEPLOYMENT_SECRET_BYTES,
};
use crate::protocol::{find_char, lemma_find_char_bounds, split_from};
use crate::text::{ascii_ci_equal, chars_of, substring, trim_bounds, trim_spec};

verus! {

/// What a deployment lacks.
#[derive(Debug, Clone, Copy, PartialEq, Eq)]
pub enum ConfigError {
    /// A non-loopback address is bound without `RSGROUND_ENV=production`.
    NotProduction,
    /// No token secret, or only whitespace.
    MissingSecret,
    /// A token secret shorter than `MIN_DEPLOYMENT_SECRET_BYTES` bytes.
    ShortSecret,
    /// No allowed browser origin.
    MissingCorsOrigins,
}

impl ConfigError {
    pub open spec fn message_spec(self) -> &'static str {
        match self {
            ConfigError::NotProduction => "RSGROUND_ENV=production is required outside loopback",
            ConfigError::MissingSecret => "JWT_SECRET must be set for deployment",
            ConfigError::ShortSecret => "JWT_SECRET must contain at least 32 bytes for deployment",
            ConfigError::MissingCorsOrigins => "RSGROUND_CORS_ORIGINS must list the frontend origin for deployment",
        }
    }

    /// The text the server stops with.
    pub fn message(&self) -> (r: &'static str)
        ensures
            r == self.message_spec(),
    {
        match self {
            ConfigError::NotProduction => "RSGROUND_ENV=production is required outside loopback",
            ConfigError::MissingSecret => "JWT_SECRET must be set for deployment",
            ConfigError::ShortSecret => "JWT_SECRET must contain at least 32 bytes for deployment",
            ConfigError::MissingCorsOrigins => "RSGROUND_CORS_ORIGINS must list the frontend origin for deployment",
        }
    }
}

/// The last `c` in `s` before `j`, or -1.
pub open spec fn find_last(s: Seq<char>, c: char, j: int) -> int
    decreases j,
{
    if j <= 0 {
        -1
    } else if s[j - 1] == c {
        j - 1
    } else {
        find_last(s, c, j - 1)
    }
}

pub proof fn lemma_find_last_bounds(s: Seq<char>, c: char, j: int)
    requires
        0 <= j <= s.len(),
    ensures
        -1 <= find_last(s, c, j) < j,
    decreases j,
{
    if j > 0 && s[j - 1] != c {
        lemma_find_last_bounds(s, c, j - 1);
    }
}

/// The host part of a bind address: what comes before its last `:`.
pub open spec fn host_of(bind: Seq<char>) -> Seq<char> {
    let i = find_last(bind, ':', bind.len() as int);
    if i < 0 {
        bind
    } else {
        bind.subrange(0, i)
    }
}

pub open spec fn is_loopback_host(host: Seq<char>) -> bool {
    host == "127.0.0.1"@ || host == "localhost"@ || host == "[::1]"@
}

/// Whether the environment value names production.
pub open spec fn names_production(environment: Option<&str>) -> bool {
    environment matches Some(v) && (ascii_ci_equal(v@, production_name()) || ascii_ci_equal(
        v@,
        production_alias(),
    ))
}

/// The non-blank entries of a comma-separated list, trimmed, in order.
pub open spec fn list_entries(pieces: Seq<Seq<char>>) -> Seq<Seq<char>>
    decreases pieces.len(),
{
    if pieces.len() == 0 {
        Seq::empty()
    } else {
        let rest = list_entries(pieces.drop_last());
        let t = trim_spec(pieces.last());
        if t.len() == 0 {
            rest
        } else {
            rest.push(t)
        }
    }
}

pub open spec fn origins_of(configured: Option<&str>) -> Seq<Seq<char>> {
    match configured {
        Some(v) => list_entries(split_from(v@, ',', 0)),
        None => Seq::empty(),
    }
}

/// Whether the address is a loopback one (`127.0.0.1`, `localhost` or
/// `[::1]`, with any port).
pub fn is_loopback(bind: &str) -> (r: bool)
    ensures
        r == is_loopback_host(host_of(bind@)),
{
    let cs = chars_of(bind);
    let mut j = cs.len();
    while j > 0 && cs[j - 1] != ':'
        invariant
            j <= cs@.len(),
            find_last(cs@, ':', cs@.len() as int) == find_last(cs@, ':', j as int),
        decreases j,
    {
        j = j - 1;
    }
    proof {
        lemma_find_last_bounds(cs@, ':', cs@.len() as int);
    }
    let end = if j > 0 { j - 1 } else { cs.len() };
    let host = substring(&cs, 0, end);
    proof {
        if j == 0 {
            assert(cs@.subrange(0, cs@.len() as int) =~= cs@);
        }
        reveal_strlit("127.0.0.1");
        reveal_strlit("localhost");
        reveal_strlit("[::1]");
    }
    let h = host.as_str();
    equal_text(h, "127.0.0.1") || equal_text(h, "localhost") || equal_text(h, "[::1]")
}

fn equal_text(a: &str, b: &str) -> (r: bool)
    ensures
        r == (a@ == b@),
{
    let x = chars_of(a);
    let y = chars_of(b);
    if x.len() != y.len() {
        return false;
    }
    let mut i: usize = 0;
    while i < x.len()
        invariant
            i <= x@.len(),
            x@.len() == y@.len(),
            x@ == a@,
            y@ == b@,
            forall|k: int| 0 <= k < i ==> x@[k] == y@[k],
        decreases x@.len() - i,
    {
        if x[i] != y[i] {
            return false;
        }
        i = i + 1;
    }
    assert(x@ =~= y@);
    true
}

/// The non-blank entries of a comma-separated list, trimmed, in order.
pub fn split_list(value: &str) -> (r: Vec<String>)
    ensures
        r@.map_values(|s: String| s@) == list_entries(split_from(value@, ',', 0)),
{
    let cs = chars_of(value);
    let ghost all = split_from(cs@, ',', 0);
    let mut out: Vec<String> = Vec::new();
    let mut finished = false;
    let mut p: usize = 0;
    let ghost mut done: Seq<Seq<char>> = Seq::empty();
    assert(done + all =~= all);
    while !finished
        invariant
            p <= cs@.len(),
            cs@ == value@,
            all == split_from(cs@, ',', 0),
            finished ==> done == all,
            !finished ==> done + split_from(cs@, ',', p as int) == all,
            out@.map_values(|s: String| s@) == list_entries(done),
        decreases cs@.len() - p + (if finished { 0int } else { 1int }),
    {
        let mut j = p;
        while j < cs.len() && cs[j] != ','
            invariant
                p <= j <= cs@.len(),
                find_char(cs@, ',', p as int) == find_char(cs@, ',', j as int),
            decreases cs@.len() - j,
        {
            j = j + 1;
        }
        proof {
            lemma_find_char_bounds(cs@, ',', p as int);
        }
        let ghost piece = cs@.subrange(p as int, j as int);
        let ghost before = out@.map_values(|s: String| s@);
        let (lo, hi) = trim_bounds(&cs, p, j);
        if lo < hi {
            out.push(substring(&cs, lo, hi));
            assert(out@.map_values(|s: String| s@) =~= before.push(trim_spec(piece)));
        }
        proof {
            let nd = done.push(piece);
            assert(nd.drop_last() =~= done);
            assert(nd.last() == piece);
            done = nd;
        }
        if j >= cs.len() {
            finished = true;
            proof {
                assert(done =~= all);
            }
        } else {
            proof {
                assert(done + split_from(cs@, ',', j + 1) =~= all);
            }
            p = j + 1;
        }
    }
    out
}

/// The browser origins allowed to call the server: the configured list,
/// or the local frontend's addresses when none is configured.
pub fn cors_origins(configured: Option<&str>) -> (r: Vec<String>)
    ensures
        origins_of(configured).len() > 0 ==> r@.map_values(|s: String| s@) == origins_of(configured),
        origins_of(configured).len() == 0 ==> r@.map_values(|s: String| s@) == seq![
            "http://localhost:3000"@,
            "http://127.0.0.1:3000"@,
        ],
{
    let listed = match configured {
        Some(v) => split_list(v),
        None => Vec::new(),
    };
    if listed.len() > 0 {
        return listed;
    }
    let mut defaults: Vec<String> = Vec::new();
    defaults.push("http://localhost:3000".to_owned());
    defaults.push("http://127.0.0.1:3000".to_owned());
    assert(defaults@.map_values(|s: String| s@) =~= seq![
        "http://localhost:3000"@,
        "http://127.0.0.1:3000"@,
    ]);
    defaults
}

/// A server that binds a non-loopback address, or that is told it runs in
/// production, is a deployment: it must run with `RSGROUND_ENV=production`,
/// a token secret of at least 32 bytes and at least one allowed origin.
pub fn validate_configuration(
    bind: &str,
    environment: Option<&str>,
    secret: Option<&str>,
    cors: Option<&str>,
) -> (r: Result<(), ConfigError>)
    ensures
        is_loopback_host(host_of(bind@)) && !names_production(environment) ==> r is Ok,
        !(is_loopback_host(host_of(bind@)) && !names_production(environment)) ==> r == (
        if !names_production(environment) {
            Err::<(), ConfigError>(ConfigError::NotProduction)
        } else if secret is None || trim_spec(secret->0@).len() == 0 {
            Err::<(), ConfigError>(ConfigError::MissingSecret)
        } else if encode_utf8(secret->0@).len() < MIN_DEPLOYMENT_SECRET_BYTES {
            Err::<(), ConfigError>(ConfigError::ShortSecret)
        } else if origins_of(cors).len() == 0 {
            Err::<(), ConfigError>(ConfigError::MissingCorsOrigins)
        } else {
            Ok::<(), ConfigError>(())
        }),
{
    let production = is_production_env(environment);
    if is_loopback(bind) && !production {
        return Ok(());
    }
    if !production {
        return Err(ConfigError::NotProduction);
    }
    match check_deployment_secret(secret) {
        Err(SecretError::Missing) => {
            return Err(ConfigError::MissingSecret);
        },
        Err(SecretError::TooShort) => {
            return Err(ConfigError::ShortSecret);
        },
        Ok(()) => {},
    }
    let origins = match cors {
        Some(c) => split_list(c),
        None => Vec::new(),
    };
    if origins.len() == 0 {
        return Err(ConfigError::MissingCorsOrigins);
    }
    Ok(())
}

} // verus!
