//! The resolved configuration, layered from the command line, the
//! environment, the repository's table and the default table of the
//! configuration file, and the backend it selects.

use vstd::prelude::*;
use vstd::string::StringExecFns;
use crate::cli_args::Cli;
use crate::error::LlmError;
use crate::text::{chars_of, string_of};
use crate::transport::{strip_slashes, strip_trailing_slashes};

verus! {

/// One source of settings; each may leave any setting unset.
#[derive(Clone, Debug, Default)]
pub struct ConfigLayer {
    pub provider: Option<String>,
    pub model: Option<String>,
    pub openai_api_key: Option<String>,
    pub base_url: Option<String>,
    pub max_concurrent_requests: Option<usize>,
    pub stream: Option<bool>,
}

/// The final settings.
#[derive(Clone, Debug)]
pub struct Config {
    pub provider: String,
    pub openai_api_key: Option<String>,
    pub base_url: Option<String>,
    pub model: String,
    pub max_concurrent_requests: usize,
    pub stream: bool,
}

/// The backend a configuration selects, with what it needs to connect.
#[derive(Clone, Debug)]
pub enum ClientSettings {
    OpenAi { api_key: String, model: String, base_url: String, stream: bool },
    Ollama { base_url: String, model: String, stream: bool },
}

/// What `str::to_lowercase` makes of `s`.
pub uninterp spec fn lowercase_of(s: Seq<char>) -> Seq<char>;

/// Relies on `str::to_lowercase`: the lowercase mapping of each character.
#[verifier::external_body]
fn lowercase(s: &str) -> (r: String)
    ensures
        r@ == lowercase_of(s@),
{
    s.to_lowercase()
}

pub open spec fn opt_view(o: Option<String>) -> Option<Seq<char>> {
    match o {
        Some(s) => Some(s@),
        None => None,
    }
}

/// The first of the four that is set.
pub open spec fn first_set<T>(a: Option<T>, b: Option<T>, c: Option<T>, d: Option<T>) -> Option<T> {
    if a is Some {
        a
    } else if b is Some {
        b
    } else if c is Some {
        c
    } else {
        d
    }
}

/// `s` without leading `"` characters.
pub open spec fn strip_front_quotes(s: Seq<char>) -> Seq<char>
    decreases s.len(),
{
    if s.len() > 0 && s[0] == '"' {
        strip_front_quotes(s.drop_first())
    } else {
        s
    }
}

/// `s` without trailing `"` characters.
pub open spec fn strip_back_quotes(s: Seq<char>) -> Seq<char>
    decreases s.len(),
{
    if s.len() > 0 && s.last() == '"' {
        strip_back_quotes(s.drop_last())
    } else {
        s
    }
}

/// `s` without the `"` characters at either end.
pub open spec fn strip_quotes(s: Seq<char>) -> Seq<char> {
    strip_back_quotes(strip_front_quotes(s))
}

pub open spec fn opt_strip_quotes(o: Option<Seq<char>>) -> Option<Seq<char>> {
    match o {
        Some(s) => Some(strip_quotes(s)),
        None => None,
    }
}

proof fn lemma_strip_front_at(s: Seq<char>, a: int)
    requires
        0 <= a <= s.len(),
        forall|i: int| 0 <= i < a ==> #[trigger] s[i] == '"',
        a == s.len() || s[a] != '"',
    ensures
        strip_front_quotes(s) == s.subrange(a, s.len() as int),
    decreases a,
{
    if a == 0 {
        assert(s.subrange(0, s.len() as int) == s);
    } else {
        assert forall|i: int| 0 <= i < a - 1 implies #[trigger] s.drop_first()[i] == '"' by {
            assert(s.drop_first()[i] == s[i + 1]);
        }
        lemma_strip_front_at(s.drop_first(), a - 1);
        assert(s.drop_first().subrange(a - 1, s.len() - 1) == s.subrange(a, s.len() as int));
    }
}

proof fn lemma_strip_back_at(s: Seq<char>, b: int)
    requires
        0 <= b <= s.len(),
        forall|i: int| b <= i < s.len() ==> #[trigger] s[i] == '"',
        b == 0 || s[b - 1] != '"',
    ensures
        strip_back_quotes(s) == s.subrange(0, b),
    decreases s.len() - b,
{
    if b == s.len() {
        assert(s.subrange(0, b) == s);
    } else {
        lemma_strip_back_at(s.drop_last(), b);
        assert(s.drop_last().subrange(0, b) == s.subrange(0, b));
    }
}

/// `s` without the `"` characters at either end.
pub fn trim_quotes(s: &str) -> (r: String)
    ensures
        r@ == strip_quotes(s@),
{
    let cs = chars_of(s);
    let mut a: usize = 0;
    while a < cs.len() && cs[a] == '"'
        invariant
            a <= cs@.len(),
            forall|i: int| 0 <= i < a ==> #[trigger] cs@[i] == '"',
        decreases cs@.len() - a,
    {
        a = a + 1;
    }
    proof {
        lemma_strip_front_at(cs@, a as int);
    }
    let mut b: usize = cs.len();
    while b > a && cs[b - 1] == '"'
        invariant
            a <= b <= cs@.len(),
            forall|i: int| b <= i < cs@.len() ==> #[trigger] cs@[i] == '"',
        decreases b,
    {
        b = b - 1;
    }
    proof {
        let f = cs@.subrange(a as int, cs@.len() as int);
        assert forall|i: int| b - a <= i < f.len() implies #[trigger] f[i] == '"' by {
            assert(f[i] == cs@[a + i]);
        }
        lemma_strip_back_at(f, b - a);
        assert(f.subrange(0, b - a) == cs@.subrange(a as int, b as int));
    }
    string_of(&cs, a, b)
}

fn first_string(
    a: &Option<String>,
    b: &Option<String>,
    c: &Option<String>,
    d: &Option<String>,
) -> (r: Option<String>)
    ensures
        opt_view(r) == opt_view(first_set(*a, *b, *c, *d)),
{
    match a {
        Some(s) => {
            return Some(s.clone());
        },
        None => {},
    }
    match b {
        Some(s) => {
            return Some(s.clone());
        },
        None => {},
    }
    match c {
        Some(s) => {
            return Some(s.clone());
        },
        None => {},
    }
    match d {
        Some(s) => Some(s.clone()),
        None => None,
    }
}

fn first_value<T: Copy>(a: Option<T>, b: Option<T>, c: Option<T>, d: Option<T>) -> (r: Option<T>)
    ensures
        r == first_set(a, b, c, d),
{
    if a.is_some() {
        a
    } else if b.is_some() {
        b
    } else if c.is_some() {
        c
    } else {
        d
    }
}

fn unquoted(o: Option<String>) -> (r: Option<String>)
    ensures
        opt_view(r) == opt_strip_quotes(opt_view(o)),
{
    match o {
        Some(s) => Some(trim_quotes(s.as_str())),
        None => None,
    }
}

/// The provider's name before quotes are stripped: the first one set, else
/// `openai`, in lower case.
pub open spec fn provider_raw(cli: Cli, env: ConfigLayer, repo: ConfigLayer, default: ConfigLayer) -> Seq<
    char,
> {
    lowercase_of(
        match opt_view(first_set(cli.provider, env.provider, repo.provider, default.provider)) {
            Some(p) => p,
            None => "openai"@,
        },
    )
}

impl Config {
    /// The settings from four sources, the first that sets a value winning:
    /// the command line, the environment, the repository's table and the
    /// default table. Unset, the provider is `openai`, the model
    /// `gpt-5-nano`, the cap 4 and streaming on. Surrounding `"` are stripped
    /// from strings and the provider is lower-cased. An `openai` provider
    /// without an API key is a configuration error.
    pub fn from_sources(cli: &Cli, env: &ConfigLayer, repo: &ConfigLayer, default: &ConfigLayer) -> (r:
        Result<Config, LlmError>)
        ensures
            ({
                let provider = strip_quotes(provider_raw(*cli, *env, *repo, *default));
                let key = opt_view(
                    first_set(
                        cli.api_key,
                        env.openai_api_key,
                        repo.openai_api_key,
                        default.openai_api_key,
                    ),
                );
                &&& (provider == "openai"@ && key is None) <==> r is Err
                &&& r matches Err(e) ==> e is Config
                &&& r matches Ok(c) ==> {
                    &&& c.provider@ == provider
                    &&& c.model@ == strip_quotes(
                        match opt_view(first_set(cli.model, env.model, repo.model, default.model)) {
                            Some(m) => m,
                            None => "gpt-5-nano"@,
                        },
                    )
                    &&& opt_view(c.openai_api_key) == opt_strip_quotes(key)
                    &&& opt_view(c.base_url) == opt_strip_quotes(
                        opt_view(first_set(cli.url, env.base_url, repo.base_url, default.base_url)),
                    )
                    &&& c.max_concurrent_requests == match first_set(
                        cli.max,
                        env.max_concurrent_requests,
                        repo.max_concurrent_requests,
                        default.max_concurrent_requests,
                    ) {
                        Some(m) => m,
                        None => 4,
                    }
                    &&& c.stream == match first_set(cli.stream, env.stream, repo.stream, default.stream) {
                        Some(s) => s,
                        None => true,
                    }
                }
            }),
    {
        let provider_pick = first_string(&cli.provider, &env.provider, &repo.provider, &default.provider);
        let provider_name = match provider_pick {
            Some(p) => p,
            None => String::from_str("openai"),
        };
        let provider = trim_quotes(lowercase(provider_name.as_str()).as_str());
        let model = match first_string(&cli.model, &env.model, &repo.model, &default.model) {
            Some(m) => trim_quotes(m.as_str()),
            None => trim_quotes("gpt-5-nano"),
        };
        let key = first_string(
            &cli.api_key,
            &env.openai_api_key,
            &repo.openai_api_key,
            &default.openai_api_key,
        );
        let missing_key = key.is_none();
        let openai_api_key = unquoted(key);
        let base_url = unquoted(first_string(&cli.url, &env.base_url, &repo.base_url, &default.base_url));
        let max_concurrent_requests = match first_value(
            cli.max,
            env.max_concurrent_requests,
            repo.max_concurrent_requests,
            default.max_concurrent_requests,
        ) {
            Some(m) => m,
            None => 4,
        };
        let stream = match first_value(cli.stream, env.stream, repo.stream, default.stream) {
            Some(s) => s,
            None => true,
        };
        proof {
            reveal_strlit("gpt-5-nano");
            assert(strip_quotes("gpt-5-nano"@) == "gpt-5-nano"@);
        }
        if missing_key && provider == String::from_str("openai") {
            return Err(
                LlmError::Config {
                    detail: String::from_str(
                        "OPENAI_API_KEY must be set via CLI, env var, or config file for provider=openai",
                    ),
                },
            );
        }
        Ok(Config { provider, openai_api_key, base_url, model, max_concurrent_requests, stream })
    }
}

pub open spec fn base_or(o: Option<String>, default: Seq<char>) -> Seq<char> {
    match o {
        Some(b) => b@,
        None => default,
    }
}

/// The backend that `cfg` selects: `openai` (which needs an API key) with
/// `https://api.openai.com` as the default base URL, or `ollama` with
/// `http://localhost:11434`; trailing `/` are dropped from the base URL. Any
/// other provider, or `openai` without a key, is a configuration error.
pub fn build_llm_client(cfg: &Config) -> (r: Result<ClientSettings, LlmError>)
    ensures
        r matches Err(e) ==> e is Config,
        cfg.provider@ == "openai"@ ==> match cfg.openai_api_key {
            Some(k) => (r matches Ok(ClientSettings::OpenAi { api_key, model, base_url, stream }) && api_key@
                == k@ && model@ == cfg.model@ && stream == cfg.stream && base_url@ == strip_slashes(
                base_or(cfg.base_url, "https://api.openai.com"@),
            )),
            None => r is Err,
        },
        cfg.provider@ == "ollama"@ ==> (r matches Ok(ClientSettings::Ollama { base_url, model, stream })
            && model@ == cfg.model@ && stream == cfg.stream && base_url@ == strip_slashes(
            base_or(cfg.base_url, "http://localhost:11434"@),
        )),
        cfg.provider@ != "openai"@ && cfg.provider@ != "ollama"@ ==> r is Err,
{
    proof {
        reveal_strlit("openai");
        reveal_strlit("ollama");
        assert("openai"@[1] != "ollama"@[1]);
        assert("openai"@ != "ollama"@);
    }
    if cfg.provider == String::from_str("openai") {
        match &cfg.openai_api_key {
            Some(k) => {
                let base = match &cfg.base_url {
                    Some(b) => strip_trailing_slashes(b.as_str()),
                    None => strip_trailing_slashes("https://api.openai.com"),
                };
                Ok(
                    ClientSettings::OpenAi {
                        api_key: k.clone(),
                        model: cfg.model.clone(),
                        base_url: base,
                        stream: cfg.stream,
                    },
                )
            },
            None => Err(
                LlmError::Config {
                    detail: String::from_str("OPENAI_API_KEY must be set for provider=openai"),
                },
            ),
        }
    } else if cfg.provider == String::from_str("ollama") {
        let base = match &cfg.base_url {
            Some(b) => strip_trailing_slashes(b.as_str()),
            None => strip_trailing_slashes("http://localhost:11434"),
        };
        Ok(ClientSettings::Ollama { base_url: base, model: cfg.model.clone(), stream: cfg.stream })
    } else {
        Err(LlmError::Config { detail: String::from_str("unknown provider") })
    }
}

} // verus!
