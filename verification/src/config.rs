//! The routing configuration: server binding, default upstream, ordered
//! routes with authentication, transformer choice and fallback policy, and
//! first-match-wins route lookup.

use vstd::prelude::*;

use crate::json::{jv, Json, JsonV};
use crate::strutil::{spec_contains, str_contains};

verus! {

use vstd::string::StringExecFns;

/// Where the proxy listens.
#[derive(Debug, PartialEq, Eq)]
pub struct ServerConfig {
    pub host: String,
    pub port: u16,
}

/// The default upstream, used for pass-through and fallback.
#[derive(Debug, PartialEq, Eq)]
pub struct DefaultConfig {
    pub url: String,
}

/// Authentication settings of one upstream: a header name and value, plus an
/// optional pool of further key values balanced across requests.
#[derive(Debug, PartialEq, Eq)]
pub struct AuthConfig {
    pub auth_type: String,
    pub header: Option<String>,
    pub value: Option<String>,
    pub client_id: Option<String>,
    pub client_secret: Option<String>,
    pub refresh_token: Option<String>,
    pub token_url: Option<String>,
    pub pool: Option<Vec<String>>,
}

/// What to do when the routed upstream fails: nothing, re-issue unchanged to
/// the default upstream, or re-issue with the model name replaced.
#[derive(Debug, PartialEq, Eq)]
pub enum Fallback {
    Disabled,
    Passthrough,
    Model(String),
}

/// One upstream provider.
#[derive(Debug, PartialEq, Eq)]
pub struct UpstreamConfig {
    pub url: String,
    pub auth: AuthConfig,
}

/// One routing rule: a model-name substring pattern and where to send it.
#[derive(Debug, PartialEq, Eq)]
pub struct RouteConfig {
    pub match_pattern: String,
    pub upstream: UpstreamConfig,
    pub transformer: Option<String>,
    pub model_map: Option<String>,
    pub fallback: Fallback,
    pub concurrency: Option<usize>,
}

/// The whole configuration.
#[derive(Debug, PartialEq, Eq)]
pub struct Config {
    pub server: ServerConfig,
    pub default: DefaultConfig,
    pub routes: Vec<RouteConfig>,
}

impl Default for Fallback {
    fn default() -> (r: Self)
        ensures
            r is Passthrough,
    {
        Fallback::Passthrough
    }
}

/// The configuration value that denotes a fallback policy: `false`, `true`,
/// or the replacement model name.
pub open spec fn fallback_setting(f: Fallback) -> JsonV {
    match f {
        Fallback::Disabled => JsonV::Bool(false),
        Fallback::Passthrough => JsonV::Bool(true),
        Fallback::Model(m) => JsonV::Str(m@),
    }
}

/// What decoding a configuration value into a fallback policy must yield:
/// `true` means pass-through, `false` and the empty string mean disabled,
/// any other string names the replacement model.
pub open spec fn fallback_decodes_to(v: JsonV, g: Fallback) -> bool {
    match g {
        Fallback::Disabled => v == JsonV::Bool(false) || v == JsonV::Str(Seq::<char>::empty()),
        Fallback::Passthrough => v == JsonV::Bool(true),
        Fallback::Model(m) => v == JsonV::Str(m@) && m@.len() > 0,
    }
}

impl Fallback {
    /// Whether fallback should be attempted at all.
    pub fn is_enabled(&self) -> (r: bool)
        ensures
            r == !(*self is Disabled),
    {
        match self {
            Fallback::Disabled => false,
            _ => true,
        }
    }

    /// The replacement model name, or `None` to keep the original.
    pub fn model(&self) -> (r: Option<&str>)
        ensures
            *self is Model <==> r is Some,
            r matches Some(s) ==> s@ == self->Model_0@,
    {
        match self {
            Fallback::Model(m) => Some(m.as_str()),
            _ => None,
        }
    }

    /// Encode this policy as a configuration value.
    pub fn to_setting(&self) -> (r: Json)
        ensures
            jv(r) == fallback_setting(*self),
    {
        match self {
            Fallback::Disabled => Json::Bool(false),
            Fallback::Passthrough => Json::Bool(true),
            Fallback::Model(m) => Json::Str(m.clone()),
        }
    }

    /// Decode a configuration value; booleans and strings are accepted,
    /// anything else is rejected.
    pub fn from_setting(j: &Json) -> (r: Option<Fallback>)
        ensures
            r is Some <==> (jv(*j) is Bool || jv(*j) is Str),
            r matches Some(g) ==> fallback_decodes_to(jv(*j), g),
    {
        match j {
            Json::Bool(true) => Some(Fallback::Passthrough),
            Json::Bool(false) => Some(Fallback::Disabled),
            Json::Str(s) => {
                if s.as_str().is_empty() {
                    proof {
                        assert(s@ =~= Seq::<char>::empty());
                    }
                    Some(Fallback::Disabled)
                } else {
                    Some(Fallback::Model(s.clone()))
                }
            },
            _ => None,
        }
    }
}

/// Encoding a fallback policy and decoding the result yields the same
/// policy, provided a `Model` name is non-empty (the empty name encodes as
/// `""`, which decodes to `Disabled`).
pub proof fn lemma_fallback_round_trip(f: Fallback, g: Fallback)
    requires
        f matches Fallback::Model(m) ==> m@.len() > 0,
        fallback_decodes_to(fallback_setting(f), g),
    ensures
        f is Disabled <==> g is Disabled,
        f is Passthrough <==> g is Passthrough,
        f is Model <==> g is Model,
        f matches Fallback::Model(m) ==> g matches Fallback::Model(m2) && m2@ == m@,
{
}

impl AuthConfig {
    /// The header name to inject, `Authorization` when unset.
    pub open spec fn spec_header_name(&self) -> Seq<char> {
        match self.header {
            Some(h) => h@,
            None => "Authorization"@,
        }
    }

    /// The primary key value, empty when unset.
    pub open spec fn spec_header_value(&self) -> Seq<char> {
        match self.value {
            Some(v) => v@,
            None => ""@,
        }
    }

    /// The pool entries, or nothing.
    pub open spec fn spec_pool_len(&self) -> nat {
        match self.pool {
            Some(p) => p@.len(),
            None => 0,
        }
    }

    pub fn header_name(&self) -> (r: &str)
        ensures
            r@ == self.spec_header_name(),
    {
        match &self.header {
            Some(h) => h.as_str(),
            None => "Authorization",
        }
    }

    pub fn header_value(&self) -> (r: &str)
        ensures
            r@ == self.spec_header_value(),
    {
        match &self.value {
            Some(v) => v.as_str(),
            None => "",
        }
    }

    /// Whether this upstream has a non-empty key pool.
    pub fn has_pool(&self) -> (r: bool)
        ensures
            r == (self.spec_pool_len() > 0),
    {
        match &self.pool {
            Some(p) => p.len() > 0,
            None => false,
        }
    }

    /// The full key list: the primary value first, then the pool entries.
    /// The primary value is index 0 even when it is empty.
    pub fn all_values(&self) -> (r: Vec<String>)
        ensures
            r@.len() == 1 + self.spec_pool_len(),
            r@[0]@ == self.spec_header_value(),
            forall|i: int|
                1 <= i < r@.len() ==> r@[i]@ == self.pool->Some_0@[i - 1]@,
    {
        let mut keys: Vec<String> = Vec::new();
        keys.push(String::from_str(self.header_value()));
        match &self.pool {
            Some(p) => {
                let n = p.len();
                let mut i: usize = 0;
                while i < n
                    invariant
                        n == p@.len(),
                        i <= n,
                        keys@.len() == 1 + i,
                        keys@[0]@ == self.spec_header_value(),
                        forall|j: int| 1 <= j < keys@.len() ==> keys@[j]@ == p@[j - 1]@,
                    decreases n - i,
                {
                    keys.push(p[i].clone());
                    i += 1;
                }
            },
            None => {},
        }
        keys
    }
}

/// Whether a route's pattern occurs in the model name.
pub open spec fn route_matches(r: RouteConfig, model: Seq<char>) -> bool {
    spec_contains(model, r.match_pattern@)
}

impl Config {
    /// The configuration used when none is on disk: local binding, the
    /// public Anthropic endpoint, no routes.
    pub fn default_config() -> (r: Config)
        ensures
            r.server.host@ == "127.0.0.1"@,
            r.server.port == 18081,
            r.default.url@ == "https://api.anthropic.com"@,
            r.routes@.len() == 0,
    {
        Config {
            server: ServerConfig { host: String::from_str("127.0.0.1"), port: 18081 },
            default: DefaultConfig { url: String::from_str("https://api.anthropic.com") },
            routes: Vec::new(),
        }
    }

    /// The first route whose pattern is a substring of `model`, with its
    /// index; `None` when no route matches. Configuration order is priority
    /// order.
    pub fn find_route<'a>(&'a self, model: &str) -> (r: Option<(usize, &'a RouteConfig)>)
        ensures
            match r {
                Some((i, rt)) => i < self.routes@.len() && *rt == self.routes@[i as int]
                    && route_matches(self.routes@[i as int], model@) && forall|j: int|
                    0 <= j < i ==> !route_matches(#[trigger] self.routes@[j], model@),
                None => forall|j: int|
                    0 <= j < self.routes@.len() ==> !route_matches(
                        #[trigger] self.routes@[j],
                        model@,
                    ),
            },
    {
        let n = self.routes.len();
        let mut i: usize = 0;
        while i < n
            invariant
                n == self.routes@.len(),
                i <= n,
                forall|j: int| 0 <= j < i ==> !route_matches(#[trigger] self.routes@[j], model@),
            decreases n - i,
        {
            if str_contains(model, self.routes[i].match_pattern.as_str()) {
                return Some((i, &self.routes[i]));
            }
            i += 1;
        }
        None
    }
}

/// Route lookup is first-match-wins and depends only on the pattern list
/// and its order: any index that matches and has no earlier match is the
/// one `find_route` characterizes, and it is unique.
pub proof fn lemma_find_route_unique(c: Config, model: Seq<char>, i1: int, i2: int)
    requires
        0 <= i1 < c.routes@.len(),
        0 <= i2 < c.routes@.len(),
        route_matches(c.routes@[i1], model),
        forall|j: int| 0 <= j < i1 ==> !route_matches(#[trigger] c.routes@[j], model),
        route_matches(c.routes@[i2], model),
        forall|j: int| 0 <= j < i2 ==> !route_matches(#[trigger] c.routes@[j], model),
    ensures
        i1 == i2,
{
    if i1 < i2 {
        assert(!route_matches(c.routes@[i1], model));
    }
    if i2 < i1 {
        assert(!route_matches(c.routes@[i2], model));
    }
}

} // verus!
