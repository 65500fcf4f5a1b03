//! The decisions the bridge takes for operations carried out by the tool
//! crates: which operations exist, which payload members they need, which
//! provider is meant and how it is to be set up. The calls into the tool
//! crates themselves are made by the caller with what these functions
//! return.

use vstd::prelude::*;
use crate::bridge::{
    BindingSpec, BridgeError, BridgeFault, InvokeOutcome, ToolCrate, catalog, field_str, field_u64,
    get_field, invoke_matches, missing_string, payload_field, required_str, required_u64,
    tool_crate, unsupported,
};
use crate::json::{JsonValue, member_lookup, object_get};
use crate::prompt::names_of;

verus! {

// ---------------------------------------------------------------------
// Provider set-up from a configuration object
// ---------------------------------------------------------------------

/// How a provider is to be constructed: from its own defaults (the
/// environment, or no settings at all), or from configured values.
#[derive(Debug, PartialEq, Eq)]
pub enum Setup {
    Default,
    Configured(Vec<String>),
}

/// A provider of kind `K` together with its set-up and the optional
/// settings it takes.
#[derive(Debug, PartialEq, Eq)]
pub struct ProviderPlan<K> {
    pub kind: K,
    pub setup: Setup,
    pub extras: Vec<Option<String>>,
}

/// The text of string member `key` of a configuration, which only counts
/// when it is a JSON object.
pub open spec fn config_str(config: Option<&JsonValue>, key: Seq<char>) -> Option<Seq<char>> {
    match config {
        Some(JsonValue::Object(members)) => match member_lookup(members@, key) {
            Some(JsonValue::Str(s)) => Some(s@),
            _ => None,
        },
        _ => None,
    }
}

/// The views of a list of key names.
pub open spec fn key_names(keys: Seq<&str>) -> Seq<Seq<char>> {
    keys.map_values(|k: &str| k@)
}

/// The views of a list of optional strings.
pub open spec fn opt_texts(v: Seq<Option<String>>) -> Seq<Option<Seq<char>>> {
    v.map_values(
        |s: Option<String>|
            match s {
                Some(t) => Some(t@),
                None => None,
            },
    )
}

/// Every key names a string member of the configuration.
pub open spec fn all_present(config: Option<&JsonValue>, keys: Seq<Seq<char>>) -> bool {
    forall|i: int| 0 <= i < keys.len() ==> (#[trigger] config_str(config, keys[i])) is Some
}

/// `s` is the set-up that the configuration gives for `keys`: configured
/// with their values, in order, when all are present, else the default.
pub open spec fn setup_matches(s: Setup, config: Option<&JsonValue>, keys: Seq<Seq<char>>) -> bool {
    if all_present(config, keys) {
        s matches Setup::Configured(v) && names_of(v@) == keys.map_values(
            |k: Seq<char>| config_str(config, k)->0,
        )
    } else {
        s is Default
    }
}

/// The optional settings that the configuration gives for `keys`.
pub open spec fn extras_match(v: Seq<Option<String>>, config: Option<&JsonValue>, keys: Seq<Seq<char>>) -> bool {
    opt_texts(v) == keys.map_values(|k: Seq<char>| config_str(config, k))
}

/// The string member `key` of a configuration object.
pub fn config_get_str<'a>(config: Option<&'a JsonValue>, key: &str) -> (r: Option<&'a String>)
    ensures
        match r {
            Some(s) => config_str(config, key@) == Some(s@),
            None => config_str(config, key@) is None,
        },
{
    match config {
        Some(JsonValue::Object(members)) => match object_get(members, key) {
            Some(JsonValue::Str(s)) => Some(s),
            _ => None,
        },
        _ => None,
    }
}

/// The set-up that `config` gives for the required `keys`.
pub fn setup_for(config: Option<&JsonValue>, keys: &Vec<&str>) -> (s: Setup)
    ensures
        setup_matches(s, config, key_names(keys@)),
{
    let ghost names = key_names(keys@);
    let mut values: Vec<String> = Vec::new();
    let mut i: usize = 0;
    while i < keys.len()
        invariant
            i <= keys@.len(),
            names == key_names(keys@),
            values@.len() == i,
            forall|j: int| 0 <= j < i ==> (#[trigger] config_str(config, names[j])) is Some,
            names_of(values@) == names.take(i as int).map_values(
                |k: Seq<char>| config_str(config, k)->0,
            ),
        decreases keys@.len() - i,
    {
        match config_get_str(config, keys[i]) {
            Some(v) => {
                let ghost before = values@;
                values.push(v.clone());
                proof {
                    let goal = names.take(i + 1).map_values(|k: Seq<char>| config_str(config, k)->0);
                    let prev = names.take(i as int).map_values(|k: Seq<char>| config_str(config, k)->0);
                    assert(names[i as int] == keys@[i as int]@);
                    assert forall|j: int| 0 <= j < i + 1 implies names_of(values@)[j] == goal[j] by {
                        if j < i {
                            assert(values@[j] == before[j]);
                            assert(names_of(before)[j] == prev[j]);
                        }
                    }
                    assert(names_of(values@) =~= goal);
                }
            },
            None => {
                proof {
                    assert(!all_present(config, names)) by {
                        assert(config_str(config, names[i as int]) is None);
                    }
                }
                return Setup::Default;
            },
        }
        i = i + 1;
    }
    proof {
        assert(names.take(i as int) =~= names);
    }
    Setup::Configured(values)
}

/// The optional settings that `config` gives for `keys`.
pub fn extras_for(config: Option<&JsonValue>, keys: &Vec<&str>) -> (v: Vec<Option<String>>)
    ensures
        extras_match(v@, config, key_names(keys@)),
{
    let ghost names = key_names(keys@);
    let mut values: Vec<Option<String>> = Vec::new();
    let mut i: usize = 0;
    while i < keys.len()
        invariant
            i <= keys@.len(),
            names == key_names(keys@),
            values@.len() == i,
            opt_texts(values@) == names.take(i as int).map_values(
                |k: Seq<char>| config_str(config, k),
            ),
        decreases keys@.len() - i,
    {
        let value = match config_get_str(config, keys[i]) {
            Some(v) => Some(v.clone()),
            None => None,
        };
        let ghost before = values@;
        values.push(value);
        proof {
            let goal = names.take(i + 1).map_values(|k: Seq<char>| config_str(config, k));
            let prev = names.take(i as int).map_values(|k: Seq<char>| config_str(config, k));
            assert(names[i as int] == keys@[i as int]@);
            assert forall|j: int| 0 <= j < i + 1 implies opt_texts(values@)[j] == goal[j] by {
                if j < i {
                    assert(values@[j] == before[j]);
                    assert(opt_texts(before)[j] == prev[j]);
                }
            }
            assert(opt_texts(values@) =~= goal);
        }
        i = i + 1;
    }
    proof {
        assert(names.take(i as int) =~= names);
    }
    values
}

} // verus!

verus! {

/// `p` is the plan for a provider of kind `kind`: set up by default when
/// the kind takes no configuration (`keys` is `None`), else as the
/// configuration gives for `keys`; optional settings as it gives for
/// `optional`.
pub open spec fn plan_matches<K>(
    p: ProviderPlan<K>,
    kind: K,
    config: Option<&JsonValue>,
    keys: Option<Seq<&str>>,
    optional: Seq<&str>,
) -> bool {
    &&& p.kind == kind
    &&& match keys {
        None => p.setup is Default,
        Some(ks) => setup_matches(p.setup, config, key_names(ks)),
    }
    &&& extras_match(p.extras@, config, key_names(optional))
}

fn configured<K>(kind: K, config: Option<&JsonValue>, keys: Vec<&str>, optional: Vec<&str>) -> (p:
    ProviderPlan<K>)
    ensures
        plan_matches(p, kind, config, Some(keys@), optional@),
{
    let setup = setup_for(config, &keys);
    let extras = extras_for(config, &optional);
    ProviderPlan { kind, setup, extras }
}

fn plain<K>(kind: K, config: Option<&JsonValue>, optional: Vec<&str>) -> (p: ProviderPlan<K>)
    ensures
        plan_matches(p, kind, config, None, optional@),
{
    let extras = extras_for(config, &optional);
    ProviderPlan { kind, setup: Setup::Default, extras }
}

/// The error for a provider that a tool crate does not know.
pub open spec fn unknown_provider(crate_name: Seq<char>, provider: Seq<char>) -> BridgeFault {
    BridgeFault::InvalidInput("unsupported provider `"@ + provider + "` for `"@ + crate_name + "`"@)
}

/// The message for a missing payload member.
pub open spec fn missing_member(key: Seq<char>, crate_name: Seq<char>, operation: Seq<char>) -> Seq<
    char,
> {
    "missing `"@ + key + "` for `"@ + crate_name + "` / `"@ + operation + "`"@
}

/// Payload member `key`, which the tool crate reads into its own type.
pub fn from_field<'a>(payload: &'a JsonValue, key: &str, crate_name: &str, operation: &str) -> (r:
    Result<&'a JsonValue, BridgeError>)
    ensures
        match payload_field(*payload, key@) {
            Some(v) => r matches Ok(x) && *x == v,
            None => r matches Err(e) && e@ == BridgeFault::InvalidInput(
                missing_member(key@, crate_name@, operation@),
            ),
        },
{
    match get_field(payload, key) {
        Some(v) => Ok(v),
        None => {
            let mut m = String::from_str("missing `");
            m.append(key);
            m.append("` for `");
            m.append(crate_name);
            m.append("` / `");
            m.append(operation);
            m.append("`");
            Err(BridgeError::InvalidInput(m))
        },
    }
}

fn unknown(crate_name: &str, provider: &str) -> (e: BridgeError)
    ensures
        e@ == unknown_provider(crate_name@, provider@),
{
    crate::bridge::unsupported_provider(crate_name, provider)
}

// ---------------------------------------------------------------------
// or-tools-search
// ---------------------------------------------------------------------

#[derive(Debug, Clone, Copy, PartialEq, Eq)]
pub enum SearchKind {
    Tavily,
    Exa,
    Brave,
    Serper,
    Searxng,
    YouCom,
    Bing,
}

pub open spec fn search_kind(name: Seq<char>) -> Option<SearchKind> {
    if name == "tavily"@ {
        Some(SearchKind::Tavily)
    } else if name == "exa"@ {
        Some(SearchKind::Exa)
    } else if name == "brave"@ {
        Some(SearchKind::Brave)
    } else if name == "serper"@ {
        Some(SearchKind::Serper)
    } else if name == "searxng"@ {
        Some(SearchKind::Searxng)
    } else if name == "youcom"@ {
        Some(SearchKind::YouCom)
    } else if name == "bing"@ {
        Some(SearchKind::Bing)
    } else {
        None
    }
}

pub open spec fn search_keys(kind: SearchKind) -> Seq<&'static str> {
    match kind {
        SearchKind::Searxng => seq!["endpoint"],
        _ => seq!["endpoint", "api_key"],
    }
}

/// How a search provider named `provider` is set up.
pub fn search_provider_plan(provider: &str, config: Option<&JsonValue>) -> (r: Result<
    ProviderPlan<SearchKind>,
    BridgeError,
>)
    ensures
        match search_kind(provider@) {
            None => r matches Err(e) && e@ == unknown_provider("or-tools-search"@, provider@),
            Some(k) => r matches Ok(p) && plan_matches(p, k, config, Some(search_keys(k)), seq![]),
        },
{
    let name = String::from_str(provider);
    let kind = if crate::bridge::same(&name, "tavily") {
        SearchKind::Tavily
    } else if crate::bridge::same(&name, "exa") {
        SearchKind::Exa
    } else if crate::bridge::same(&name, "brave") {
        SearchKind::Brave
    } else if crate::bridge::same(&name, "serper") {
        SearchKind::Serper
    } else if crate::bridge::same(&name, "searxng") {
        SearchKind::Searxng
    } else if crate::bridge::same(&name, "youcom") {
        SearchKind::YouCom
    } else if crate::bridge::same(&name, "bing") {
        SearchKind::Bing
    } else {
        return Err(unknown("or-tools-search", provider));
    };
    match kind {
        SearchKind::Searxng => {
            let keys = vec!["endpoint"];
            assert(keys@ =~= search_keys(kind));
            Ok(configured(kind, config, keys, vec![]))
        },
        _ => Ok(configured(kind, config, vec!["endpoint", "api_key"], vec![])),
    }
}

/// A search request: the provider's name and the query to read.
pub struct SearchRequest<'a> {
    pub provider: &'a String,
    pub query: &'a JsonValue,
}

/// Checks a search invocation and picks out its provider and query.
pub fn search_request<'a>(operation: &str, payload: &'a JsonValue) -> (r: Result<
    SearchRequest<'a>,
    BridgeError,
>)
    ensures
        refuses_operation(r) <==> !tool_operation(ToolCrate::Search, operation@),
        operation@ != "search"@ ==> (r matches Err(e) && e@ == (BridgeFault::UnsupportedOperation {
            crate_name: "or-tools-search"@,
            operation: operation@,
        })),
        operation@ == "search"@ ==> match field_str(*payload, "provider"@) {
            None => r matches Err(e) && e@ == BridgeFault::InvalidInput(
                missing_string("provider"@, "or-tools-search"@, operation@),
            ),
            Some(p) => match payload_field(*payload, "query"@) {
                None => r matches Err(e) && e@ == BridgeFault::InvalidInput(
                    missing_member("query"@, "or-tools-search"@, operation@),
                ),
                Some(q) => r matches Ok(req) && req.provider@ == p && *req.query == q,
            },
        },
{
    let op = String::from_str(operation);
    if !crate::bridge::same(&op, "search") {
        return Err(unsupported("or-tools-search", operation));
    }
    let provider = required_str(payload, "provider", "or-tools-search", operation)?;
    let query = from_field(payload, "query", "or-tools-search", operation)?;
    Ok(SearchRequest { provider, query })
}

} // verus!

verus! {

/// `r` failed with the error `f`.
pub open spec fn fails_with<T>(r: Result<T, BridgeError>, f: BridgeFault) -> bool {
    r matches Err(e) && e@ == f
}

/// The error for an operation a tool crate does not offer.
pub open spec fn no_such_operation(crate_name: Seq<char>, operation: Seq<char>) -> BridgeFault {
    BridgeFault::UnsupportedOperation { crate_name: crate_name, operation: operation }
}

// ---------------------------------------------------------------------
// or-tools-web
// ---------------------------------------------------------------------

#[derive(Debug, Clone, Copy, PartialEq, Eq)]
pub enum BrowserKind {
    Requests,
    Playwright,
    BrightData,
    Hyperbrowser,
    Oxylabs,
}

pub open spec fn browser_kind(name: Seq<char>) -> Option<BrowserKind> {
    if name == "requests"@ {
        Some(BrowserKind::Requests)
    } else if name == "playwright"@ {
        Some(BrowserKind::Playwright)
    } else if name == "brightdata"@ {
        Some(BrowserKind::BrightData)
    } else if name == "hyperbrowser"@ {
        Some(BrowserKind::Hyperbrowser)
    } else if name == "oxylabs"@ {
        Some(BrowserKind::Oxylabs)
    } else {
        None
    }
}

pub open spec fn browser_keys(kind: BrowserKind) -> Option<Seq<&'static str>> {
    match kind {
        BrowserKind::Requests => None,
        BrowserKind::Playwright => Some(seq!["endpoint"]),
        BrowserKind::BrightData => Some(seq!["endpoint", "token"]),
        BrowserKind::Hyperbrowser => Some(seq!["endpoint", "api_key"]),
        BrowserKind::Oxylabs => Some(seq!["endpoint", "username", "password"]),
    }
}

pub open spec fn browser_optional(kind: BrowserKind) -> Seq<&'static str> {
    match kind {
        BrowserKind::BrightData => seq!["zone"],
        _ => seq![],
    }
}

/// How a browser named `provider` is set up.
pub fn web_browser_plan(provider: &str, config: Option<&JsonValue>) -> (r: Result<
    ProviderPlan<BrowserKind>,
    BridgeError,
>)
    ensures
        match browser_kind(provider@) {
            None => fails_with(r, unknown_provider("or-tools-web"@, provider@)),
            Some(k) => r matches Ok(p) && plan_matches(
                p,
                k,
                config,
                browser_keys(k),
                browser_optional(k),
            ),
        },
{
    let name = String::from_str(provider);
    if crate::bridge::same(&name, "requests") {
        Ok(plain(BrowserKind::Requests, config, vec![]))
    } else if crate::bridge::same(&name, "playwright") {
        let keys = vec!["endpoint"];
        assert(keys@ =~= seq!["endpoint"]);
        Ok(configured(BrowserKind::Playwright, config, keys, vec![]))
    } else if crate::bridge::same(&name, "brightdata") {
        let optional = vec!["zone"];
        assert(optional@ =~= seq!["zone"]);
        Ok(configured(BrowserKind::BrightData, config, vec!["endpoint", "token"], optional))
    } else if crate::bridge::same(&name, "hyperbrowser") {
        Ok(configured(BrowserKind::Hyperbrowser, config, vec!["endpoint", "api_key"], vec![]))
    } else if crate::bridge::same(&name, "oxylabs") {
        Ok(
            configured(
                BrowserKind::Oxylabs,
                config,
                vec!["endpoint", "username", "password"],
                vec![],
            ),
        )
    } else {
        Err(unknown("or-tools-web", provider))
    }
}

/// The Bright Data zone to use: the configured one, else `web_unlocker`.
pub fn zone_or_default(zone: &Option<String>) -> (r: String)
    ensures
        r@ == match zone {
            Some(z) => z@,
            None => "web_unlocker"@,
        },
{
    match zone {
        Some(z) => z.clone(),
        None => String::from_str("web_unlocker"),
    }
}

#[derive(Debug, Clone, Copy, PartialEq, Eq)]
pub enum ScraperKind {
    AgentQl,
}

/// How a scraper named `provider` is set up: AgentQL from the
/// environment, with the configured prompt if there is one.
pub fn scraper_plan(provider: &str, config: Option<&JsonValue>) -> (r: Result<
    ProviderPlan<ScraperKind>,
    BridgeError,
>)
    ensures
        provider@ == "agentql"@ ==> (r matches Ok(p) && plan_matches(
            p,
            ScraperKind::AgentQl,
            config,
            None,
            seq!["prompt"],
        )),
        provider@ != "agentql"@ ==> fails_with(r, unknown_provider("or-tools-web"@, provider@)),
{
    let name = String::from_str(provider);
    if crate::bridge::same(&name, "agentql") {
        let optional = vec!["prompt"];
        assert(optional@ =~= seq!["prompt"]);
        Ok(plain(ScraperKind::AgentQl, config, optional))
    } else {
        Err(unknown("or-tools-web", provider))
    }
}

/// A checked web invocation.
#[derive(Debug)]
pub enum WebCall<'a> {
    Fetch { provider: &'a String, request: &'a JsonValue },
    Scrape { provider: &'a String, url: &'a String },
}

/// Checks a web invocation and picks out what it needs.
pub fn web_request<'a>(operation: &str, payload: &'a JsonValue) -> (r: Result<WebCall<'a>, BridgeError>)
    ensures
        refuses_operation(r) <==> !tool_operation(ToolCrate::Web, operation@),
        operation@ == "fetch"@ ==> match field_str(*payload, "provider"@) {
            None => fails_with(
                r,
                BridgeFault::InvalidInput(missing_string("provider"@, "or-tools-web"@, operation@)),
            ),
            Some(p) => match payload_field(*payload, "request"@) {
                None => fails_with(
                    r,
                    BridgeFault::InvalidInput(missing_member("request"@, "or-tools-web"@, operation@)),
                ),
                Some(q) => r matches Ok(WebCall::Fetch { provider, request }) && provider@ == p
                    && *request == q,
            },
        },
        operation@ == "scrape"@ ==> match field_str(*payload, "provider"@) {
            None => fails_with(
                r,
                BridgeFault::InvalidInput(missing_string("provider"@, "or-tools-web"@, operation@)),
            ),
            Some(p) => match field_str(*payload, "url"@) {
                None => fails_with(
                    r,
                    BridgeFault::InvalidInput(missing_string("url"@, "or-tools-web"@, operation@)),
                ),
                Some(u) => r matches Ok(WebCall::Scrape { provider, url }) && provider@ == p
                    && url@ == u,
            },
        },
        operation@ != "fetch"@ && operation@ != "scrape"@ ==> fails_with(
            r,
            no_such_operation("or-tools-web"@, operation@),
        ),
{
    proof {
        reveal_strlit("fetch");
        reveal_strlit("scrape");
    }
    let op = String::from_str(operation);
    if crate::bridge::same(&op, "fetch") {
        let provider = required_str(payload, "provider", "or-tools-web", operation)?;
        let request = from_field(payload, "request", "or-tools-web", operation)?;
        Ok(WebCall::Fetch { provider, request })
    } else if crate::bridge::same(&op, "scrape") {
        let provider = required_str(payload, "provider", "or-tools-web", operation)?;
        let url = required_str(payload, "url", "or-tools-web", operation)?;
        Ok(WebCall::Scrape { provider, url })
    } else {
        Err(unsupported("or-tools-web", operation))
    }
}

// ---------------------------------------------------------------------
// or-tools-vector
// ---------------------------------------------------------------------

#[derive(Debug, Clone, Copy, PartialEq, Eq)]
pub enum VectorKind {
    Pinecone,
    Weaviate,
    Qdrant,
    Chroma,
    Milvus,
    PgVector,
}

pub open spec fn vector_kind(name: Seq<char>) -> Option<VectorKind> {
    if name == "pinecone"@ {
        Some(VectorKind::Pinecone)
    } else if name == "weaviate"@ {
        Some(VectorKind::Weaviate)
    } else if name == "qdrant"@ {
        Some(VectorKind::Qdrant)
    } else if name == "chroma"@ {
        Some(VectorKind::Chroma)
    } else if name == "milvus"@ {
        Some(VectorKind::Milvus)
    } else if name == "pgvector"@ {
        Some(VectorKind::PgVector)
    } else {
        None
    }
}

pub open spec fn vector_keys(kind: VectorKind) -> Option<Seq<&'static str>> {
    match kind {
        VectorKind::Pinecone => Some(seq!["host", "api_key"]),
        VectorKind::PgVector => None,
        _ => Some(seq!["base_url"]),
    }
}

pub open spec fn vector_optional(kind: VectorKind) -> Seq<&'static str> {
    match kind {
        VectorKind::Weaviate => seq!["api_key"],
        VectorKind::Qdrant => seq!["api_key"],
        VectorKind::Milvus => seq!["token"],
        _ => seq![],
    }
}

/// How a vector store client named `provider` is set up; pgvector takes
/// no configuration at all.
pub fn vector_client_plan(provider: &str, config: Option<&JsonValue>) -> (r: Result<
    ProviderPlan<VectorKind>,
    BridgeError,
>)
    ensures
        match vector_kind(provider@) {
            None => fails_with(r, unknown_provider("or-tools-vector"@, provider@)),
            Some(VectorKind::PgVector) => if config is Some {
                fails_with(
                    r,
                    BridgeFault::InvalidInput(
                        "pgvector currently uses environment-based connection setup only"@,
                    ),
                )
            } else {
                r matches Ok(p) && plan_matches(p, VectorKind::PgVector, config, None, seq![])
            },
            Some(k) => r matches Ok(p) && plan_matches(
                p,
                k,
                config,
                vector_keys(k),
                vector_optional(k),
            ),
        },
{
    let name = String::from_str(provider);
    if crate::bridge::same(&name, "pinecone") {
        Ok(configured(VectorKind::Pinecone, config, vec!["host", "api_key"], vec![]))
    } else if crate::bridge::same(&name, "weaviate") {
        let keys = vec!["base_url"];
        assert(keys@ =~= seq!["base_url"]);
        let optional = vec!["api_key"];
        assert(optional@ =~= seq!["api_key"]);
        Ok(configured(VectorKind::Weaviate, config, keys, optional))
    } else if crate::bridge::same(&name, "qdrant") {
        let keys = vec!["base_url"];
        assert(keys@ =~= seq!["base_url"]);
        let optional = vec!["api_key"];
        assert(optional@ =~= seq!["api_key"]);
        Ok(configured(VectorKind::Qdrant, config, keys, optional))
    } else if crate::bridge::same(&name, "chroma") {
        let keys = vec!["base_url"];
        assert(keys@ =~= seq!["base_url"]);
        Ok(configured(VectorKind::Chroma, config, keys, vec![]))
    } else if crate::bridge::same(&name, "milvus") {
        let keys = vec!["base_url"];
        assert(keys@ =~= seq!["base_url"]);
        let optional = vec!["token"];
        assert(optional@ =~= seq!["token"]);
        Ok(configured(VectorKind::Milvus, config, keys, optional))
    } else if crate::bridge::same(&name, "pgvector") {
        if config.is_some() {
            Err(
                BridgeError::InvalidInput(
                    String::from_str(
                        "pgvector currently uses environment-based connection setup only",
                    ),
                ),
            )
        } else {
            Ok(plain(VectorKind::PgVector, config, vec![]))
        }
    } else {
        Err(unknown("or-tools-vector", provider))
    }
}

#[derive(Debug, Clone, Copy, PartialEq, Eq)]
pub enum VectorOp {
    EnsureCollection,
    Upsert,
    Delete,
    Query,
}

pub open spec fn vector_op(name: Seq<char>) -> Option<VectorOp> {
    if name == "ensure_collection"@ {
        Some(VectorOp::EnsureCollection)
    } else if name == "upsert"@ {
        Some(VectorOp::Upsert)
    } else if name == "delete"@ {
        Some(VectorOp::Delete)
    } else if name == "query"@ {
        Some(VectorOp::Query)
    } else {
        None
    }
}

/// The provider a vector invocation names, checked before anything else.
pub fn vector_provider<'a>(operation: &str, payload: &'a JsonValue) -> (r: Result<
    &'a String,
    BridgeError,
>)
    ensures
        match field_str(*payload, "provider"@) {
            None => fails_with(
                r,
                BridgeFault::InvalidInput(missing_string("provider"@, "or-tools-vector"@, operation@)),
            ),
            Some(p) => r matches Ok(s) && s@ == p,
        },
{
    required_str(payload, "provider", "or-tools-vector", operation)
}

/// The operation of a vector invocation and the data it reads, once the
/// client is set up.
pub fn vector_operation<'a>(operation: &str, payload: &'a JsonValue) -> (r: Result<
    (VectorOp, &'a JsonValue),
    BridgeError,
>)
    ensures
        refuses_operation(r) <==> !tool_operation(ToolCrate::Vector, operation@),
        match vector_op(operation@) {
            None => fails_with(r, no_such_operation("or-tools-vector"@, operation@)),
            Some(o) => match payload_field(*payload, "data"@) {
                None => fails_with(
                    r,
                    BridgeFault::InvalidInput(missing_member("data"@, "or-tools-vector"@, operation@)),
                ),
                Some(d) => r matches Ok((op, data)) && op == o && *data == d,
            },
        },
{
    let name = String::from_str(operation);
    let op = if crate::bridge::same(&name, "ensure_collection") {
        VectorOp::EnsureCollection
    } else if crate::bridge::same(&name, "upsert") {
        VectorOp::Upsert
    } else if crate::bridge::same(&name, "delete") {
        VectorOp::Delete
    } else if crate::bridge::same(&name, "query") {
        VectorOp::Query
    } else {
        return Err(unsupported("or-tools-vector", operation));
    };
    let data = from_field(payload, "data", "or-tools-vector", operation)?;
    Ok((op, data))
}

// ---------------------------------------------------------------------
// or-tools-loaders
// ---------------------------------------------------------------------

/// Checks a loader invocation and picks out its request.
pub fn loader_request<'a>(operation: &str, payload: &'a JsonValue) -> (r: Result<
    &'a JsonValue,
    BridgeError,
>)
    ensures
        refuses_operation(r) <==> !tool_operation(ToolCrate::Loaders, operation@),
        operation@ != "load"@ ==> fails_with(r, no_such_operation("or-tools-loaders"@, operation@)),
        operation@ == "load"@ ==> match payload_field(*payload, "request"@) {
            None => fails_with(
                r,
                BridgeFault::InvalidInput(missing_member("request"@, "or-tools-loaders"@, operation@)),
            ),
            Some(q) => r matches Ok(x) && *x == q,
        },
{
    let op = String::from_str(operation);
    if !crate::bridge::same(&op, "load") {
        return Err(unsupported("or-tools-loaders", operation));
    }
    from_field(payload, "request", "or-tools-loaders", operation)
}

} // verus!

verus! {

/// An optional JSON value, borrowed.
pub open spec fn opt_ref<'a>(v: Option<JsonValue>) -> Option<&'a JsonValue> {
    match v {
        Some(x) => Some(&x),
        None => None,
    }
}

// ---------------------------------------------------------------------
// or-tools-exec
// ---------------------------------------------------------------------

#[derive(Debug, Clone, Copy, PartialEq, Eq)]
pub enum ExecutorKind {
    Python,
    Shell,
    E2B,
    Bearly,
    Daytona,
}

pub open spec fn executor_kind(name: Seq<char>) -> Option<ExecutorKind> {
    if name == "python"@ {
        Some(ExecutorKind::Python)
    } else if name == "shell"@ {
        Some(ExecutorKind::Shell)
    } else if name == "e2b"@ {
        Some(ExecutorKind::E2B)
    } else if name == "bearly"@ {
        Some(ExecutorKind::Bearly)
    } else if name == "daytona"@ {
        Some(ExecutorKind::Daytona)
    } else {
        None
    }
}

pub open spec fn executor_keys(kind: ExecutorKind) -> Option<Seq<&'static str>> {
    match kind {
        ExecutorKind::E2B => Some(seq!["endpoint", "api_key"]),
        ExecutorKind::Bearly => Some(seq!["endpoint", "api_key"]),
        _ => None,
    }
}

/// The configuration is a JSON object.
pub open spec fn is_object_config(config: Option<&JsonValue>) -> bool {
    config matches Some(JsonValue::Object(_))
}

/// Why an executor named `name` cannot be set up with `config`, if it
/// cannot: an unknown name, or a configuration object for Daytona.
pub open spec fn executor_error(name: Seq<char>, config: Option<&JsonValue>) -> Option<BridgeFault> {
    match executor_kind(name) {
        None => Some(unknown_provider("or-tools-exec"@, name)),
        Some(ExecutorKind::Daytona) => if is_object_config(config) {
            Some(
                BridgeFault::InvalidInput(
                    "daytona currently uses environment-based connection setup only"@,
                ),
            )
        } else {
            None
        },
        Some(_) => None,
    }
}

/// How an executor named `provider` is set up.
pub fn executor_plan(provider: &str, config: Option<&JsonValue>) -> (r: Result<
    ProviderPlan<ExecutorKind>,
    BridgeError,
>)
    ensures
        match executor_error(provider@, config) {
            Some(f) => fails_with(r, f),
            None => r matches Ok(p) && plan_matches(
                p,
                executor_kind(provider@)->0,
                config,
                executor_keys(executor_kind(provider@)->0),
                seq![],
            ),
        },
{
    let name = String::from_str(provider);
    if crate::bridge::same(&name, "python") {
        Ok(plain(ExecutorKind::Python, config, vec![]))
    } else if crate::bridge::same(&name, "shell") {
        Ok(plain(ExecutorKind::Shell, config, vec![]))
    } else if crate::bridge::same(&name, "e2b") {
        Ok(configured(ExecutorKind::E2B, config, vec!["endpoint", "api_key"], vec![]))
    } else if crate::bridge::same(&name, "bearly") {
        Ok(configured(ExecutorKind::Bearly, config, vec!["endpoint", "api_key"], vec![]))
    } else if crate::bridge::same(&name, "daytona") {
        match config {
            Some(JsonValue::Object(_)) => Err(
                BridgeError::InvalidInput(
                    String::from_str("daytona currently uses environment-based connection setup only"),
                ),
            ),
            _ => Ok(plain(ExecutorKind::Daytona, config, vec![])),
        }
    } else {
        Err(unknown("or-tools-exec", provider))
    }
}

/// Checks an execution invocation and picks out its request.
pub fn exec_request<'a>(operation: &str, payload: &'a JsonValue) -> (r: Result<
    &'a JsonValue,
    BridgeError,
>)
    ensures
        refuses_operation(r) <==> !tool_operation(ToolCrate::Exec, operation@),
        operation@ != "execute"@ ==> fails_with(r, no_such_operation("or-tools-exec"@, operation@)),
        operation@ == "execute"@ ==> match payload_field(*payload, "request"@) {
            None => fails_with(
                r,
                BridgeFault::InvalidInput(missing_member("request"@, "or-tools-exec"@, operation@)),
            ),
            Some(q) => r matches Ok(x) && *x == q,
        },
{
    let op = String::from_str(operation);
    if !crate::bridge::same(&op, "execute") {
        return Err(unsupported("or-tools-exec", operation));
    }
    from_field(payload, "request", "or-tools-exec", operation)
}

/// The strings among JSON values, in order.
pub open spec fn string_items(items: Seq<JsonValue>) -> Seq<Seq<char>>
    decreases items.len(),
{
    if items.len() == 0 {
        seq![]
    } else {
        match items.last() {
            JsonValue::Str(s) => string_items(items.drop_last()).push(s@),
            _ => string_items(items.drop_last()),
        }
    }
}

/// The executors an invocation names: the strings of its `providers`
/// array, or Python and the shell when it has no such array.
pub open spec fn executor_names(payload: JsonValue) -> Seq<Seq<char>> {
    match payload_field(payload, "providers"@) {
        Some(JsonValue::Array(items)) => string_items(items@),
        _ => seq!["python"@, "shell"@],
    }
}

/// The configuration of executor `name`: the member of that name of the
/// invocation's `config` object.
pub open spec fn executor_config(payload: JsonValue, name: Seq<char>) -> Option<JsonValue> {
    match payload_field(payload, "config"@) {
        Some(JsonValue::Object(members)) => member_lookup(members@, name),
        _ => None,
    }
}

/// The executors an invocation names.
pub fn exec_provider_names(payload: &JsonValue) -> (r: Vec<String>)
    ensures
        names_of(r@) == executor_names(*payload),
{
    match get_field(payload, "providers") {
        Some(JsonValue::Array(items)) => {
            let mut names: Vec<String> = Vec::new();
            let mut i: usize = 0;
            while i < items.len()
                invariant
                    i <= items@.len(),
                    names_of(names@) == string_items(items@.take(i as int)),
                decreases items@.len() - i,
            {
                proof {
                    assert(items@.take(i + 1).drop_last() =~= items@.take(i as int));
                    assert(items@.take(i + 1).last() == items@[i as int]);
                }
                match &items[i] {
                    JsonValue::Str(s) => {
                        let ghost before = names@;
                        names.push(s.clone());
                        proof {
                            assert(names_of(names@) =~= names_of(before).push(s@));
                        }
                    },
                    _ => {},
                }
                i = i + 1;
            }
            proof {
                assert(items@.take(i as int) =~= items@);
            }
            names
        },
        _ => {
            let names = vec![String::from_str("python"), String::from_str("shell")];
            proof {
                assert(names_of(names@) =~= seq!["python"@, "shell"@]);
            }
            names
        },
    }
}

/// The configuration of executor `name`.
pub fn exec_provider_config<'a>(payload: &'a JsonValue, name: &str) -> (r: Option<&'a JsonValue>)
    ensures
        r == opt_ref(executor_config(*payload, name@)),
{
    match get_field(payload, "config") {
        Some(JsonValue::Object(members)) => object_get(members, name),
        _ => None,
    }
}

/// Sets up every executor an invocation names, in order; the first that
/// cannot be set up fails the whole.
pub fn exec_plans(payload: &JsonValue) -> (r: Result<Vec<ProviderPlan<ExecutorKind>>, BridgeError>)
    ensures
        ({
            let names = executor_names(*payload);
            let err = |i: int| executor_error(names[i], opt_ref(executor_config(*payload, names[i])));
            &&& r is Ok <==> forall|i: int| 0 <= i < names.len() ==> (#[trigger] err(i)) is None
            &&& r matches Ok(ps) ==> ps@.len() == names.len() && forall|i: int|
                0 <= i < names.len() ==> plan_matches(
                    #[trigger] ps@[i],
                    executor_kind(names[i])->0,
                    opt_ref(executor_config(*payload, names[i])),
                    executor_keys(executor_kind(names[i])->0),
                    seq![],
                )
            &&& r matches Err(e) ==> exists|i: int|
                0 <= i < names.len() && (forall|j: int| 0 <= j < i ==> (#[trigger] err(j)) is None)
                    && (#[trigger] err(i)) == Some(e@)
        }),
{
    let names = exec_provider_names(payload);
    let ghost gnames = executor_names(*payload);
    let ghost err = |i: int| executor_error(gnames[i], opt_ref(executor_config(*payload, gnames[i])));
    let mut plans: Vec<ProviderPlan<ExecutorKind>> = Vec::new();
    let mut i: usize = 0;
    while i < names.len()
        invariant
            i <= names@.len(),
            names_of(names@) == gnames,
            gnames == executor_names(*payload),
            err == (|i: int| executor_error(gnames[i], opt_ref(executor_config(*payload, gnames[i])))),
            plans@.len() == i,
            forall|j: int| 0 <= j < i ==> (#[trigger] err(j)) is None,
            forall|j: int|
                0 <= j < i ==> plan_matches(
                    #[trigger] plans@[j],
                    executor_kind(gnames[j])->0,
                    opt_ref(executor_config(*payload, gnames[j])),
                    executor_keys(executor_kind(gnames[j])->0),
                    seq![],
                ),
        decreases names@.len() - i,
    {
        let name = &names[i];
        proof {
            assert(gnames[i as int] == name@);
        }
        let config = exec_provider_config(payload, name.as_str());
        match executor_plan(name.as_str(), config) {
            Ok(plan) => {
                let ghost before = plans@;
                plans.push(plan);
                proof {
                    assert forall|j: int|
                        0 <= j < i + 1 implies plan_matches(
                        #[trigger] plans@[j],
                        executor_kind(gnames[j])->0,
                        opt_ref(executor_config(*payload, gnames[j])),
                        executor_keys(executor_kind(gnames[j])->0),
                        seq![],
                    ) by {
                        if j < i {
                            assert(plans@[j] == before[j]);
                        }
                    }
                    assert(err(i as int) is None);
                }
            },
            Err(e) => {
                proof {
                    assert(err(i as int) == Some(e@));
                }
                return Err(e);
            },
        }
        i = i + 1;
    }
    Ok(plans)
}

} // verus!

verus! {

// ---------------------------------------------------------------------
// or-tools-file
// ---------------------------------------------------------------------

#[derive(Debug, Clone, Copy, PartialEq, Eq)]
pub enum FileStoreKind {
    Local,
    GDrive,
}

pub open spec fn file_store_kind(name: Seq<char>) -> Option<FileStoreKind> {
    if name == "local"@ {
        Some(FileStoreKind::Local)
    } else if name == "gdrive"@ {
        Some(FileStoreKind::GDrive)
    } else {
        None
    }
}

pub open spec fn file_store_keys(kind: FileStoreKind) -> Option<Seq<&'static str>> {
    match kind {
        FileStoreKind::Local => None,
        FileStoreKind::GDrive => Some(seq!["access_token"]),
    }
}

/// How a file store named `provider` is set up.
pub fn file_store_plan(provider: &str, config: Option<&JsonValue>) -> (r: Result<
    ProviderPlan<FileStoreKind>,
    BridgeError,
>)
    ensures
        match file_store_kind(provider@) {
            None => fails_with(r, unknown_provider("or-tools-file"@, provider@)),
            Some(k) => r matches Ok(p) && plan_matches(p, k, config, file_store_keys(k), seq![]),
        },
{
    let name = String::from_str(provider);
    if crate::bridge::same(&name, "local") {
        Ok(plain(FileStoreKind::Local, config, vec![]))
    } else if crate::bridge::same(&name, "gdrive") {
        let keys = vec!["access_token"];
        assert(keys@ =~= seq!["access_token"]);
        Ok(configured(FileStoreKind::GDrive, config, keys, vec![]))
    } else {
        Err(unknown("or-tools-file", provider))
    }
}

#[derive(Debug, Clone, Copy, PartialEq, Eq)]
pub enum DataSourceKind {
    Json,
    Arxiv,
    Financial,
}

pub open spec fn data_source_kind(name: Seq<char>) -> Option<DataSourceKind> {
    if name == "json"@ {
        Some(DataSourceKind::Json)
    } else if name == "arxiv"@ {
        Some(DataSourceKind::Arxiv)
    } else if name == "financial"@ {
        Some(DataSourceKind::Financial)
    } else {
        None
    }
}

pub open spec fn data_source_keys(kind: DataSourceKind) -> Option<Seq<&'static str>> {
    match kind {
        DataSourceKind::Json => None,
        DataSourceKind::Arxiv => Some(seq!["endpoint"]),
        DataSourceKind::Financial => Some(seq!["endpoint", "api_key"]),
    }
}

/// How a data source named `provider` is set up.
pub fn data_source_plan(provider: &str, config: Option<&JsonValue>) -> (r: Result<
    ProviderPlan<DataSourceKind>,
    BridgeError,
>)
    ensures
        match data_source_kind(provider@) {
            None => fails_with(r, unknown_provider("or-tools-file"@, provider@)),
            Some(k) => r matches Ok(p) && plan_matches(p, k, config, data_source_keys(k), seq![]),
        },
{
    let name = String::from_str(provider);
    if crate::bridge::same(&name, "json") {
        Ok(plain(DataSourceKind::Json, config, vec![]))
    } else if crate::bridge::same(&name, "arxiv") {
        let keys = vec!["endpoint"];
        assert(keys@ =~= seq!["endpoint"]);
        Ok(configured(DataSourceKind::Arxiv, config, keys, vec![]))
    } else if crate::bridge::same(&name, "financial") {
        Ok(configured(DataSourceKind::Financial, config, vec!["endpoint", "api_key"], vec![]))
    } else {
        Err(unknown("or-tools-file", provider))
    }
}

/// The file store an invocation names: its `provider` string, `local`
/// when it has none.
pub open spec fn file_store_name(payload: JsonValue) -> Seq<char> {
    match field_str(payload, "provider"@) {
        Some(p) => p,
        None => "local"@,
    }
}

/// A checked file invocation.
#[derive(Debug)]
pub enum FileCall<'a> {
    Read { store: ProviderPlan<FileStoreKind>, path: &'a String },
    Write { store: ProviderPlan<FileStoreKind>, path: &'a String, content: &'a String },
    List { store: ProviderPlan<FileStoreKind>, path: &'a String },
    Delete { store: ProviderPlan<FileStoreKind>, path: &'a String },
    Fetch { source: ProviderPlan<DataSourceKind>, query: Option<&'a JsonValue> },
}

/// The store operations, each of which needs a `path`.
pub open spec fn is_store_op(operation: Seq<char>) -> bool {
    operation == "read"@ || operation == "write"@ || operation == "list"@ || operation
        == "delete"@
}

/// What a file invocation owes: the store (or data source) is set up
/// first, then the members the operation needs are checked.
pub open spec fn file_call_matches(r: Result<FileCall, BridgeError>, operation: Seq<char>, payload: JsonValue) -> bool {
    let config = opt_ref(payload_field(payload, "config"@));
    let missing = |key: Seq<char>|
        BridgeFault::InvalidInput(missing_string(key, "or-tools-file"@, operation));
    if is_store_op(operation) {
        match file_store_kind(file_store_name(payload)) {
            None => fails_with(r, unknown_provider("or-tools-file"@, file_store_name(payload))),
            Some(k) => match field_str(payload, "path"@) {
                None => fails_with(r, missing("path"@)),
                Some(path) => {
                    let store_ok = |s: ProviderPlan<FileStoreKind>|
                        plan_matches(s, k, config, file_store_keys(k), seq![]);
                    if operation == "read"@ {
                        r matches Ok(FileCall::Read { store, path: p }) && store_ok(store) && p@
                            == path
                    } else if operation == "list"@ {
                        r matches Ok(FileCall::List { store, path: p }) && store_ok(store) && p@
                            == path
                    } else if operation == "delete"@ {
                        r matches Ok(FileCall::Delete { store, path: p }) && store_ok(store) && p@
                            == path
                    } else {
                        match field_str(payload, "content"@) {
                            None => fails_with(r, missing("content"@)),
                            Some(content) => r matches Ok(
                                FileCall::Write { store, path: p, content: c },
                            ) && store_ok(store) && p@ == path && c@ == content,
                        }
                    }
                },
            },
        }
    } else if operation == "fetch"@ {
        match field_str(payload, "provider"@) {
            None => fails_with(r, missing("provider"@)),
            Some(name) => match data_source_kind(name) {
                None => fails_with(r, unknown_provider("or-tools-file"@, name)),
                Some(k) => r matches Ok(FileCall::Fetch { source, query }) && plan_matches(
                    source,
                    k,
                    config,
                    data_source_keys(k),
                    seq![],
                ) && query == opt_ref(payload_field(payload, "query"@)),
            },
        }
    } else {
        fails_with(r, no_such_operation("or-tools-file"@, operation))
    }
}

/// Checks a file invocation, sets up its store or data source and picks
/// out what the operation needs.
pub fn file_request<'a>(operation: &str, payload: &'a JsonValue) -> (r: Result<FileCall<'a>, BridgeError>)
    ensures
        refuses_operation(r) <==> !tool_operation(ToolCrate::File, operation@),
        file_call_matches(r, operation@, *payload),
{
    proof {
        reveal_strlit("read");
        reveal_strlit("write");
        reveal_strlit("list");
        reveal_strlit("delete");
        reveal_strlit("fetch");
    }
    let op = String::from_str(operation);
    let config = get_field(payload, "config");
    let is_read = crate::bridge::same(&op, "read");
    let is_write = crate::bridge::same(&op, "write");
    let is_list = crate::bridge::same(&op, "list");
    let is_delete = crate::bridge::same(&op, "delete");
    if is_read || is_write || is_list || is_delete {
        let local = String::from_str("local");
        let provider = match get_field(payload, "provider") {
            Some(JsonValue::Str(p)) => p,
            _ => &local,
        };
        let store = file_store_plan(provider.as_str(), config)?;
        let path = required_str(payload, "path", "or-tools-file", operation)?;
        if is_read {
            Ok(FileCall::Read { store, path })
        } else if is_write {
            let content = required_str(payload, "content", "or-tools-file", operation)?;
            Ok(FileCall::Write { store, path, content })
        } else if is_list {
            Ok(FileCall::List { store, path })
        } else {
            Ok(FileCall::Delete { store, path })
        }
    } else if crate::bridge::same(&op, "fetch") {
        let provider = required_str(payload, "provider", "or-tools-file", operation)?;
        let query = get_field(payload, "query");
        let source = data_source_plan(provider.as_str(), config)?;
        Ok(FileCall::Fetch { source, query })
    } else {
        Err(unsupported("or-tools-file", operation))
    }
}

} // verus!

verus! {

// ---------------------------------------------------------------------
// or-tools-comms
// ---------------------------------------------------------------------

/// Messaging channels; SMS goes through Twilio.
#[derive(Debug, Clone, Copy, PartialEq, Eq)]
pub enum ChannelKind {
    Sms,
    Telegram,
    Discord,
    WhatsApp,
    Facebook,
    Messenger,
}

pub open spec fn channel_kind(name: Seq<char>) -> Option<ChannelKind> {
    if name == "sms"@ || name == "twilio"@ {
        Some(ChannelKind::Sms)
    } else if name == "telegram"@ {
        Some(ChannelKind::Telegram)
    } else if name == "discord"@ {
        Some(ChannelKind::Discord)
    } else if name == "whatsapp"@ {
        Some(ChannelKind::WhatsApp)
    } else if name == "facebook"@ {
        Some(ChannelKind::Facebook)
    } else if name == "messenger"@ {
        Some(ChannelKind::Messenger)
    } else {
        None
    }
}

pub open spec fn sender_keys(kind: ChannelKind) -> Seq<&'static str> {
    match kind {
        ChannelKind::Sms => seq!["account_sid", "auth_token", "from"],
        ChannelKind::WhatsApp => seq!["account_sid", "auth_token", "from"],
        _ => seq!["base_url", "bot_token"],
    }
}

/// The page token of a Facebook or Messenger configuration:
/// `page_token`, else `page_access_token`.
pub open spec fn page_token(config: Option<&JsonValue>) -> Option<Seq<char>> {
    match config_str(config, "page_token"@) {
        Some(t) => Some(t),
        None => config_str(config, "page_access_token"@),
    }
}

/// How the sender for `kind` is set up from `config`.
pub open spec fn sender_matches(p: ProviderPlan<ChannelKind>, kind: ChannelKind, config: Option<&JsonValue>) -> bool {
    if kind == ChannelKind::Facebook || kind == ChannelKind::Messenger {
        &&& p.kind == kind
        &&& p.extras@.len() == 0
        &&& match (config_str(config, "base_url"@), page_token(config)) {
            (Some(base), Some(token)) => p.setup matches Setup::Configured(v) && names_of(v@) == seq![
                base,
                token,
            ],
            _ => p.setup is Default,
        }
    } else {
        plan_matches(p, kind, config, Some(sender_keys(kind)), seq![])
    }
}

fn page_sender_plan(kind: ChannelKind, config: Option<&JsonValue>) -> (p: ProviderPlan<ChannelKind>)
    requires
        kind == ChannelKind::Facebook || kind == ChannelKind::Messenger,
    ensures
        sender_matches(p, kind, config),
{
    let base = config_get_str(config, "base_url");
    let token = match config_get_str(config, "page_token") {
        Some(t) => Some(t),
        None => config_get_str(config, "page_access_token"),
    };
    let setup = match (base, token) {
        (Some(b), Some(t)) => {
            let v = vec![b.clone(), t.clone()];
            proof {
                assert(names_of(v@) =~= seq![b@, t@]);
            }
            Setup::Configured(v)
        },
        _ => Setup::Default,
    };
    ProviderPlan { kind, setup, extras: Vec::new() }
}

fn sender_plan(kind: ChannelKind, config: Option<&JsonValue>) -> (p: ProviderPlan<ChannelKind>)
    ensures
        sender_matches(p, kind, config),
{
    match kind {
        ChannelKind::Sms => configured(kind, config, vec!["account_sid", "auth_token", "from"], vec![]),
        ChannelKind::WhatsApp => configured(
            kind,
            config,
            vec!["account_sid", "auth_token", "from"],
            vec![],
        ),
        ChannelKind::Telegram => configured(kind, config, vec!["base_url", "bot_token"], vec![]),
        ChannelKind::Discord => configured(kind, config, vec!["base_url", "bot_token"], vec![]),
        ChannelKind::Facebook => page_sender_plan(kind, config),
        ChannelKind::Messenger => page_sender_plan(kind, config),
    }
}

/// A message to send and the sender to send it with.
#[derive(Debug)]
pub struct MessageCall<'a> {
    pub channel: ChannelKind,
    pub to: &'a String,
    pub body: &'a String,
    pub from: Option<&'a String>,
    pub sender: ProviderPlan<ChannelKind>,
}

/// What a messaging invocation owes.
pub open spec fn message_call_matches(r: Result<MessageCall, BridgeError>, operation: Seq<char>, payload: JsonValue) -> bool {
    if operation != "send"@ {
        fails_with(r, no_such_operation("or-tools-comms"@, operation))
    } else {
        match field_str(payload, "provider"@) {
            None => fails_with(
                r,
                BridgeFault::InvalidInput(missing_string("provider"@, "or-tools-comms"@, operation)),
            ),
            Some(name) => match channel_kind(name) {
                None => fails_with(r, unknown_provider("or-tools-comms"@, name)),
                Some(k) => match field_str(payload, "to"@) {
                    None => fails_with(
                        r,
                        BridgeFault::InvalidInput(missing_string("to"@, "or-tools-comms"@, "send"@)),
                    ),
                    Some(to) => match field_str(payload, "body"@) {
                        None => fails_with(
                            r,
                            BridgeFault::InvalidInput(
                                missing_string("body"@, "or-tools-comms"@, "send"@),
                            ),
                        ),
                        Some(body) => r matches Ok(m) && m.channel == k && m.to@ == to && m.body@
                            == body && match field_str(payload, "from"@) {
                            Some(f) => m.from matches Some(x) && x@ == f,
                            None => m.from is None,
                        } && sender_matches(
                            m.sender,
                            k,
                            opt_ref(payload_field(payload, "config"@)),
                        ),
                    },
                },
            },
        }
    }
}

/// Checks a messaging invocation: the message to send and the sender.
pub fn message_request<'a>(operation: &str, payload: &'a JsonValue) -> (r: Result<
    MessageCall<'a>,
    BridgeError,
>)
    ensures
        refuses_operation(r) <==> !tool_operation(ToolCrate::Comms, operation@),
        message_call_matches(r, operation@, *payload),
{
    let op = String::from_str(operation);
    if !crate::bridge::same(&op, "send") {
        return Err(unsupported("or-tools-comms", operation));
    }
    let provider = required_str(payload, "provider", "or-tools-comms", operation)?;
    let channel = if crate::bridge::same(provider, "sms") || crate::bridge::same(provider, "twilio") {
        ChannelKind::Sms
    } else if crate::bridge::same(provider, "telegram") {
        ChannelKind::Telegram
    } else if crate::bridge::same(provider, "discord") {
        ChannelKind::Discord
    } else if crate::bridge::same(provider, "whatsapp") {
        ChannelKind::WhatsApp
    } else if crate::bridge::same(provider, "facebook") {
        ChannelKind::Facebook
    } else if crate::bridge::same(provider, "messenger") {
        ChannelKind::Messenger
    } else {
        return Err(unknown("or-tools-comms", provider.as_str()));
    };
    let to = required_str(payload, "to", "or-tools-comms", "send")?;
    let body = required_str(payload, "body", "or-tools-comms", "send")?;
    let from = match get_field(payload, "from") {
        Some(JsonValue::Str(f)) => Some(f),
        _ => None,
    };
    let sender = sender_plan(channel, get_field(payload, "config"));
    Ok(MessageCall { channel, to, body, from, sender })
}

} // verus!

verus! {

// ---------------------------------------------------------------------
// or-tools-productivity
// ---------------------------------------------------------------------

#[derive(Debug, Clone, Copy, PartialEq, Eq)]
pub enum EmailKind {
    Gmail,
    Office365,
}

pub open spec fn email_kind(name: Seq<char>) -> Option<EmailKind> {
    if name == "gmail"@ {
        Some(EmailKind::Gmail)
    } else if name == "office365"@ {
        Some(EmailKind::Office365)
    } else {
        None
    }
}

pub open spec fn email_keys(kind: EmailKind) -> Seq<&'static str> {
    match kind {
        EmailKind::Gmail => seq!["base_url", "access_token"],
        EmailKind::Office365 => seq!["base_url", "access_token"],
    }
}

/// How a `EmailKind` provider is set up.
pub fn email_client_plan(provider: &str, config: Option<&JsonValue>) -> (r: Result<
    ProviderPlan<EmailKind>,
    BridgeError,
>)
    ensures
        match email_kind(provider@) {
            None => fails_with(r, unknown_provider("or-tools-productivity"@, provider@)),
            Some(k) => r matches Ok(p) && plan_matches(p, k, config, Some(email_keys(k)), seq![]),
        },
{
    let name = String::from_str(provider);
    if crate::bridge::same(&name, "gmail") {
        let keys = vec!["base_url", "access_token"];
        assert(keys@ =~= seq!["base_url", "access_token"]);
        Ok(configured(EmailKind::Gmail, config, keys, vec![]))
    } else if crate::bridge::same(&name, "office365") {
        let keys = vec!["base_url", "access_token"];
        assert(keys@ =~= seq!["base_url", "access_token"]);
        Ok(configured(EmailKind::Office365, config, keys, vec![]))
    } else {
        Err(unknown("or-tools-productivity", provider))
    }
}

#[derive(Debug, Clone, Copy, PartialEq, Eq)]
pub enum CalendarKind {
    GCalendar,
    Office365,
}

pub open spec fn calendar_kind(name: Seq<char>) -> Option<CalendarKind> {
    if name == "gcalendar"@ {
        Some(CalendarKind::GCalendar)
    } else if name == "office365"@ {
        Some(CalendarKind::Office365)
    } else {
        None
    }
}

pub open spec fn calendar_keys(kind: CalendarKind) -> Seq<&'static str> {
    match kind {
        CalendarKind::GCalendar => seq!["base_url", "access_token"],
        CalendarKind::Office365 => seq!["base_url", "access_token"],
    }
}

/// How a `CalendarKind` provider is set up.
pub fn calendar_client_plan(provider: &str, config: Option<&JsonValue>) -> (r: Result<
    ProviderPlan<CalendarKind>,
    BridgeError,
>)
    ensures
        match calendar_kind(provider@) {
            None => fails_with(r, unknown_provider("or-tools-productivity"@, provider@)),
            Some(k) => r matches Ok(p) && plan_matches(p, k, config, Some(calendar_keys(k)), seq![]),
        },
{
    let name = String::from_str(provider);
    if crate::bridge::same(&name, "gcalendar") {
        let keys = vec!["base_url", "access_token"];
        assert(keys@ =~= seq!["base_url", "access_token"]);
        Ok(configured(CalendarKind::GCalendar, config, keys, vec![]))
    } else if crate::bridge::same(&name, "office365") {
        let keys = vec!["base_url", "access_token"];
        assert(keys@ =~= seq!["base_url", "access_token"]);
        Ok(configured(CalendarKind::Office365, config, keys, vec![]))
    } else {
        Err(unknown("or-tools-productivity", provider))
    }
}

#[derive(Debug, Clone, Copy, PartialEq, Eq)]
pub enum TrackerKind {
    Jira,
    GitHub,
    Trello,
    ClickUp,
}

pub open spec fn tracker_kind(name: Seq<char>) -> Option<TrackerKind> {
    if name == "jira"@ {
        Some(TrackerKind::Jira)
    } else if name == "github"@ {
        Some(TrackerKind::GitHub)
    } else if name == "trello"@ {
        Some(TrackerKind::Trello)
    } else if name == "clickup"@ {
        Some(TrackerKind::ClickUp)
    } else {
        None
    }
}

pub open spec fn tracker_keys(kind: TrackerKind) -> Seq<&'static str> {
    match kind {
        TrackerKind::Jira => seq!["base_url", "auth_header"],
        TrackerKind::GitHub => seq!["base_url", "token", "owner", "repo"],
        TrackerKind::Trello => seq!["base_url", "api_key", "token", "list_id"],
        TrackerKind::ClickUp => seq!["base_url", "api_key", "list_id"],
    }
}

/// How a `TrackerKind` provider is set up.
pub fn project_tracker_plan(provider: &str, config: Option<&JsonValue>) -> (r: Result<
    ProviderPlan<TrackerKind>,
    BridgeError,
>)
    ensures
        match tracker_kind(provider@) {
            None => fails_with(r, unknown_provider("or-tools-productivity"@, provider@)),
            Some(k) => r matches Ok(p) && plan_matches(p, k, config, Some(tracker_keys(k)), seq![]),
        },
{
    let name = String::from_str(provider);
    if crate::bridge::same(&name, "jira") {
        let keys = vec!["base_url", "auth_header"];
        assert(keys@ =~= seq!["base_url", "auth_header"]);
        Ok(configured(TrackerKind::Jira, config, keys, vec![]))
    } else if crate::bridge::same(&name, "github") {
        let keys = vec!["base_url", "token", "owner", "repo"];
        assert(keys@ =~= seq!["base_url", "token", "owner", "repo"]);
        Ok(configured(TrackerKind::GitHub, config, keys, vec![]))
    } else if crate::bridge::same(&name, "trello") {
        let keys = vec!["base_url", "api_key", "token", "list_id"];
        assert(keys@ =~= seq!["base_url", "api_key", "token", "list_id"]);
        Ok(configured(TrackerKind::Trello, config, keys, vec![]))
    } else if crate::bridge::same(&name, "clickup") {
        let keys = vec!["base_url", "api_key", "list_id"];
        assert(keys@ =~= seq!["base_url", "api_key", "list_id"]);
        Ok(configured(TrackerKind::ClickUp, config, keys, vec![]))
    } else {
        Err(unknown("or-tools-productivity", provider))
    }
}

#[derive(Debug, Clone, Copy, PartialEq, Eq)]
pub enum KnowledgeKind {
    Notion,
}

pub open spec fn knowledge_kind(name: Seq<char>) -> Option<KnowledgeKind> {
    if name == "notion"@ {
        Some(KnowledgeKind::Notion)
    } else {
        None
    }
}

pub open spec fn knowledge_keys(kind: KnowledgeKind) -> Seq<&'static str> {
    match kind {
        KnowledgeKind::Notion => seq!["base_url", "api_key", "database_id"],
    }
}

/// How a `KnowledgeKind` provider is set up.
pub fn knowledge_base_plan(provider: &str, config: Option<&JsonValue>) -> (r: Result<
    ProviderPlan<KnowledgeKind>,
    BridgeError,
>)
    ensures
        match knowledge_kind(provider@) {
            None => fails_with(r, unknown_provider("or-tools-productivity"@, provider@)),
            Some(k) => r matches Ok(p) && plan_matches(p, k, config, Some(knowledge_keys(k)), seq![]),
        },
{
    let name = String::from_str(provider);
    if crate::bridge::same(&name, "notion") {
        let keys = vec!["base_url", "api_key", "database_id"];
        assert(keys@ =~= seq!["base_url", "api_key", "database_id"]);
        Ok(configured(KnowledgeKind::Notion, config, keys, vec![]))
    } else {
        Err(unknown("or-tools-productivity", provider))
    }
}

#[derive(Debug, Clone, Copy, PartialEq, Eq)]
pub enum TeamMessengerKind {
    Slack,
}

pub open spec fn team_messenger_kind(name: Seq<char>) -> Option<TeamMessengerKind> {
    if name == "slack"@ {
        Some(TeamMessengerKind::Slack)
    } else {
        None
    }
}

pub open spec fn team_messenger_keys(kind: TeamMessengerKind) -> Seq<&'static str> {
    match kind {
        TeamMessengerKind::Slack => seq!["base_url", "bot_token"],
    }
}

/// How a `TeamMessengerKind` provider is set up.
pub fn team_messenger_plan(provider: &str, config: Option<&JsonValue>) -> (r: Result<
    ProviderPlan<TeamMessengerKind>,
    BridgeError,
>)
    ensures
        match team_messenger_kind(provider@) {
            None => fails_with(r, unknown_provider("or-tools-productivity"@, provider@)),
            Some(k) => r matches Ok(p) && plan_matches(p, k, config, Some(team_messenger_keys(k)), seq![]),
        },
{
    let name = String::from_str(provider);
    if crate::bridge::same(&name, "slack") {
        let keys = vec!["base_url", "bot_token"];
        assert(keys@ =~= seq!["base_url", "bot_token"]);
        Ok(configured(TeamMessengerKind::Slack, config, keys, vec![]))
    } else {
        Err(unknown("or-tools-productivity", provider))
    }
}

/// The operations of `or-tools-productivity`.
#[derive(Debug, Clone, Copy, PartialEq, Eq)]
pub enum ProductivityOp {
    ListEmails,
    SendEmail,
    ListEvents,
    CreateEvent,
    ListIssues,
    CreateIssue,
    SearchPages,
    CreatePage,
    PostMessage,
    SearchMessages,
}

pub open spec fn productivity_op(operation: Seq<char>) -> Option<ProductivityOp> {
    if operation == "list_emails"@ {
        Some(ProductivityOp::ListEmails)
    } else if operation == "send_email"@ {
        Some(ProductivityOp::SendEmail)
    } else if operation == "list_events"@ {
        Some(ProductivityOp::ListEvents)
    } else if operation == "create_event"@ {
        Some(ProductivityOp::CreateEvent)
    } else if operation == "list_issues"@ {
        Some(ProductivityOp::ListIssues)
    } else if operation == "create_issue"@ {
        Some(ProductivityOp::CreateIssue)
    } else if operation == "search_pages"@ {
        Some(ProductivityOp::SearchPages)
    } else if operation == "create_page"@ {
        Some(ProductivityOp::CreatePage)
    } else if operation == "post_message"@ {
        Some(ProductivityOp::PostMessage)
    } else if operation == "search_messages"@ {
        Some(ProductivityOp::SearchMessages)
    } else {
        None
    }
}

fn productivity_op_of(operation: &str) -> (r: Option<ProductivityOp>)
    ensures
        r == productivity_op(operation@),
{
    let op = String::from_str(operation);
    if crate::bridge::same(&op, "list_emails") {
        Some(ProductivityOp::ListEmails)
    } else if crate::bridge::same(&op, "send_email") {
        Some(ProductivityOp::SendEmail)
    } else if crate::bridge::same(&op, "list_events") {
        Some(ProductivityOp::ListEvents)
    } else if crate::bridge::same(&op, "create_event") {
        Some(ProductivityOp::CreateEvent)
    } else if crate::bridge::same(&op, "list_issues") {
        Some(ProductivityOp::ListIssues)
    } else if crate::bridge::same(&op, "create_issue") {
        Some(ProductivityOp::CreateIssue)
    } else if crate::bridge::same(&op, "search_pages") {
        Some(ProductivityOp::SearchPages)
    } else if crate::bridge::same(&op, "create_page") {
        Some(ProductivityOp::CreatePage)
    } else if crate::bridge::same(&op, "post_message") {
        Some(ProductivityOp::PostMessage)
    } else if crate::bridge::same(&op, "search_messages") {
        Some(ProductivityOp::SearchMessages)
    } else {
        None
    }
}

/// The client an `or-tools-productivity` operation works through.
#[derive(Debug, PartialEq, Eq)]
pub enum ProductivityClient {
    Email(ProviderPlan<EmailKind>),
    Calendar(ProviderPlan<CalendarKind>),
    Tracker(ProviderPlan<TrackerKind>),
    Knowledge(ProviderPlan<KnowledgeKind>),
    Messenger(ProviderPlan<TeamMessengerKind>),
}

/// What an `or-tools-productivity` operation is handed besides its client:
/// the query (JSON `null` when absent), the item to create, or the channel
/// and text of a message.
#[derive(Debug)]
pub enum ProductivityArgs<'a> {
    Query(Option<&'a JsonValue>),
    Item(&'a JsonValue),
    Post { channel: &'a String, text: &'a String },
}

/// A checked `or-tools-productivity` invocation.
#[derive(Debug)]
pub struct ProductivityCall<'a> {
    pub op: ProductivityOp,
    pub client: ProductivityClient,
    pub args: ProductivityArgs<'a>,
}

/// Whether the provider named `name` is known to the service of `op`.
pub open spec fn productivity_provider_known(op: ProductivityOp, name: Seq<char>) -> bool {
    match op {
        ProductivityOp::ListEmails | ProductivityOp::SendEmail => email_kind(name) is Some,
        ProductivityOp::ListEvents | ProductivityOp::CreateEvent => calendar_kind(name) is Some,
        ProductivityOp::ListIssues | ProductivityOp::CreateIssue => tracker_kind(name) is Some,
        ProductivityOp::SearchPages | ProductivityOp::CreatePage => knowledge_kind(name) is Some,
        ProductivityOp::PostMessage | ProductivityOp::SearchMessages => team_messenger_kind(name) is Some,
    }
}

/// The client of `op` for the provider named `name`, set up from `config`.
pub open spec fn productivity_client_matches(
    c: ProductivityClient,
    op: ProductivityOp,
    name: Seq<char>,
    config: Option<&JsonValue>,
) -> bool {
    match op {
        ProductivityOp::ListEmails | ProductivityOp::SendEmail => c matches ProductivityClient::Email(p)
            && email_kind(name) matches Some(k) && plan_matches(p, k, config, Some(email_keys(k)), seq![]),
        ProductivityOp::ListEvents | ProductivityOp::CreateEvent => c matches ProductivityClient::Calendar(p)
            && calendar_kind(name) matches Some(k) && plan_matches(p, k, config, Some(calendar_keys(k)), seq![]),
        ProductivityOp::ListIssues | ProductivityOp::CreateIssue => c matches ProductivityClient::Tracker(p)
            && tracker_kind(name) matches Some(k) && plan_matches(p, k, config, Some(tracker_keys(k)), seq![]),
        ProductivityOp::SearchPages | ProductivityOp::CreatePage => c matches ProductivityClient::Knowledge(p)
            && knowledge_kind(name) matches Some(k) && plan_matches(p, k, config, Some(knowledge_keys(k)), seq![]),
        ProductivityOp::PostMessage | ProductivityOp::SearchMessages => c matches ProductivityClient::Messenger(p)
            && team_messenger_kind(name) matches Some(k) && plan_matches(
            p,
            k,
            config,
            Some(team_messenger_keys(k)),
            seq![],
        ),
    }
}

/// Whether `op` reads a query rather than an item or a message.
pub open spec fn is_query_op(op: ProductivityOp) -> bool {
    match op {
        ProductivityOp::ListEmails | ProductivityOp::ListEvents | ProductivityOp::ListIssues
        | ProductivityOp::SearchPages | ProductivityOp::SearchMessages => true,
        _ => false,
    }
}

/// The arguments of a query operation: the query member, if any.
pub open spec fn query_args(args: ProductivityArgs, query: Option<&JsonValue>) -> bool {
    match args {
        ProductivityArgs::Query(q) => q == query,
        _ => false,
    }
}

/// The arguments of `post_message`: its channel and text.
pub open spec fn post_args(args: ProductivityArgs, channel: Seq<char>, text: Seq<char>) -> bool {
    match args {
        ProductivityArgs::Post { channel: ch, text: tx } => ch@ == channel && tx@ == text,
        _ => false,
    }
}

/// The arguments of a create or send operation: the item member.
pub open spec fn item_args(args: ProductivityArgs, item: JsonValue) -> bool {
    match args {
        ProductivityArgs::Item(x) => *x == item,
        _ => false,
    }
}

/// What an `or-tools-productivity` invocation owes, once its client is known.
pub open spec fn productivity_args_match(
    r: Result<ProductivityCall, BridgeError>,
    op: ProductivityOp,
    operation: Seq<char>,
    payload: JsonValue,
    name: Seq<char>,
) -> bool {
    let config = opt_ref(payload_field(payload, "config"@));
    let crate_name = "or-tools-productivity"@;
    if is_query_op(op) {
        r matches Ok(c) && c.op == op && productivity_client_matches(c.client, op, name, config)
            && query_args(c.args, opt_ref(payload_field(payload, "query"@)))
    } else if op == ProductivityOp::PostMessage {
        match field_str(payload, "channel"@) {
            None => fails_with(
                r,
                BridgeFault::InvalidInput(missing_string("channel"@, crate_name, operation)),
            ),
            Some(channel) => match field_str(payload, "text"@) {
                None => fails_with(
                    r,
                    BridgeFault::InvalidInput(missing_string("text"@, crate_name, operation)),
                ),
                Some(text) => r matches Ok(c) && c.op == op && productivity_client_matches(
                    c.client,
                    op,
                    name,
                    config,
                ) && post_args(c.args, channel, text),
            },
        }
    } else {
        match payload_field(payload, "item"@) {
            None => fails_with(r, BridgeFault::InvalidInput(missing_member("item"@, crate_name, operation))),
            Some(item) => r matches Ok(c) && c.op == op && productivity_client_matches(
                c.client,
                op,
                name,
                config,
            ) && item_args(c.args, item),
        }
    }
}

/// What an `or-tools-productivity` invocation owes: the provider is read
/// first, then the operation is looked up, then its client is set up and
/// then the members it reads are checked.
pub open spec fn productivity_call_matches(
    r: Result<ProductivityCall, BridgeError>,
    operation: Seq<char>,
    payload: JsonValue,
) -> bool {
    let crate_name = "or-tools-productivity"@;
    match field_str(payload, "provider"@) {
        None => fails_with(
            r,
            BridgeFault::InvalidInput(missing_string("provider"@, crate_name, operation)),
        ),
        Some(name) => match productivity_op(operation) {
            None => fails_with(r, no_such_operation(crate_name, operation)),
            Some(op) => if !productivity_provider_known(op, name) {
                fails_with(r, unknown_provider(crate_name, name))
            } else {
                productivity_args_match(r, op, operation, payload, name)
            },
        },
    }
}

/// Checks an `or-tools-productivity` invocation: the operation, the client
/// it works through and what it is handed.
pub fn productivity_request<'a>(operation: &str, payload: &'a JsonValue) -> (r: Result<
    ProductivityCall<'a>,
    BridgeError,
>)
    ensures
        refuses_operation(r) ==> !tool_operation(ToolCrate::Productivity, operation@),
        productivity_call_matches(r, operation@, *payload),
{
    let crate_name = "or-tools-productivity";
    let provider = required_str(payload, "provider", crate_name, operation)?;
    let op = match productivity_op_of(operation) {
        Some(op) => op,
        None => return Err(unsupported(crate_name, operation)),
    };
    let config = get_field(payload, "config");
    let name = provider.as_str();
    let client = match op {
        ProductivityOp::ListEmails | ProductivityOp::SendEmail => ProductivityClient::Email(
            email_client_plan(name, config)?,
        ),
        ProductivityOp::ListEvents | ProductivityOp::CreateEvent => ProductivityClient::Calendar(
            calendar_client_plan(name, config)?,
        ),
        ProductivityOp::ListIssues | ProductivityOp::CreateIssue => ProductivityClient::Tracker(
            project_tracker_plan(name, config)?,
        ),
        ProductivityOp::SearchPages | ProductivityOp::CreatePage => ProductivityClient::Knowledge(
            knowledge_base_plan(name, config)?,
        ),
        ProductivityOp::PostMessage | ProductivityOp::SearchMessages => ProductivityClient::Messenger(
            team_messenger_plan(name, config)?,
        ),
    };
    let args = match op {
        ProductivityOp::ListEmails | ProductivityOp::ListEvents | ProductivityOp::ListIssues
        | ProductivityOp::SearchPages | ProductivityOp::SearchMessages => ProductivityArgs::Query(
            get_field(payload, "query"),
        ),
        ProductivityOp::PostMessage => {
            let channel = required_str(payload, "channel", crate_name, operation)?;
            let text = required_str(payload, "text", crate_name, operation)?;
            ProductivityArgs::Post { channel, text }
        },
        _ => ProductivityArgs::Item(from_field(payload, "item", crate_name, operation)?),
    };
    Ok(ProductivityCall { op, client, args })
}

// ---------------------------------------------------------------------
// or-core, or-conduit, or-prism, or-sieve
// ---------------------------------------------------------------------

/// A checked `or-core` invocation: the budget or retry policy member,
/// which `or-core` reads into its own type, and the count it is applied
/// to, cut to 32 bits.
#[derive(Debug)]
pub enum CoreCall<'a> {
    EnforceCompletionBudget { budget: &'a JsonValue, prompt_tokens: u32 },
    NextRetryDelay { policy: &'a JsonValue, attempt: u32 },
}

/// The message for a missing or non-integer payload member.
pub open spec fn missing_integer(key: Seq<char>, crate_name: Seq<char>, operation: Seq<char>) -> Seq<
    char,
> {
    "missing integer `"@ + key + "` for `"@ + crate_name + "` / `"@ + operation + "`"@
}

/// What an `or-core` invocation owes: the operation is looked up first,
/// then its object member is read, then its count.
pub open spec fn core_call_matches(r: Result<CoreCall, BridgeError>, operation: Seq<char>, payload: JsonValue) -> bool {
    let crate_name = "or-core"@;
    let (object_key, count_key) = if operation == "enforce_completion_budget"@ {
        ("budget"@, "prompt_tokens"@)
    } else {
        ("policy"@, "attempt"@)
    };
    if operation != "enforce_completion_budget"@ && operation != "next_retry_delay"@ {
        fails_with(r, no_such_operation(crate_name, operation))
    } else {
        match payload_field(payload, object_key) {
            None => fails_with(r, BridgeFault::InvalidInput(missing_member(object_key, crate_name, operation))),
            Some(object) => match field_u64(payload, count_key) {
                None => fails_with(
                    r,
                    BridgeFault::InvalidInput(missing_integer(count_key, crate_name, operation)),
                ),
                Some(n) => r matches Ok(c) && core_call_is(c, operation, object, n as u32),
            },
        }
    }
}

/// The call `c` is `operation` on `object` and `count`.
pub open spec fn core_call_is(c: CoreCall, operation: Seq<char>, object: JsonValue, count: u32) -> bool {
    match c {
        CoreCall::EnforceCompletionBudget { budget, prompt_tokens } => operation
            == "enforce_completion_budget"@ && *budget == object && prompt_tokens == count,
        CoreCall::NextRetryDelay { policy, attempt } => operation == "next_retry_delay"@ && *policy
            == object && attempt == count,
    }
}

/// Checks an `or-core` invocation.
pub fn core_request<'a>(operation: &str, payload: &'a JsonValue) -> (r: Result<CoreCall<'a>, BridgeError>)
    ensures
        refuses_operation(r) <==> !tool_operation(ToolCrate::Core, operation@),
        core_call_matches(r, operation@, *payload),
{
    let crate_name = "or-core";
    let op = String::from_str(operation);
    if crate::bridge::same(&op, "enforce_completion_budget") {
        let budget = from_field(payload, "budget", crate_name, operation)?;
        let tokens = required_u64(payload, "prompt_tokens", crate_name, operation)?;
        Ok(CoreCall::EnforceCompletionBudget { budget, prompt_tokens: tokens as u32 })
    } else if crate::bridge::same(&op, "next_retry_delay") {
        let policy = from_field(payload, "policy", crate_name, operation)?;
        let attempt = required_u64(payload, "attempt", crate_name, operation)?;
        Ok(CoreCall::NextRetryDelay { policy, attempt: attempt as u32 })
    } else {
        Err(unsupported(crate_name, operation))
    }
}

/// What an invocation of a crate with one operation that reads one string
/// member owes.
pub open spec fn text_call_matches(
    r: Result<&String, BridgeError>,
    crate_name: Seq<char>,
    known: Seq<char>,
    key: Seq<char>,
    operation: Seq<char>,
    payload: JsonValue,
) -> bool {
    if operation != known {
        fails_with(r, no_such_operation(crate_name, operation))
    } else {
        match field_str(payload, key) {
            None => fails_with(r, BridgeFault::InvalidInput(missing_string(key, crate_name, operation))),
            Some(t) => r matches Ok(s) && s@ == t,
        }
    }
}

fn text_request<'a>(crate_name: &str, known: &str, key: &str, operation: &str, payload: &'a JsonValue) -> (r:
    Result<&'a String, BridgeError>)
    ensures
        text_call_matches(r, crate_name@, known@, key@, operation@, *payload),
{
    let op = String::from_str(operation);
    if !crate::bridge::same(&op, known) {
        return Err(unsupported(crate_name, operation));
    }
    required_str(payload, key, crate_name, operation)
}

/// Checks an `or-conduit` invocation: the prompt of `prepare_text_request`.
pub fn conduit_request<'a>(operation: &str, payload: &'a JsonValue) -> (r: Result<&'a String, BridgeError>)
    ensures
        refuses_operation(r) <==> !tool_operation(ToolCrate::Conduit, operation@),
        text_call_matches(r, "or-conduit"@, "prepare_text_request"@, "prompt"@, operation@, *payload),
{
    text_request("or-conduit", "prepare_text_request", "prompt", operation, payload)
}

/// Checks an `or-prism` invocation: the collector endpoint of
/// `install_global_subscriber`.
pub fn prism_request<'a>(operation: &str, payload: &'a JsonValue) -> (r: Result<&'a String, BridgeError>)
    ensures
        refuses_operation(r) <==> !tool_operation(ToolCrate::Prism, operation@),
        text_call_matches(
            r,
            "or-prism"@,
            "install_global_subscriber"@,
            "otlp_endpoint"@,
            operation@,
            *payload,
        ),
{
    text_request("or-prism", "install_global_subscriber", "otlp_endpoint", operation, payload)
}

/// Checks an `or-sieve` invocation: the raw text of `parse_text`.
pub fn sieve_request<'a>(operation: &str, payload: &'a JsonValue) -> (r: Result<&'a String, BridgeError>)
    ensures
        refuses_operation(r) <==> !tool_operation(ToolCrate::Sieve, operation@),
        text_call_matches(r, "or-sieve"@, "parse_text"@, "raw"@, operation@, *payload),
{
    text_request("or-sieve", "parse_text", "raw", operation, payload)
}



// ---------------------------------------------------------------------
// The catalog and the routing of invocations
// ---------------------------------------------------------------------

/// A crate name that `invoke_crate_json` routes: answered by the bridge
/// itself or handed to a tool crate.
pub open spec fn routed_crate(name: Seq<char>) -> bool {
    name == "or-beacon"@ || name == "or-bridge"@ || tool_crate(name) is Some
}

/// The operations a tool crate's check recognizes: for any other it
/// answers with an unsupported-operation error.
pub open spec fn tool_operation(t: ToolCrate, op: Seq<char>) -> bool {
    match t {
        ToolCrate::Core => op == "enforce_completion_budget"@ || op == "next_retry_delay"@,
        ToolCrate::Conduit => op == "prepare_text_request"@,
        ToolCrate::Prism => op == "install_global_subscriber"@,
        ToolCrate::Sieve => op == "parse_text"@,
        ToolCrate::Search => op == "search"@,
        ToolCrate::Web => op == "fetch"@ || op == "scrape"@,
        ToolCrate::Vector => vector_op(op) is Some,
        ToolCrate::Loaders => op == "load"@,
        ToolCrate::Exec => op == "execute"@,
        ToolCrate::File => is_store_op(op) || op == "fetch"@,
        ToolCrate::Comms => op == "send"@,
        ToolCrate::Productivity => productivity_op(op) is Some,
    }
}

/// `r` is an unsupported-operation error.
pub open spec fn refuses_operation<T>(r: Result<T, BridgeError>) -> bool {
    r matches Err(e) && e@ is UnsupportedOperation
}

/// The operations the invocation of crate `name` recognizes.
pub open spec fn routed_operation(name: Seq<char>, op: Seq<char>) -> bool {
    if name == "or-beacon"@ {
        op == "render_template"@
    } else if name == "or-bridge"@ {
        op == "render_prompt_json"@ || op == "normalize_state_json"@
    } else {
        match tool_crate(name) {
            Some(t) => tool_operation(t, op),
            None => false,
        }
    }
}

/// The catalog lists crate `name`.
pub open spec fn listed(name: Seq<char>) -> bool {
    exists|i: int| 0 <= i < catalog().len() && #[trigger] catalog()[i].crate_name == name
}

/// The operations each crate left to the language runtimes offers there.
pub open spec fn runtime_operations(name: Seq<char>) -> Seq<Seq<char>> {
    if name == "or-checkpoint"@ {
        seq!["pause"@, "resume"@]
    } else if name == "or-colony"@ {
        seq!["coordinate"@]
    } else if name == "or-compass"@ {
        seq!["select_route"@]
    } else if name == "or-forge"@ {
        seq!["register"@, "import_from_mcp"@, "invoke"@]
    } else if name == "or-loom"@ {
        seq!["execute_graph"@, "resume_graph"@]
    } else if name == "or-mcp"@ {
        seq!["connect_http"@, "list_tools"@, "invoke_tool"@]
    } else if name == "or-pipeline"@ {
        seq!["execute_pipeline"@]
    } else if name == "or-recall"@ {
        seq!["remember"@, "recall"@]
    } else if name == "or-relay"@ {
        seq!["execute_parallel"@]
    } else if name == "or-sentinel"@ {
        seq!["run_agent"@]
    } else if name == "or-tools-core"@ {
        seq!["register"@, "invoke"@, "dispatch"@]
    } else {
        seq![]
    }
}

/// Catalog entry `e` agrees with the routing: its crate is routed exactly
/// when it is not left to the language runtimes; a routed crate lists
/// exactly the operations its invocation recognizes, and any other crate
/// the operations its runtime offers.
pub open spec fn entry_matches_routing(e: BindingSpec) -> bool {
    &&& routed_crate(e.crate_name) == (e.binding_mode != "language-runtime"@)
    &&& routed_crate(e.crate_name) ==> forall|j: int|
        0 <= j < e.operations.len() ==> routed_operation(e.crate_name, #[trigger] e.operations[j])
    &&& routed_crate(e.crate_name) ==> forall|op: Seq<char>|
        #[trigger] routed_operation(e.crate_name, op) ==> e.operations.contains(op)
    &&& !routed_crate(e.crate_name) ==> e.operations == runtime_operations(e.crate_name)
}

#[verifier::spinoff_prover]
proof fn lemma_catalog_entries_0_to_4(i: int)
    requires
        0 <= i < 5,
    ensures
        entry_matches_routing(catalog()[i]),
{
    reveal_strlit("or-core");
    reveal_strlit("native");
    reveal_strlit("enforce_completion_budget");
    reveal_strlit("next_retry_delay");
    reveal_strlit("or-beacon");
    reveal_strlit("or-bridge");
    reveal_strlit("or-conduit");
    reveal_strlit("or-prism");
    reveal_strlit("or-sieve");
    reveal_strlit("or-tools-search");
    reveal_strlit("or-tools-web");
    reveal_strlit("or-tools-vector");
    reveal_strlit("or-tools-loaders");
    reveal_strlit("or-tools-exec");
    reveal_strlit("or-tools-file");
    reveal_strlit("or-tools-comms");
    reveal_strlit("or-tools-productivity");
    reveal_strlit("language-runtime");
    reveal_strlit("mixed");
    reveal_strlit("render_template");
    reveal_strlit("render_prompt_json");
    reveal_strlit("normalize_state_json");
    reveal_strlit("or-checkpoint");
    reveal_strlit("pause");
    reveal_strlit("resume");
    reveal_strlit("or-colony");
    reveal_strlit("or-compass");
    reveal_strlit("or-forge");
    reveal_strlit("or-loom");
    reveal_strlit("or-mcp");
    reveal_strlit("or-pipeline");
    reveal_strlit("or-recall");
    reveal_strlit("or-relay");
    reveal_strlit("or-sentinel");
    reveal_strlit("or-tools-core");
    reveal_strlit("coordinate");
    // Literals of equal length, and where they differ.
    assert("or-beacon"@[4] != "or-bridge"@[4]);
    assert("or-beacon"@[3] != "or-colony"@[3]);
    assert("or-bridge"@[3] != "or-colony"@[3]);
    assert("or-checkpoint"@[3] != "or-tools-core"@[3]);
    assert("or-checkpoint"@[3] != "or-tools-exec"@[3]);
    assert("or-checkpoint"@[3] != "or-tools-file"@[3]);
    assert("or-colony"@[3] != "or-recall"@[3]);
    let e = catalog()[i];
    if i == 0 {
        assert(e.crate_name == "or-core"@);
        assert(e.binding_mode == "native"@);
        assert(e.operations == seq!["enforce_completion_budget"@, "next_retry_delay"@]);
        assert(routed_crate(e.crate_name) == (e.binding_mode != "language-runtime"@));
        if routed_crate(e.crate_name) {
            assert forall|j: int| 0 <= j < e.operations.len() implies routed_operation(
                e.crate_name,
                #[trigger] e.operations[j],
            ) by {
                if j == 0 {} else if j == 1 {} else if j == 2 {} else if j == 3 {} else if j == 4 {}
                else if j == 5 {} else if j == 6 {} else if j == 7 {} else if j == 8 {} else {}
            }
            assert forall|op: Seq<char>| #[trigger] routed_operation(e.crate_name, op) implies e.operations.contains(op) by {
                if op == "enforce_completion_budget"@ {
                    assert(e.operations[0] == op);
                } else if op == "next_retry_delay"@ {
                    assert(e.operations[1] == op);
                }
            }
        }
    } else if i == 1 {
        assert(e.crate_name == "or-beacon"@);
        assert(e.binding_mode == "mixed"@);
        assert(e.operations == seq!["render_template"@]);
        assert(routed_crate(e.crate_name) == (e.binding_mode != "language-runtime"@));
        if routed_crate(e.crate_name) {
            assert forall|j: int| 0 <= j < e.operations.len() implies routed_operation(
                e.crate_name,
                #[trigger] e.operations[j],
            ) by {
                if j == 0 {} else if j == 1 {} else if j == 2 {} else if j == 3 {} else if j == 4 {}
                else if j == 5 {} else if j == 6 {} else if j == 7 {} else if j == 8 {} else {}
            }
            assert forall|op: Seq<char>| #[trigger] routed_operation(e.crate_name, op) implies e.operations.contains(op) by {
                if op == "render_template"@ {
                    assert(e.operations[0] == op);
                }
            }
        }
    } else if i == 2 {
        assert(e.crate_name == "or-bridge"@);
        assert(e.binding_mode == "native"@);
        assert(e.operations == seq!["render_prompt_json"@, "normalize_state_json"@]);
        assert(routed_crate(e.crate_name) == (e.binding_mode != "language-runtime"@));
        if routed_crate(e.crate_name) {
            assert forall|j: int| 0 <= j < e.operations.len() implies routed_operation(
                e.crate_name,
                #[trigger] e.operations[j],
            ) by {
                if j == 0 {} else if j == 1 {} else if j == 2 {} else if j == 3 {} else if j == 4 {}
                else if j == 5 {} else if j == 6 {} else if j == 7 {} else if j == 8 {} else {}
            }
            assert forall|op: Seq<char>| #[trigger] routed_operation(e.crate_name, op) implies e.operations.contains(op) by {
                if op == "render_prompt_json"@ {
                    assert(e.operations[0] == op);
                } else if op == "normalize_state_json"@ {
                    assert(e.operations[1] == op);
                }
            }
        }
    } else if i == 3 {
        assert(e.crate_name == "or-checkpoint"@);
        assert(e.binding_mode == "language-runtime"@);
        assert(e.operations == seq!["pause"@, "resume"@]);
        assert(routed_crate(e.crate_name) == (e.binding_mode != "language-runtime"@));
        if routed_crate(e.crate_name) {
            assert forall|j: int| 0 <= j < e.operations.len() implies routed_operation(
                e.crate_name,
                #[trigger] e.operations[j],
            ) by {
                if j == 0 {} else if j == 1 {} else if j == 2 {} else if j == 3 {} else if j == 4 {}
                else if j == 5 {} else if j == 6 {} else if j == 7 {} else if j == 8 {} else {}
            }
        }
    } else {
        assert(e.crate_name == "or-colony"@);
        assert(e.binding_mode == "language-runtime"@);
        assert(e.operations == seq!["coordinate"@]);
        assert(routed_crate(e.crate_name) == (e.binding_mode != "language-runtime"@));
        if routed_crate(e.crate_name) {
            assert forall|j: int| 0 <= j < e.operations.len() implies routed_operation(
                e.crate_name,
                #[trigger] e.operations[j],
            ) by {
                if j == 0 {} else if j == 1 {} else if j == 2 {} else if j == 3 {} else if j == 4 {}
                else if j == 5 {} else if j == 6 {} else if j == 7 {} else if j == 8 {} else {}
            }
        }
    }
}

#[verifier::spinoff_prover]
proof fn lemma_catalog_entries_5_to_9(i: int)
    requires
        5 <= i < 10,
    ensures
        entry_matches_routing(catalog()[i]),
{
    reveal_strlit("or-compass");
    reveal_strlit("language-runtime");
    reveal_strlit("select_route");
    reveal_strlit("or-beacon");
    reveal_strlit("or-bridge");
    reveal_strlit("or-core");
    reveal_strlit("or-conduit");
    reveal_strlit("or-prism");
    reveal_strlit("or-sieve");
    reveal_strlit("or-tools-search");
    reveal_strlit("or-tools-web");
    reveal_strlit("or-tools-vector");
    reveal_strlit("or-tools-loaders");
    reveal_strlit("or-tools-exec");
    reveal_strlit("or-tools-file");
    reveal_strlit("or-tools-comms");
    reveal_strlit("or-tools-productivity");
    reveal_strlit("or-checkpoint");
    reveal_strlit("or-colony");
    reveal_strlit("or-forge");
    reveal_strlit("or-loom");
    reveal_strlit("or-mcp");
    reveal_strlit("or-pipeline");
    reveal_strlit("or-recall");
    reveal_strlit("or-relay");
    reveal_strlit("or-sentinel");
    reveal_strlit("or-tools-core");
    reveal_strlit("mixed");
    reveal_strlit("prepare_text_request");
    reveal_strlit("register");
    reveal_strlit("import_from_mcp");
    reveal_strlit("invoke");
    reveal_strlit("execute_graph");
    reveal_strlit("resume_graph");
    reveal_strlit("connect_http");
    reveal_strlit("list_tools");
    reveal_strlit("invoke_tool");
    // Literals of equal length, and where they differ.
    assert("or-compass"@[5] != "or-conduit"@[5]);
    assert("or-core"@[3] != "or-loom"@[3]);
    assert("or-forge"@[3] != "or-prism"@[3]);
    assert("or-forge"@[3] != "or-relay"@[3]);
    assert("or-forge"@[3] != "or-sieve"@[3]);
    let e = catalog()[i];
    if i == 5 {
        assert(e.crate_name == "or-compass"@);
        assert(e.binding_mode == "language-runtime"@);
        assert(e.operations == seq!["select_route"@]);
        assert(routed_crate(e.crate_name) == (e.binding_mode != "language-runtime"@));
        if routed_crate(e.crate_name) {
            assert forall|j: int| 0 <= j < e.operations.len() implies routed_operation(
                e.crate_name,
                #[trigger] e.operations[j],
            ) by {
                if j == 0 {} else if j == 1 {} else if j == 2 {} else if j == 3 {} else if j == 4 {}
                else if j == 5 {} else if j == 6 {} else if j == 7 {} else if j == 8 {} else {}
            }
        }
    } else if i == 6 {
        assert(e.crate_name == "or-conduit"@);
        assert(e.binding_mode == "mixed"@);
        assert(e.operations == seq!["prepare_text_request"@]);
        assert(routed_crate(e.crate_name) == (e.binding_mode != "language-runtime"@));
        if routed_crate(e.crate_name) {
            assert forall|j: int| 0 <= j < e.operations.len() implies routed_operation(
                e.crate_name,
                #[trigger] e.operations[j],
            ) by {
                if j == 0 {} else if j == 1 {} else if j == 2 {} else if j == 3 {} else if j == 4 {}
                else if j == 5 {} else if j == 6 {} else if j == 7 {} else if j == 8 {} else {}
            }
            assert forall|op: Seq<char>| #[trigger] routed_operation(e.crate_name, op) implies e.operations.contains(op) by {
                if op == "prepare_text_request"@ {
                    assert(e.operations[0] == op);
                }
            }
        }
    } else if i == 7 {
        assert(e.crate_name == "or-forge"@);
        assert(e.binding_mode == "language-runtime"@);
        assert(e.operations == seq!["register"@, "import_from_mcp"@, "invoke"@]);
        assert(routed_crate(e.crate_name) == (e.binding_mode != "language-runtime"@));
        if routed_crate(e.crate_name) {
            assert forall|j: int| 0 <= j < e.operations.len() implies routed_operation(
                e.crate_name,
                #[trigger] e.operations[j],
            ) by {
                if j == 0 {} else if j == 1 {} else if j == 2 {} else if j == 3 {} else if j == 4 {}
                else if j == 5 {} else if j == 6 {} else if j == 7 {} else if j == 8 {} else {}
            }
        }
    } else if i == 8 {
        assert(e.crate_name == "or-loom"@);
        assert(e.binding_mode == "language-runtime"@);
        assert(e.operations == seq!["execute_graph"@, "resume_graph"@]);
        assert(routed_crate(e.crate_name) == (e.binding_mode != "language-runtime"@));
        if routed_crate(e.crate_name) {
            assert forall|j: int| 0 <= j < e.operations.len() implies routed_operation(
                e.crate_name,
                #[trigger] e.operations[j],
            ) by {
                if j == 0 {} else if j == 1 {} else if j == 2 {} else if j == 3 {} else if j == 4 {}
                else if j == 5 {} else if j == 6 {} else if j == 7 {} else if j == 8 {} else {}
            }
        }
    } else {
        assert(e.crate_name == "or-mcp"@);
        assert(e.binding_mode == "language-runtime"@);
        assert(e.operations == seq!["connect_http"@, "list_tools"@, "invoke_tool"@]);
        assert(routed_crate(e.crate_name) == (e.binding_mode != "language-runtime"@));
        if routed_crate(e.crate_name) {
            assert forall|j: int| 0 <= j < e.operations.len() implies routed_operation(
                e.crate_name,
                #[trigger] e.operations[j],
            ) by {
                if j == 0 {} else if j == 1 {} else if j == 2 {} else if j == 3 {} else if j == 4 {}
                else if j == 5 {} else if j == 6 {} else if j == 7 {} else if j == 8 {} else {}
            }
        }
    }
}

#[verifier::spinoff_prover]
proof fn lemma_catalog_entries_10_to_14(i: int)
    requires
        10 <= i < 15,
    ensures
        entry_matches_routing(catalog()[i]),
{
    reveal_strlit("or-pipeline");
    reveal_strlit("language-runtime");
    reveal_strlit("execute_pipeline");
    reveal_strlit("or-beacon");
    reveal_strlit("or-bridge");
    reveal_strlit("or-core");
    reveal_strlit("or-conduit");
    reveal_strlit("or-prism");
    reveal_strlit("or-sieve");
    reveal_strlit("or-tools-search");
    reveal_strlit("or-tools-web");
    reveal_strlit("or-tools-vector");
    reveal_strlit("or-tools-loaders");
    reveal_strlit("or-tools-exec");
    reveal_strlit("or-tools-file");
    reveal_strlit("or-tools-comms");
    reveal_strlit("or-tools-productivity");
    reveal_strlit("or-checkpoint");
    reveal_strlit("or-colony");
    reveal_strlit("or-compass");
    reveal_strlit("or-forge");
    reveal_strlit("or-loom");
    reveal_strlit("or-mcp");
    reveal_strlit("or-recall");
    reveal_strlit("or-relay");
    reveal_strlit("or-sentinel");
    reveal_strlit("or-tools-core");
    reveal_strlit("native");
    reveal_strlit("install_global_subscriber");
    reveal_strlit("remember");
    reveal_strlit("recall");
    reveal_strlit("execute_parallel");
    reveal_strlit("run_agent");
    // Literals of equal length, and where they differ.
    assert("or-beacon"@[3] != "or-recall"@[3]);
    assert("or-bridge"@[3] != "or-recall"@[3]);
    assert("or-colony"@[3] != "or-recall"@[3]);
    assert("or-forge"@[3] != "or-relay"@[3]);
    assert("or-pipeline"@[3] != "or-sentinel"@[3]);
    assert("or-prism"@[3] != "or-relay"@[3]);
    assert("or-prism"@[3] != "or-sieve"@[3]);
    assert("or-relay"@[3] != "or-sieve"@[3]);
    let e = catalog()[i];
    if i == 10 {
        assert(e.crate_name == "or-pipeline"@);
        assert(e.binding_mode == "language-runtime"@);
        assert(e.operations == seq!["execute_pipeline"@]);
        assert(routed_crate(e.crate_name) == (e.binding_mode != "language-runtime"@));
        if routed_crate(e.crate_name) {
            assert forall|j: int| 0 <= j < e.operations.len() implies routed_operation(
                e.crate_name,
                #[trigger] e.operations[j],
            ) by {
                if j == 0 {} else if j == 1 {} else if j == 2 {} else if j == 3 {} else if j == 4 {}
                else if j == 5 {} else if j == 6 {} else if j == 7 {} else if j == 8 {} else {}
            }
        }
    } else if i == 11 {
        assert(e.crate_name == "or-prism"@);
        assert(e.binding_mode == "native"@);
        assert(e.operations == seq!["install_global_subscriber"@]);
        assert(routed_crate(e.crate_name) == (e.binding_mode != "language-runtime"@));
        if routed_crate(e.crate_name) {
            assert forall|j: int| 0 <= j < e.operations.len() implies routed_operation(
                e.crate_name,
                #[trigger] e.operations[j],
            ) by {
                if j == 0 {} else if j == 1 {} else if j == 2 {} else if j == 3 {} else if j == 4 {}
                else if j == 5 {} else if j == 6 {} else if j == 7 {} else if j == 8 {} else {}
            }
            assert forall|op: Seq<char>| #[trigger] routed_operation(e.crate_name, op) implies e.operations.contains(op) by {
                if op == "install_global_subscriber"@ {
                    assert(e.operations[0] == op);
                }
            }
        }
    } else if i == 12 {
        assert(e.crate_name == "or-recall"@);
        assert(e.binding_mode == "language-runtime"@);
        assert(e.operations == seq!["remember"@, "recall"@]);
        assert(routed_crate(e.crate_name) == (e.binding_mode != "language-runtime"@));
        if routed_crate(e.crate_name) {
            assert forall|j: int| 0 <= j < e.operations.len() implies routed_operation(
                e.crate_name,
                #[trigger] e.operations[j],
            ) by {
                if j == 0 {} else if j == 1 {} else if j == 2 {} else if j == 3 {} else if j == 4 {}
                else if j == 5 {} else if j == 6 {} else if j == 7 {} else if j == 8 {} else {}
            }
        }
    } else if i == 13 {
        assert(e.crate_name == "or-relay"@);
        assert(e.binding_mode == "language-runtime"@);
        assert(e.operations == seq!["execute_parallel"@]);
        assert(routed_crate(e.crate_name) == (e.binding_mode != "language-runtime"@));
        if routed_crate(e.crate_name) {
            assert forall|j: int| 0 <= j < e.operations.len() implies routed_operation(
                e.crate_name,
                #[trigger] e.operations[j],
            ) by {
                if j == 0 {} else if j == 1 {} else if j == 2 {} else if j == 3 {} else if j == 4 {}
                else if j == 5 {} else if j == 6 {} else if j == 7 {} else if j == 8 {} else {}
            }
        }
    } else {
        assert(e.crate_name == "or-sentinel"@);
        assert(e.binding_mode == "language-runtime"@);
        assert(e.operations == seq!["run_agent"@]);
        assert(routed_crate(e.crate_name) == (e.binding_mode != "language-runtime"@));
        if routed_crate(e.crate_name) {
            assert forall|j: int| 0 <= j < e.operations.len() implies routed_operation(
                e.crate_name,
                #[trigger] e.operations[j],
            ) by {
                if j == 0 {} else if j == 1 {} else if j == 2 {} else if j == 3 {} else if j == 4 {}
                else if j == 5 {} else if j == 6 {} else if j == 7 {} else if j == 8 {} else {}
            }
        }
    }
}

#[verifier::spinoff_prover]
proof fn lemma_catalog_entries_15_to_19(i: int)
    requires
        15 <= i < 20,
    ensures
        entry_matches_routing(catalog()[i]),
{
    reveal_strlit("or-sieve");
    reveal_strlit("mixed");
    reveal_strlit("parse_text");
    reveal_strlit("or-beacon");
    reveal_strlit("or-bridge");
    reveal_strlit("or-core");
    reveal_strlit("or-conduit");
    reveal_strlit("or-prism");
    reveal_strlit("or-tools-search");
    reveal_strlit("or-tools-web");
    reveal_strlit("or-tools-vector");
    reveal_strlit("or-tools-loaders");
    reveal_strlit("or-tools-exec");
    reveal_strlit("or-tools-file");
    reveal_strlit("or-tools-comms");
    reveal_strlit("or-tools-productivity");
    reveal_strlit("language-runtime");
    reveal_strlit("or-tools-core");
    reveal_strlit("register");
    reveal_strlit("invoke");
    reveal_strlit("dispatch");
    reveal_strlit("or-checkpoint");
    reveal_strlit("or-colony");
    reveal_strlit("or-compass");
    reveal_strlit("or-forge");
    reveal_strlit("or-loom");
    reveal_strlit("or-mcp");
    reveal_strlit("or-pipeline");
    reveal_strlit("or-recall");
    reveal_strlit("or-relay");
    reveal_strlit("or-sentinel");
    reveal_strlit("native");
    reveal_strlit("search");
    reveal_strlit("fetch");
    reveal_strlit("scrape");
    reveal_strlit("ensure_collection");
    reveal_strlit("upsert");
    reveal_strlit("delete");
    reveal_strlit("query");
    // Literals of equal length, and where they differ.
    assert("delete"@[0] != "upsert"@[0]);
    assert("or-checkpoint"@[3] != "or-tools-core"@[3]);
    assert("or-prism"@[3] != "or-sieve"@[3]);
    assert("or-tools-core"@[9] != "or-tools-exec"@[9]);
    assert("or-tools-core"@[9] != "or-tools-file"@[9]);
    assert("or-tools-search"@[9] != "or-tools-vector"@[9]);
    let e = catalog()[i];
    if i == 15 {
        assert(e.crate_name == "or-sieve"@);
        assert(e.binding_mode == "mixed"@);
        assert(e.operations == seq!["parse_text"@]);
        assert(routed_crate(e.crate_name) == (e.binding_mode != "language-runtime"@));
        if routed_crate(e.crate_name) {
            assert forall|j: int| 0 <= j < e.operations.len() implies routed_operation(
                e.crate_name,
                #[trigger] e.operations[j],
            ) by {
                if j == 0 {} else if j == 1 {} else if j == 2 {} else if j == 3 {} else if j == 4 {}
                else if j == 5 {} else if j == 6 {} else if j == 7 {} else if j == 8 {} else {}
            }
            assert forall|op: Seq<char>| #[trigger] routed_operation(e.crate_name, op) implies e.operations.contains(op) by {
                if op == "parse_text"@ {
                    assert(e.operations[0] == op);
                }
            }
        }
    } else if i == 16 {
        assert(e.crate_name == "or-tools-core"@);
        assert(e.binding_mode == "language-runtime"@);
        assert(e.operations == seq!["register"@, "invoke"@, "dispatch"@]);
        assert(routed_crate(e.crate_name) == (e.binding_mode != "language-runtime"@));
        if routed_crate(e.crate_name) {
            assert forall|j: int| 0 <= j < e.operations.len() implies routed_operation(
                e.crate_name,
                #[trigger] e.operations[j],
            ) by {
                if j == 0 {} else if j == 1 {} else if j == 2 {} else if j == 3 {} else if j == 4 {}
                else if j == 5 {} else if j == 6 {} else if j == 7 {} else if j == 8 {} else {}
            }
        }
    } else if i == 17 {
        assert(e.crate_name == "or-tools-search"@);
        assert(e.binding_mode == "native"@);
        assert(e.operations == seq!["search"@]);
        assert(routed_crate(e.crate_name) == (e.binding_mode != "language-runtime"@));
        if routed_crate(e.crate_name) {
            assert forall|j: int| 0 <= j < e.operations.len() implies routed_operation(
                e.crate_name,
                #[trigger] e.operations[j],
            ) by {
                if j == 0 {} else if j == 1 {} else if j == 2 {} else if j == 3 {} else if j == 4 {}
                else if j == 5 {} else if j == 6 {} else if j == 7 {} else if j == 8 {} else {}
            }
            assert forall|op: Seq<char>| #[trigger] routed_operation(e.crate_name, op) implies e.operations.contains(op) by {
                if op == "search"@ {
                    assert(e.operations[0] == op);
                }
            }
        }
    } else if i == 18 {
        assert(e.crate_name == "or-tools-web"@);
        assert(e.binding_mode == "native"@);
        assert(e.operations == seq!["fetch"@, "scrape"@]);
        assert(routed_crate(e.crate_name) == (e.binding_mode != "language-runtime"@));
        if routed_crate(e.crate_name) {
            assert forall|j: int| 0 <= j < e.operations.len() implies routed_operation(
                e.crate_name,
                #[trigger] e.operations[j],
            ) by {
                if j == 0 {} else if j == 1 {} else if j == 2 {} else if j == 3 {} else if j == 4 {}
                else if j == 5 {} else if j == 6 {} else if j == 7 {} else if j == 8 {} else {}
            }
            assert forall|op: Seq<char>| #[trigger] routed_operation(e.crate_name, op) implies e.operations.contains(op) by {
                if op == "fetch"@ {
                    assert(e.operations[0] == op);
                } else if op == "scrape"@ {
                    assert(e.operations[1] == op);
                }
            }
        }
    } else {
        assert(e.crate_name == "or-tools-vector"@);
        assert(e.binding_mode == "native"@);
        assert(e.operations == seq!["ensure_collection"@, "upsert"@, "delete"@, "query"@]);
        assert(routed_crate(e.crate_name) == (e.binding_mode != "language-runtime"@));
        if routed_crate(e.crate_name) {
            assert forall|j: int| 0 <= j < e.operations.len() implies routed_operation(
                e.crate_name,
                #[trigger] e.operations[j],
            ) by {
                if j == 0 {} else if j == 1 {} else if j == 2 {} else if j == 3 {} else if j == 4 {}
                else if j == 5 {} else if j == 6 {} else if j == 7 {} else if j == 8 {} else {}
            }
            assert forall|op: Seq<char>| #[trigger] routed_operation(e.crate_name, op) implies e.operations.contains(op) by {
                if op == "ensure_collection"@ {
                    assert(e.operations[0] == op);
                } else if op == "upsert"@ {
                    assert(e.operations[1] == op);
                } else if op == "delete"@ {
                    assert(e.operations[2] == op);
                } else if op == "query"@ {
                    assert(e.operations[3] == op);
                }
            }
        }
    }
}

#[verifier::spinoff_prover]
proof fn lemma_catalog_entries_20_to_24(i: int)
    requires
        20 <= i < 25,
    ensures
        entry_matches_routing(catalog()[i]),
{
    reveal_strlit("or-tools-loaders");
    reveal_strlit("native");
    reveal_strlit("load");
    reveal_strlit("or-beacon");
    reveal_strlit("or-bridge");
    reveal_strlit("or-core");
    reveal_strlit("or-conduit");
    reveal_strlit("or-prism");
    reveal_strlit("or-sieve");
    reveal_strlit("or-tools-search");
    reveal_strlit("or-tools-web");
    reveal_strlit("or-tools-vector");
    reveal_strlit("or-tools-exec");
    reveal_strlit("or-tools-file");
    reveal_strlit("or-tools-comms");
    reveal_strlit("or-tools-productivity");
    reveal_strlit("language-runtime");
    reveal_strlit("execute");
    reveal_strlit("read");
    reveal_strlit("write");
    reveal_strlit("list");
    reveal_strlit("delete");
    reveal_strlit("fetch");
    reveal_strlit("send");
    reveal_strlit("list_emails");
    reveal_strlit("send_email");
    reveal_strlit("list_events");
    reveal_strlit("create_event");
    reveal_strlit("list_issues");
    reveal_strlit("create_issue");
    reveal_strlit("search_pages");
    reveal_strlit("create_page");
    reveal_strlit("post_message");
    reveal_strlit("search_messages");
    // Literals of equal length, and where they differ.
    assert("create_event"@[7] != "create_issue"@[7]);
    assert("create_event"@[0] != "post_message"@[0]);
    assert("create_event"@[0] != "search_pages"@[0]);
    assert("create_issue"@[0] != "post_message"@[0]);
    assert("create_issue"@[0] != "search_pages"@[0]);
    assert("create_page"@[0] != "list_emails"@[0]);
    assert("create_page"@[0] != "list_events"@[0]);
    assert("create_page"@[0] != "list_issues"@[0]);
    assert("fetch"@[0] != "write"@[0]);
    assert("list"@[0] != "read"@[0]);
    assert("list_emails"@[6] != "list_events"@[6]);
    assert("list_emails"@[5] != "list_issues"@[5]);
    assert("list_events"@[5] != "list_issues"@[5]);
    assert("or-tools-exec"@[9] != "or-tools-file"@[9]);
    assert("post_message"@[0] != "search_pages"@[0]);
    let e = catalog()[i];
    if i == 20 {
        assert(e.crate_name == "or-tools-loaders"@);
        assert(e.binding_mode == "native"@);
        assert(e.operations == seq!["load"@]);
        assert(routed_crate(e.crate_name) == (e.binding_mode != "language-runtime"@));
        if routed_crate(e.crate_name) {
            assert forall|j: int| 0 <= j < e.operations.len() implies routed_operation(
                e.crate_name,
                #[trigger] e.operations[j],
            ) by {
                if j == 0 {} else if j == 1 {} else if j == 2 {} else if j == 3 {} else if j == 4 {}
                else if j == 5 {} else if j == 6 {} else if j == 7 {} else if j == 8 {} else {}
            }
            assert forall|op: Seq<char>| #[trigger] routed_operation(e.crate_name, op) implies e.operations.contains(op) by {
                if op == "load"@ {
                    assert(e.operations[0] == op);
                }
            }
        }
    } else if i == 21 {
        assert(e.crate_name == "or-tools-exec"@);
        assert(e.binding_mode == "native"@);
        assert(e.operations == seq!["execute"@]);
        assert(routed_crate(e.crate_name) == (e.binding_mode != "language-runtime"@));
        if routed_crate(e.crate_name) {
            assert forall|j: int| 0 <= j < e.operations.len() implies routed_operation(
                e.crate_name,
                #[trigger] e.operations[j],
            ) by {
                if j == 0 {} else if j == 1 {} else if j == 2 {} else if j == 3 {} else if j == 4 {}
                else if j == 5 {} else if j == 6 {} else if j == 7 {} else if j == 8 {} else {}
            }
            assert forall|op: Seq<char>| #[trigger] routed_operation(e.crate_name, op) implies e.operations.contains(op) by {
                if op == "execute"@ {
                    assert(e.operations[0] == op);
                }
            }
        }
    } else if i == 22 {
        assert(e.crate_name == "or-tools-file"@);
        assert(e.binding_mode == "native"@);
        assert(e.operations == seq!["read"@, "write"@, "list"@, "delete"@, "fetch"@]);
        assert(routed_crate(e.crate_name) == (e.binding_mode != "language-runtime"@));
        if routed_crate(e.crate_name) {
            assert forall|j: int| 0 <= j < e.operations.len() implies routed_operation(
                e.crate_name,
                #[trigger] e.operations[j],
            ) by {
                if j == 0 {} else if j == 1 {} else if j == 2 {} else if j == 3 {} else if j == 4 {}
                else if j == 5 {} else if j == 6 {} else if j == 7 {} else if j == 8 {} else {}
            }
            assert forall|op: Seq<char>| #[trigger] routed_operation(e.crate_name, op) implies e.operations.contains(op) by {
                if op == "read"@ {
                    assert(e.operations[0] == op);
                } else if op == "write"@ {
                    assert(e.operations[1] == op);
                } else if op == "list"@ {
                    assert(e.operations[2] == op);
                } else if op == "delete"@ {
                    assert(e.operations[3] == op);
                } else if op == "fetch"@ {
                    assert(e.operations[4] == op);
                }
            }
        }
    } else if i == 23 {
        assert(e.crate_name == "or-tools-comms"@);
        assert(e.binding_mode == "native"@);
        assert(e.operations == seq!["send"@]);
        assert(routed_crate(e.crate_name) == (e.binding_mode != "language-runtime"@));
        if routed_crate(e.crate_name) {
            assert forall|j: int| 0 <= j < e.operations.len() implies routed_operation(
                e.crate_name,
                #[trigger] e.operations[j],
            ) by {
                if j == 0 {} else if j == 1 {} else if j == 2 {} else if j == 3 {} else if j == 4 {}
                else if j == 5 {} else if j == 6 {} else if j == 7 {} else if j == 8 {} else {}
            }
            assert forall|op: Seq<char>| #[trigger] routed_operation(e.crate_name, op) implies e.operations.contains(op) by {
                if op == "send"@ {
                    assert(e.operations[0] == op);
                }
            }
        }
    } else {
        assert(e.crate_name == "or-tools-productivity"@);
        assert(e.binding_mode == "native"@);
        assert(e.operations == seq!["list_emails"@, "send_email"@, "list_events"@, "create_event"@, "list_issues"@, "create_issue"@, "search_pages"@, "create_page"@, "post_message"@, "search_messages"@]);
        assert(routed_crate(e.crate_name) == (e.binding_mode != "language-runtime"@));
        if routed_crate(e.crate_name) {
            assert forall|j: int| 0 <= j < e.operations.len() implies routed_operation(
                e.crate_name,
                #[trigger] e.operations[j],
            ) by {
                if j == 0 {} else if j == 1 {} else if j == 2 {} else if j == 3 {} else if j == 4 {}
                else if j == 5 {} else if j == 6 {} else if j == 7 {} else if j == 8 {} else {}
            }
            assert forall|op: Seq<char>| #[trigger] routed_operation(e.crate_name, op) implies e.operations.contains(op) by {
                if op == "list_emails"@ {
                    assert(e.operations[0] == op);
                } else if op == "send_email"@ {
                    assert(e.operations[1] == op);
                } else if op == "list_events"@ {
                    assert(e.operations[2] == op);
                } else if op == "create_event"@ {
                    assert(e.operations[3] == op);
                } else if op == "list_issues"@ {
                    assert(e.operations[4] == op);
                } else if op == "create_issue"@ {
                    assert(e.operations[5] == op);
                } else if op == "search_pages"@ {
                    assert(e.operations[6] == op);
                } else if op == "create_page"@ {
                    assert(e.operations[7] == op);
                } else if op == "post_message"@ {
                    assert(e.operations[8] == op);
                } else if op == "search_messages"@ {
                    assert(e.operations[9] == op);
                }
            }
        }
    }
}

/// The catalog and the routing agree: `invoke_crate_json` routes exactly
/// the crates the catalog does not leave to the language runtimes, and
/// recognizes every operation the catalog lists for them.
pub proof fn law_catalog_matches_routing(i: int)
    requires
        0 <= i < catalog().len(),
    ensures
        entry_matches_routing(catalog()[i]),
{
    if i < 5 {
        lemma_catalog_entries_0_to_4(i);
    } else if i < 10 {
        lemma_catalog_entries_5_to_9(i);
    } else if i < 15 {
        lemma_catalog_entries_10_to_14(i);
    } else if i < 20 {
        lemma_catalog_entries_15_to_19(i);
    } else {
        lemma_catalog_entries_20_to_24(i);
    }
}

/// Every crate `invoke_crate_json` routes is in the catalog.
proof fn lemma_routed_crates_are_listed(name: Seq<char>)
    requires
        routed_crate(name),
    ensures
        listed(name),
{
    if name == "or-beacon"@ {
        assert(catalog()[1].crate_name == name);
    } else if name == "or-bridge"@ {
        assert(catalog()[2].crate_name == name);
    } else if name == "or-core"@ {
        assert(catalog()[0].crate_name == name);
    } else if name == "or-conduit"@ {
        assert(catalog()[6].crate_name == name);
    } else if name == "or-prism"@ {
        assert(catalog()[11].crate_name == name);
    } else if name == "or-sieve"@ {
        assert(catalog()[15].crate_name == name);
    } else if name == "or-tools-search"@ {
        assert(catalog()[17].crate_name == name);
    } else if name == "or-tools-web"@ {
        assert(catalog()[18].crate_name == name);
    } else if name == "or-tools-vector"@ {
        assert(catalog()[19].crate_name == name);
    } else if name == "or-tools-loaders"@ {
        assert(catalog()[20].crate_name == name);
    } else if name == "or-tools-exec"@ {
        assert(catalog()[21].crate_name == name);
    } else if name == "or-tools-file"@ {
        assert(catalog()[22].crate_name == name);
    } else if name == "or-tools-comms"@ {
        assert(catalog()[23].crate_name == name);
    } else if name == "or-tools-productivity"@ {
        assert(catalog()[24].crate_name == name);
    }
}

/// A crate the catalog does not list is refused, whatever the operation
/// and payload.
pub proof fn law_unlisted_crates_refused(
    name: Seq<char>,
    operation: Seq<char>,
    payload: JsonValue,
    r: InvokeOutcome,
)
    requires
        !listed(name),
    ensures
        invoke_matches(r, name, operation, payload) ==> (r matches InvokeOutcome::Done(Err(e))
            && e@ == BridgeFault::UnsupportedCrate(name)),
{
    if routed_crate(name) {
        lemma_routed_crates_are_listed(name);
    }
}

/// An operation the catalog lists for a crate it routes is never refused
/// as an unknown crate or operation: the bridge answers it itself, or
/// hands it to a tool crate whose check recognizes it.
pub proof fn law_listed_operations_accepted(
    i: int,
    j: int,
    payload: JsonValue,
    r: InvokeOutcome,
)
    requires
        0 <= i < catalog().len(),
        catalog()[i].binding_mode != "language-runtime"@,
        0 <= j < catalog()[i].operations.len(),
    ensures
        invoke_matches(r, catalog()[i].crate_name, catalog()[i].operations[j], payload) ==> {
            &&& !(r matches InvokeOutcome::Done(Err(e)) && (e@ is UnsupportedCrate
                || e@ is UnsupportedOperation))
            &&& (r matches InvokeOutcome::Delegated(t) ==> tool_operation(
                t,
                catalog()[i].operations[j],
            ))
        },
{
    law_catalog_matches_routing(i);
    let name = catalog()[i].crate_name;
    let op = catalog()[i].operations[j];
    assert(routed_operation(name, op));
}


// ---------------------------------------------------------------------
// Names and kinds
// ---------------------------------------------------------------------

/// The name each search provider is registered under.
pub open spec fn search_name(k: SearchKind) -> Seq<char> {
    match k {
        SearchKind::Tavily => "tavily"@,
        SearchKind::Exa => "exa"@,
        SearchKind::Brave => "brave"@,
        SearchKind::Serper => "serper"@,
        SearchKind::Searxng => "searxng"@,
        SearchKind::YouCom => "youcom"@,
        SearchKind::Bing => "bing"@,
    }
}

/// A name selects the search provider registered under it, and each one's name
/// selects it: no name is routed to another search provider.
pub proof fn law_search_names(name: Seq<char>, k: SearchKind)
    ensures
        search_kind(name) matches Some(j) ==> name == search_name(j),
        search_kind(search_name(k)) == Some(k),
{
    reveal_strlit("tavily");
    reveal_strlit("exa");
    reveal_strlit("brave");
    reveal_strlit("serper");
    reveal_strlit("searxng");
    reveal_strlit("youcom");
    reveal_strlit("bing");
    assert("tavily"@[0] != "serper"@[0]);
    assert("tavily"@[0] != "youcom"@[0]);
    assert("serper"@[0] != "youcom"@[0]);
    match k {
        SearchKind::Tavily => {
            assert("tavily"@.len() == 6);
        },
        SearchKind::Exa => {
            assert("exa"@.len() == 3);
        },
        SearchKind::Brave => {
            assert("brave"@.len() == 5);
        },
        SearchKind::Serper => {
            assert("serper"@.len() == 6);
        },
        SearchKind::Searxng => {
            assert("searxng"@.len() == 7);
        },
        SearchKind::YouCom => {
            assert("youcom"@.len() == 6);
        },
        SearchKind::Bing => {
            assert("bing"@.len() == 4);
        },
    }
}

/// The name each browser is registered under.
pub open spec fn browser_name(k: BrowserKind) -> Seq<char> {
    match k {
        BrowserKind::Requests => "requests"@,
        BrowserKind::Playwright => "playwright"@,
        BrowserKind::BrightData => "brightdata"@,
        BrowserKind::Hyperbrowser => "hyperbrowser"@,
        BrowserKind::Oxylabs => "oxylabs"@,
    }
}

/// A name selects the browser registered under it, and each one's name
/// selects it: no name is routed to another browser.
pub proof fn law_browser_names(name: Seq<char>, k: BrowserKind)
    ensures
        browser_kind(name) matches Some(j) ==> name == browser_name(j),
        browser_kind(browser_name(k)) == Some(k),
{
    reveal_strlit("requests");
    reveal_strlit("playwright");
    reveal_strlit("brightdata");
    reveal_strlit("hyperbrowser");
    reveal_strlit("oxylabs");
    assert("playwright"@[0] != "brightdata"@[0]);
    match k {
        BrowserKind::Requests => {
            assert("requests"@.len() == 8);
        },
        BrowserKind::Playwright => {
            assert("playwright"@.len() == 10);
        },
        BrowserKind::BrightData => {
            assert("brightdata"@.len() == 10);
        },
        BrowserKind::Hyperbrowser => {
            assert("hyperbrowser"@.len() == 12);
        },
        BrowserKind::Oxylabs => {
            assert("oxylabs"@.len() == 7);
        },
    }
}

/// The name each vector store client is registered under.
pub open spec fn vector_name(k: VectorKind) -> Seq<char> {
    match k {
        VectorKind::Pinecone => "pinecone"@,
        VectorKind::Weaviate => "weaviate"@,
        VectorKind::Qdrant => "qdrant"@,
        VectorKind::Chroma => "chroma"@,
        VectorKind::Milvus => "milvus"@,
        VectorKind::PgVector => "pgvector"@,
    }
}

/// A name selects the vector store client registered under it, and each one's name
/// selects it: no name is routed to another vector store client.
pub proof fn law_vector_names(name: Seq<char>, k: VectorKind)
    ensures
        vector_kind(name) matches Some(j) ==> name == vector_name(j),
        vector_kind(vector_name(k)) == Some(k),
{
    reveal_strlit("pinecone");
    reveal_strlit("weaviate");
    reveal_strlit("qdrant");
    reveal_strlit("chroma");
    reveal_strlit("milvus");
    reveal_strlit("pgvector");
    assert("pinecone"@[0] != "weaviate"@[0]);
    assert("pinecone"@[1] != "pgvector"@[1]);
    assert("weaviate"@[0] != "pgvector"@[0]);
    assert("qdrant"@[0] != "chroma"@[0]);
    assert("qdrant"@[0] != "milvus"@[0]);
    assert("chroma"@[0] != "milvus"@[0]);
    match k {
        VectorKind::Pinecone => {
            assert("pinecone"@.len() == 8);
        },
        VectorKind::Weaviate => {
            assert("weaviate"@.len() == 8);
        },
        VectorKind::Qdrant => {
            assert("qdrant"@.len() == 6);
        },
        VectorKind::Chroma => {
            assert("chroma"@.len() == 6);
        },
        VectorKind::Milvus => {
            assert("milvus"@.len() == 6);
        },
        VectorKind::PgVector => {
            assert("pgvector"@.len() == 8);
        },
    }
}

/// The name each vector store operation is registered under.
pub open spec fn vector_op_name(k: VectorOp) -> Seq<char> {
    match k {
        VectorOp::EnsureCollection => "ensure_collection"@,
        VectorOp::Upsert => "upsert"@,
        VectorOp::Delete => "delete"@,
        VectorOp::Query => "query"@,
    }
}

/// A name selects the vector store operation registered under it, and each one's name
/// selects it: no name is routed to another vector store operation.
pub proof fn law_vector_op_names(name: Seq<char>, k: VectorOp)
    ensures
        vector_op(name) matches Some(j) ==> name == vector_op_name(j),
        vector_op(vector_op_name(k)) == Some(k),
{
    reveal_strlit("ensure_collection");
    reveal_strlit("upsert");
    reveal_strlit("delete");
    reveal_strlit("query");
    assert("upsert"@[0] != "delete"@[0]);
    match k {
        VectorOp::EnsureCollection => {
            assert("ensure_collection"@.len() == 17);
        },
        VectorOp::Upsert => {
            assert("upsert"@.len() == 6);
        },
        VectorOp::Delete => {
            assert("delete"@.len() == 6);
        },
        VectorOp::Query => {
            assert("query"@.len() == 5);
        },
    }
}

/// The name each executor is registered under.
pub open spec fn executor_name(k: ExecutorKind) -> Seq<char> {
    match k {
        ExecutorKind::Python => "python"@,
        ExecutorKind::Shell => "shell"@,
        ExecutorKind::E2B => "e2b"@,
        ExecutorKind::Bearly => "bearly"@,
        ExecutorKind::Daytona => "daytona"@,
    }
}

/// A name selects the executor registered under it, and each one's name
/// selects it: no name is routed to another executor.
pub proof fn law_executor_names(name: Seq<char>, k: ExecutorKind)
    ensures
        executor_kind(name) matches Some(j) ==> name == executor_name(j),
        executor_kind(executor_name(k)) == Some(k),
{
    reveal_strlit("python");
    reveal_strlit("shell");
    reveal_strlit("e2b");
    reveal_strlit("bearly");
    reveal_strlit("daytona");
    assert("python"@[0] != "bearly"@[0]);
    match k {
        ExecutorKind::Python => {
            assert("python"@.len() == 6);
        },
        ExecutorKind::Shell => {
            assert("shell"@.len() == 5);
        },
        ExecutorKind::E2B => {
            assert("e2b"@.len() == 3);
        },
        ExecutorKind::Bearly => {
            assert("bearly"@.len() == 6);
        },
        ExecutorKind::Daytona => {
            assert("daytona"@.len() == 7);
        },
    }
}

/// The name each file store is registered under.
pub open spec fn file_store_kind_name(k: FileStoreKind) -> Seq<char> {
    match k {
        FileStoreKind::Local => "local"@,
        FileStoreKind::GDrive => "gdrive"@,
    }
}

/// A name selects the file store registered under it, and each one's name
/// selects it: no name is routed to another file store.
pub proof fn law_file_store_names(name: Seq<char>, k: FileStoreKind)
    ensures
        file_store_kind(name) matches Some(j) ==> name == file_store_kind_name(j),
        file_store_kind(file_store_kind_name(k)) == Some(k),
{
    reveal_strlit("local");
    reveal_strlit("gdrive");

    match k {
        FileStoreKind::Local => {
            assert("local"@.len() == 5);
        },
        FileStoreKind::GDrive => {
            assert("gdrive"@.len() == 6);
        },
    }
}

/// The name each data source is registered under.
pub open spec fn data_source_name(k: DataSourceKind) -> Seq<char> {
    match k {
        DataSourceKind::Json => "json"@,
        DataSourceKind::Arxiv => "arxiv"@,
        DataSourceKind::Financial => "financial"@,
    }
}

/// A name selects the data source registered under it, and each one's name
/// selects it: no name is routed to another data source.
pub proof fn law_data_source_names(name: Seq<char>, k: DataSourceKind)
    ensures
        data_source_kind(name) matches Some(j) ==> name == data_source_name(j),
        data_source_kind(data_source_name(k)) == Some(k),
{
    reveal_strlit("json");
    reveal_strlit("arxiv");
    reveal_strlit("financial");

    match k {
        DataSourceKind::Json => {
            assert("json"@.len() == 4);
        },
        DataSourceKind::Arxiv => {
            assert("arxiv"@.len() == 5);
        },
        DataSourceKind::Financial => {
            assert("financial"@.len() == 9);
        },
    }
}

/// The name each messaging channel is registered under (SMS is also reached under `twilio`).
pub open spec fn channel_name(k: ChannelKind) -> Seq<char> {
    match k {
        ChannelKind::Sms => "sms"@,
        ChannelKind::Telegram => "telegram"@,
        ChannelKind::Discord => "discord"@,
        ChannelKind::WhatsApp => "whatsapp"@,
        ChannelKind::Facebook => "facebook"@,
        ChannelKind::Messenger => "messenger"@,
    }
}

/// A name selects the messaging channel registered under it, and each one's name
/// selects it: no name is routed to another messaging channel.
pub proof fn law_channel_names(name: Seq<char>, k: ChannelKind)
    ensures
        channel_kind(name) matches Some(j) ==> name == channel_name(j) || (j == ChannelKind::Sms && name == "twilio"@),
        channel_kind(channel_name(k)) == Some(k),
{
    reveal_strlit("sms");
    reveal_strlit("telegram");
    reveal_strlit("discord");
    reveal_strlit("whatsapp");
    reveal_strlit("facebook");
    reveal_strlit("messenger");
    reveal_strlit("twilio");
    assert("telegram"@[0] != "whatsapp"@[0]);
    assert("telegram"@[0] != "facebook"@[0]);
    assert("whatsapp"@[0] != "facebook"@[0]);
    match k {
        ChannelKind::Sms => {
            assert("sms"@.len() == 3);
        },
        ChannelKind::Telegram => {
            assert("telegram"@.len() == 8);
        },
        ChannelKind::Discord => {
            assert("discord"@.len() == 7);
        },
        ChannelKind::WhatsApp => {
            assert("whatsapp"@.len() == 8);
        },
        ChannelKind::Facebook => {
            assert("facebook"@.len() == 8);
        },
        ChannelKind::Messenger => {
            assert("messenger"@.len() == 9);
        },
    }
}

/// The name each email client is registered under.
pub open spec fn email_name(k: EmailKind) -> Seq<char> {
    match k {
        EmailKind::Gmail => "gmail"@,
        EmailKind::Office365 => "office365"@,
    }
}

/// A name selects the email client registered under it, and each one's name
/// selects it: no name is routed to another email client.
pub proof fn law_email_names(name: Seq<char>, k: EmailKind)
    ensures
        email_kind(name) matches Some(j) ==> name == email_name(j),
        email_kind(email_name(k)) == Some(k),
{
    reveal_strlit("gmail");
    reveal_strlit("office365");

    match k {
        EmailKind::Gmail => {
            assert("gmail"@.len() == 5);
        },
        EmailKind::Office365 => {
            assert("office365"@.len() == 9);
        },
    }
}

/// The name each calendar client is registered under.
pub open spec fn calendar_name(k: CalendarKind) -> Seq<char> {
    match k {
        CalendarKind::GCalendar => "gcalendar"@,
        CalendarKind::Office365 => "office365"@,
    }
}

/// A name selects the calendar client registered under it, and each one's name
/// selects it: no name is routed to another calendar client.
pub proof fn law_calendar_names(name: Seq<char>, k: CalendarKind)
    ensures
        calendar_kind(name) matches Some(j) ==> name == calendar_name(j),
        calendar_kind(calendar_name(k)) == Some(k),
{
    reveal_strlit("gcalendar");
    reveal_strlit("office365");
    assert("gcalendar"@[0] != "office365"@[0]);
    match k {
        CalendarKind::GCalendar => {
            assert("gcalendar"@.len() == 9);
        },
        CalendarKind::Office365 => {
            assert("office365"@.len() == 9);
        },
    }
}

/// The name each project tracker is registered under.
pub open spec fn tracker_name(k: TrackerKind) -> Seq<char> {
    match k {
        TrackerKind::Jira => "jira"@,
        TrackerKind::GitHub => "github"@,
        TrackerKind::Trello => "trello"@,
        TrackerKind::ClickUp => "clickup"@,
    }
}

/// A name selects the project tracker registered under it, and each one's name
/// selects it: no name is routed to another project tracker.
pub proof fn law_tracker_names(name: Seq<char>, k: TrackerKind)
    ensures
        tracker_kind(name) matches Some(j) ==> name == tracker_name(j),
        tracker_kind(tracker_name(k)) == Some(k),
{
    reveal_strlit("jira");
    reveal_strlit("github");
    reveal_strlit("trello");
    reveal_strlit("clickup");
    assert("github"@[0] != "trello"@[0]);
    match k {
        TrackerKind::Jira => {
            assert("jira"@.len() == 4);
        },
        TrackerKind::GitHub => {
            assert("github"@.len() == 6);
        },
        TrackerKind::Trello => {
            assert("trello"@.len() == 6);
        },
        TrackerKind::ClickUp => {
            assert("clickup"@.len() == 7);
        },
    }
}

/// The name each knowledge base is registered under.
pub open spec fn knowledge_name(k: KnowledgeKind) -> Seq<char> {
    match k {
        KnowledgeKind::Notion => "notion"@,
    }
}

/// A name selects the knowledge base registered under it, and each one's name
/// selects it: no name is routed to another knowledge base.
pub proof fn law_knowledge_names(name: Seq<char>, k: KnowledgeKind)
    ensures
        knowledge_kind(name) matches Some(j) ==> name == knowledge_name(j),
        knowledge_kind(knowledge_name(k)) == Some(k),
{
    reveal_strlit("notion");

    match k {
        KnowledgeKind::Notion => {
            assert("notion"@.len() == 6);
        },
    }
}

/// The name each team messenger is registered under.
pub open spec fn team_messenger_name(k: TeamMessengerKind) -> Seq<char> {
    match k {
        TeamMessengerKind::Slack => "slack"@,
    }
}

/// A name selects the team messenger registered under it, and each one's name
/// selects it: no name is routed to another team messenger.
pub proof fn law_team_messenger_names(name: Seq<char>, k: TeamMessengerKind)
    ensures
        team_messenger_kind(name) matches Some(j) ==> name == team_messenger_name(j),
        team_messenger_kind(team_messenger_name(k)) == Some(k),
{
    reveal_strlit("slack");

    match k {
        TeamMessengerKind::Slack => {
            assert("slack"@.len() == 5);
        },
    }
}

/// The name each productivity operation is registered under.
pub open spec fn productivity_op_name(k: ProductivityOp) -> Seq<char> {
    match k {
        ProductivityOp::ListEmails => "list_emails"@,
        ProductivityOp::SendEmail => "send_email"@,
        ProductivityOp::ListEvents => "list_events"@,
        ProductivityOp::CreateEvent => "create_event"@,
        ProductivityOp::ListIssues => "list_issues"@,
        ProductivityOp::CreateIssue => "create_issue"@,
        ProductivityOp::SearchPages => "search_pages"@,
        ProductivityOp::CreatePage => "create_page"@,
        ProductivityOp::PostMessage => "post_message"@,
        ProductivityOp::SearchMessages => "search_messages"@,
    }
}

/// A name selects the productivity operation registered under it, and each one's name
/// selects it: no name is routed to another productivity operation.
pub proof fn law_productivity_op_names(name: Seq<char>, k: ProductivityOp)
    ensures
        productivity_op(name) matches Some(j) ==> name == productivity_op_name(j),
        productivity_op(productivity_op_name(k)) == Some(k),
{
    reveal_strlit("list_emails");
    reveal_strlit("send_email");
    reveal_strlit("list_events");
    reveal_strlit("create_event");
    reveal_strlit("list_issues");
    reveal_strlit("create_issue");
    reveal_strlit("search_pages");
    reveal_strlit("create_page");
    reveal_strlit("post_message");
    reveal_strlit("search_messages");
    assert("list_emails"@[6] != "list_events"@[6]);
    assert("list_emails"@[5] != "list_issues"@[5]);
    assert("list_emails"@[0] != "create_page"@[0]);
    assert("list_events"@[5] != "list_issues"@[5]);
    assert("list_events"@[0] != "create_page"@[0]);
    assert("create_event"@[7] != "create_issue"@[7]);
    assert("create_event"@[0] != "search_pages"@[0]);
    assert("create_event"@[0] != "post_message"@[0]);
    assert("list_issues"@[0] != "create_page"@[0]);
    assert("create_issue"@[0] != "search_pages"@[0]);
    assert("create_issue"@[0] != "post_message"@[0]);
    assert("search_pages"@[0] != "post_message"@[0]);
    match k {
        ProductivityOp::ListEmails => {
            assert("list_emails"@.len() == 11);
        },
        ProductivityOp::SendEmail => {
            assert("send_email"@.len() == 10);
        },
        ProductivityOp::ListEvents => {
            assert("list_events"@.len() == 11);
        },
        ProductivityOp::CreateEvent => {
            assert("create_event"@.len() == 12);
        },
        ProductivityOp::ListIssues => {
            assert("list_issues"@.len() == 11);
        },
        ProductivityOp::CreateIssue => {
            assert("create_issue"@.len() == 12);
        },
        ProductivityOp::SearchPages => {
            assert("search_pages"@.len() == 12);
        },
        ProductivityOp::CreatePage => {
            assert("create_page"@.len() == 11);
        },
        ProductivityOp::PostMessage => {
            assert("post_message"@.len() == 12);
        },
        ProductivityOp::SearchMessages => {
            assert("search_messages"@.len() == 15);
        },
    }
}

// ---------------------------------------------------------------------
// What each provider is set up from
// ---------------------------------------------------------------------

/// The configured strings a plan is set up from: every `required` member
/// (else the provider's own defaults) and each `optional` one.
pub open spec fn set_up_from(
    setup: Setup,
    extras: Seq<Option<String>>,
    config: Option<&JsonValue>,
    required: Option<Seq<Seq<char>>>,
    optional: Seq<Seq<char>>,
) -> bool {
    &&& match required {
        None => setup is Default,
        Some(keys) => setup_matches(setup, config, keys),
    }
    &&& extras_match(extras, config, optional)
}

/// The configuration members each search kind is set up
/// from, member by member, as its client reads them.
pub proof fn law_search_plan_settings(p: ProviderPlan<SearchKind>, k: SearchKind, config: Option<&JsonValue>)
    requires
        plan_matches(p, k, config, Some(search_keys(k)), seq![]),
    ensures
        p.kind == k,
        match k {
            SearchKind::Tavily => set_up_from(p.setup, p.extras@, config, Some(seq!["endpoint"@, "api_key"@]), seq![]),
            SearchKind::Exa => set_up_from(p.setup, p.extras@, config, Some(seq!["endpoint"@, "api_key"@]), seq![]),
            SearchKind::Brave => set_up_from(p.setup, p.extras@, config, Some(seq!["endpoint"@, "api_key"@]), seq![]),
            SearchKind::Serper => set_up_from(p.setup, p.extras@, config, Some(seq!["endpoint"@, "api_key"@]), seq![]),
            SearchKind::Searxng => set_up_from(p.setup, p.extras@, config, Some(seq!["endpoint"@]), seq![]),
            SearchKind::YouCom => set_up_from(p.setup, p.extras@, config, Some(seq!["endpoint"@, "api_key"@]), seq![]),
            SearchKind::Bing => set_up_from(p.setup, p.extras@, config, Some(seq!["endpoint"@, "api_key"@]), seq![]),
        },
{
    match k {
        SearchKind::Tavily => { assert(key_names(seq!["endpoint", "api_key"]) =~= seq!["endpoint"@, "api_key"@]); assert(key_names(Seq::<&str>::empty()) =~= Seq::<Seq<char>>::empty()); },
        SearchKind::Exa => { assert(key_names(seq!["endpoint", "api_key"]) =~= seq!["endpoint"@, "api_key"@]); assert(key_names(Seq::<&str>::empty()) =~= Seq::<Seq<char>>::empty()); },
        SearchKind::Brave => { assert(key_names(seq!["endpoint", "api_key"]) =~= seq!["endpoint"@, "api_key"@]); assert(key_names(Seq::<&str>::empty()) =~= Seq::<Seq<char>>::empty()); },
        SearchKind::Serper => { assert(key_names(seq!["endpoint", "api_key"]) =~= seq!["endpoint"@, "api_key"@]); assert(key_names(Seq::<&str>::empty()) =~= Seq::<Seq<char>>::empty()); },
        SearchKind::Searxng => { assert(key_names(seq!["endpoint"]) =~= seq!["endpoint"@]); assert(key_names(Seq::<&str>::empty()) =~= Seq::<Seq<char>>::empty()); },
        SearchKind::YouCom => { assert(key_names(seq!["endpoint", "api_key"]) =~= seq!["endpoint"@, "api_key"@]); assert(key_names(Seq::<&str>::empty()) =~= Seq::<Seq<char>>::empty()); },
        SearchKind::Bing => { assert(key_names(seq!["endpoint", "api_key"]) =~= seq!["endpoint"@, "api_key"@]); assert(key_names(Seq::<&str>::empty()) =~= Seq::<Seq<char>>::empty()); },
    }
}

/// The configuration members each browser kind is set up
/// from, member by member, as its client reads them.
pub proof fn law_browser_plan_settings(p: ProviderPlan<BrowserKind>, k: BrowserKind, config: Option<&JsonValue>)
    requires
        plan_matches(p, k, config, browser_keys(k), browser_optional(k)),
    ensures
        p.kind == k,
        match k {
            BrowserKind::Requests => set_up_from(p.setup, p.extras@, config, None, seq![]),
            BrowserKind::Playwright => set_up_from(p.setup, p.extras@, config, Some(seq!["endpoint"@]), seq![]),
            BrowserKind::BrightData => set_up_from(p.setup, p.extras@, config, Some(seq!["endpoint"@, "token"@]), seq!["zone"@]),
            BrowserKind::Hyperbrowser => set_up_from(p.setup, p.extras@, config, Some(seq!["endpoint"@, "api_key"@]), seq![]),
            BrowserKind::Oxylabs => set_up_from(p.setup, p.extras@, config, Some(seq!["endpoint"@, "username"@, "password"@]), seq![]),
        },
{
    match k {
        BrowserKind::Requests => { assert(key_names(Seq::<&str>::empty()) =~= Seq::<Seq<char>>::empty()); },
        BrowserKind::Playwright => { assert(key_names(seq!["endpoint"]) =~= seq!["endpoint"@]); assert(key_names(Seq::<&str>::empty()) =~= Seq::<Seq<char>>::empty()); },
        BrowserKind::BrightData => { assert(key_names(seq!["endpoint", "token"]) =~= seq!["endpoint"@, "token"@]); assert(key_names(seq!["zone"]) =~= seq!["zone"@]); },
        BrowserKind::Hyperbrowser => { assert(key_names(seq!["endpoint", "api_key"]) =~= seq!["endpoint"@, "api_key"@]); assert(key_names(Seq::<&str>::empty()) =~= Seq::<Seq<char>>::empty()); },
        BrowserKind::Oxylabs => { assert(key_names(seq!["endpoint", "username", "password"]) =~= seq!["endpoint"@, "username"@, "password"@]); assert(key_names(Seq::<&str>::empty()) =~= Seq::<Seq<char>>::empty()); },
    }
}

/// The configuration members each vector kind is set up
/// from, member by member, as its client reads them.
pub proof fn law_vector_plan_settings(p: ProviderPlan<VectorKind>, k: VectorKind, config: Option<&JsonValue>)
    requires
        plan_matches(p, k, config, vector_keys(k), vector_optional(k)),
    ensures
        p.kind == k,
        match k {
            VectorKind::Pinecone => set_up_from(p.setup, p.extras@, config, Some(seq!["host"@, "api_key"@]), seq![]),
            VectorKind::Weaviate => set_up_from(p.setup, p.extras@, config, Some(seq!["base_url"@]), seq!["api_key"@]),
            VectorKind::Qdrant => set_up_from(p.setup, p.extras@, config, Some(seq!["base_url"@]), seq!["api_key"@]),
            VectorKind::Chroma => set_up_from(p.setup, p.extras@, config, Some(seq!["base_url"@]), seq![]),
            VectorKind::Milvus => set_up_from(p.setup, p.extras@, config, Some(seq!["base_url"@]), seq!["token"@]),
            VectorKind::PgVector => set_up_from(p.setup, p.extras@, config, None, seq![]),
        },
{
    match k {
        VectorKind::Pinecone => { assert(key_names(seq!["host", "api_key"]) =~= seq!["host"@, "api_key"@]); assert(key_names(Seq::<&str>::empty()) =~= Seq::<Seq<char>>::empty()); },
        VectorKind::Weaviate => { assert(key_names(seq!["base_url"]) =~= seq!["base_url"@]); assert(key_names(seq!["api_key"]) =~= seq!["api_key"@]); },
        VectorKind::Qdrant => { assert(key_names(seq!["base_url"]) =~= seq!["base_url"@]); assert(key_names(seq!["api_key"]) =~= seq!["api_key"@]); },
        VectorKind::Chroma => { assert(key_names(seq!["base_url"]) =~= seq!["base_url"@]); assert(key_names(Seq::<&str>::empty()) =~= Seq::<Seq<char>>::empty()); },
        VectorKind::Milvus => { assert(key_names(seq!["base_url"]) =~= seq!["base_url"@]); assert(key_names(seq!["token"]) =~= seq!["token"@]); },
        VectorKind::PgVector => { assert(key_names(Seq::<&str>::empty()) =~= Seq::<Seq<char>>::empty()); },
    }
}

/// The configuration members each executor kind is set up
/// from, member by member, as its client reads them.
pub proof fn law_executor_plan_settings(p: ProviderPlan<ExecutorKind>, k: ExecutorKind, config: Option<&JsonValue>)
    requires
        plan_matches(p, k, config, executor_keys(k), seq![]),
    ensures
        p.kind == k,
        match k {
            ExecutorKind::Python => set_up_from(p.setup, p.extras@, config, None, seq![]),
            ExecutorKind::Shell => set_up_from(p.setup, p.extras@, config, None, seq![]),
            ExecutorKind::E2B => set_up_from(p.setup, p.extras@, config, Some(seq!["endpoint"@, "api_key"@]), seq![]),
            ExecutorKind::Bearly => set_up_from(p.setup, p.extras@, config, Some(seq!["endpoint"@, "api_key"@]), seq![]),
            ExecutorKind::Daytona => set_up_from(p.setup, p.extras@, config, None, seq![]),
        },
{
    match k {
        ExecutorKind::Python => { assert(key_names(Seq::<&str>::empty()) =~= Seq::<Seq<char>>::empty()); },
        ExecutorKind::Shell => { assert(key_names(Seq::<&str>::empty()) =~= Seq::<Seq<char>>::empty()); },
        ExecutorKind::E2B => { assert(key_names(seq!["endpoint", "api_key"]) =~= seq!["endpoint"@, "api_key"@]); assert(key_names(Seq::<&str>::empty()) =~= Seq::<Seq<char>>::empty()); },
        ExecutorKind::Bearly => { assert(key_names(seq!["endpoint", "api_key"]) =~= seq!["endpoint"@, "api_key"@]); assert(key_names(Seq::<&str>::empty()) =~= Seq::<Seq<char>>::empty()); },
        ExecutorKind::Daytona => { assert(key_names(Seq::<&str>::empty()) =~= Seq::<Seq<char>>::empty()); },
    }
}

/// The configuration members each file store kind is set up
/// from, member by member, as its client reads them.
pub proof fn law_file_store_plan_settings(p: ProviderPlan<FileStoreKind>, k: FileStoreKind, config: Option<&JsonValue>)
    requires
        plan_matches(p, k, config, file_store_keys(k), seq![]),
    ensures
        p.kind == k,
        match k {
            FileStoreKind::Local => set_up_from(p.setup, p.extras@, config, None, seq![]),
            FileStoreKind::GDrive => set_up_from(p.setup, p.extras@, config, Some(seq!["access_token"@]), seq![]),
        },
{
    match k {
        FileStoreKind::Local => { assert(key_names(Seq::<&str>::empty()) =~= Seq::<Seq<char>>::empty()); },
        FileStoreKind::GDrive => { assert(key_names(seq!["access_token"]) =~= seq!["access_token"@]); assert(key_names(Seq::<&str>::empty()) =~= Seq::<Seq<char>>::empty()); },
    }
}

/// The configuration members each data source kind is set up
/// from, member by member, as its client reads them.
pub proof fn law_data_source_plan_settings(p: ProviderPlan<DataSourceKind>, k: DataSourceKind, config: Option<&JsonValue>)
    requires
        plan_matches(p, k, config, data_source_keys(k), seq![]),
    ensures
        p.kind == k,
        match k {
            DataSourceKind::Json => set_up_from(p.setup, p.extras@, config, None, seq![]),
            DataSourceKind::Arxiv => set_up_from(p.setup, p.extras@, config, Some(seq!["endpoint"@]), seq![]),
            DataSourceKind::Financial => set_up_from(p.setup, p.extras@, config, Some(seq!["endpoint"@, "api_key"@]), seq![]),
        },
{
    match k {
        DataSourceKind::Json => { assert(key_names(Seq::<&str>::empty()) =~= Seq::<Seq<char>>::empty()); },
        DataSourceKind::Arxiv => { assert(key_names(seq!["endpoint"]) =~= seq!["endpoint"@]); assert(key_names(Seq::<&str>::empty()) =~= Seq::<Seq<char>>::empty()); },
        DataSourceKind::Financial => { assert(key_names(seq!["endpoint", "api_key"]) =~= seq!["endpoint"@, "api_key"@]); assert(key_names(Seq::<&str>::empty()) =~= Seq::<Seq<char>>::empty()); },
    }
}

/// The configuration members each email kind is set up
/// from, member by member, as its client reads them.
pub proof fn law_email_plan_settings(p: ProviderPlan<EmailKind>, k: EmailKind, config: Option<&JsonValue>)
    requires
        plan_matches(p, k, config, Some(email_keys(k)), seq![]),
    ensures
        p.kind == k,
        match k {
            EmailKind::Gmail => set_up_from(p.setup, p.extras@, config, Some(seq!["base_url"@, "access_token"@]), seq![]),
            EmailKind::Office365 => set_up_from(p.setup, p.extras@, config, Some(seq!["base_url"@, "access_token"@]), seq![]),
        },
{
    match k {
        EmailKind::Gmail => { assert(key_names(seq!["base_url", "access_token"]) =~= seq!["base_url"@, "access_token"@]); assert(key_names(Seq::<&str>::empty()) =~= Seq::<Seq<char>>::empty()); },
        EmailKind::Office365 => { assert(key_names(seq!["base_url", "access_token"]) =~= seq!["base_url"@, "access_token"@]); assert(key_names(Seq::<&str>::empty()) =~= Seq::<Seq<char>>::empty()); },
    }
}

/// The configuration members each calendar kind is set up
/// from, member by member, as its client reads them.
pub proof fn law_calendar_plan_settings(p: ProviderPlan<CalendarKind>, k: CalendarKind, config: Option<&JsonValue>)
    requires
        plan_matches(p, k, config, Some(calendar_keys(k)), seq![]),
    ensures
        p.kind == k,
        match k {
            CalendarKind::GCalendar => set_up_from(p.setup, p.extras@, config, Some(seq!["base_url"@, "access_token"@]), seq![]),
            CalendarKind::Office365 => set_up_from(p.setup, p.extras@, config, Some(seq!["base_url"@, "access_token"@]), seq![]),
        },
{
    match k {
        CalendarKind::GCalendar => { assert(key_names(seq!["base_url", "access_token"]) =~= seq!["base_url"@, "access_token"@]); assert(key_names(Seq::<&str>::empty()) =~= Seq::<Seq<char>>::empty()); },
        CalendarKind::Office365 => { assert(key_names(seq!["base_url", "access_token"]) =~= seq!["base_url"@, "access_token"@]); assert(key_names(Seq::<&str>::empty()) =~= Seq::<Seq<char>>::empty()); },
    }
}

/// The configuration members each tracker kind is set up
/// from, member by member, as its client reads them.
pub proof fn law_tracker_plan_settings(p: ProviderPlan<TrackerKind>, k: TrackerKind, config: Option<&JsonValue>)
    requires
        plan_matches(p, k, config, Some(tracker_keys(k)), seq![]),
    ensures
        p.kind == k,
        match k {
            TrackerKind::Jira => set_up_from(p.setup, p.extras@, config, Some(seq!["base_url"@, "auth_header"@]), seq![]),
            TrackerKind::GitHub => set_up_from(p.setup, p.extras@, config, Some(seq!["base_url"@, "token"@, "owner"@, "repo"@]), seq![]),
            TrackerKind::Trello => set_up_from(p.setup, p.extras@, config, Some(seq!["base_url"@, "api_key"@, "token"@, "list_id"@]), seq![]),
            TrackerKind::ClickUp => set_up_from(p.setup, p.extras@, config, Some(seq!["base_url"@, "api_key"@, "list_id"@]), seq![]),
        },
{
    match k {
        TrackerKind::Jira => { assert(key_names(seq!["base_url", "auth_header"]) =~= seq!["base_url"@, "auth_header"@]); assert(key_names(Seq::<&str>::empty()) =~= Seq::<Seq<char>>::empty()); },
        TrackerKind::GitHub => { assert(key_names(seq!["base_url", "token", "owner", "repo"]) =~= seq!["base_url"@, "token"@, "owner"@, "repo"@]); assert(key_names(Seq::<&str>::empty()) =~= Seq::<Seq<char>>::empty()); },
        TrackerKind::Trello => { assert(key_names(seq!["base_url", "api_key", "token", "list_id"]) =~= seq!["base_url"@, "api_key"@, "token"@, "list_id"@]); assert(key_names(Seq::<&str>::empty()) =~= Seq::<Seq<char>>::empty()); },
        TrackerKind::ClickUp => { assert(key_names(seq!["base_url", "api_key", "list_id"]) =~= seq!["base_url"@, "api_key"@, "list_id"@]); assert(key_names(Seq::<&str>::empty()) =~= Seq::<Seq<char>>::empty()); },
    }
}

/// The configuration members each knowledge kind is set up
/// from, member by member, as its client reads them.
pub proof fn law_knowledge_plan_settings(p: ProviderPlan<KnowledgeKind>, k: KnowledgeKind, config: Option<&JsonValue>)
    requires
        plan_matches(p, k, config, Some(knowledge_keys(k)), seq![]),
    ensures
        p.kind == k,
        match k {
            KnowledgeKind::Notion => set_up_from(p.setup, p.extras@, config, Some(seq!["base_url"@, "api_key"@, "database_id"@]), seq![]),
        },
{
    match k {
        KnowledgeKind::Notion => { assert(key_names(seq!["base_url", "api_key", "database_id"]) =~= seq!["base_url"@, "api_key"@, "database_id"@]); assert(key_names(Seq::<&str>::empty()) =~= Seq::<Seq<char>>::empty()); },
    }
}

/// The configuration members each team messenger kind is set up
/// from, member by member, as its client reads them.
pub proof fn law_team_messenger_plan_settings(p: ProviderPlan<TeamMessengerKind>, k: TeamMessengerKind, config: Option<&JsonValue>)
    requires
        plan_matches(p, k, config, Some(team_messenger_keys(k)), seq![]),
    ensures
        p.kind == k,
        match k {
            TeamMessengerKind::Slack => set_up_from(p.setup, p.extras@, config, Some(seq!["base_url"@, "bot_token"@]), seq![]),
        },
{
    match k {
        TeamMessengerKind::Slack => { assert(key_names(seq!["base_url", "bot_token"]) =~= seq!["base_url"@, "bot_token"@]); assert(key_names(Seq::<&str>::empty()) =~= Seq::<Seq<char>>::empty()); },
    }
}


/// The configuration members each messaging channel's sender is set up
/// from: Twilio's account, token and sender number for SMS and WhatsApp,
/// a base URL and bot token for Telegram and Discord, and a base URL and
/// page token (`page_token`, else `page_access_token`) for Facebook and
/// Messenger.
pub proof fn law_sender_plan_settings(p: ProviderPlan<ChannelKind>, k: ChannelKind, config: Option<&JsonValue>)
    requires
        sender_matches(p, k, config),
    ensures
        p.kind == k,
        match k {
            ChannelKind::Sms | ChannelKind::WhatsApp => set_up_from(
                p.setup,
                p.extras@,
                config,
                Some(seq!["account_sid"@, "auth_token"@, "from"@]),
                seq![],
            ),
            ChannelKind::Telegram | ChannelKind::Discord => set_up_from(
                p.setup,
                p.extras@,
                config,
                Some(seq!["base_url"@, "bot_token"@]),
                seq![],
            ),
            ChannelKind::Facebook | ChannelKind::Messenger => {
                let token = match config_str(config, "page_token"@) {
                    Some(t) => Some(t),
                    None => config_str(config, "page_access_token"@),
                };
                &&& p.extras@.len() == 0
                &&& match (config_str(config, "base_url"@), token) {
                    (Some(base), Some(tk)) => p.setup matches Setup::Configured(v) && names_of(v@)
                        == seq![base, tk],
                    _ => p.setup is Default,
                }
            },
        },
{
    assert(key_names(seq!["account_sid", "auth_token", "from"]) =~= seq![
        "account_sid"@,
        "auth_token"@,
        "from"@,
    ]);
    assert(key_names(seq!["base_url", "bot_token"]) =~= seq!["base_url"@, "bot_token"@]);
    assert(key_names(Seq::<&str>::empty()) =~= Seq::<Seq<char>>::empty());
}

} // verus!
