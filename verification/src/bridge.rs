//! The JSON bridge that the Python, TypeScript and Dart bindings call:
//! prompt rendering and state normalisation on JSON values, the catalog
//! of crate bindings, and the routing of generic crate invocations.

use vstd::prelude::*;
use crate::json::{
    JsonValue, json_string_literal, json_text, member_lookup, object_get, to_json_text,
};
use crate::prompt::{
    BeaconError, BeaconFault, PromptBuilder, PromptOrchestrator, beacon_message, names_of,
    render_spec, sanitize, template_variables,
};

verus! {

// ---------------------------------------------------------------------
// Errors
// ---------------------------------------------------------------------

/// Errors of the bridge entry points.
#[derive(Debug, Clone, PartialEq, Eq)]
pub enum BridgeError {
    InvalidInput(String),
    InvalidJson(String),
    UnsupportedCrate(String),
    UnsupportedOperation { crate_name: String, operation: String },
    Invocation { crate_name: String, operation: String, reason: String },
    InvalidState,
    Prompt(String),
}

/// What a [`BridgeError`] holds, as character sequences.
pub enum BridgeFault {
    InvalidInput(Seq<char>),
    InvalidJson(Seq<char>),
    UnsupportedCrate(Seq<char>),
    UnsupportedOperation { crate_name: Seq<char>, operation: Seq<char> },
    Invocation { crate_name: Seq<char>, operation: Seq<char>, reason: Seq<char> },
    InvalidState,
    Prompt(Seq<char>),
}

impl View for BridgeError {
    type V = BridgeFault;

    open spec fn view(&self) -> BridgeFault {
        match self {
            BridgeError::InvalidInput(m) => BridgeFault::InvalidInput(m@),
            BridgeError::InvalidJson(m) => BridgeFault::InvalidJson(m@),
            BridgeError::UnsupportedCrate(m) => BridgeFault::UnsupportedCrate(m@),
            BridgeError::UnsupportedOperation { crate_name, operation } => {
                BridgeFault::UnsupportedOperation { crate_name: crate_name@, operation: operation@ }
            },
            BridgeError::Invocation { crate_name, operation, reason } => BridgeFault::Invocation {
                crate_name: crate_name@,
                operation: operation@,
                reason: reason@,
            },
            BridgeError::InvalidState => BridgeFault::InvalidState,
            BridgeError::Prompt(m) => BridgeFault::Prompt(m@),
        }
    }
}

/// The human-readable message of a bridge error.
pub open spec fn bridge_message(e: BridgeFault) -> Seq<char> {
    match e {
        BridgeFault::InvalidInput(m) => "invalid bridge input: "@ + m,
        BridgeFault::InvalidJson(m) => "invalid JSON payload: "@ + m,
        BridgeFault::UnsupportedCrate(m) => "unsupported crate binding: "@ + m,
        BridgeFault::UnsupportedOperation { crate_name, operation } => "unsupported operation `"@
            + operation + "` for crate `"@ + crate_name + "`"@,
        BridgeFault::Invocation { crate_name, operation, reason } =>
            "bridge invocation failed for `"@ + crate_name + "` / `"@ + operation + "`: "@
            + reason,
        BridgeFault::InvalidState => "state must serialize to a JSON object"@,
        BridgeFault::Prompt(m) => "prompt render failed: "@ + m,
    }
}

fn concat2(a: &str, b: &str) -> (r: String)
    ensures
        r@ == a@ + b@,
{
    let mut r = String::from_str(a);
    r.append(b);
    r
}

impl BridgeError {
    /// The error's message text.
    pub fn message(&self) -> (r: String)
        ensures
            r@ == bridge_message(self@),
    {
        match self {
            BridgeError::InvalidInput(m) => concat2("invalid bridge input: ", m.as_str()),
            BridgeError::InvalidJson(m) => concat2("invalid JSON payload: ", m.as_str()),
            BridgeError::UnsupportedCrate(m) => concat2("unsupported crate binding: ", m.as_str()),
            BridgeError::UnsupportedOperation { crate_name, operation } => {
                let mut r = String::from_str("unsupported operation `");
                r.append(operation.as_str());
                r.append("` for crate `");
                r.append(crate_name.as_str());
                r.append("`");
                r
            },
            BridgeError::Invocation { crate_name, operation, reason } => {
                let mut r = String::from_str("bridge invocation failed for `");
                r.append(crate_name.as_str());
                r.append("` / `");
                r.append(operation.as_str());
                r.append("`: ");
                r.append(reason.as_str());
                r
            },
            BridgeError::InvalidState => String::from_str("state must serialize to a JSON object"),
            BridgeError::Prompt(m) => concat2("prompt render failed: ", m.as_str()),
        }
    }
}

/// The error for a call that an invoked crate refused.
pub fn invocation(crate_name: &str, operation: &str, reason: &str) -> (e: BridgeError)
    ensures
        e@ == (BridgeFault::Invocation {
            crate_name: crate_name@,
            operation: operation@,
            reason: reason@,
        }),
{
    BridgeError::Invocation {
        crate_name: String::from_str(crate_name),
        operation: String::from_str(operation),
        reason: String::from_str(reason),
    }
}

/// The error for an operation that a crate binding does not offer.
pub fn unsupported(crate_name: &str, operation: &str) -> (e: BridgeError)
    ensures
        e@ == (BridgeFault::UnsupportedOperation { crate_name: crate_name@, operation: operation@ }),
{
    BridgeError::UnsupportedOperation {
        crate_name: String::from_str(crate_name),
        operation: String::from_str(operation),
    }
}

/// The error for a provider that a crate binding does not know.
pub fn unsupported_provider(crate_name: &str, provider: &str) -> (e: BridgeError)
    ensures
        e@ == BridgeFault::InvalidInput(
            "unsupported provider `"@ + provider@ + "` for `"@ + crate_name@ + "`"@,
        ),
{
    let mut m = String::from_str("unsupported provider `");
    m.append(provider);
    m.append("` for `");
    m.append(crate_name);
    m.append("`");
    BridgeError::InvalidInput(m)
}

// ---------------------------------------------------------------------
// The catalog of crate bindings
// ---------------------------------------------------------------------

/// One crate exposed through the bridge: how it is bound and which
/// operations it offers.
#[derive(Debug, Clone, PartialEq, Eq)]
pub struct CrateBinding {
    pub crate_name: String,
    pub binding_mode: String,
    pub description: String,
    pub operations: Vec<String>,
}

/// What a [`CrateBinding`] holds, as character sequences.
#[verifier::ext_equal]
pub struct BindingSpec {
    pub crate_name: Seq<char>,
    pub binding_mode: Seq<char>,
    pub description: Seq<char>,
    pub operations: Seq<Seq<char>>,
}

impl View for CrateBinding {
    type V = BindingSpec;

    open spec fn view(&self) -> BindingSpec {
        BindingSpec {
            crate_name: self.crate_name@,
            binding_mode: self.binding_mode@,
            description: self.description@,
            operations: names_of(self.operations@),
        }
    }
}

/// The views of a list of bindings.
pub open spec fn bindings_of(v: Seq<CrateBinding>) -> Seq<BindingSpec> {
    v.map_values(|b: CrateBinding| b@)
}

/// Every crate the bridge knows of, in catalog order.
pub open spec fn catalog() -> Seq<BindingSpec> {
    seq![
        BindingSpec {
            crate_name: "or-core"@,
            binding_mode: "native"@,
            description: "Core orchestration utilities for token budgets and retry planning."@,
            operations: seq!["enforce_completion_budget"@, "next_retry_delay"@],
        },
        BindingSpec {
            crate_name: "or-beacon"@,
            binding_mode: "mixed"@,
            description: "Prompt construction and rendering. Bindings also expose local PromptBuilder helpers."@,
            operations: seq!["render_template"@],
        },
        BindingSpec {
            crate_name: "or-bridge"@,
            binding_mode: "native"@,
            description: "Native JSON bridge entry points for prompt rendering, state normalization, and crate invocation."@,
            operations: seq!["render_prompt_json"@, "normalize_state_json"@],
        },
        BindingSpec {
            crate_name: "or-checkpoint"@,
            binding_mode: "language-runtime"@,
            description: "Checkpoint/pause-resume semantics are exposed through binding-local workflow helpers."@,
            operations: seq!["pause"@, "resume"@],
        },
        BindingSpec {
            crate_name: "or-colony"@,
            binding_mode: "language-runtime"@,
            description: "Multi-agent colony coordination is exposed through binding-local workflow helpers."@,
            operations: seq!["coordinate"@],
        },
        BindingSpec {
            crate_name: "or-compass"@,
            binding_mode: "language-runtime"@,
            description: "Route selection is exposed through binding-local workflow helpers."@,
            operations: seq!["select_route"@],
        },
        BindingSpec {
            crate_name: "or-conduit"@,
            binding_mode: "mixed"@,
            description: "LLM request preparation plus binding-local provider clients."@,
            operations: seq!["prepare_text_request"@],
        },
        BindingSpec {
            crate_name: "or-forge"@,
            binding_mode: "language-runtime"@,
            description: "Tool registry and MCP import flows are exposed through binding-local helpers."@,
            operations: seq!["register"@, "import_from_mcp"@, "invoke"@],
        },
        BindingSpec {
            crate_name: "or-loom"@,
            binding_mode: "language-runtime"@,
            description: "Execution-graph building is exposed through binding-local GraphBuilder APIs."@,
            operations: seq!["execute_graph"@, "resume_graph"@],
        },
        BindingSpec {
            crate_name: "or-mcp"@,
            binding_mode: "language-runtime"@,
            description: "MCP client helpers are exposed directly in the language bindings."@,
            operations: seq!["connect_http"@, "list_tools"@, "invoke_tool"@],
        },
        BindingSpec {
            crate_name: "or-pipeline"@,
            binding_mode: "language-runtime"@,
            description: "Pipeline composition is exposed through binding-local workflow helpers."@,
            operations: seq!["execute_pipeline"@],
        },
        BindingSpec {
            crate_name: "or-prism"@,
            binding_mode: "native"@,
            description: "Tracing subscriber setup through the Rust Prism crate."@,
            operations: seq!["install_global_subscriber"@],
        },
        BindingSpec {
            crate_name: "or-recall"@,
            binding_mode: "language-runtime"@,
            description: "In-memory recall helpers are provided in the bindings."@,
            operations: seq!["remember"@, "recall"@],
        },
        BindingSpec {
            crate_name: "or-relay"@,
            binding_mode: "language-runtime"@,
            description: "Parallel branch execution is exposed through binding-local workflow helpers."@,
            operations: seq!["execute_parallel"@],
        },
        BindingSpec {
            crate_name: "or-sentinel"@,
            binding_mode: "language-runtime"@,
            description: "Agent planning/execution helpers are exposed through binding-local workflow helpers."@,
            operations: seq!["run_agent"@],
        },
        BindingSpec {
            crate_name: "or-sieve"@,
            binding_mode: "mixed"@,
            description: "Structured/text parsing via the Rust crate plus language-local convenience helpers."@,
            operations: seq!["parse_text"@],
        },
        BindingSpec {
            crate_name: "or-tools-core"@,
            binding_mode: "language-runtime"@,
            description: "Tool registry and dispatcher helpers are exposed directly in the language bindings."@,
            operations: seq!["register"@, "invoke"@, "dispatch"@],
        },
        BindingSpec {
            crate_name: "or-tools-search"@,
            binding_mode: "native"@,
            description: "Search providers routed through the Rust tool crate."@,
            operations: seq!["search"@],
        },
        BindingSpec {
            crate_name: "or-tools-web"@,
            binding_mode: "native"@,
            description: "Web fetch and scraping providers routed through the Rust tool crate."@,
            operations: seq!["fetch"@, "scrape"@],
        },
        BindingSpec {
            crate_name: "or-tools-vector"@,
            binding_mode: "native"@,
            description: "Vector store operations routed through the Rust tool crate."@,
            operations: seq!["ensure_collection"@, "upsert"@, "delete"@, "query"@],
        },
        BindingSpec {
            crate_name: "or-tools-loaders"@,
            binding_mode: "native"@,
            description: "Document loading and chunking routed through the Rust tool crate."@,
            operations: seq!["load"@],
        },
        BindingSpec {
            crate_name: "or-tools-exec"@,
            binding_mode: "native"@,
            description: "Local and remote execution providers routed through the Rust tool crate."@,
            operations: seq!["execute"@],
        },
        BindingSpec {
            crate_name: "or-tools-file"@,
            binding_mode: "native"@,
            description: "Filesystem and external file/data sources routed through the Rust tool crate."@,
            operations: seq!["read"@, "write"@, "list"@, "delete"@, "fetch"@],
        },
        BindingSpec {
            crate_name: "or-tools-comms"@,
            binding_mode: "native"@,
            description: "Outbound messaging providers routed through the Rust tool crate."@,
            operations: seq!["send"@],
        },
        BindingSpec {
            crate_name: "or-tools-productivity"@,
            binding_mode: "native"@,
            description: "Productivity providers routed through the Rust tool crate."@,
            operations: seq!["list_emails"@, "send_email"@, "list_events"@, "create_event"@, "list_issues"@, "create_issue"@, "search_pages"@, "create_page"@, "post_message"@, "search_messages"@],
        },
    ]
}

/// Comma-separated JSON string literals.
pub open spec fn strings_text(items: Seq<Seq<char>>) -> Seq<char>
    decreases items.len(),
{
    if items.len() == 0 {
        seq![]
    } else if items.len() == 1 {
        json_string_literal(items[0])
    } else {
        strings_text(items.drop_last()) + seq![','] + json_string_literal(items.last())
    }
}

/// JSON text of one binding, its fields in declaration order.
pub open spec fn binding_text(b: BindingSpec) -> Seq<char> {
    seq!['{'] + json_string_literal("crate_name"@) + seq![':'] + json_string_literal(b.crate_name)
        + seq![','] + json_string_literal("binding_mode"@) + seq![':'] + json_string_literal(
        b.binding_mode,
    ) + seq![','] + json_string_literal("description"@) + seq![':'] + json_string_literal(
        b.description,
    ) + seq![','] + json_string_literal("operations"@) + seq![':', '['] + strings_text(
        b.operations,
    ) + seq![']', '}']
}

/// Comma-separated binding texts.
pub open spec fn bindings_text(bs: Seq<BindingSpec>) -> Seq<char>
    decreases bs.len(),
{
    if bs.len() == 0 {
        seq![]
    } else if bs.len() == 1 {
        binding_text(bs[0])
    } else {
        bindings_text(bs.drop_last()) + seq![','] + binding_text(bs.last())
    }
}

/// JSON text of the whole catalog: an array of bindings.
pub open spec fn catalog_text() -> Seq<char> {
    seq!['['] + bindings_text(catalog()) + seq![']']
}

fn binding(crate_name: &str, binding_mode: &str, description: &str, operations: Vec<String>) -> (b:
    CrateBinding)
    ensures
        b@ == (BindingSpec {
            crate_name: crate_name@,
            binding_mode: binding_mode@,
            description: description@,
            operations: names_of(operations@),
        }),
{
    CrateBinding {
        crate_name: String::from_str(crate_name),
        binding_mode: String::from_str(binding_mode),
        description: String::from_str(description),
        operations,
    }
}

/// The bindings of the catalog.
#[verifier::rlimit(50)]
pub fn crate_bindings() -> (r: Vec<CrateBinding>)
    ensures
        bindings_of(r@) == catalog(),
{
    let r = vec![
        binding(
            "or-core",
            "native",
            "Core orchestration utilities for token budgets and retry planning.",
            vec![String::from_str("enforce_completion_budget"), String::from_str("next_retry_delay")],
        ),
        binding(
            "or-beacon",
            "mixed",
            "Prompt construction and rendering. Bindings also expose local PromptBuilder helpers.",
            vec![String::from_str("render_template")],
        ),
        binding(
            "or-bridge",
            "native",
            "Native JSON bridge entry points for prompt rendering, state normalization, and crate invocation.",
            vec![String::from_str("render_prompt_json"), String::from_str("normalize_state_json")],
        ),
        binding(
            "or-checkpoint",
            "language-runtime",
            "Checkpoint/pause-resume semantics are exposed through binding-local workflow helpers.",
            vec![String::from_str("pause"), String::from_str("resume")],
        ),
        binding(
            "or-colony",
            "language-runtime",
            "Multi-agent colony coordination is exposed through binding-local workflow helpers.",
            vec![String::from_str("coordinate")],
        ),
        binding(
            "or-compass",
            "language-runtime",
            "Route selection is exposed through binding-local workflow helpers.",
            vec![String::from_str("select_route")],
        ),
        binding(
            "or-conduit",
            "mixed",
            "LLM request preparation plus binding-local provider clients.",
            vec![String::from_str("prepare_text_request")],
        ),
        binding(
            "or-forge",
            "language-runtime",
            "Tool registry and MCP import flows are exposed through binding-local helpers.",
            vec![String::from_str("register"), String::from_str("import_from_mcp"), String::from_str("invoke")],
        ),
        binding(
            "or-loom",
            "language-runtime",
            "Execution-graph building is exposed through binding-local GraphBuilder APIs.",
            vec![String::from_str("execute_graph"), String::from_str("resume_graph")],
        ),
        binding(
            "or-mcp",
            "language-runtime",
            "MCP client helpers are exposed directly in the language bindings.",
            vec![String::from_str("connect_http"), String::from_str("list_tools"), String::from_str("invoke_tool")],
        ),
        binding(
            "or-pipeline",
            "language-runtime",
            "Pipeline composition is exposed through binding-local workflow helpers.",
            vec![String::from_str("execute_pipeline")],
        ),
        binding(
            "or-prism",
            "native",
            "Tracing subscriber setup through the Rust Prism crate.",
            vec![String::from_str("install_global_subscriber")],
        ),
        binding(
            "or-recall",
            "language-runtime",
            "In-memory recall helpers are provided in the bindings.",
            vec![String::from_str("remember"), String::from_str("recall")],
        ),
        binding(
            "or-relay",
            "language-runtime",
            "Parallel branch execution is exposed through binding-local workflow helpers.",
            vec![String::from_str("execute_parallel")],
        ),
        binding(
            "or-sentinel",
            "language-runtime",
            "Agent planning/execution helpers are exposed through binding-local workflow helpers.",
            vec![String::from_str("run_agent")],
        ),
        binding(
            "or-sieve",
            "mixed",
            "Structured/text parsing via the Rust crate plus language-local convenience helpers.",
            vec![String::from_str("parse_text")],
        ),
        binding(
            "or-tools-core",
            "language-runtime",
            "Tool registry and dispatcher helpers are exposed directly in the language bindings.",
            vec![String::from_str("register"), String::from_str("invoke"), String::from_str("dispatch")],
        ),
        binding(
            "or-tools-search",
            "native",
            "Search providers routed through the Rust tool crate.",
            vec![String::from_str("search")],
        ),
        binding(
            "or-tools-web",
            "native",
            "Web fetch and scraping providers routed through the Rust tool crate.",
            vec![String::from_str("fetch"), String::from_str("scrape")],
        ),
        binding(
            "or-tools-vector",
            "native",
            "Vector store operations routed through the Rust tool crate.",
            vec![String::from_str("ensure_collection"), String::from_str("upsert"), String::from_str("delete"), String::from_str("query")],
        ),
        binding(
            "or-tools-loaders",
            "native",
            "Document loading and chunking routed through the Rust tool crate.",
            vec![String::from_str("load")],
        ),
        binding(
            "or-tools-exec",
            "native",
            "Local and remote execution providers routed through the Rust tool crate.",
            vec![String::from_str("execute")],
        ),
        binding(
            "or-tools-file",
            "native",
            "Filesystem and external file/data sources routed through the Rust tool crate.",
            vec![String::from_str("read"), String::from_str("write"), String::from_str("list"), String::from_str("delete"), String::from_str("fetch")],
        ),
        binding(
            "or-tools-comms",
            "native",
            "Outbound messaging providers routed through the Rust tool crate.",
            vec![String::from_str("send")],
        ),
        binding(
            "or-tools-productivity",
            "native",
            "Productivity providers routed through the Rust tool crate.",
            vec![String::from_str("list_emails"), String::from_str("send_email"), String::from_str("list_events"), String::from_str("create_event"), String::from_str("list_issues"), String::from_str("create_issue"), String::from_str("search_pages"), String::from_str("create_page"), String::from_str("post_message"), String::from_str("search_messages")],
        ),
    ];
    assert(bindings_of(r@) =~~= catalog());
    r
}

fn quoted(s: &str) -> (r: String)
    ensures
        r@ == json_string_literal(s@),
{
    to_json_text(&JsonValue::Str(String::from_str(s)))
}

fn strings_json(items: &Vec<String>) -> (r: String)
    ensures
        r@ == strings_text(names_of(items@)),
{
    let ghost v = names_of(items@);
    let mut out = String::new();
    let mut i: usize = 0;
    while i < items.len()
        invariant
            i <= items@.len(),
            v == names_of(items@),
            out@ == strings_text(v.take(i as int)),
        decreases items@.len() - i,
    {
        let q = quoted(items[i].as_str());
        if i > 0 {
            out.append(",");
        }
        out.append(q.as_str());
        proof {
            reveal_strlit(",");
            let next = v.take(i + 1);
            assert(next.drop_last() =~= v.take(i as int));
            assert(next.last() == items@[i as int]@);
            if i == 0 {
                assert(next[0] == items@[0]@);
                assert(v.take(0) =~= seq![]);
            }
            assert(out@ =~= strings_text(next));
        }
        i = i + 1;
    }
    proof {
        assert(v.take(i as int) =~= v);
    }
    out
}

fn binding_json(b: &CrateBinding) -> (r: String)
    ensures
        r@ == binding_text(b@),
{
    let mut out = String::from_str("{");
    out.append(quoted("crate_name").as_str());
    out.append(":");
    out.append(quoted(b.crate_name.as_str()).as_str());
    out.append(",");
    out.append(quoted("binding_mode").as_str());
    out.append(":");
    out.append(quoted(b.binding_mode.as_str()).as_str());
    out.append(",");
    out.append(quoted("description").as_str());
    out.append(":");
    out.append(quoted(b.description.as_str()).as_str());
    out.append(",");
    out.append(quoted("operations").as_str());
    out.append(":[");
    out.append(strings_json(&b.operations).as_str());
    out.append("]}");
    proof {
        reveal_strlit("{");
        reveal_strlit(":");
        reveal_strlit(",");
        reveal_strlit(":[");
        reveal_strlit("]}");
        assert(out@ =~= binding_text(b@));
    }
    out
}

/// JSON text of a list of bindings.
pub fn bindings_json(bindings: &Vec<CrateBinding>) -> (r: String)
    ensures
        r@ == seq!['['] + bindings_text(bindings_of(bindings@)) + seq![']'],
{
    let ghost v = bindings_of(bindings@);
    let mut out = String::from_str("[");
    let mut i: usize = 0;
    proof {
        reveal_strlit("[");
    }
    while i < bindings.len()
        invariant
            i <= bindings@.len(),
            v == bindings_of(bindings@),
            out@ == seq!['['] + bindings_text(v.take(i as int)),
        decreases bindings@.len() - i,
    {
        let t = binding_json(&bindings[i]);
        if i > 0 {
            out.append(",");
        }
        out.append(t.as_str());
        proof {
            reveal_strlit(",");
            let next = v.take(i + 1);
            assert(next.drop_last() =~= v.take(i as int));
            assert(next.last() == bindings@[i as int]@);
            if i == 0 {
                assert(next[0] == bindings@[0]@);
                assert(v.take(0) =~= seq![]);
            }
            assert(out@ =~= seq!['['] + bindings_text(next));
        }
        i = i + 1;
    }
    proof {
        assert(v.take(i as int) =~= v);
        reveal_strlit("]");
    }
    out.append("]");
    out
}

/// The catalog of crate bindings as JSON text.
pub fn workspace_catalog_json() -> (r: Result<String, BridgeError>)
    ensures
        r matches Ok(t) && t@ == catalog_text(),
{
    let bindings = crate_bindings();
    Ok(bindings_json(&bindings))
}

} // verus!

verus! {

// ---------------------------------------------------------------------
// Prompt rendering and state normalisation
// ---------------------------------------------------------------------

/// Rendering raw template text against the members of a JSON object:
/// template and rendering errors are reported as prompt errors with the
/// template error's message.
pub open spec fn render_prompt_members(template: Seq<char>, members: Seq<(String, JsonValue)>) -> Result<
    Seq<char>,
    BridgeFault,
> {
    match template_variables(sanitize(template)) {
        Err(e) => Err(BridgeFault::Prompt(beacon_message(e))),
        Ok(vars) => match crate::prompt::render_with(sanitize(template), vars, members) {
            Ok(t) => Ok(t),
            Err(e) => Err(BridgeFault::Prompt(beacon_message(e))),
        },
    }
}

/// Rendering raw template text against a JSON context, which must be an
/// object.
pub open spec fn render_prompt_spec(template: Seq<char>, context: JsonValue) -> Result<
    Seq<char>,
    BridgeFault,
> {
    match context {
        JsonValue::Object(members) => render_prompt_members(template, members@),
        _ => Err(BridgeFault::InvalidState),
    }
}

/// Normalising a JSON state: an object is written back as compact JSON
/// text; anything else is not a state.
pub open spec fn normalize_spec(state: JsonValue) -> Result<Seq<char>, BridgeFault> {
    match state {
        JsonValue::Object(_) => Ok(json_text(state)),
        _ => Err(BridgeFault::InvalidState),
    }
}

/// The members of a JSON state, which must be an object.
pub fn dyn_state_from_json(value: &JsonValue) -> (r: Result<&Vec<(String, JsonValue)>, BridgeError>)
    ensures
        match *value {
            JsonValue::Object(members) => r matches Ok(m) && *m == members,
            _ => r matches Err(e) && e@ == BridgeFault::InvalidState,
        },
{
    match value {
        JsonValue::Object(members) => Ok(members),
        _ => Err(BridgeError::InvalidState),
    }
}

/// Renders template text against a JSON object context.
pub fn render(template: &str, context: &JsonValue) -> (r: Result<String, BridgeError>)
    ensures
        match render_prompt_spec(template@, *context) {
            Ok(t) => r matches Ok(s) && s@ == t,
            Err(e) => r matches Err(err) && err@ == e,
        },
{
    let _members = dyn_state_from_json(context)?;
    let built = match PromptBuilder::new().template(template).build() {
        Ok(built) => built,
        Err(e) => {
            return Err(BridgeError::Prompt(e.message()));
        },
    };
    match built.render(context) {
        Ok(text) => Ok(text),
        Err(e) => Err(BridgeError::Prompt(e.message())),
    }
}

/// Writes a JSON object state back as compact JSON text.
pub fn normalize(raw_state: &JsonValue) -> (r: Result<String, BridgeError>)
    ensures
        match normalize_spec(*raw_state) {
            Ok(t) => r matches Ok(s) && s@ == t,
            Err(e) => r matches Err(err) && err@ == e,
        },
{
    let _members = dyn_state_from_json(raw_state)?;
    Ok(to_json_text(raw_state))
}

/// Renders a prompt template against a JSON context (bridge entry point).
pub fn render_prompt_json(template: &str, context: &JsonValue) -> (r: Result<String, BridgeError>)
    ensures
        match render_prompt_spec(template@, *context) {
            Ok(t) => r matches Ok(s) && s@ == t,
            Err(e) => r matches Err(err) && err@ == e,
        },
{
    render(template, context)
}

/// Normalises a JSON state (bridge entry point).
pub fn normalize_state_json(raw_state: &JsonValue) -> (r: Result<String, BridgeError>)
    ensures
        match normalize_spec(*raw_state) {
            Ok(t) => r matches Ok(s) && s@ == t,
            Err(e) => r matches Err(err) && err@ == e,
        },
{
    normalize(raw_state)
}

// ---------------------------------------------------------------------
// Generic crate invocation
// ---------------------------------------------------------------------

/// Crates whose bridge operations run in their own tool crates.
#[derive(Debug, Clone, Copy, PartialEq, Eq)]
pub enum ToolCrate {
    Core,
    Conduit,
    Prism,
    Sieve,
    Search,
    Web,
    Vector,
    Loaders,
    Exec,
    File,
    Comms,
    Productivity,
}

/// The tool crate a crate name denotes, if any.
pub open spec fn tool_crate(name: Seq<char>) -> Option<ToolCrate> {
    if name == "or-core"@ {
        Some(ToolCrate::Core)
    } else if name == "or-conduit"@ {
        Some(ToolCrate::Conduit)
    } else if name == "or-prism"@ {
        Some(ToolCrate::Prism)
    } else if name == "or-sieve"@ {
        Some(ToolCrate::Sieve)
    } else if name == "or-tools-search"@ {
        Some(ToolCrate::Search)
    } else if name == "or-tools-web"@ {
        Some(ToolCrate::Web)
    } else if name == "or-tools-vector"@ {
        Some(ToolCrate::Vector)
    } else if name == "or-tools-loaders"@ {
        Some(ToolCrate::Loaders)
    } else if name == "or-tools-exec"@ {
        Some(ToolCrate::Exec)
    } else if name == "or-tools-file"@ {
        Some(ToolCrate::File)
    } else if name == "or-tools-comms"@ {
        Some(ToolCrate::Comms)
    } else if name == "or-tools-productivity"@ {
        Some(ToolCrate::Productivity)
    } else {
        None
    }
}

/// What a generic invocation came to: the JSON text of its reply or its
/// error, or the tool crate that carries the operation out.
#[derive(Debug, PartialEq)]
pub enum InvokeOutcome {
    Done(Result<String, BridgeError>),
    Delegated(ToolCrate),
}

/// The value of member `key` of a payload, if it is an object having one.
pub open spec fn payload_field(payload: JsonValue, key: Seq<char>) -> Option<JsonValue> {
    match payload {
        JsonValue::Object(members) => member_lookup(members@, key),
        _ => None,
    }
}

/// The text of string member `key` of a payload.
pub open spec fn field_str(payload: JsonValue, key: Seq<char>) -> Option<Seq<char>> {
    match payload_field(payload, key) {
        Some(JsonValue::Str(s)) => Some(s@),
        _ => None,
    }
}

/// The members of object member `key` of a payload, an absent member
/// standing for an empty object; `None` when the member is not an object.
pub open spec fn field_members(payload: JsonValue, key: Seq<char>) -> Option<
    Seq<(String, JsonValue)>,
> {
    match payload_field(payload, key) {
        None => Some(seq![]),
        Some(JsonValue::Object(members)) => Some(members@),
        Some(_) => None,
    }
}

/// The message for a missing string member.
pub open spec fn missing_string(key: Seq<char>, crate_name: Seq<char>, operation: Seq<char>) -> Seq<
    char,
> {
    "missing string `"@ + key + "` for `"@ + crate_name + "` / `"@ + operation + "`"@
}

/// The JSON text `{"key":body}`.
pub open spec fn reply_text(key: Seq<char>, body: Seq<char>) -> Seq<char> {
    seq!['{'] + json_string_literal(key) + seq![':'] + body + seq!['}']
}

/// What `or-beacon`'s bridge operation answers.
pub open spec fn beacon_invocation(operation: Seq<char>, payload: JsonValue) -> Result<
    Seq<char>,
    BridgeFault,
> {
    let failed = |e: BeaconFault|
        BridgeFault::Invocation {
            crate_name: "or-beacon"@,
            operation: operation,
            reason: beacon_message(e),
        };
    if operation != "render_template"@ {
        Err(BridgeFault::UnsupportedOperation { crate_name: "or-beacon"@, operation: operation })
    } else {
        match field_str(payload, "template"@) {
            None => Err(
                BridgeFault::InvalidInput(missing_string("template"@, "or-beacon"@, operation)),
            ),
            Some(t) => match template_variables(sanitize(t)) {
                Err(e) => Err(failed(e)),
                Ok(vars) => match field_members(payload, "context"@) {
                    None => Err(
                        failed(
                            BeaconFault::InvalidContext(
                                "prompt context must serialize to a JSON object"@,
                            ),
                        ),
                    ),
                    Some(m) => match crate::prompt::render_with(sanitize(t), vars, m) {
                        Ok(r) => Ok(reply_text("text"@, json_string_literal(r))),
                        Err(e) => Err(failed(e)),
                    },
                },
            },
        }
    }
}

/// What `or-bridge`'s own bridge operations answer.
pub open spec fn bridge_invocation(operation: Seq<char>, payload: JsonValue) -> Result<
    Seq<char>,
    BridgeFault,
> {
    if operation == "render_prompt_json"@ {
        match field_str(payload, "template"@) {
            None => Err(
                BridgeFault::InvalidInput(missing_string("template"@, "or-bridge"@, operation)),
            ),
            Some(t) => match field_members(payload, "context"@) {
                None => Err(BridgeFault::InvalidState),
                Some(m) => match render_prompt_members(t, m) {
                    Ok(r) => Ok(reply_text("text"@, json_string_literal(r))),
                    Err(e) => Err(e),
                },
            },
        }
    } else if operation == "normalize_state_json"@ {
        match field_members(payload, "state"@) {
            None => Err(BridgeFault::InvalidState),
            Some(m) => Ok(
                reply_text("state"@, seq!['{'] + crate::json::json_members_text(m) + seq!['}']),
            ),
        }
    } else {
        Err(BridgeFault::UnsupportedOperation { crate_name: "or-bridge"@, operation: operation })
    }
}

/// The outcome a generic invocation owes.
pub open spec fn invoke_matches(
    r: InvokeOutcome,
    crate_name: Seq<char>,
    operation: Seq<char>,
    payload: JsonValue,
) -> bool {
    let done = |expected: Result<Seq<char>, BridgeFault>|
        match expected {
            Ok(t) => r matches InvokeOutcome::Done(Ok(s)) && s@ == t,
            Err(e) => r matches InvokeOutcome::Done(Err(err)) && err@ == e,
        };
    if crate_name == "or-beacon"@ {
        done(beacon_invocation(operation, payload))
    } else if crate_name == "or-bridge"@ {
        done(bridge_invocation(operation, payload))
    } else {
        match tool_crate(crate_name) {
            Some(t) => r == InvokeOutcome::Delegated(t),
            None => r matches InvokeOutcome::Done(Err(err)) && err@ == BridgeFault::UnsupportedCrate(
                crate_name,
            ),
        }
    }
}

pub(crate) fn same(s: &String, lit: &str) -> (r: bool)
    ensures
        r == (s@ == lit@),
{
    *s == String::from_str(lit)
}

/// The value of member `key` of a payload.
pub fn get_field<'a>(payload: &'a JsonValue, key: &str) -> (r: Option<&'a JsonValue>)
    ensures
        match r {
            Some(v) => payload_field(*payload, key@) == Some(*v),
            None => payload_field(*payload, key@) is None,
        },
{
    match payload {
        JsonValue::Object(members) => object_get(members, key),
        _ => None,
    }
}

/// The text of string member `key`, or an input error naming the key,
/// crate and operation.
pub fn required_str<'a>(payload: &'a JsonValue, key: &str, crate_name: &str, operation: &str) -> (r:
    Result<&'a String, BridgeError>)
    ensures
        match field_str(*payload, key@) {
            Some(t) => r matches Ok(s) && s@ == t,
            None => r matches Err(e) && e@ == BridgeFault::InvalidInput(
                missing_string(key@, crate_name@, operation@),
            ),
        },
{
    match get_field(payload, key) {
        Some(JsonValue::Str(s)) => Ok(s),
        _ => {
            let mut m = String::from_str("missing string `");
            m.append(key);
            m.append("` for `");
            m.append(crate_name);
            m.append("` / `");
            m.append(operation);
            m.append("`");
            Err(BridgeError::InvalidInput(m))
        },
    }
}

fn reply(key: &str, body: &str) -> (r: String)
    ensures
        r@ == reply_text(key@, body@),
{
    let mut out = String::from_str("{");
    out.append(to_json_text(&JsonValue::Str(String::from_str(key))).as_str());
    out.append(":");
    out.append(body);
    out.append("}");
    proof {
        reveal_strlit("{");
        reveal_strlit(":");
        reveal_strlit("}");
        assert(out@ =~= reply_text(key@, body@));
    }
    out
}

fn invoke_beacon(operation: &str, payload: &JsonValue) -> (r: Result<String, BridgeError>)
    ensures
        match beacon_invocation(operation@, *payload) {
            Ok(t) => r matches Ok(s) && s@ == t,
            Err(e) => r matches Err(err) && err@ == e,
        },
{
    let op = String::from_str(operation);
    if !same(&op, "render_template") {
        return Err(unsupported("or-beacon", operation));
    }
    let template = required_str(payload, "template", "or-beacon", operation)?;
    let orchestrator = PromptOrchestrator;
    let built = match orchestrator.build_template(template.as_str()) {
        Ok(built) => built,
        Err(e) => {
            return Err(invocation("or-beacon", operation, e.message().as_str()));
        },
    };
    let empty = JsonValue::Object(Vec::new());
    let context = match get_field(payload, "context") {
        Some(c) => c,
        None => &empty,
    };
    proof {
        assert(empty->Object_0@ =~= seq![]);
    }
    match orchestrator.render_template(&built, context) {
        Ok(text) => {
            let body = to_json_text(&JsonValue::Str(text));
            Ok(reply("text", body.as_str()))
        },
        Err(e) => Err(invocation("or-beacon", operation, e.message().as_str())),
    }
}

fn invoke_bridge(operation: &str, payload: &JsonValue) -> (r: Result<String, BridgeError>)
    ensures
        match bridge_invocation(operation@, *payload) {
            Ok(t) => r matches Ok(s) && s@ == t,
            Err(e) => r matches Err(err) && err@ == e,
        },
{
    let op = String::from_str(operation);
    let empty = JsonValue::Object(Vec::new());
    proof {
        assert(empty->Object_0@ =~= seq![]);
    }
    if same(&op, "render_prompt_json") {
        let template = required_str(payload, "template", "or-bridge", operation)?;
        let context = match get_field(payload, "context") {
            Some(c) => c,
            None => &empty,
        };
        let rendered = render_prompt_json(template.as_str(), context)?;
        let body = to_json_text(&JsonValue::Str(rendered));
        Ok(reply("text", body.as_str()))
    } else if same(&op, "normalize_state_json") {
        let state = match get_field(payload, "state") {
            Some(s) => s,
            None => &empty,
        };
        let normalized = normalize_state_json(state)?;
        Ok(reply("state", normalized.as_str()))
    } else {
        Err(unsupported("or-bridge", operation))
    }
}

fn tool_crate_of(name: &String) -> (r: Option<ToolCrate>)
    ensures
        r == tool_crate(name@),
{
    if same(name, "or-core") {
        Some(ToolCrate::Core)
    } else if same(name, "or-conduit") {
        Some(ToolCrate::Conduit)
    } else if same(name, "or-prism") {
        Some(ToolCrate::Prism)
    } else if same(name, "or-sieve") {
        Some(ToolCrate::Sieve)
    } else if same(name, "or-tools-search") {
        Some(ToolCrate::Search)
    } else if same(name, "or-tools-web") {
        Some(ToolCrate::Web)
    } else if same(name, "or-tools-vector") {
        Some(ToolCrate::Vector)
    } else if same(name, "or-tools-loaders") {
        Some(ToolCrate::Loaders)
    } else if same(name, "or-tools-exec") {
        Some(ToolCrate::Exec)
    } else if same(name, "or-tools-file") {
        Some(ToolCrate::File)
    } else if same(name, "or-tools-comms") {
        Some(ToolCrate::Comms)
    } else if same(name, "or-tools-productivity") {
        Some(ToolCrate::Productivity)
    } else {
        None
    }
}

/// Routes an invocation of `operation` on crate `crate_name` with a
/// JSON payload: `or-beacon` and `or-bridge` are answered here, the
/// tool crates are named for the caller to run, any other name is refused.
pub fn invoke_crate_json(crate_name: &str, operation: &str, payload: &JsonValue) -> (r:
    InvokeOutcome)
    ensures
        invoke_matches(r, crate_name@, operation@, *payload),
{
    let name = String::from_str(crate_name);
    if same(&name, "or-beacon") {
        InvokeOutcome::Done(invoke_beacon(operation, payload))
    } else if same(&name, "or-bridge") {
        InvokeOutcome::Done(invoke_bridge(operation, payload))
    } else {
        match tool_crate_of(&name) {
            Some(t) => InvokeOutcome::Delegated(t),
            None => InvokeOutcome::Done(Err(BridgeError::UnsupportedCrate(name))),
        }
    }
}

} // verus!

verus! {

// ---------------------------------------------------------------------
// Payload accessors for the tool crates
// ---------------------------------------------------------------------

/// The text of string member `key` of an object's members.
pub fn get_str<'a>(members: &'a Vec<(String, JsonValue)>, key: &str) -> (r: Option<&'a String>)
    ensures
        match member_lookup(members@, key@) {
            Some(JsonValue::Str(s)) => r == Some(&s),
            _ => r is None,
        },
{
    match object_get(members, key) {
        Some(JsonValue::Str(s)) => Some(s),
        _ => None,
    }
}

/// Decimal digits only, at least one.
pub open spec fn all_digits(s: Seq<char>) -> bool {
    s.len() > 0 && forall|i: int| 0 <= i < s.len() ==> '0' <= #[trigger] s[i] && s[i] <= '9'
}

/// The value of a string of decimal digits.
pub open spec fn digits_value(s: Seq<char>) -> nat
    decreases s.len(),
{
    if s.len() == 0 {
        0
    } else {
        digits_value(s.drop_last()) * 10 + ((s.last() as int) - ('0' as int)) as nat
    }
}

/// The unsigned integer a JSON number's text denotes, when it is a
/// non-negative integer that fits in 64 bits (`Value::as_u64`).
pub open spec fn number_as_u64(text: Seq<char>) -> Option<u64> {
    if all_digits(text) && digits_value(text) <= u64::MAX {
        Some(digits_value(text) as u64)
    } else {
        None
    }
}

/// The unsigned integer held by member `key` of a payload.
pub open spec fn field_u64(payload: JsonValue, key: Seq<char>) -> Option<u64> {
    match payload_field(payload, key) {
        Some(JsonValue::Number(n)) => number_as_u64(n@),
        _ => None,
    }
}

proof fn lemma_digits_value_monotone(s: Seq<char>, i: int)
    requires
        0 <= i <= s.len(),
        forall|j: int| 0 <= j < s.len() ==> '0' <= #[trigger] s[j] && s[j] <= '9',
    ensures
        digits_value(s.take(i)) <= digits_value(s),
    decreases s.len() - i,
{
    if i < s.len() {
        lemma_digits_value_monotone(s, i + 1);
        assert(s.take(i + 1).drop_last() =~= s.take(i));
        assert('0' <= s[i] && s[i] <= '9');
    } else {
        assert(s.take(i) =~= s);
    }
}

fn number_u64(text: &String) -> (r: Option<u64>)
    ensures
        r == number_as_u64(text@),
{
    let chars = crate::text::str_chars(text.as_str());
    if chars.len() == 0 {
        return None;
    }
    let mut value: u64 = 0;
    let mut i: usize = 0;
    while i < chars.len()
        invariant
            i <= chars@.len(),
            chars@ == text@,
            chars@.len() > 0,
            forall|j: int| 0 <= j < i ==> '0' <= #[trigger] chars@[j] && chars@[j] <= '9',
            value == digits_value(chars@.take(i as int)),
        decreases chars@.len() - i,
    {
        let c = chars[i];
        if c < '0' || c > '9' {
            return None;
        }
        proof {
            assert(chars@.take(i + 1).drop_last() =~= chars@.take(i as int));
        }
        let d: u64 = if c == '0' { 0 } else if c == '1' { 1 } else if c == '2' { 2 } else if c
            == '3' { 3 } else if c == '4' { 4 } else if c == '5' { 5 } else if c == '6' { 6 }
        else if c == '7' { 7 } else if c == '8' { 8 } else { 9 };
        assert(d == (c as int) - ('0' as int));
        let next = match value.checked_mul(10) {
            Some(v) => v.checked_add(d),
            None => None,
        };
        match next {
            Some(v) => {
                value = v;
            },
            None => {
                proof {
                    if all_digits(text@) {
                        lemma_digits_value_monotone(text@, i + 1);
                    }
                }
                return None;
            },
        }
        i = i + 1;
    }
    proof {
        assert(chars@.take(i as int) =~= chars@);
    }
    Some(value)
}

/// The unsigned integer held by member `key`, or an input error naming
/// the key, crate and operation.
pub fn required_u64(payload: &JsonValue, key: &str, crate_name: &str, operation: &str) -> (r: Result<
    u64,
    BridgeError,
>)
    ensures
        match field_u64(*payload, key@) {
            Some(v) => r == Ok::<u64, BridgeError>(v),
            None => r matches Err(e) && e@ == BridgeFault::InvalidInput(
                "missing integer `"@ + key@ + "` for `"@ + crate_name@ + "` / `"@ + operation@
                    + "`"@,
            ),
        },
{
    let found = match get_field(payload, key) {
        Some(JsonValue::Number(n)) => number_u64(n),
        _ => None,
    };
    match found {
        Some(v) => Ok(v),
        None => {
            let mut m = String::from_str("missing integer `");
            m.append(key);
            m.append("` for `");
            m.append(crate_name);
            m.append("` / `");
            m.append(operation);
            m.append("`");
            Err(BridgeError::InvalidInput(m))
        },
    }
}

} // verus!
