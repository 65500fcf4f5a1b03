use orchustr::bridge::{crate_bindings, invoke_crate_json, BridgeError, InvokeOutcome, ToolCrate};
use orchustr::json::JsonValue;
use orchustr::tools::{
    conduit_request, config_get_str, core_request, data_source_plan, exec_plans,
    exec_provider_config, exec_provider_names, exec_request, executor_plan, extras_for,
    file_request, file_store_plan, from_field, loader_request, message_request, prism_request,
    productivity_request, scraper_plan, search_provider_plan, search_request, setup_for,
    sieve_request, vector_client_plan, vector_operation, vector_provider, web_browser_plan,
    web_request, zone_or_default, BrowserKind, ChannelKind, CoreCall, DataSourceKind,
    ExecutorKind, FileCall, FileStoreKind, ProductivityArgs, ProductivityClient, ProductivityOp,
    ProviderPlan, ScraperKind, SearchKind, Setup, VectorKind, VectorOp, WebCall,
};

fn text(s: &str) -> JsonValue {
    JsonValue::Str(s.to_string())
}

fn num(s: &str) -> JsonValue {
    JsonValue::Number(s.to_string())
}

fn object(members: Vec<(&str, JsonValue)>) -> JsonValue {
    JsonValue::Object(members.into_iter().map(|(k, v)| (k.to_string(), v)).collect())
}

fn configured(values: &[&str]) -> Setup {
    Setup::Configured(values.iter().map(|v| v.to_string()).collect())
}

fn input(message: &str) -> BridgeError {
    BridgeError::InvalidInput(message.to_string())
}

fn no_operation(crate_name: &str, operation: &str) -> BridgeError {
    BridgeError::UnsupportedOperation {
        crate_name: crate_name.to_string(),
        operation: operation.to_string(),
    }
}

#[test]
fn config_strings_come_only_from_objects() {
    let config = object(vec![("endpoint", text("e")), ("port", num("1"))]);
    assert_eq!(config_get_str(Some(&config), "endpoint"), Some(&"e".to_string()));
    assert_eq!(config_get_str(Some(&config), "port"), None);
    assert_eq!(config_get_str(Some(&config), "missing"), None);
    assert_eq!(config_get_str(Some(&text("endpoint")), "endpoint"), None);
    assert_eq!(config_get_str(None, "endpoint"), None);
}

#[test]
fn setup_is_configured_only_when_every_key_is_present() {
    let config = object(vec![("api_key", text("k")), ("endpoint", text("e"))]);
    assert_eq!(setup_for(Some(&config), &vec!["endpoint", "api_key"]), configured(&["e", "k"]));
    assert_eq!(setup_for(Some(&config), &vec!["endpoint", "token"]), Setup::Default);
    assert_eq!(setup_for(None, &vec!["endpoint"]), Setup::Default);
    assert_eq!(setup_for(None, &vec![]), configured(&[]));
    assert_eq!(
        extras_for(Some(&config), &vec!["token", "api_key"]),
        vec![None, Some("k".to_string())]
    );
}

#[test]
fn from_field_names_the_missing_member() {
    let payload = object(vec![("query", text("q"))]);
    assert_eq!(from_field(&payload, "query", "c", "op"), Ok(&text("q")));
    assert_eq!(
        from_field(&payload, "item", "or-tools-productivity", "send_email"),
        Err(input("missing `item` for `or-tools-productivity` / `send_email`"))
    );
}

#[test]
fn search_providers_are_configured_or_read_from_the_environment() {
    let full = object(vec![("endpoint", text("https://s")), ("api_key", text("k"))]);
    assert_eq!(
        search_provider_plan("tavily", Some(&full)),
        Ok(ProviderPlan { kind: SearchKind::Tavily, setup: configured(&["https://s", "k"]), extras: vec![] })
    );
    let partial = object(vec![("endpoint", text("https://s"))]);
    assert_eq!(
        search_provider_plan("bing", Some(&partial)),
        Ok(ProviderPlan { kind: SearchKind::Bing, setup: Setup::Default, extras: vec![] })
    );
    assert_eq!(
        search_provider_plan("searxng", Some(&partial)),
        Ok(ProviderPlan { kind: SearchKind::Searxng, setup: configured(&["https://s"]), extras: vec![] })
    );
    assert_eq!(
        search_provider_plan("google", None),
        Err(input("unsupported provider `google` for `or-tools-search`"))
    );
}

#[test]
fn search_requests_need_provider_and_query() {
    let payload = object(vec![("provider", text("exa")), ("query", object(vec![]))]);
    let request = search_request("search", &payload).ok().unwrap();
    assert_eq!(request.provider, "exa");
    assert_eq!(request.query, &object(vec![]));
    assert_eq!(
        search_request("lookup", &payload).err(),
        Some(no_operation("or-tools-search", "lookup"))
    );
    assert_eq!(
        search_request("search", &object(vec![("query", object(vec![]))])).err(),
        Some(input("missing string `provider` for `or-tools-search` / `search`"))
    );
    assert_eq!(
        search_request("search", &object(vec![("provider", text("exa"))])).err(),
        Some(input("missing `query` for `or-tools-search` / `search`"))
    );
}

#[test]
fn browsers_and_scrapers_take_their_settings() {
    assert_eq!(
        web_browser_plan("requests", Some(&object(vec![("endpoint", text("e"))]))),
        Ok(ProviderPlan { kind: BrowserKind::Requests, setup: Setup::Default, extras: vec![] })
    );
    let bright = object(vec![("endpoint", text("e")), ("token", text("t")), ("zone", text("z"))]);
    assert_eq!(
        web_browser_plan("brightdata", Some(&bright)),
        Ok(ProviderPlan {
            kind: BrowserKind::BrightData,
            setup: configured(&["e", "t"]),
            extras: vec![Some("z".to_string())],
        })
    );
    assert_eq!(
        web_browser_plan("brightdata", None),
        Ok(ProviderPlan { kind: BrowserKind::BrightData, setup: Setup::Default, extras: vec![None] })
    );
    assert_eq!(
        web_browser_plan("oxylabs", Some(&object(vec![
            ("endpoint", text("e")),
            ("username", text("u")),
            ("password", text("p")),
        ]))),
        Ok(ProviderPlan { kind: BrowserKind::Oxylabs, setup: configured(&["e", "u", "p"]), extras: vec![] })
    );
    assert_eq!(
        web_browser_plan("lynx", None),
        Err(input("unsupported provider `lynx` for `or-tools-web`"))
    );
    assert_eq!(zone_or_default(&Some("z".to_string())), "z");
    assert_eq!(zone_or_default(&None), "web_unlocker");
    assert_eq!(
        scraper_plan("agentql", Some(&object(vec![("prompt", text("find"))]))),
        Ok(ProviderPlan {
            kind: ScraperKind::AgentQl,
            setup: Setup::Default,
            extras: vec![Some("find".to_string())],
        })
    );
    assert_eq!(
        scraper_plan("requests", None),
        Err(input("unsupported provider `requests` for `or-tools-web`"))
    );
}

#[test]
fn web_requests_pick_out_their_members() {
    let fetch = object(vec![("provider", text("requests")), ("request", object(vec![]))]);
    match web_request("fetch", &fetch).unwrap() {
        WebCall::Fetch { provider, request } => {
            assert_eq!(provider, "requests");
            assert_eq!(request, &object(vec![]));
        }
        other => panic!("unexpected call {other:?}"),
    }
    let scrape = object(vec![("provider", text("agentql")), ("url", text("https://x"))]);
    match web_request("scrape", &scrape).unwrap() {
        WebCall::Scrape { provider, url } => {
            assert_eq!(provider, "agentql");
            assert_eq!(url, "https://x");
        }
        other => panic!("unexpected call {other:?}"),
    }
    assert_eq!(
        web_request("scrape", &object(vec![("provider", text("agentql"))])).err(),
        Some(input("missing string `url` for `or-tools-web` / `scrape`"))
    );
    assert_eq!(
        web_request("fetch", &object(vec![("provider", text("requests"))])).err(),
        Some(input("missing `request` for `or-tools-web` / `fetch`"))
    );
    assert_eq!(web_request("crawl", &fetch).err(), Some(no_operation("or-tools-web", "crawl")));
}

#[test]
fn vector_clients_and_operations() {
    assert_eq!(
        vector_client_plan("weaviate", Some(&object(vec![("base_url", text("b")), ("api_key", text("k"))]))),
        Ok(ProviderPlan {
            kind: VectorKind::Weaviate,
            setup: configured(&["b"]),
            extras: vec![Some("k".to_string())],
        })
    );
    assert_eq!(
        vector_client_plan("pinecone", Some(&object(vec![("host", text("h"))]))),
        Ok(ProviderPlan { kind: VectorKind::Pinecone, setup: Setup::Default, extras: vec![] })
    );
    assert_eq!(
        vector_client_plan("pgvector", None),
        Ok(ProviderPlan { kind: VectorKind::PgVector, setup: Setup::Default, extras: vec![] })
    );
    assert_eq!(
        vector_client_plan("pgvector", Some(&object(vec![]))),
        Err(input("pgvector currently uses environment-based connection setup only"))
    );
    assert_eq!(
        vector_client_plan("faiss", None),
        Err(input("unsupported provider `faiss` for `or-tools-vector`"))
    );
    let payload = object(vec![("provider", text("qdrant")), ("data", object(vec![]))]);
    assert_eq!(vector_provider("upsert", &payload).unwrap(), "qdrant");
    assert_eq!(
        vector_provider("upsert", &object(vec![])),
        Err(input("missing string `provider` for `or-tools-vector` / `upsert`"))
    );
    assert_eq!(vector_operation("query", &payload), Ok((VectorOp::Query, &object(vec![]))));
    assert_eq!(
        vector_operation("ensure_collection", &object(vec![])),
        Err(input("missing `data` for `or-tools-vector` / `ensure_collection`"))
    );
    assert_eq!(vector_operation("drop", &payload), Err(no_operation("or-tools-vector", "drop")));
}

#[test]
fn loaders_and_executors_read_their_request() {
    let payload = object(vec![("request", text("r"))]);
    assert_eq!(loader_request("load", &payload), Ok(&text("r")));
    assert_eq!(loader_request("fetch", &payload), Err(no_operation("or-tools-loaders", "fetch")));
    assert_eq!(
        loader_request("load", &object(vec![])),
        Err(input("missing `request` for `or-tools-loaders` / `load`"))
    );
    assert_eq!(exec_request("execute", &payload), Ok(&text("r")));
    assert_eq!(exec_request("run", &payload), Err(no_operation("or-tools-exec", "run")));
}

#[test]
fn executors_are_named_and_set_up_in_order() {
    assert_eq!(exec_provider_names(&object(vec![])), vec!["python".to_string(), "shell".to_string()]);
    let payload = object(vec![
        ("providers", JsonValue::Array(vec![text("e2b"), num("3"), text("daytona")])),
        ("config", object(vec![("e2b", object(vec![("endpoint", text("e")), ("api_key", text("k"))]))])),
    ]);
    assert_eq!(exec_provider_names(&payload), vec!["e2b".to_string(), "daytona".to_string()]);
    assert_eq!(
        exec_provider_config(&payload, "e2b"),
        Some(&object(vec![("endpoint", text("e")), ("api_key", text("k"))]))
    );
    assert_eq!(exec_provider_config(&payload, "daytona"), None);
    assert_eq!(
        exec_plans(&payload),
        Ok(vec![
            ProviderPlan { kind: ExecutorKind::E2B, setup: configured(&["e", "k"]), extras: vec![] },
            ProviderPlan { kind: ExecutorKind::Daytona, setup: Setup::Default, extras: vec![] },
        ])
    );
    let refused = object(vec![
        ("providers", JsonValue::Array(vec![text("python"), text("daytona"), text("jvm")])),
        ("config", object(vec![("daytona", object(vec![]))])),
    ]);
    assert_eq!(
        exec_plans(&refused),
        Err(input("daytona currently uses environment-based connection setup only"))
    );
    assert_eq!(
        executor_plan("daytona", Some(&text("not an object"))),
        Ok(ProviderPlan { kind: ExecutorKind::Daytona, setup: Setup::Default, extras: vec![] })
    );
    assert_eq!(
        executor_plan("jvm", None),
        Err(input("unsupported provider `jvm` for `or-tools-exec`"))
    );
}

#[test]
fn file_stores_and_data_sources() {
    assert_eq!(
        file_store_plan("gdrive", Some(&object(vec![("access_token", text("t"))]))),
        Ok(ProviderPlan { kind: FileStoreKind::GDrive, setup: configured(&["t"]), extras: vec![] })
    );
    assert_eq!(
        file_store_plan("s3", None),
        Err(input("unsupported provider `s3` for `or-tools-file`"))
    );
    assert_eq!(
        data_source_plan("financial", Some(&object(vec![("endpoint", text("e")), ("api_key", text("k"))]))),
        Ok(ProviderPlan { kind: DataSourceKind::Financial, setup: configured(&["e", "k"]), extras: vec![] })
    );
    assert_eq!(
        data_source_plan("json", None),
        Ok(ProviderPlan { kind: DataSourceKind::Json, setup: Setup::Default, extras: vec![] })
    );
}

#[test]
fn file_requests_default_to_the_local_store() {
    let read = object(vec![("path", text("/tmp/a"))]);
    match file_request("read", &read).unwrap() {
        FileCall::Read { store, path } => {
            assert_eq!(store, ProviderPlan { kind: FileStoreKind::Local, setup: Setup::Default, extras: vec![] });
            assert_eq!(path, "/tmp/a");
        }
        other => panic!("unexpected call {other:?}"),
    }
    let write = object(vec![("path", text("/tmp/a")), ("content", text("hi"))]);
    match file_request("write", &write).unwrap() {
        FileCall::Write { path, content, .. } => {
            assert_eq!(path, "/tmp/a");
            assert_eq!(content, "hi");
        }
        other => panic!("unexpected call {other:?}"),
    }
    assert_eq!(
        file_request("write", &read).err(),
        Some(input("missing string `content` for `or-tools-file` / `write`"))
    );
    assert_eq!(
        file_request("list", &object(vec![("provider", text("s3")), ("path", text("/"))])).err(),
        Some(input("unsupported provider `s3` for `or-tools-file`"))
    );
    assert_eq!(
        file_request("delete", &object(vec![("provider", text("s3"))])).err(),
        Some(input("unsupported provider `s3` for `or-tools-file`"))
    );
    assert_eq!(
        file_request("delete", &object(vec![])).err(),
        Some(input("missing string `path` for `or-tools-file` / `delete`"))
    );
    match file_request("fetch", &object(vec![("provider", text("arxiv")), ("query", text("q"))])).unwrap() {
        FileCall::Fetch { source, query } => {
            assert_eq!(source, ProviderPlan { kind: DataSourceKind::Arxiv, setup: Setup::Default, extras: vec![] });
            assert_eq!(query, Some(&text("q")));
        }
        other => panic!("unexpected call {other:?}"),
    }
    assert_eq!(
        file_request("fetch", &object(vec![])).err(),
        Some(input("missing string `provider` for `or-tools-file` / `fetch`"))
    );
    assert_eq!(file_request("copy", &read).err(), Some(no_operation("or-tools-file", "copy")));
}

#[test]
fn messages_pick_their_channel_and_sender() {
    let payload = object(vec![
        ("provider", text("twilio")),
        ("to", text("+1")),
        ("body", text("hi")),
        ("from", text("+2")),
        ("config", object(vec![("account_sid", text("a")), ("auth_token", text("t")), ("from", text("f"))])),
    ]);
    let call = message_request("send", &payload).unwrap();
    assert_eq!(call.channel, ChannelKind::Sms);
    assert_eq!(call.to, "+1");
    assert_eq!(call.body, "hi");
    assert_eq!(call.from, Some(&"+2".to_string()));
    assert_eq!(call.sender, ProviderPlan { kind: ChannelKind::Sms, setup: configured(&["a", "t", "f"]), extras: vec![] });

    let page = object(vec![
        ("provider", text("messenger")),
        ("to", text("u")),
        ("body", text("b")),
        ("config", object(vec![("base_url", text("g")), ("page_access_token", text("p"))])),
    ]);
    let call = message_request("send", &page).unwrap();
    assert_eq!(call.channel, ChannelKind::Messenger);
    assert_eq!(call.from, None);
    assert_eq!(call.sender, ProviderPlan { kind: ChannelKind::Messenger, setup: configured(&["g", "p"]), extras: vec![] });

    assert_eq!(message_request("receive", &payload).err(), Some(no_operation("or-tools-comms", "receive")));
    assert_eq!(
        message_request("send", &object(vec![("provider", text("pager"))])).err(),
        Some(input("unsupported provider `pager` for `or-tools-comms`"))
    );
    assert_eq!(
        message_request("send", &object(vec![("provider", text("discord")), ("to", text("c"))])).err(),
        Some(input("missing string `body` for `or-tools-comms` / `send`"))
    );
}

#[test]
fn productivity_reads_provider_then_operation_then_members() {
    let list = object(vec![("provider", text("gmail")), ("query", text("from:me"))]);
    let call = productivity_request("list_emails", &list).unwrap();
    assert_eq!(call.op, ProductivityOp::ListEmails);
    assert!(matches!(call.client, ProductivityClient::Email(_)));
    assert!(matches!(call.args, ProductivityArgs::Query(Some(q)) if *q == text("from:me")));

    let search = object(vec![("provider", text("slack"))]);
    let call = productivity_request("search_messages", &search).unwrap();
    assert!(matches!(call.args, ProductivityArgs::Query(None)));

    let post = object(vec![
        ("provider", text("slack")),
        ("channel", text("#general")),
        ("text", text("hello")),
        ("config", object(vec![("base_url", text("b")), ("bot_token", text("t"))])),
    ]);
    let call = productivity_request("post_message", &post).unwrap();
    assert_eq!(
        call.client,
        ProductivityClient::Messenger(ProviderPlan {
            kind: orchustr::tools::TeamMessengerKind::Slack,
            setup: configured(&["b", "t"]),
            extras: vec![],
        })
    );
    assert!(matches!(call.args, ProductivityArgs::Post { channel, text } if channel == "#general" && text == "hello"));

    let create = object(vec![("provider", text("github")), ("item", object(vec![]))]);
    let call = productivity_request("create_issue", &create).unwrap();
    assert!(matches!(call.client, ProductivityClient::Tracker(_)));
    assert!(matches!(call.args, ProductivityArgs::Item(i) if *i == object(vec![])));

    assert_eq!(
        productivity_request("archive", &object(vec![])).err(),
        Some(input("missing string `provider` for `or-tools-productivity` / `archive`"))
    );
    assert_eq!(
        productivity_request("archive", &search).err(),
        Some(no_operation("or-tools-productivity", "archive"))
    );
    assert_eq!(
        productivity_request("list_events", &search).err(),
        Some(input("unsupported provider `slack` for `or-tools-productivity`"))
    );
    assert_eq!(
        productivity_request("create_page", &object(vec![("provider", text("notion"))])).err(),
        Some(input("missing `item` for `or-tools-productivity` / `create_page`"))
    );
    assert_eq!(
        productivity_request("post_message", &object(vec![("provider", text("slack")), ("channel", text("c"))])).err(),
        Some(input("missing string `text` for `or-tools-productivity` / `post_message`"))
    );
}

#[test]
fn core_requests_read_their_object_and_count() {
    let payload = object(vec![("budget", object(vec![])), ("prompt_tokens", num("120"))]);
    match core_request("enforce_completion_budget", &payload).unwrap() {
        CoreCall::EnforceCompletionBudget { budget, prompt_tokens } => {
            assert_eq!(budget, &object(vec![]));
            assert_eq!(prompt_tokens, 120);
        }
        other => panic!("unexpected call {other:?}"),
    }
    let wide = object(vec![("policy", object(vec![])), ("attempt", num("4294967297"))]);
    match core_request("next_retry_delay", &wide).unwrap() {
        CoreCall::NextRetryDelay { attempt, .. } => assert_eq!(attempt, 1),
        other => panic!("unexpected call {other:?}"),
    }
    assert_eq!(
        core_request("next_retry_delay", &object(vec![("policy", object(vec![])), ("attempt", num("1.5"))])).err(),
        Some(input("missing integer `attempt` for `or-core` / `next_retry_delay`"))
    );
    assert_eq!(
        core_request("enforce_completion_budget", &object(vec![("prompt_tokens", num("1"))])).err(),
        Some(input("missing `budget` for `or-core` / `enforce_completion_budget`"))
    );
    assert_eq!(core_request("sleep", &payload).err(), Some(no_operation("or-core", "sleep")));
}

#[test]
fn single_text_crates_read_one_member() {
    let payload = object(vec![
        ("prompt", text("p")),
        ("otlp_endpoint", text("http://collector")),
        ("raw", text("r")),
    ]);
    assert_eq!(conduit_request("prepare_text_request", &payload), Ok(&"p".to_string()));
    assert_eq!(prism_request("install_global_subscriber", &payload), Ok(&"http://collector".to_string()));
    assert_eq!(sieve_request("parse_text", &payload), Ok(&"r".to_string()));
    assert_eq!(conduit_request("stream", &payload), Err(no_operation("or-conduit", "stream")));
    assert_eq!(
        sieve_request("parse_text", &object(vec![("raw", num("1"))])),
        Err(input("missing string `raw` for `or-sieve` / `parse_text`"))
    );
    assert_eq!(
        prism_request("install_global_subscriber", &object(vec![])),
        Err(input("missing string `otlp_endpoint` for `or-prism` / `install_global_subscriber`"))
    );
}

fn operation_is_recognized(tool: ToolCrate, operation: &str) -> bool {
    let payload = object(vec![]);
    let refused = |e: Option<BridgeError>| matches!(e, Some(BridgeError::UnsupportedOperation { .. }));
    match tool {
        ToolCrate::Core => !refused(core_request(operation, &payload).err()),
        ToolCrate::Conduit => !refused(conduit_request(operation, &payload).err()),
        ToolCrate::Prism => !refused(prism_request(operation, &payload).err()),
        ToolCrate::Sieve => !refused(sieve_request(operation, &payload).err()),
        ToolCrate::Search => !refused(search_request(operation, &payload).err()),
        ToolCrate::Web => !refused(web_request(operation, &payload).err()),
        ToolCrate::Vector => !refused(vector_operation(operation, &payload).err()),
        ToolCrate::Loaders => !refused(loader_request(operation, &payload).err()),
        ToolCrate::Exec => !refused(exec_request(operation, &payload).err()),
        ToolCrate::File => !refused(file_request(operation, &payload).err()),
        ToolCrate::Comms => !refused(message_request(operation, &payload).err()),
        ToolCrate::Productivity => {
            let with_provider = object(vec![("provider", text("gmail"))]);
            !refused(productivity_request(operation, &with_provider).err())
        }
    }
}

#[test]
fn every_catalog_operation_of_a_routed_crate_is_recognized() {
    for binding in crate_bindings() {
        let routed = binding.binding_mode != "language-runtime";
        for operation in &binding.operations {
            match invoke_crate_json(&binding.crate_name, operation, &object(vec![])) {
                InvokeOutcome::Delegated(tool) => {
                    assert!(routed);
                    assert!(operation_is_recognized(tool, operation), "{operation}");
                }
                InvokeOutcome::Done(Err(BridgeError::UnsupportedCrate(name))) => {
                    assert!(!routed);
                    assert_eq!(name, binding.crate_name);
                }
                InvokeOutcome::Done(result) => {
                    assert!(routed);
                    assert!(!matches!(result, Err(BridgeError::UnsupportedOperation { .. })));
                }
            }
        }
    }
}
