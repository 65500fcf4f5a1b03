use orchustr::builders::{
    ProviderError, PyColonyBuilder, PyConduitProvider, PyForgeRegistry, PyGraphBuilder,
    PyPipelineBuilder, PyPromptBuilder, PyRelayBuilder, RegistryError,
};
use orchustr::json::JsonValue;
use orchustr::prompt::BeaconError;

fn strings(items: &[&str]) -> Vec<String> {
    items.iter().map(|s| s.to_string()).collect()
}

#[test]
fn graph_nodes_keep_first_place_and_last_handler() {
    let mut builder: PyGraphBuilder<u32> = PyGraphBuilder::new();
    builder.add_node("plan", 1);
    builder.add_node("act", 2);
    builder.add_node("plan", 3);
    builder.add_edge("plan", "act");
    builder.add_edge("act", "plan");
    builder.add_edge("plan", "done");
    builder.set_entry("plan");
    let graph = builder.build();
    assert_eq!(graph.node_names(), strings(&["plan", "act"]));
    assert_eq!(graph.get_handler("plan"), Some(&3));
    assert_eq!(graph.get_handler("act"), Some(&2));
    assert_eq!(graph.get_handler("missing"), None);
    assert_eq!(graph.edge_targets("plan"), strings(&["act", "done"]));
    assert_eq!(graph.edge_targets("act"), strings(&["plan"]));
    assert!(graph.edge_targets("done").is_empty());
    assert_eq!(graph.entry(), "plan");
    assert_eq!(graph.exit(), "");
}

#[test]
fn registered_callables_are_the_ones_invoked() {
    let mut builder: PyGraphBuilder<fn(i32) -> i32> = PyGraphBuilder::default();
    fn double(x: i32) -> i32 {
        x * 2
    }
    builder.add_node("double", double);
    builder.set_exit("double");
    let graph = builder.clone().build();
    let handler = graph.get_handler("double").unwrap();
    assert_eq!(handler(21), 42);
    assert_eq!(graph.exit(), "double");
    assert_eq!(graph.entry(), "");
}

#[test]
fn registry_keeps_tools_in_name_order() {
    let mut registry: PyForgeRegistry<&str> = PyForgeRegistry::new();
    registry.register("search", "s1");
    registry.register("add", "a");
    registry.register("zeta", "z");
    registry.register("search", "s2");
    registry.register("Search", "upper");
    assert_eq!(registry.len(), 4);
    assert_eq!(registry.tool_names(), strings(&["Search", "add", "search", "zeta"]));
    assert_eq!(registry.handler("search"), Ok(&"s2"));
    assert!(registry.contains("add"));
    assert!(!registry.contains("ad"));
    assert!(registry.unregister("add"));
    assert!(!registry.unregister("add"));
    assert!(!registry.contains("add"));
    assert_eq!(registry.tool_names(), strings(&["Search", "search", "zeta"]));
    assert_eq!(
        registry.handler("add"),
        Err(RegistryError::UnknownTool("add".to_string()))
    );
    assert_eq!(
        RegistryError::UnknownTool("add".to_string()).message(),
        "unknown tool: add"
    );
}

#[test]
fn registry_orders_prefixes_and_non_ascii_names() {
    let mut registry: PyForgeRegistry<u8> = PyForgeRegistry::default();
    for (i, name) in ["éclair", "ab", "a", "abc", "z", ""].iter().enumerate() {
        registry.register(name, i as u8);
    }
    assert_eq!(registry.tool_names(), strings(&["", "a", "ab", "abc", "z", "éclair"]));
    assert_eq!(registry.handler(""), Ok(&5));
}

#[test]
fn pipelines_relays_and_colonies_keep_names_in_order() {
    let mut pipeline = PyPipelineBuilder::new();
    pipeline.add_node("fetch", ());
    pipeline.add_node("parse", ());
    pipeline.add_node("fetch", ());
    assert_eq!(pipeline.build().node_names(), strings(&["fetch", "parse", "fetch"]));

    let mut relay = PyRelayBuilder::default();
    relay.add_branch("left", 0u8);
    relay.add_branch("right", 1u8);
    assert_eq!(relay.build().branch_names(), strings(&["left", "right"]));

    let mut colony = PyColonyBuilder::new();
    colony.add_member("ana", "planner");
    colony.add_member("bo", "critic");
    assert_eq!(colony.member_names(), strings(&["ana", "bo"]));
}

#[test]
fn providers_answer_with_their_handler() {
    let mut provider: PyConduitProvider<u8> = PyConduitProvider::new(Some("openai".to_string()), None);
    assert_eq!(provider.label(), Some("openai".to_string()));
    assert!(!provider.has_handler());
    assert_eq!(provider.handler(), Err(ProviderError::NoHandler));
    assert_eq!(
        ProviderError::NoHandler.message(),
        "PyConduitProvider has no handler — pass `handler=` in the constructor or call `set_handler`"
    );
    assert!(!provider.set_handler(1));
    assert!(provider.set_handler(2));
    assert_eq!(provider.handler(), Ok(&2));
    let unlabelled: PyConduitProvider<u8> = PyConduitProvider::default();
    assert_eq!(unlabelled.label(), None);
}

#[test]
fn prompt_builder_objects_build_and_render() {
    let mut builder = PyPromptBuilder::new();
    assert_eq!(builder.build().err(), Some(BeaconError::MissingTemplate));
    builder.template("Hi {{who}}");
    builder.template("Hello {{name}}\u{0}");
    let template = builder.build().unwrap();
    let context = JsonValue::Object(vec![("name".to_string(), JsonValue::Str("Ada".to_string()))]);
    assert_eq!(template.render(&context), Ok("Hello Ada".to_string()));
    assert_eq!(
        template.render(&JsonValue::Object(vec![])),
        Err(BeaconError::MissingVariable("name".to_string()))
    );
    assert!(builder.build().is_ok());
}
