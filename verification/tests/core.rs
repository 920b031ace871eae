use hyper_mcp::acquire::{cache_file_name, registry_acquisition_plan};
use hyper_mcp::config::{Config, EnvVar, PluginConfig, RuntimeConfig};
use hyper_mcp::dispatch::{
    dispatch_outcome, lifecycle_reply, CallOutcome, DispatchError, LifecycleReply,
    LifecycleRequest,
};
use hyper_mcp::index::{InsertOutcome, ToolIndex};
use hyper_mcp::sandbox::{build_manifest, plan_instantiation};
use hyper_mcp::service::{DescribeOutcome, LoadError, LoadEvent, PluginService, ToolRecord};
use hyper_mcp::source::{classify_source, str_starts_with, SourceKind};
use sha2::{Digest, Sha256};

fn rec(name: &str) -> ToolRecord {
    ToolRecord {
        name: name.to_string(),
        description: format!("{} tool", name),
        input_schema: "{\"type\":\"object\"}".to_string(),
    }
}

fn plugin_cfg(name: &str, path: &str) -> PluginConfig {
    PluginConfig {
        name: name.to_string(),
        path: path.to_string(),
        runtime_config: None,
    }
}

fn empty_config() -> Config {
    Config {
        plugins: vec![],
        insecure_skip_signature: false,
    }
}

#[test]
fn classifies_http_sources() {
    assert!(matches!(
        classify_source("http://example.com/plugin.wasm"),
        SourceKind::Http
    ));
    assert!(matches!(
        classify_source("https://example.com/plugin.wasm"),
        SourceKind::Http
    ));
}

#[test]
fn classifies_registry_sources_and_strips_prefix() {
    match classify_source("oci://tuananh/qr-code") {
        SourceKind::Registry { reference } => assert_eq!(reference, "tuananh/qr-code"),
        other => panic!("expected registry source, got {:?}", other),
    }
}

#[test]
fn classifies_local_sources() {
    assert!(matches!(
        classify_source("./plugins/echo.wasm"),
        SourceKind::Local
    ));
    assert!(matches!(classify_source("/abs/path.wasm"), SourceKind::Local));
    assert!(matches!(classify_source(""), SourceKind::Local));
}

#[test]
fn prefix_check_matches_std() {
    assert!(str_starts_with("http://x", "http"));
    assert!(!str_starts_with("ht", "http"));
    assert!(str_starts_with("", ""));
    assert!(!str_starts_with("ocifile.wasm", "oci://"));
}

#[test]
fn cache_file_name_matches_reference_hash() {
    let reference = "tuananh/qr-code";
    let digest = Sha256::digest(reference.as_bytes());
    let expected = format!("{}-{}.wasm", "qr-code", &hex::encode(digest)[..7]);
    assert_eq!(cache_file_name("qr-code", reference), expected);
}

#[test]
fn cache_file_name_known_vector() {
    // SHA-256 of "abc" begins ba7816b...
    assert_eq!(cache_file_name("p", "abc"), "p-ba7816b.wasm");
}

#[test]
fn cache_file_name_is_idempotent() {
    let a = cache_file_name("qr-code", "tuananh/qr-code");
    let b = cache_file_name("qr-code", "tuananh/qr-code");
    assert_eq!(a, b);
}

#[test]
fn acquisition_plan_fields() {
    let plan = registry_acquisition_plan("qr-code", "tuananh/qr-code", false);
    assert_eq!(plan.cache_file, cache_file_name("qr-code", "tuananh/qr-code"));
    assert_eq!(plan.target_path, "/plugin.wasm");
    assert!(plan.verify_signature);
    let plan = registry_acquisition_plan("qr-code", "tuananh/qr-code", true);
    assert!(!plan.verify_signature);
}

#[test]
fn manifest_without_policy_grants_nothing() {
    let m = build_manifest(&None);
    assert!(m.allowed_hosts.is_empty());
    assert!(m.allowed_paths.is_empty());
    assert!(m.config_vars.is_empty());
}

#[test]
fn manifest_passes_policy_through_verbatim() {
    let rc = RuntimeConfig {
        allowed_hosts: Some(vec!["api.example.com".to_string(), "*.internal".to_string()]),
        allowed_paths: Some(vec!["/tmp/data".to_string()]),
        env_vars: Some(vec![EnvVar {
            key: "MODE".to_string(),
            value: "fast".to_string(),
        }]),
    };
    let m = build_manifest(&Some(rc));
    assert_eq!(m.allowed_hosts, vec!["api.example.com", "*.internal"]);
    assert_eq!(m.allowed_paths.len(), 1);
    assert_eq!(m.allowed_paths[0].guest, "/tmp/data");
    assert_eq!(m.allowed_paths[0].host, "/tmp/data");
    assert_eq!(m.config_vars.len(), 1);
    assert_eq!(m.config_vars[0].key, "MODE");
    assert_eq!(m.config_vars[0].value, "fast");
}

#[test]
fn instantiation_keeps_module_bytes_identical() {
    let bytes = vec![0u8, 0x61, 0x73, 0x6d, 1, 0, 0, 0];
    let plan = plan_instantiation(bytes.clone(), &None);
    assert_eq!(plan.module, bytes);
    assert!(plan.manifest.allowed_hosts.is_empty());
}

#[test]
fn index_insert_lookup_collision() {
    let mut idx = ToolIndex::new();
    assert!(matches!(
        idx.insert("echo".to_string(), "plugin_a".to_string()),
        InsertOutcome::Inserted
    ));
    assert!(matches!(
        idx.insert("echo".to_string(), "plugin_a".to_string()),
        InsertOutcome::AlreadyOwned
    ));
    match idx.insert("echo".to_string(), "plugin_b".to_string()) {
        InsertOutcome::Collision { existing } => assert_eq!(existing, "plugin_a"),
        other => panic!("expected collision, got {:?}", other),
    }
    assert_eq!(idx.lookup(&"echo".to_string()), Some(&"plugin_a".to_string()));
    assert_eq!(idx.lookup(&"missing".to_string()), None);
    assert_eq!(idx.len(), 1);
    idx.clear();
    assert_eq!(idx.len(), 0);
}

#[test]
fn startup_collision_is_fatal_on_second_plugin() {
    let mut svc = PluginService::new(empty_config());
    let a = "plugin_a".to_string();
    let b = "plugin_b".to_string();
    assert!(svc
        .apply_load_event(
            &a,
            LoadEvent::Instantiated {
                tools: Some(vec![rec("ping")]),
            },
        )
        .is_ok());
    let err = svc
        .apply_load_event(
            &b,
            LoadEvent::Instantiated {
                tools: Some(vec![rec("ping")]),
            },
        )
        .unwrap_err();
    match err {
        LoadError::ToolCollision {
            tool,
            existing,
            plugin,
        } => {
            assert_eq!(tool, "ping");
            assert_eq!(existing, "plugin_a");
            assert_eq!(plugin, "plugin_b");
        }
        other => panic!("expected collision, got {:?}", other),
    }
    // the failed plugin registered nothing
    assert_eq!(svc.plugin_count(), 1);
    assert_eq!(svc.tool_count(), 1);
    assert!(!svc.has_plugin(&b));
}

#[test]
fn rejected_signature_never_registers_plugin() {
    let mut svc = PluginService::new(empty_config());
    let name = "signed".to_string();
    let err = svc
        .apply_load_event(
            &name,
            LoadEvent::SignatureRejected {
                message: "signature mismatch".to_string(),
            },
        )
        .unwrap_err();
    match err {
        LoadError::Verification { plugin, message } => {
            assert_eq!(plugin, "signed");
            assert_eq!(message, "signature mismatch");
        }
        other => panic!("expected verification error, got {:?}", other),
    }
    assert_eq!(svc.plugin_count(), 0);
    assert!(!svc.has_plugin(&name));
    assert_eq!(svc.tool_count(), 0);
}

#[test]
fn fetch_and_instantiation_failures_abort_load() {
    let mut svc = PluginService::new(empty_config());
    let name = "broken".to_string();
    let err = svc
        .apply_load_event(
            &name,
            LoadEvent::FetchFailed {
                message: "connection refused".to_string(),
            },
        )
        .unwrap_err();
    assert!(matches!(err, LoadError::Acquisition { .. }));
    let err = svc
        .apply_load_event(
            &name,
            LoadEvent::InstantiationFailed {
                message: "bad module".to_string(),
            },
        )
        .unwrap_err();
    assert!(matches!(err, LoadError::Instantiation { .. }));
    assert_eq!(svc.plugin_count(), 0);
}

#[test]
fn failed_describe_at_startup_still_registers_plugin() {
    let mut svc = PluginService::new(empty_config());
    let name = "quiet".to_string();
    assert!(svc
        .apply_load_event(&name, LoadEvent::Instantiated { tools: None })
        .is_ok());
    assert_eq!(svc.plugin_count(), 1);
    assert!(svc.has_plugin(&name));
    assert_eq!(svc.tool_count(), 0);
}

#[test]
fn enumeration_skips_plugin_whose_describe_failed() {
    let mut svc = PluginService::new(empty_config());
    let a = "plugin_a".to_string();
    let b = "plugin_b".to_string();
    svc.apply_load_event(
        &a,
        LoadEvent::Instantiated {
            tools: Some(vec![rec("echo")]),
        },
    )
    .unwrap();
    svc.apply_load_event(&b, LoadEvent::Instantiated { tools: None })
        .unwrap();
    let outcomes = vec![
        DescribeOutcome {
            plugin: a.clone(),
            tools: Some(vec![rec("echo")]),
        },
        DescribeOutcome {
            plugin: b.clone(),
            tools: None,
        },
    ];
    let payload = svc.rebuild_index(&outcomes);
    assert_eq!(payload.len(), 1);
    assert_eq!(payload[0].name, "echo");
    assert_eq!(svc.tool_count(), 1);
    assert_eq!(svc.tool_at(0).plugin, "plugin_a");
}

#[test]
fn reenumeration_excludes_later_conflicting_tool() {
    let mut svc = PluginService::new(empty_config());
    let a = "plugin_a".to_string();
    let b = "plugin_b".to_string();
    svc.apply_load_event(
        &a,
        LoadEvent::Instantiated {
            tools: Some(vec![rec("ping")]),
        },
    )
    .unwrap();
    svc.apply_load_event(&b, LoadEvent::Instantiated { tools: None })
        .unwrap();
    let outcomes = vec![
        DescribeOutcome {
            plugin: a.clone(),
            tools: Some(vec![rec("ping"), rec("scan")]),
        },
        DescribeOutcome {
            plugin: b.clone(),
            tools: Some(vec![rec("ping"), rec("probe")]),
        },
    ];
    let payload = svc.rebuild_index(&outcomes);
    let names: Vec<&str> = payload.iter().map(|t| t.name.as_str()).collect();
    assert_eq!(names, vec!["ping", "scan", "probe"]);
    // the earlier plugin keeps the contested name
    assert_eq!(svc.route_call(&"ping".to_string()).unwrap(), "plugin_a");
    assert_eq!(svc.route_call(&"probe".to_string()).unwrap(), "plugin_b");
}

#[test]
fn invoke_echo_returns_payload_and_unknown_tool_is_not_found() {
    let mut svc = PluginService::new(empty_config());
    let a = "plugin_a".to_string();
    svc.apply_load_event(
        &a,
        LoadEvent::Instantiated {
            tools: Some(vec![rec("echo")]),
        },
    )
    .unwrap();

    let owner = svc.route_call(&"echo".to_string()).unwrap();
    assert_eq!(owner, "plugin_a");
    let reply = dispatch_outcome(
        &owner,
        CallOutcome::Reply {
            raw: "{\"content\":[{\"type\":\"text\",\"text\":\"hi\"}]}".to_string(),
        },
    );
    assert_eq!(
        reply.unwrap(),
        "{\"content\":[{\"type\":\"text\",\"text\":\"hi\"}]}"
    );

    let before_tools = svc.tool_count();
    let before_plugins = svc.plugin_count();
    let err = svc.route_call(&"nonexistent".to_string()).unwrap_err();
    assert!(matches!(err, DispatchError::ToolNotFound));
    // the failed lookup left the registry unchanged
    assert_eq!(svc.tool_count(), before_tools);
    assert_eq!(svc.plugin_count(), before_plugins);
}

#[test]
fn dispatch_failure_carries_plugin_name_and_cause() {
    let owner = "plugin_a".to_string();
    let err = dispatch_outcome(
        &owner,
        CallOutcome::Failed {
            message: "trap: out of bounds".to_string(),
        },
    )
    .unwrap_err();
    match err {
        DispatchError::ExecutionFailed { plugin, message } => {
            assert_eq!(plugin, "plugin_a");
            assert_eq!(message, "trap: out of bounds");
        }
        other => panic!("expected execution failure, got {:?}", other),
    }
    let err = dispatch_outcome(
        &owner,
        CallOutcome::Malformed {
            message: "expected value at line 1".to_string(),
        },
    )
    .unwrap_err();
    match err {
        DispatchError::MalformedResponse { message } => {
            assert_eq!(message, "expected value at line 1");
        }
        other => panic!("expected malformed response, got {:?}", other),
    }
}

#[test]
fn lifecycle_replies_are_trivial() {
    assert_eq!(
        lifecycle_reply(&LifecycleRequest::Initialize),
        LifecycleReply::ServerInfo
    );
    assert_eq!(lifecycle_reply(&LifecycleRequest::Ping), LifecycleReply::Ack);
    assert_eq!(
        lifecycle_reply(&LifecycleRequest::Initialized),
        LifecycleReply::NoReply
    );
    assert_eq!(
        lifecycle_reply(&LifecycleRequest::Cancelled),
        LifecycleReply::NoReply
    );
    assert_eq!(
        lifecycle_reply(&LifecycleRequest::Progress),
        LifecycleReply::NoReply
    );
    assert_eq!(
        lifecycle_reply(&LifecycleRequest::Complete),
        LifecycleReply::MethodNotFound
    );
}

#[test]
fn service_keeps_its_configuration() {
    let cfg = Config {
        plugins: vec![plugin_cfg("qr-code", "oci://tuananh/qr-code")],
        insecure_skip_signature: true,
    };
    let svc = PluginService::new(cfg);
    assert_eq!(svc.config().plugins.len(), 1);
    assert!(svc.config().insecure_skip_signature);
    assert_eq!(svc.config().plugins[0].name, "qr-code");
    assert_eq!(svc.plugin_count(), 0);
}

#[test]
fn rebuild_with_no_outcomes_clears_stale_routes() {
    let mut svc = PluginService::new(empty_config());
    let a = "plugin_a".to_string();
    svc.apply_load_event(
        &a,
        LoadEvent::Instantiated {
            tools: Some(vec![rec("echo")]),
        },
    )
    .unwrap();
    assert_eq!(svc.tool_count(), 1);
    let payload = svc.rebuild_index(&vec![]);
    assert!(payload.is_empty());
    assert_eq!(svc.tool_count(), 0);
    assert!(matches!(
        svc.route_call(&"echo".to_string()),
        Err(DispatchError::ToolNotFound)
    ));
    // the plugin itself stays loaded
    assert_eq!(svc.plugin_count(), 1);
}

#[test]
fn plugin_may_declare_its_own_tool_twice() {
    let mut svc = PluginService::new(empty_config());
    let a = "plugin_a".to_string();
    svc.apply_load_event(
        &a,
        LoadEvent::Instantiated {
            tools: Some(vec![rec("echo"), rec("echo")]),
        },
    )
    .unwrap();
    assert_eq!(svc.tool_count(), 1);
    assert_eq!(svc.route_call(&"echo".to_string()).unwrap(), "plugin_a");
}

#[test]
fn bare_registry_scheme_yields_empty_reference() {
    match classify_source("oci://") {
        SourceKind::Registry { reference } => assert_eq!(reference, ""),
        other => panic!("expected registry source, got {:?}", other),
    }
    // SHA-256 of the empty string begins e3b0c44...
    assert_eq!(cache_file_name("p", ""), "p-e3b0c44.wasm");
}

#[test]
fn error_messages_name_plugin_and_cause() {
    let err = LoadError::ToolCollision {
        tool: "ping".to_string(),
        existing: "plugin_a".to_string(),
        plugin: "plugin_b".to_string(),
    };
    assert_eq!(
        err.message(),
        "Tool name collision detected: ping is provided by both plugin_a and plugin_b plugins"
    );
    let err = LoadError::Verification {
        plugin: "signed".to_string(),
        message: "signature mismatch".to_string(),
    };
    assert_eq!(
        err.message(),
        "Signature verification failed for plugin signed: signature mismatch"
    );
    let err = DispatchError::ExecutionFailed {
        plugin: "plugin_a".to_string(),
        message: "trap".to_string(),
    };
    assert_eq!(err.message(), "Failed to execute plugin plugin_a: trap");
    assert_eq!(DispatchError::ToolNotFound.message(), "tool not found");
    let err = DispatchError::MalformedResponse {
        message: "eof".to_string(),
    };
    assert_eq!(err.message(), "Failed to deserialize data: eof");
}
