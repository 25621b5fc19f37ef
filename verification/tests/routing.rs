use minitel::k8s::{
    build_routing_definition, create_config_map_ref, routing_document, routing_key_from_upper,
    service_routing_key, service_routing_url,
};
use minitel::models::{resolve_mode, Definition, DeployMode, Service, ServiceConfig, ServiceConfigs};
use minitel::value::ConfigValue;

fn sample_definition() -> Definition {
    Definition {
        services: vec![
            Service { name: "api".to_string(), port: 8080, cluster_prefix: Some("/api".to_string()) },
            Service { name: "worker".to_string(), port: 9000, cluster_prefix: None },
        ],
        hostname: "app.local".to_string(),
        app_name: "shop".to_string(),
    }
}

fn no_overrides() -> ServiceConfigs {
    ServiceConfigs::new()
}

fn worker_local() -> ServiceConfigs {
    let mut cfg: ServiceConfigs = ServiceConfigs::new();
    cfg.insert("worker".to_string(), ServiceConfig { deploy: DeployMode::Local });
    cfg
}

fn text_at<'a>(doc: &'a ConfigValue, path: &[&str]) -> Option<&'a str> {
    let mut cur = doc;
    for key in path {
        cur = cur.get(key)?;
    }
    match cur {
        ConfigValue::String(s) => Some(s.as_str()),
        _ => None,
    }
}

fn entries_at<'a>(doc: &'a ConfigValue, key: &str) -> &'a Vec<(String, ConfigValue)> {
    match doc.get(key) {
        Some(ConfigValue::Mapping(entries)) => entries,
        other => panic!("no mapping under {}: {:?}", key, other),
    }
}

#[test]
fn routing_entries_default_to_cluster() {
    let doc = routing_document(&sample_definition(), &no_overrides(), "4242");
    assert_eq!(text_at(&doc, &["data", "API_SERVICE"]), Some("http://api-service"));
    assert_eq!(text_at(&doc, &["data", "WORKER_SERVICE"]), Some("http://worker-service"));
}

#[test]
fn routing_entry_of_local_service_points_at_host() {
    let doc = routing_document(&sample_definition(), &worker_local(), "4242");
    assert_eq!(
        text_at(&doc, &["data", "WORKER_SERVICE"]),
        Some("http://host.minikube.internal:9000")
    );
    assert_eq!(text_at(&doc, &["data", "API_SERVICE"]), Some("http://api-service"));
}

#[test]
fn routing_object_has_one_entry_per_service_in_order() {
    let doc = routing_document(&sample_definition(), &worker_local(), "7");
    let data = entries_at(&doc, "data");
    assert_eq!(data.len(), 2);
    assert_eq!(data[0].0, "API_SERVICE");
    assert_eq!(data[0].1, ConfigValue::String("http://api-service".to_string()));
    assert_eq!(data[1].0, "WORKER_SERVICE");
    assert_eq!(data[1].1, ConfigValue::String("http://host.minikube.internal:9000".to_string()));
}

#[test]
fn routing_object_ignores_cluster_prefix() {
    let mut def = sample_definition();
    let with_prefix = routing_document(&def, &no_overrides(), "1");
    def.services[0].cluster_prefix = None;
    let without_prefix = routing_document(&def, &no_overrides(), "1");
    assert_eq!(with_prefix, without_prefix);
}

#[test]
fn routing_object_is_named_and_labelled() {
    let doc = routing_document(&sample_definition(), &no_overrides(), "4242");
    assert_eq!(text_at(&doc, &["apiVersion"]), Some("v1"));
    assert_eq!(text_at(&doc, &["kind"]), Some("ConfigMap"));
    assert_eq!(text_at(&doc, &["metadata", "name"]), Some("shop-routing-4242"));
    assert_eq!(text_at(&doc, &["metadata", "labels", "minitel-app"]), Some("minitel"));
    assert_eq!(text_at(&doc, &["metadata", "labels", "app"]), Some("shop"));
}

#[test]
fn routing_definition_text_is_exact() {
    let text = build_routing_definition(&sample_definition(), &worker_local(), "4242").unwrap();
    let expected = "---\n\
apiVersion: v1\n\
kind: ConfigMap\n\
metadata:\n  name: shop-routing-4242\n  labels:\n    minitel-app: minitel\n    app: shop\n\
data:\n  API_SERVICE: \"http://api-service\"\n  WORKER_SERVICE: \"http://host.minikube.internal:9000\"\n";
    assert_eq!(text, expected);
}

#[test]
fn routing_definition_is_deterministic() {
    let first = build_routing_definition(&sample_definition(), &worker_local(), "99").unwrap();
    let second = build_routing_definition(&sample_definition(), &worker_local(), "99").unwrap();
    assert_eq!(first, second);
}

#[test]
fn routing_objects_of_two_runs_differ_by_name_only() {
    let first = routing_document(&sample_definition(), &worker_local(), "1");
    let second = routing_document(&sample_definition(), &worker_local(), "2");
    assert_ne!(text_at(&first, &["metadata", "name"]), text_at(&second, &["metadata", "name"]));
    assert_eq!(first.get("data"), second.get("data"));
    assert_eq!(
        first.get("metadata").unwrap().get("labels"),
        second.get("metadata").unwrap().get("labels")
    );
    assert_eq!(first.get("apiVersion"), second.get("apiVersion"));
    assert_eq!(first.get("kind"), second.get("kind"));
}

#[test]
fn services_with_the_same_key_share_one_entry() {
    let def = Definition {
        services: vec![
            Service { name: "api".to_string(), port: 1, cluster_prefix: None },
            Service { name: "web".to_string(), port: 2, cluster_prefix: None },
            Service { name: "API".to_string(), port: 3, cluster_prefix: None },
        ],
        hostname: "h".to_string(),
        app_name: "a".to_string(),
    };
    let doc = routing_document(&def, &no_overrides(), "0");
    let data = entries_at(&doc, "data");
    assert_eq!(data.len(), 2);
    assert_eq!(data[0].0, "API_SERVICE");
    assert_eq!(data[0].1, ConfigValue::String("http://API-service".to_string()));
    assert_eq!(data[1].0, "WEB_SERVICE");
}

#[test]
fn definition_without_services_has_empty_data() {
    let def = Definition { services: vec![], hostname: "h".to_string(), app_name: "a".to_string() };
    let doc = routing_document(&def, &no_overrides(), "0");
    assert!(entries_at(&doc, "data").is_empty());
}

#[test]
fn routing_key_is_upper_case_name_with_suffix() {
    assert_eq!(service_routing_key("api"), "API_SERVICE");
    assert_eq!(service_routing_key("my-worker2"), "MY-WORKER2_SERVICE");
    assert_eq!(service_routing_key("straße"), "STRASSE_SERVICE");
    assert_eq!(routing_key_from_upper("X"), "X_SERVICE");
}

#[test]
fn routing_url_follows_the_mode() {
    let service = Service { name: "api".to_string(), port: -5, cluster_prefix: None };
    assert_eq!(service_routing_url(&service, DeployMode::Cluster), "http://api-service");
    assert_eq!(service_routing_url(&service, DeployMode::Local), "http://host.minikube.internal:-5");
}

#[test]
fn config_map_ref_joins_name_and_hash() {
    assert_eq!(create_config_map_ref("shop", "4242"), "shop-routing-4242");
    assert_eq!(create_config_map_ref("", ""), "-routing-");
}

#[test]
fn mode_falls_back_to_cluster() {
    let cfg = worker_local();
    assert_eq!(resolve_mode(&cfg, "worker"), DeployMode::Local);
    assert_eq!(resolve_mode(&cfg, "api"), DeployMode::Cluster);
    assert_eq!(resolve_mode(&no_overrides(), "worker"), DeployMode::Cluster);
}
