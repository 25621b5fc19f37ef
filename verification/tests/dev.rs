use minitel::dev::{
    build_development_env, get_script, join_path, service_development_url,
    start_development_service, stop_development_service,
};
use minitel::models::{Definition, DeployMode, Service, ServiceConfig, ServiceConfigs};

fn sample_definition() -> Definition {
    Definition {
        services: vec![
            Service { name: "api".to_string(), port: 8080, cluster_prefix: Some("/api".to_string()) },
            Service { name: "worker".to_string(), port: 9000, cluster_prefix: None },
            Service { name: "mail".to_string(), port: 2525, cluster_prefix: None },
        ],
        hostname: "app.local".to_string(),
        app_name: "shop".to_string(),
    }
}

fn pair(a: &str, b: &str) -> (String, String) {
    (a.to_string(), b.to_string())
}

#[test]
fn development_env_has_one_variable_per_service() {
    let mut cfg: ServiceConfigs = ServiceConfigs::new();
    cfg.insert("mail".to_string(), ServiceConfig { deploy: DeployMode::Local });
    let env = build_development_env(&sample_definition(), &cfg);
    assert_eq!(
        env,
        vec![
            pair("API_SERVICE", "http://app.local/api"),
            pair("WORKER_SERVICE", "http://app.local/"),
            pair("MAIL_SERVICE", "http://localhost:2525"),
        ]
    );
}

#[test]
fn development_env_of_no_services_is_empty() {
    let def = Definition { services: vec![], hostname: "h".to_string(), app_name: "a".to_string() };
    let cfg: ServiceConfigs = ServiceConfigs::new();
    assert!(build_development_env(&def, &cfg).is_empty());
}

#[test]
fn development_url_follows_the_mode() {
    let service = Service { name: "api".to_string(), port: 81, cluster_prefix: Some("/v1".to_string()) };
    assert_eq!(service_development_url("h.local", &service, DeployMode::Cluster), "http://h.local/v1");
    assert_eq!(service_development_url("h.local", &service, DeployMode::Local), "http://localhost:81");
}

#[test]
fn paths_are_joined_as_on_unix() {
    assert_eq!(join_path("/project", "services"), "/project/services");
    assert_eq!(join_path("/project/", "services"), "/project/services");
    assert_eq!(join_path("", "services"), "services");
    assert_eq!(join_path("/project", "/abs"), "/abs");
    assert_eq!(join_path("/project", ""), "/project/");
    assert_eq!(join_path("/", "x"), "/x");
}

#[test]
fn paths_are_joined_as_the_standard_library_joins_them() {
    for (base, component) in
        [("/a", "b"), ("/a/", "b"), ("", "b"), ("a", "/b"), ("a", ""), ("/", "b"), ("a/b", "c/d")]
    {
        let expected = std::path::Path::new(base).join(component);
        assert_eq!(join_path(base, component), expected.to_str().unwrap());
    }
}

#[test]
fn script_lies_below_the_services_directory() {
    assert_eq!(get_script("/project", "api", "start.sh"), "/project/services/api/start.sh");
    assert_eq!(get_script("/project/", "api", "stop.sh"), "/project/services/api/stop.sh");
}

#[test]
fn start_script_runs_in_the_service_directory_with_its_port() {
    let def = sample_definition();
    let env = vec![pair("API_SERVICE", "http://app.local/api"), pair("PORT", "1")];
    let call = start_development_service("/project", &def.services[0], &env);
    assert_eq!(call.program, "/project/services/api/start.sh");
    assert!(call.args.is_empty());
    assert_eq!(call.working_dir, Some("/project/services/api".to_string()));
    assert_eq!(
        call.env,
        vec![pair("API_SERVICE", "http://app.local/api"), pair("PORT", "1"), pair("PORT", "8080")]
    );
    assert_eq!(call.stdin, None);
}

#[test]
fn stop_script_is_called_like_the_start_script() {
    let def = sample_definition();
    let env: Vec<(String, String)> = Vec::new();
    let call = stop_development_service("/project", &def.services[1], &env);
    assert_eq!(call.program, "/project/services/worker/stop.sh");
    assert_eq!(call.working_dir, Some("/project/services/worker".to_string()));
    assert_eq!(call.env, vec![pair("PORT", "9000")]);
}
