use minitel::docker::build_service_image;
use minitel::k8s::{
    build_routing_definition, build_service_cluster_definition, build_service_local_definition,
    kubectl_apply, kubectl_delete_all, K8sServiceConfig,
};
use minitel::minikube::{get_host_ip, get_minikube_ip, host_ip_query, minikube_ip_query};
use minitel::models::{Definition, DeployMode, GlobalConfig, Service, ServiceConfig, ServiceConfigs};
use minitel::orchestrator::{
    config_hash_from, configure_routing, deploy_local, deploy_to_cluster, new_config_hash,
    parse_command, run_down, run_help, run_patch_hosts_as_sudo, run_up, start_service,
    validate_and_apply_extras, Command, UpEvent, UpPhase, UpRun, UpStep,
};
use minitel::process::call;
use minitel::yaml::ManifestError;

fn sample_definition() -> Definition {
    Definition {
        services: vec![
            Service { name: "api".to_string(), port: 8080, cluster_prefix: Some("/api".to_string()) },
            Service { name: "worker".to_string(), port: 9000, cluster_prefix: None },
        ],
        hostname: "shop.local".to_string(),
        app_name: "shop".to_string(),
    }
}

fn worker_local() -> ServiceConfigs {
    let mut cfg: ServiceConfigs = ServiceConfigs::new();
    cfg.insert("worker".to_string(), ServiceConfig { deploy: DeployMode::Local });
    cfg
}

fn global() -> GlobalConfig<'static> {
    GlobalConfig {
        host_ip: "10.0.0.5",
        minikube_ip: "192.168.49.2",
        app_name: "shop",
        config_hash: "4242",
        project_location: "/project",
    }
}

fn strings(words: &[&str]) -> Vec<String> {
    words.iter().map(|w| w.to_string()).collect()
}

fn new_run() -> UpRun {
    UpRun::new("/project".to_string(), "/usr/bin/minitel".to_string(), "4242".to_string())
}

fn observed(hosts: Option<Vec<String>>) -> UpEvent {
    UpEvent::Observed {
        succeeded: true,
        host_ip: Some("10.0.0.5".to_string()),
        minikube_ip: Some("192.168.49.2".to_string()),
        hosts,
    }
}

fn step(run: UpRun, cfg: &ServiceConfigs, event: UpEvent) -> UpStep {
    run_up(run, &sample_definition(), cfg, event)
}

fn run_until_hosts_reconciled(cfg: &ServiceConfigs) -> UpRun {
    let first = step(new_run(), cfg, UpEvent::Started);
    let second = step(first.run, cfg, observed(Some(strings(&["192.168.49.2 shop.local"]))));
    assert_eq!(second.run.phase, UpPhase::HostsReconciled);
    second.run
}

fn run_until_extras_applied(cfg: &ServiceConfigs) -> UpRun {
    let third = step(
        run_until_hosts_reconciled(cfg),
        cfg,
        UpEvent::ExtrasRead { succeeded: true, extras: vec![] },
    );
    assert_eq!(third.run.phase, UpPhase::ExtrasApplied);
    third.run
}

#[test]
fn command_is_read_from_the_first_argument() {
    assert_eq!(parse_command(Some("up")), Command::Up);
    assert_eq!(parse_command(Some("down")), Command::Down);
    assert_eq!(parse_command(Some("patch-hosts")), Command::PatchHosts);
    assert_eq!(parse_command(Some("UP")), Command::Help);
    assert_eq!(parse_command(Some("")), Command::Help);
    assert_eq!(parse_command(None), Command::Help);
    assert_eq!(run_help(), "usage: minitel <up | down>");
}

#[test]
fn hash_is_the_numeral_of_the_token() {
    assert_eq!(config_hash_from(0), "0");
    assert_eq!(config_hash_from(4242), "4242");
    assert_eq!(config_hash_from(65535), "65535");
}

#[test]
fn fresh_hash_is_the_numeral_of_a_16_bit_number() {
    for _ in 0..50 {
        let hash = new_config_hash();
        let token: u16 = hash.parse().unwrap();
        assert_eq!(hash, format!("{}", token));
    }
}

#[test]
fn image_is_built_from_the_service_directory() {
    let build = build_service_image("/project", "shop", "api");
    assert_eq!(build, call("docker", strings(&["build", "-t", "shop-api", "/project/services/api"])));
}

#[test]
fn address_queries_call_minikube() {
    assert_eq!(
        host_ip_query(),
        call(
            "sh",
            strings(&["-c", "minikube ssh cat /etc/hosts | grep host.minikube.internal | cut -f1"])
        )
    );
    assert_eq!(minikube_ip_query(), call("minikube", strings(&["ip"])));
}

#[test]
fn reported_address_is_trimmed() {
    assert_eq!(get_host_ip(true, "192.168.49.1\r\n"), Some("192.168.49.1".to_string()));
    assert_eq!(get_minikube_ip(true, " 192.168.49.2 \n"), Some("192.168.49.2".to_string()));
    assert_eq!(get_minikube_ip(true, "192.168.49.2"), Some("192.168.49.2".to_string()));
}

#[test]
fn failed_or_silent_query_reports_no_address() {
    assert_eq!(get_host_ip(false, "192.168.49.1\n"), None);
    assert_eq!(get_host_ip(true, ""), None);
    assert_eq!(get_minikube_ip(false, ""), None);
    assert_eq!(get_minikube_ip(true, ""), None);
}

#[test]
fn query_that_printed_only_white_space_reports_no_address() {
    assert_eq!(get_minikube_ip(true, "\n"), None);
    assert_eq!(get_host_ip(true, " \t\r\n"), None);
    assert_eq!(get_host_ip(true, "\u{a0}\u{2003}"), None);
}

#[test]
fn cluster_service_is_built_then_applied() {
    let def = sample_definition();
    let actions = deploy_to_cluster(&global(), &def.services[0]).unwrap();
    let manifest = build_service_cluster_definition(&K8sServiceConfig {
        service_name: "api",
        app_name: "shop",
        host_ip: "10.0.0.5",
        service_port: 8080,
        config_hash: "4242",
    })
    .unwrap();
    assert_eq!(actions, vec![build_service_image("/project", "shop", "api"), kubectl_apply(&manifest)]);
}

#[test]
fn local_service_is_applied_without_a_build() {
    let def = sample_definition();
    let actions = deploy_local(&global(), &def.services[1]).unwrap();
    let manifest = build_service_local_definition(&K8sServiceConfig {
        service_name: "worker",
        app_name: "shop",
        host_ip: "10.0.0.5",
        service_port: 9000,
        config_hash: "4242",
    })
    .unwrap();
    assert_eq!(actions, vec![kubectl_apply(&manifest)]);
}

#[test]
fn service_is_started_in_its_mode() {
    let def = sample_definition();
    let in_cluster = start_service(&global(), &def.services[0], &ServiceConfig { deploy: DeployMode::Cluster });
    assert_eq!(in_cluster, deploy_to_cluster(&global(), &def.services[0]));
    let on_host = start_service(&global(), &def.services[0], &ServiceConfig { deploy: DeployMode::Local });
    assert_eq!(on_host, deploy_local(&global(), &def.services[0]));
}

#[test]
fn elevated_patch_calls_the_tool_through_sudo() {
    assert_eq!(
        run_patch_hosts_as_sudo("/usr/bin/minitel"),
        call("sh", strings(&["-c", "sudo /usr/bin/minitel patch-hosts"]))
    );
}

#[test]
fn teardown_is_one_bulk_removal() {
    assert_eq!(run_down(), vec![kubectl_delete_all()]);
}

#[test]
fn routing_is_published_by_one_apply() {
    let actions = configure_routing(&sample_definition(), &worker_local(), "4242").unwrap();
    let manifest = build_routing_definition(&sample_definition(), &worker_local(), "4242").unwrap();
    assert_eq!(actions, vec![kubectl_apply(&manifest)]);
}

#[test]
fn extras_are_tagged_before_they_are_applied() {
    let extras = strings(&[
        "kind: Ingress\nmetadata:\n  labels:\n    app: shop\n",
        "kind: Namespace\n---\nkind: Other\n",
    ]);
    let plan = validate_and_apply_extras(&extras).unwrap();
    assert_eq!(
        plan.actions,
        vec![
            kubectl_apply("---\nkind: Ingress\nmetadata:\n  labels:\n    app: shop\n    minitel-app: minitel\n"),
            kubectl_apply("---\nkind: Namespace\n...\n---\nkind: Other\n"),
        ]
    );
    assert_eq!(plan.untagged, vec![0, 2]);
}

#[test]
fn nothing_is_applied_when_one_extra_cannot_be_read() {
    let extras = strings(&["kind: Namespace\n", "kind: [broken\n"]);
    assert_eq!(validate_and_apply_extras(&extras).unwrap_err(), ManifestError::Parse);
    let unsupported = strings(&["flag: true\n"]);
    assert_eq!(validate_and_apply_extras(&unsupported).unwrap_err(), ManifestError::Unsupported);
}

#[test]
fn run_starts_by_publishing_the_routing_object() {
    let cfg = worker_local();
    let first = step(new_run(), &cfg, UpEvent::Started);
    assert_eq!(first.run.phase, UpPhase::RoutingPublished);
    let manifest = build_routing_definition(&sample_definition(), &cfg, "4242").unwrap();
    assert_eq!(first.actions, vec![kubectl_apply(&manifest)]);
    assert!(first.untagged.is_empty());
    assert_eq!(first.run.config_hash, "4242");
}

#[test]
fn stale_record_is_patched_with_elevated_privilege() {
    let cfg = worker_local();
    let first = step(new_run(), &cfg, UpEvent::Started);
    let second = step(first.run, &cfg, observed(Some(strings(&["10.1.1.1 shop.local"]))));
    assert_eq!(second.run.phase, UpPhase::HostsReconciled);
    assert_eq!(second.run.host_ip, "10.0.0.5");
    assert_eq!(second.run.minikube_ip, "192.168.49.2");
    assert_eq!(second.actions, vec![run_patch_hosts_as_sudo("/usr/bin/minitel")]);
}

#[test]
fn missing_record_is_patched_with_elevated_privilege() {
    let cfg = worker_local();
    let first = step(new_run(), &cfg, UpEvent::Started);
    let second = step(first.run, &cfg, observed(Some(strings(&["127.0.0.1 localhost"]))));
    assert_eq!(second.actions, vec![run_patch_hosts_as_sudo("/usr/bin/minitel")]);
}

#[test]
fn consistent_record_needs_no_patch() {
    let cfg = worker_local();
    let first = step(new_run(), &cfg, UpEvent::Started);
    let second = step(first.run, &cfg, observed(Some(strings(&["192.168.49.2 shop.local"]))));
    assert_eq!(second.run.phase, UpPhase::HostsReconciled);
    assert!(second.actions.is_empty());
}

#[test]
fn unreadable_resolution_file_ends_the_run() {
    let cfg = worker_local();
    let first = step(new_run(), &cfg, UpEvent::Started);
    let second = step(first.run, &cfg, observed(None));
    assert_eq!(second.run.phase, UpPhase::Failed);
    assert!(second.actions.is_empty());
    let after = step(second.run, &cfg, UpEvent::ExtrasRead { succeeded: true, extras: vec![] });
    assert_eq!(after.run.phase, UpPhase::Failed);
    assert!(after.actions.is_empty());
}

#[test]
fn unknown_address_ends_the_run() {
    let cfg = worker_local();
    let first = step(new_run(), &cfg, UpEvent::Started);
    let event = UpEvent::Observed {
        succeeded: true,
        host_ip: None,
        minikube_ip: Some("192.168.49.2".to_string()),
        hosts: Some(strings(&["192.168.49.2 shop.local"])),
    };
    let second = step(first.run, &cfg, event);
    assert_eq!(second.run.phase, UpPhase::Failed);
    assert!(second.actions.is_empty());
}

#[test]
fn failed_apply_ends_the_run() {
    let cfg = worker_local();
    let first = step(new_run(), &cfg, UpEvent::Started);
    let event = UpEvent::Observed {
        succeeded: false,
        host_ip: Some("10.0.0.5".to_string()),
        minikube_ip: Some("192.168.49.2".to_string()),
        hosts: Some(strings(&["192.168.49.2 shop.local"])),
    };
    let second = step(first.run, &cfg, event);
    assert_eq!(second.run.phase, UpPhase::Failed);
    assert!(second.actions.is_empty());
}

#[test]
fn extras_follow_the_reconciliation() {
    let cfg = worker_local();
    let extras = strings(&["kind: Namespace\n"]);
    let third = step(
        run_until_hosts_reconciled(&cfg),
        &cfg,
        UpEvent::ExtrasRead { succeeded: true, extras },
    );
    assert_eq!(third.run.phase, UpPhase::ExtrasApplied);
    assert_eq!(third.actions, vec![kubectl_apply("---\nkind: Namespace\n")]);
    assert_eq!(third.untagged, vec![1]);
}

#[test]
fn unreadable_extra_ends_the_run() {
    let cfg = worker_local();
    let extras = strings(&["kind: [broken\n"]);
    let third = step(
        run_until_hosts_reconciled(&cfg),
        &cfg,
        UpEvent::ExtrasRead { succeeded: true, extras },
    );
    assert_eq!(third.run.phase, UpPhase::Failed);
    assert!(third.actions.is_empty());
}

#[test]
fn services_are_deployed_one_by_one_in_their_modes() {
    let cfg = worker_local();
    let def = sample_definition();
    let fourth = step(run_until_extras_applied(&cfg), &cfg, UpEvent::Completed { succeeded: true });
    assert_eq!(fourth.run.phase, UpPhase::PerServiceDeployed(1));
    assert_eq!(fourth.actions, deploy_to_cluster(&global(), &def.services[0]).unwrap());
    let fifth = step(fourth.run, &cfg, UpEvent::Completed { succeeded: true });
    assert_eq!(fifth.run.phase, UpPhase::PerServiceDeployed(2));
    assert_eq!(fifth.actions, deploy_local(&global(), &def.services[1]).unwrap());
    let last = step(fifth.run, &cfg, UpEvent::Completed { succeeded: true });
    assert_eq!(last.run.phase, UpPhase::Done);
    assert!(last.actions.is_empty());
}

#[test]
fn run_without_services_is_done_after_the_extras() {
    let cfg: ServiceConfigs = ServiceConfigs::new();
    let def = Definition { services: vec![], hostname: "h".to_string(), app_name: "a".to_string() };
    let first = run_up(new_run(), &def, &cfg, UpEvent::Started);
    let second = run_up(first.run, &def, &cfg, observed(Some(vec![])));
    let third = run_up(second.run, &def, &cfg, UpEvent::ExtrasRead { succeeded: true, extras: vec![] });
    let fourth = run_up(third.run, &def, &cfg, UpEvent::Completed { succeeded: true });
    assert_eq!(fourth.run.phase, UpPhase::Done);
    assert!(fourth.actions.is_empty());
}

#[test]
fn failed_deployment_ends_the_run() {
    let cfg = worker_local();
    let fourth = step(run_until_extras_applied(&cfg), &cfg, UpEvent::Completed { succeeded: true });
    let fifth = step(fourth.run, &cfg, UpEvent::Completed { succeeded: false });
    assert_eq!(fifth.run.phase, UpPhase::Failed);
    assert!(fifth.actions.is_empty());
}

#[test]
fn report_out_of_order_ends_the_run() {
    let cfg = worker_local();
    let early = step(new_run(), &cfg, UpEvent::Completed { succeeded: true });
    assert_eq!(early.run.phase, UpPhase::Failed);
    assert!(early.actions.is_empty());
    let first = step(new_run(), &cfg, UpEvent::Started);
    let again = step(first.run, &cfg, UpEvent::Started);
    assert_eq!(again.run.phase, UpPhase::Failed);
    let after_failure = step(again.run, &cfg, UpEvent::Started);
    assert_eq!(after_failure.run.phase, UpPhase::Failed);
}

#[test]
fn finished_run_takes_no_further_step() {
    let cfg: ServiceConfigs = ServiceConfigs::new();
    let def = Definition { services: vec![], hostname: "h".to_string(), app_name: "a".to_string() };
    let mut run = new_run();
    run.phase = UpPhase::Done;
    let after = run_up(run, &def, &cfg, UpEvent::Completed { succeeded: true });
    assert_eq!(after.run.phase, UpPhase::Failed);
    assert!(after.actions.is_empty());
}
