use minitel::hosts::{
    check_etc_hosts, is_blank_char, leading_token_is, patch_etc_hosts, render_hosts, HostsStatus,
};
use minitel::models::{Definition, GlobalConfig};
use minitel::orchestrator::run_patch_hosts;

fn definition(hostname: &str) -> Definition {
    Definition { services: vec![], hostname: hostname.to_string(), app_name: "shop".to_string() }
}

fn config(minikube_ip: &str) -> GlobalConfig<'_> {
    GlobalConfig {
        host_ip: "10.0.0.5",
        minikube_ip,
        app_name: "shop",
        config_hash: "1",
        project_location: "/project",
    }
}

fn lines(text: &[&str]) -> Vec<String> {
    text.iter().map(|l| l.to_string()).collect()
}

#[test]
fn record_with_the_cluster_address_is_consistent() {
    let file = lines(&["127.0.0.1 localhost", "192.168.49.2 shop.local # minitel application"]);
    let status = check_etc_hosts(&file, &config("192.168.49.2"), &definition("shop.local"));
    assert_eq!(status, HostsStatus::Consistent);
}

#[test]
fn file_without_the_hostname_is_missing_the_record() {
    let file = lines(&["127.0.0.1 localhost", "::1 ip6-localhost"]);
    let status = check_etc_hosts(&file, &config("192.168.49.2"), &definition("shop.local"));
    assert_eq!(status, HostsStatus::Missing);
    let empty: Vec<String> = Vec::new();
    assert_eq!(
        check_etc_hosts(&empty, &config("192.168.49.2"), &definition("shop.local")),
        HostsStatus::Missing
    );
}

#[test]
fn record_with_another_address_is_stale() {
    let file = lines(&["127.0.0.1 localhost", "192.168.49.7 shop.local"]);
    let status = check_etc_hosts(&file, &config("192.168.49.2"), &definition("shop.local"));
    assert_eq!(status, HostsStatus::Stale);
}

#[test]
fn address_is_compared_as_a_whole_field() {
    let file = lines(&["192.168.49.20 shop.local"]);
    let status = check_etc_hosts(&file, &config("192.168.49.2"), &definition("shop.local"));
    assert_eq!(status, HostsStatus::Stale);
    let commented = lines(&["# 192.168.49.2 shop.local"]);
    assert_eq!(
        check_etc_hosts(&commented, &config("192.168.49.2"), &definition("shop.local")),
        HostsStatus::Stale
    );
}

#[test]
fn first_line_that_mentions_the_hostname_decides() {
    let right_first = lines(&["192.168.49.2 shop.local", "10.1.1.1 shop.local"]);
    assert_eq!(
        check_etc_hosts(&right_first, &config("192.168.49.2"), &definition("shop.local")),
        HostsStatus::Consistent
    );
    let wrong_first = lines(&["10.1.1.1 shop.local", "192.168.49.2 shop.local"]);
    assert_eq!(
        check_etc_hosts(&wrong_first, &config("192.168.49.2"), &definition("shop.local")),
        HostsStatus::Stale
    );
}

#[test]
fn leading_token_skips_blanks_and_ends_at_a_blank() {
    assert!(leading_token_is("10.0.0.1 host", "10.0.0.1"));
    assert!(leading_token_is("  \t10.0.0.1\thost", "10.0.0.1"));
    assert!(leading_token_is("10.0.0.1", "10.0.0.1"));
    assert!(leading_token_is("", ""));
    assert!(leading_token_is("   ", ""));
    assert!(!leading_token_is("10.0.0.1 host", "10.0.0"));
    assert!(!leading_token_is("10.0.0.1 host", "host"));
    assert!(is_blank_char(' '));
    assert!(is_blank_char('\t'));
    assert!(!is_blank_char('\n'));
    assert!(!is_blank_char('a'));
}

#[test]
fn patch_keeps_other_lines_and_appends_one_record() {
    let file = lines(&[
        "127.0.0.1 localhost",
        "10.1.1.1 shop.local",
        "",
        "# comment",
        "10.1.1.2 old.shop.local alias",
        "::1 ip6-localhost",
    ]);
    let patched = patch_etc_hosts(&file, &config("192.168.49.2"), &definition("shop.local"));
    assert_eq!(
        patched,
        lines(&[
            "127.0.0.1 localhost",
            "",
            "# comment",
            "::1 ip6-localhost",
            "192.168.49.2 shop.local # minitel application"
        ])
    );
}

#[test]
fn patch_of_an_empty_file_is_the_record_alone() {
    let empty: Vec<String> = Vec::new();
    let patched = patch_etc_hosts(&empty, &config("192.168.49.2"), &definition("shop.local"));
    assert_eq!(patched, lines(&["192.168.49.2 shop.local # minitel application"]));
}

#[test]
fn patch_is_idempotent() {
    let file = lines(&["127.0.0.1 localhost", "10.1.1.1 shop.local", "::1 ip6-localhost"]);
    let once = patch_etc_hosts(&file, &config("192.168.49.2"), &definition("shop.local"));
    let twice = patch_etc_hosts(&once, &config("192.168.49.2"), &definition("shop.local"));
    assert_eq!(once, twice);
    let mentions = twice.iter().filter(|l| l.contains("shop.local")).count();
    assert_eq!(mentions, 1);
}

#[test]
fn patched_file_is_consistent() {
    let file = lines(&["127.0.0.1 localhost", "10.1.1.1 shop.local"]);
    let patched = patch_etc_hosts(&file, &config("192.168.49.2"), &definition("shop.local"));
    assert_eq!(
        check_etc_hosts(&patched, &config("192.168.49.2"), &definition("shop.local")),
        HostsStatus::Consistent
    );
}

#[test]
fn rendered_file_ends_every_line_with_a_line_feed() {
    assert_eq!(render_hosts(&lines(&["a", "", "b c"])), "a\n\nb c\n");
    assert_eq!(render_hosts(&Vec::new()), "");
}

#[test]
fn patch_hosts_command_gives_the_new_file() {
    let file = lines(&["127.0.0.1 localhost", "10.1.1.1 shop.local"]);
    let text = run_patch_hosts(&file, &config("192.168.49.2"), &definition("shop.local"));
    assert_eq!(text, "127.0.0.1 localhost\n192.168.49.2 shop.local # minitel application\n");
}
