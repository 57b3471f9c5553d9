use bearcds::challenge::Expose;
use bearcds::errors::ConfigError;
use bearcds::router::{build_tables, dial_target, ResolvedExposure};

fn http(service: &str, name: &str, machine: &str, sub: &str, target: u32) -> ResolvedExposure {
    ResolvedExposure {
        service: service.to_string(),
        name: name.to_string(),
        machine_id: machine.to_string(),
        expose: Expose::Http { target, http: sub.to_string() },
    }
}

fn tcp(service: &str, name: &str, machine: &str, port: u32, target: u32) -> ResolvedExposure {
    ResolvedExposure {
        service: service.to_string(),
        name: name.to_string(),
        machine_id: machine.to_string(),
        expose: Expose::Tcp { target, tcp: port },
    }
}

#[test]
fn dial_target_formats_the_private_address() {
    assert_eq!(
        dial_target("m123", "bearapp", 8080),
        "m123.vm.bearapp.internal:8080"
    );
}

#[test]
fn distinct_subdomains_build_two_http_routes() {
    let entries = vec![
        http("web/a", "web-a-main", "m1", "a", 80),
        http("web/b", "web-b-main", "m2", "b", 3000),
    ];
    let tables = build_tables(&entries, "bearapp").unwrap();
    assert_eq!(tables.http.len(), 2);
    assert_eq!(tables.tcp.len(), 0);
    assert_eq!(tables.http[0].subdomain, "a");
    assert_eq!(tables.http[0].target, "m1.vm.bearapp.internal:80");
    assert_eq!(tables.http[1].subdomain, "b");
    assert_eq!(tables.http[1].target, "m2.vm.bearapp.internal:3000");
}

#[test]
fn duplicate_tcp_port_names_both_services() {
    let entries = vec![
        tcp("pwn/one", "pwn-one-main", "m1", 9001, 31337),
        tcp("pwn/two", "pwn-two-main", "m2", 9001, 31337),
    ];
    let err = build_tables(&entries, "bearapp").unwrap_err();
    assert_eq!(
        err,
        ConfigError::DuplicateTcpPort {
            port: 9001,
            first_service: "pwn/one".to_string(),
            second_service: "pwn/two".to_string(),
        }
    );
    assert_eq!(
        err.message(),
        "tcp port 9001 is declared by both pwn/one and pwn/two"
    );
}

#[test]
fn duplicate_subdomain_names_both_services() {
    let entries = vec![
        http("web/a", "web-a-main", "m1", "shop", 80),
        http("web/b", "web-b-main", "m2", "shop", 80),
    ];
    let err = build_tables(&entries, "bearapp").unwrap_err();
    assert_eq!(
        err,
        ConfigError::DuplicateSubdomain {
            subdomain: "shop".to_string(),
            first_service: "web/a".to_string(),
            second_service: "web/b".to_string(),
        }
    );
}

#[test]
fn same_port_on_tcp_and_subdomain_on_http_are_independent() {
    let entries = vec![
        tcp("pwn/one", "pwn-one-main", "m1", 9001, 31337),
        http("web/a", "web-a-main", "m2", "a", 80),
        tcp("pwn/two", "pwn-two-main", "m3", 9002, 31337),
    ];
    let tables = build_tables(&entries, "bearapp").unwrap();
    assert_eq!(tables.http.len(), 1);
    assert_eq!(tables.tcp.len(), 2);
    assert_eq!(tables.tcp[0].port, 9001);
    assert_eq!(tables.tcp[0].name, "pwn-one-main");
    assert_eq!(tables.tcp[1].port, 9002);
}
