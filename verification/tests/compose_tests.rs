use bearcds::compose::{http_routes_json, ingress_services, load_config_argv, proxy_config_text};
use bearcds::json::Json;
use bearcds::render::to_json_text;
use bearcds::router::{HttpRoute, RoutingTables, TcpRoute};

fn hroute(sub: &str, service: &str, target: &str) -> HttpRoute {
    HttpRoute {
        subdomain: sub.to_string(),
        service: service.to_string(),
        target: target.to_string(),
    }
}

const NOT_FOUND: &str =
    "{\"handle\":[{\"handler\":\"static_response\",\"status_code\":404,\"body\":\"Not Found\"}]}";

#[test]
fn two_http_exposures_give_two_routes_and_a_terminal_404_last() {
    let routes = vec![
        hroute("a", "web/a", "m1.vm.app.internal:80"),
        hroute("b", "web/b", "m2.vm.app.internal:81"),
    ];
    let json = http_routes_json(&routes, "ctf.example.com");
    assert_eq!(json.len(), 3);
    let texts: Vec<String> = json.iter().map(|j| to_json_text(j)).collect();
    assert_eq!(
        texts[0],
        "{\"match\":[{\"host\":[\"a.ctf.example.com\"]}],\"handle\":[{\"handler\":\"reverse_proxy\",\"upstreams\":[{\"dial\":\"m1.vm.app.internal:80\"}]}]}"
    );
    assert_eq!(
        texts[1],
        "{\"match\":[{\"host\":[\"b.ctf.example.com\"]}],\"handle\":[{\"handler\":\"reverse_proxy\",\"upstreams\":[{\"dial\":\"m2.vm.app.internal:81\"}]}]}"
    );
    assert_eq!(texts[2], NOT_FOUND);
}

#[test]
fn no_exposures_still_give_the_terminal_404() {
    let json = http_routes_json(&vec![], "ctf.example.com");
    assert_eq!(json.len(), 1);
    assert_eq!(to_json_text(&json[0]), NOT_FOUND);
}

#[test]
fn empty_tables_compose_the_bare_document() {
    let tables = RoutingTables { http: vec![], tcp: vec![] };
    let text = proxy_config_text(&tables, "ctf.example.com", &Json::Obj(vec![]));
    let expected = format!(
        "{{\"apps\":{{\"layer4\":{{\"servers\":{{}}}},\"http\":{{\"servers\":{{\"bear-cds-http\":{{\"listen\":[\":80\"],\"routes\":[{{\"handle\":[{{\"handler\":\"subroute\",\"routes\":[{NOT_FOUND}]}}],\"match\":[{{\"host\":[\"*.ctf.example.com\"]}}]}}]}}}}}}}}}}"
    );
    assert_eq!(text, expected);
}

#[test]
fn tcp_route_appears_as_a_layer4_server_keyed_by_machine_name() {
    let tables = RoutingTables {
        http: vec![],
        tcp: vec![TcpRoute {
            port: 9001,
            service: "pwn/one".to_string(),
            name: "pwn-one-main".to_string(),
            target: "m1.vm.app.internal:31337".to_string(),
        }],
    };
    let text = proxy_config_text(&tables, "ctf.example.com", &Json::Obj(vec![]));
    assert!(text.contains(
        "\"servers\":{\"pwn-one-main\":{\"listen\":[\"0.0.0.0:9001\"],\"routes\":[{\"handle\":[{\"handler\":\"proxy\",\"upstreams\":[{\"dial\":[\"m1.vm.app.internal:31337\"]}]}]}]}}"
    ));
}

#[test]
fn operator_override_merges_into_the_composed_text() {
    let tables = RoutingTables { http: vec![], tcp: vec![] };
    let overlay = Json::Obj(vec![(
        "admin".to_string(),
        Json::Obj(vec![("disabled".to_string(), Json::Bool(true))]),
    )]);
    let text = proxy_config_text(&tables, "ctf.example.com", &overlay);
    assert!(text.ends_with(",\"admin\":{\"disabled\":true}}"));
    assert!(text.starts_with("{\"apps\":"));
}

#[test]
fn ingress_serves_every_tcp_port_then_the_web_ports() {
    let tcp = vec![
        TcpRoute {
            port: 9001,
            service: "pwn/one".to_string(),
            name: "pwn-one-main".to_string(),
            target: "m1.vm.app.internal:31337".to_string(),
        },
    ];
    let services = ingress_services(&tcp);
    assert_eq!(services.len(), 3);
    assert_eq!(services[0].protocol, "tcp");
    assert_eq!(services[0].internal_port, 9001);
    assert_eq!(services[0].ports.len(), 1);
    assert_eq!(services[0].ports[0].port, Some(9001));
    assert_eq!(services[1].internal_port, 80);
    assert_eq!(services[2].internal_port, 443);
}

#[test]
fn the_proxy_push_is_one_exec_command() {
    let argv = load_config_argv("{\"apps\":{}}".to_string());
    assert_eq!(
        argv,
        vec![
            "curl".to_string(),
            "localhost:2019/load".to_string(),
            "-H".to_string(),
            "Content-Type: application/json".to_string(),
            "-d".to_string(),
            "{\"apps\":{}}".to_string(),
        ]
    );
}
