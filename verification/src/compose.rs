//! The proxy configuration composer.
//!
//! Renders the routing tables into the reverse proxy's document shape,
//! deep-merges the operator override, and pins the exact text pushed to
//! the proxy's loopback-bound load endpoint.

use vstd::prelude::*;

use crate::fly::{MachinePort, MachinePortModel, MachineService, MachineServiceModel};
use crate::json::{arr1, jmodel, jmodel_entries, jmodel_seq, merged, obj1, obj2, obj3, spec_merge};
use crate::json::{lemma_jmodel_entries_push, lemma_jmodel_seq_push, sstr, Json, JsonModel};
use crate::render::{spec_render, to_json_text};
use crate::router::{HttpRoute, HttpRouteModel, RoutingTables, TcpRoute, TcpRouteModel};
use crate::text::{dec_digits, push_chars, push_dec, string_from_chars};
use crate::seq_view;
use vstd::string::StringExecFns;

verus! {

/// `<sub>.<hostname>`: the public host of one HTTP route.
pub open spec fn host_model(sub: Seq<char>, hostname: Seq<char>) -> Seq<char> {
    sub + "."@ + hostname
}

/// Builds the public host of one HTTP route.
pub fn host_of(sub: &str, hostname: &str) -> (r: String)
    ensures
        r@ == host_model(sub@, hostname@),
{
    let mut out: Vec<char> = Vec::new();
    push_chars(&mut out, sub);
    push_chars(&mut out, ".");
    push_chars(&mut out, hostname);
    proof {
        assert(out@ =~= host_model(sub@, hostname@));
    }
    string_from_chars(&out)
}

/// The reverse-proxy route document of one HTTP route.
pub open spec fn route_json_model(r: HttpRouteModel, hostname: Seq<char>) -> JsonModel {
    JsonModel::Obj(
        seq![
            (
                "match"@,
                JsonModel::Arr(
                    seq![
                        JsonModel::Obj(
                            seq![
                                (
                                    "host"@,
                                    JsonModel::Arr(
                                        seq![JsonModel::Str(host_model(r.subdomain, hostname))],
                                    ),
                                ),
                            ],
                        ),
                    ],
                ),
            ),
            (
                "handle"@,
                JsonModel::Arr(
                    seq![
                        JsonModel::Obj(
                            seq![
                                ("handler"@, JsonModel::Str("reverse_proxy"@)),
                                (
                                    "upstreams"@,
                                    JsonModel::Arr(
                                        seq![
                                            JsonModel::Obj(
                                                seq![("dial"@, JsonModel::Str(r.target))],
                                            ),
                                        ],
                                    ),
                                ),
                            ],
                        ),
                    ],
                ),
            ),
        ],
    )
}

/// The terminal route answering 404 to everything no route matched.
pub open spec fn not_found_model() -> JsonModel {
    JsonModel::Obj(
        seq![
            (
                "handle"@,
                JsonModel::Arr(
                    seq![
                        JsonModel::Obj(
                            seq![
                                ("handler"@, JsonModel::Str("static_response"@)),
                                ("status_code"@, JsonModel::Int(404)),
                                ("body"@, JsonModel::Str("Not Found"@)),
                            ],
                        ),
                    ],
                ),
            ),
        ],
    )
}

/// The route array of the HTTP virtual host: one reverse-proxy route per
/// table entry in table order, then the terminal 404 route, last.
pub open spec fn http_routes_json_model(routes: Seq<HttpRouteModel>, hostname: Seq<char>) -> Seq<
    JsonModel,
> {
    Seq::new(
        routes.len() + 1,
        |i: int|
            if i < routes.len() {
                route_json_model(routes[i], hostname)
            } else {
                not_found_model()
            },
    )
}

/// `0.0.0.0:<port>`: the public listen address of one TCP route.
pub open spec fn listen_model(port: u32) -> Seq<char> {
    "0.0.0.0:"@ + dec_digits(port as nat)
}

/// The raw TCP server document of one TCP route.
pub open spec fn tcp_server_model(t: TcpRouteModel) -> JsonModel {
    JsonModel::Obj(
        seq![
            ("listen"@, JsonModel::Arr(seq![JsonModel::Str(listen_model(t.port))])),
            (
                "routes"@,
                JsonModel::Arr(
                    seq![
                        JsonModel::Obj(
                            seq![
                                (
                                    "handle"@,
                                    JsonModel::Arr(
                                        seq![
                                            JsonModel::Obj(
                                                seq![
                                                    ("handler"@, JsonModel::Str("proxy"@)),
                                                    (
                                                        "upstreams"@,
                                                        JsonModel::Arr(
                                                            seq![
                                                                JsonModel::Obj(
                                                                    seq![
                                                                        (
                                                                            "dial"@,
                                                                            JsonModel::Arr(
                                                                                seq![
                                                                                    JsonModel::Str(
                                                                                        t.target,
                                                                                    ),
                                                                                ],
                                                                            ),
                                                                        ),
                                                                    ],
                                                                ),
                                                            ],
                                                        ),
                                                    ),
                                                ],
                                            ),
                                        ],
                                    ),
                                ),
                            ],
                        ),
                    ],
                ),
            ),
        ],
    )
}

/// The layer-4 server block: one server per TCP route, keyed by the
/// serving machine's name, in table order.
pub open spec fn tcp_servers_model(tcp: Seq<TcpRouteModel>) -> Seq<(Seq<char>, JsonModel)> {
    Seq::new(tcp.len(), |i: int| (tcp[i].name, tcp_server_model(tcp[i])))
}

/// The whole generated proxy document, before the operator override.
pub open spec fn doc_model(http: Seq<HttpRouteModel>, tcp: Seq<TcpRouteModel>, hostname: Seq<char>) -> JsonModel {
    JsonModel::Obj(
        seq![
            (
                "apps"@,
                JsonModel::Obj(
                    seq![
                        (
                            "layer4"@,
                            JsonModel::Obj(
                                seq![("servers"@, JsonModel::Obj(tcp_servers_model(tcp)))],
                            ),
                        ),
                        (
                            "http"@,
                            JsonModel::Obj(
                                seq![
                                    (
                                        "servers"@,
                                        JsonModel::Obj(
                                            seq![
                                                (
                                                    "bear-cds-http"@,
                                                    JsonModel::Obj(
                                                        seq![
                                                            (
                                                                "listen"@,
                                                                JsonModel::Arr(
                                                                    seq![JsonModel::Str(":80"@)],
                                                                ),
                                                            ),
                                                            (
                                                                "routes"@,
                                                                JsonModel::Arr(
                                                                    seq![
                                                                        JsonModel::Obj(
                                                                            seq![
                                                                                (
                                                                                    "handle"@,
                                                                                    JsonModel::Arr(
                                                                                        seq![
                                                                                            JsonModel::Obj(
                                                                                                seq![
                                                                                                    (
                                                                                                        "handler"@,
                                                                                                        JsonModel::Str(
                                                                                                            "subroute"@,
                                                                                                        ),
                                                                                                    ),
                                                                                                    (
                                                                                                        "routes"@,
                                                                                                        JsonModel::Arr(
                                                                                                            http_routes_json_model(
                                                                                                                http,
                                                                                                                hostname,
                                                                                                            ),
                                                                                                        ),
                                                                                                    ),
                                                                                                ],
                                                                                            ),
                                                                                        ],
                                                                                    ),
                                                                                ),
                                                                                (
                                                                                    "match"@,
                                                                                    JsonModel::Arr(
                                                                                        seq![
                                                                                            JsonModel::Obj(
                                                                                                seq![
                                                                                                    (
                                                                                                        "host"@,
                                                                                                        JsonModel::Arr(
                                                                                                            seq![
                                                                                                                JsonModel::Str(
                                                                                                                    "*."@
                                                                                                                        + hostname,
                                                                                                                ),
                                                                                                            ],
                                                                                                        ),
                                                                                                    ),
                                                                                                ],
                                                                                            ),
                                                                                        ],
                                                                                    ),
                                                                                ),
                                                                            ],
                                                                        ),
                                                                    ],
                                                                ),
                                                            ),
                                                        ],
                                                    ),
                                                ),
                                            ],
                                        ),
                                    ),
                                ],
                            ),
                        ),
                    ],
                ),
            ),
        ],
    )
}

/// Builds the reverse-proxy route document of one HTTP route.
fn route_json(r: &HttpRoute, hostname: &str) -> (j: Json)
    ensures
        j@ == route_json_model(r@, hostname@),
{
    let host = host_of(r.subdomain.as_str(), hostname);
    let match_block = arr1(obj1("host", arr1(Json::Str(host))));
    let dial = obj1("dial", Json::Str(r.target.clone()));
    let handle = arr1(obj2("handler", sstr("reverse_proxy"), "upstreams", arr1(dial)));
    obj2("match", match_block, "handle", handle)
}

/// Builds the terminal 404 route.
fn not_found_route() -> (j: Json)
    ensures
        j@ == not_found_model(),
{
    obj1(
        "handle",
        arr1(
            obj3(
                "handler",
                sstr("static_response"),
                "status_code",
                Json::Int(404),
                "body",
                sstr("Not Found"),
            ),
        ),
    )
}

/// Builds the route array of the HTTP virtual host: exactly one
/// reverse-proxy route per table entry, in table order, and the terminal
/// 404 route after all of them, last.
pub fn http_routes_json(routes: &Vec<HttpRoute>, hostname: &str) -> (r: Vec<Json>)
    ensures
        jmodel_seq(r@) == http_routes_json_model(seq_view(routes@), hostname@),
        r@.len() == routes@.len() + 1,
{
    let ghost full = http_routes_json_model(seq_view(routes@), hostname@);
    let mut out: Vec<Json> = Vec::new();
    proof {
        assert(jmodel_seq(out@) =~= full.take(0));
    }
    let mut i: usize = 0;
    while i < routes.len()
        invariant
            i <= routes.len(),
            full == http_routes_json_model(seq_view(routes@), hostname@),
            full.len() == routes@.len() + 1,
            out@.len() == i,
            jmodel_seq(out@) == full.take(i as int),
        decreases routes.len() - i,
    {
        let j = route_json(&routes[i], hostname);
        proof {
            lemma_jmodel_seq_push(out@, j);
            assert(seq_view(routes@)[i as int] == routes@[i as int]@);
            assert(full[i as int] == route_json_model(routes@[i as int]@, hostname@));
            assert(full.take(i as int).push(j@) =~= full.take(i as int + 1));
        }
        out.push(j);
        i += 1;
    }
    let nf = not_found_route();
    proof {
        lemma_jmodel_seq_push(out@, nf);
        assert(full[routes@.len() as int] == not_found_model());
        assert(full.take(routes@.len() as int).push(nf@) =~= full);
    }
    out.push(nf);
    out
}

/// Builds the public listen address of one TCP route.
fn listen_of(port: u32) -> (r: String)
    ensures
        r@ == listen_model(port),
{
    let mut out: Vec<char> = Vec::new();
    push_chars(&mut out, "0.0.0.0:");
    push_dec(&mut out, port as u64);
    string_from_chars(&out)
}

/// Builds the raw TCP server document of one TCP route.
fn tcp_server_json(t: &TcpRoute) -> (j: Json)
    ensures
        j@ == tcp_server_model(t@),
{
    let listen = arr1(Json::Str(listen_of(t.port)));
    let dial = obj1("dial", arr1(Json::Str(t.target.clone())));
    let handle = arr1(obj2("handler", sstr("proxy"), "upstreams", arr1(dial)));
    let routes = arr1(obj1("handle", handle));
    obj2("listen", listen, "routes", routes)
}

/// Builds the layer-4 server block: one server per TCP route, keyed by
/// the serving machine's name, in table order.
fn tcp_servers_json(tcp: &Vec<TcpRoute>) -> (r: Vec<(String, Json)>)
    ensures
        jmodel_entries(r@) == tcp_servers_model(seq_view(tcp@)),
{
    let ghost full = tcp_servers_model(seq_view(tcp@));
    let mut out: Vec<(String, Json)> = Vec::new();
    proof {
        assert(jmodel_entries(out@) =~= full.take(0));
    }
    let mut i: usize = 0;
    while i < tcp.len()
        invariant
            i <= tcp.len(),
            full == tcp_servers_model(seq_view(tcp@)),
            full.len() == tcp@.len(),
            jmodel_entries(out@) == full.take(i as int),
        decreases tcp.len() - i,
    {
        let server = tcp_server_json(&tcp[i]);
        let e = (tcp[i].name.clone(), server);
        proof {
            lemma_jmodel_entries_push(out@, e);
            assert(seq_view(tcp@)[i as int] == tcp@[i as int]@);
            assert(full[i as int] == (tcp@[i as int].name@, tcp_server_model(tcp@[i as int]@)));
            assert(full.take(i as int).push((e.0@, jmodel(e.1))) =~= full.take(i as int + 1));
        }
        out.push(e);
        i += 1;
    }
    proof {
        assert(full.take(tcp@.len() as int) =~= full);
    }
    out
}

/// Builds the whole generated proxy document from the routing tables.
pub fn compose_document(tables: &RoutingTables, hostname: &str) -> (j: Json)
    ensures
        j@ == doc_model(seq_view(tables.http@), seq_view(tables.tcp@), hostname@),
{
    let servers_tcp = Json::Obj(tcp_servers_json(&tables.tcp));
    let layer4 = obj1("servers", servers_tcp);
    let routes = http_routes_json(&tables.http, hostname);
    let subroute = obj2("handler", sstr("subroute"), "routes", Json::Arr(routes));
    let mut star: Vec<char> = Vec::new();
    push_chars(&mut star, "*.");
    push_chars(&mut star, hostname);
    let host_match = arr1(obj1("host", arr1(Json::Str(string_from_chars(&star)))));
    let route_entry = obj2("handle", arr1(subroute), "match", host_match);
    let vhost = obj2("listen", arr1(sstr(":80")), "routes", arr1(route_entry));
    let http_servers = obj1("servers", obj1("bear-cds-http", vhost));
    let apps = obj2("layer4", layer4, "http", http_servers);
    obj1("apps", apps)
}

/// The document actually pushed: the generated document with the operator
/// override deep-merged onto it.
pub fn compose_with_override(tables: &RoutingTables, hostname: &str, overlay: &Json) -> (j: Json)
    ensures
        j@ == spec_merge(
            doc_model(seq_view(tables.http@), seq_view(tables.tcp@), hostname@),
            overlay@,
        ),
{
    let doc = compose_document(tables, hostname);
    merged(&doc, overlay)
}

/// Renders the merged document to the exact text handed to the proxy.
pub fn proxy_config_text(tables: &RoutingTables, hostname: &str, overlay: &Json) -> (r: String)
    ensures
        r@ == spec_render(
            spec_merge(
                doc_model(seq_view(tables.http@), seq_view(tables.tcp@), hostname@),
                overlay@,
            ),
        ),
{
    let doc = compose_with_override(tables, hostname, overlay);
    to_json_text(&doc)
}

/// The ingress machine's service list: one TCP service per public port in
/// table order, then the web ports 80 and 443, always last.
pub fn ingress_services(tcp: &Vec<TcpRoute>) -> (r: Vec<MachineService>)
    ensures
        r@.len() == tcp@.len() + 2,
        forall|i: int|
            0 <= i < tcp@.len() ==> r@[i]@ == (MachineServiceModel {
                protocol: "tcp"@,
                internal_port: tcp@[i].port,
                ports: seq![
                    MachinePortModel {
                        port: Some(tcp@[i].port),
                        start_port: None,
                        end_port: None,
                        handlers: None,
                    },
                ],
            }),
        r@[tcp@.len() as int]@ == (MachineServiceModel {
            protocol: "tcp"@,
            internal_port: 80,
            ports: seq![
                MachinePortModel { port: Some(80), start_port: None, end_port: None, handlers: None },
            ],
        }),
        r@[tcp@.len() as int + 1]@ == (MachineServiceModel {
            protocol: "tcp"@,
            internal_port: 443,
            ports: seq![
                MachinePortModel {
                    port: Some(443),
                    start_port: None,
                    end_port: None,
                    handlers: None,
                },
            ],
        }),
{
    let mut out: Vec<MachineService> = Vec::new();
    let mut i: usize = 0;
    while i < tcp.len()
        invariant
            i <= tcp.len(),
            out@.len() == i,
            forall|j: int|
                0 <= j < i ==> out@[j]@ == (MachineServiceModel {
                    protocol: "tcp"@,
                    internal_port: tcp@[j].port,
                    ports: seq![
                        MachinePortModel {
                            port: Some(tcp@[j].port),
                            start_port: None,
                            end_port: None,
                            handlers: None,
                        },
                    ],
                }),
        decreases tcp.len() - i,
    {
        out.push(tcp_port_service(tcp[i].port));
        i += 1;
    }
    out.push(tcp_port_service(80));
    out.push(tcp_port_service(443));
    out
}

/// One TCP pass-through service of the ingress machine for `port`.
fn tcp_port_service(port: u32) -> (r: MachineService)
    ensures
        r@ == (MachineServiceModel {
            protocol: "tcp"@,
            internal_port: port,
            ports: seq![
                MachinePortModel {
                    port: Some(port),
                    start_port: None,
                    end_port: None,
                    handlers: None,
                },
            ],
        }),
{
    let mut ports: Vec<MachinePort> = Vec::new();
    ports.push(MachinePort { port: Some(port), start_port: None, end_port: None, handlers: None });
    let r = MachineService {
        protocol: String::from_str("tcp"),
        internal_port: port,
        ports,
    };
    proof {
        assert(seq_view(r.ports@) =~= seq![
            MachinePortModel { port: Some(port), start_port: None, end_port: None, handlers: None },
        ]);
        assert(r@ =~~= (MachineServiceModel {
            protocol: "tcp"@,
            internal_port: port,
            ports: seq![
                MachinePortModel {
                    port: Some(port),
                    start_port: None,
                    end_port: None,
                    handlers: None,
                },
            ],
        }));
    }
    r
}

/// The command run inside the ingress machine to load `config_text` into
/// the proxy's loopback-bound administrative endpoint: exactly one push.
pub fn load_config_argv(config_text: String) -> (r: Vec<String>)
    ensures
        r@.len() == 6,
        r@[0]@ == "curl"@,
        r@[1]@ == "localhost:2019/load"@,
        r@[2]@ == "-H"@,
        r@[3]@ == "Content-Type: application/json"@,
        r@[4]@ == "-d"@,
        r@[5]@ == config_text@,
{
    let mut out: Vec<String> = Vec::new();
    out.push(String::from_str("curl"));
    out.push(String::from_str("localhost:2019/load"));
    out.push(String::from_str("-H"));
    out.push(String::from_str("Content-Type: application/json"));
    out.push(String::from_str("-d"));
    out.push(config_text);
    out
}

} // verus!
