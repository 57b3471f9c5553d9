//! The exposure router.
//!
//! After reconciliation every exposed container has a resolved remote
//! identity; this module derives the two routing tables from those
//! resolutions: subdomain to dial target for HTTP, public port to dial
//! target for raw TCP.  Colliding declarations are a configuration error
//! naming both claiming services, never an overwrite.

use vstd::prelude::*;

use crate::challenge::{Expose, ExposeModel};
use crate::errors::ConfigError;
use crate::text::{dec_digits, push_chars, push_dec, string_from_chars};
use crate::seq_view;

verus! {

/// One exposed container after reconciliation: who declared it, the
/// machine that serves it, and the declared rule.
#[derive(Debug, PartialEq, Eq)]
pub struct ResolvedExposure {
    /// Service id `category/name`, for error reporting.
    pub service: String,
    /// Derived machine name of the container.
    pub name: String,
    /// Resolved remote identity of the machine, authoritative downstream.
    pub machine_id: String,
    pub expose: Expose,
}

/// Model of `ResolvedExposure`.
#[verifier::ext_equal]
pub struct ResolvedExposureModel {
    pub service: Seq<char>,
    pub name: Seq<char>,
    pub machine_id: Seq<char>,
    pub expose: ExposeModel,
}

impl View for ResolvedExposure {
    type V = ResolvedExposureModel;

    open spec fn view(&self) -> ResolvedExposureModel {
        ResolvedExposureModel {
            service: self.service@,
            name: self.name@,
            machine_id: self.machine_id@,
            expose: self.expose@,
        }
    }
}

/// One HTTP route: subdomain label to internal dial target.
#[derive(Debug, PartialEq, Eq)]
pub struct HttpRoute {
    pub subdomain: String,
    /// Service id that declared the route, for error reporting.
    pub service: String,
    /// Internal dial target of the machine serving the route.
    pub target: String,
}

/// Model of `HttpRoute`.
#[verifier::ext_equal]
pub struct HttpRouteModel {
    pub subdomain: Seq<char>,
    pub service: Seq<char>,
    pub target: Seq<char>,
}

impl View for HttpRoute {
    type V = HttpRouteModel;

    open spec fn view(&self) -> HttpRouteModel {
        HttpRouteModel { subdomain: self.subdomain@, service: self.service@, target: self.target@ }
    }
}

/// One raw TCP route: public port to internal dial target, named after
/// the serving machine.
#[derive(Debug, PartialEq, Eq)]
pub struct TcpRoute {
    pub port: u32,
    /// Service id that declared the route, for error reporting.
    pub service: String,
    /// Derived machine name; keys the proxy's layer-4 server block.
    pub name: String,
    /// Internal dial target of the machine serving the route.
    pub target: String,
}

/// Model of `TcpRoute`.
#[verifier::ext_equal]
pub struct TcpRouteModel {
    pub port: u32,
    pub service: Seq<char>,
    pub name: Seq<char>,
    pub target: Seq<char>,
}

impl View for TcpRoute {
    type V = TcpRouteModel;

    open spec fn view(&self) -> TcpRouteModel {
        TcpRouteModel {
            port: self.port,
            service: self.service@,
            name: self.name@,
            target: self.target@,
        }
    }
}

/// The two routing tables of one run, rebuilt from scratch every run.
#[derive(Debug, PartialEq, Eq)]
pub struct RoutingTables {
    pub http: Vec<HttpRoute>,
    pub tcp: Vec<TcpRoute>,
}

/// Model of `RoutingTables`.
#[verifier::ext_equal]
pub struct RoutingTablesModel {
    pub http: Seq<HttpRouteModel>,
    pub tcp: Seq<TcpRouteModel>,
}

impl View for RoutingTables {
    type V = RoutingTablesModel;

    open spec fn view(&self) -> RoutingTablesModel {
        RoutingTablesModel { http: seq_view(self.http@), tcp: seq_view(self.tcp@) }
    }
}

/// Whether the exposure is an HTTP rule.
pub open spec fn is_http(e: ResolvedExposureModel) -> bool {
    e.expose matches ExposeModel::Http { .. }
}

/// Whether the exposure is a raw TCP rule.
pub open spec fn is_tcp(e: ResolvedExposureModel) -> bool {
    e.expose matches ExposeModel::Tcp { .. }
}

/// The subdomain label of an HTTP exposure.
pub open spec fn http_key(e: ResolvedExposureModel) -> Seq<char> {
    e.expose->Http_http
}

/// The public port of a TCP exposure.
pub open spec fn tcp_key(e: ResolvedExposureModel) -> u32 {
    e.expose->Tcp_tcp
}

/// The private dial address of a machine's internal port:
/// `<machine>.vm.<app>.internal:<port>`.
pub open spec fn dial_model(machine_id: Seq<char>, app: Seq<char>, port: u32) -> Seq<char> {
    machine_id + ".vm."@ + app + ".internal:"@ + dec_digits(port as nat)
}

/// Builds the private dial address of a machine's internal port.
pub fn dial_target(machine_id: &str, app: &str, port: u32) -> (r: String)
    ensures
        r@ == dial_model(machine_id@, app@, port),
{
    let mut out: Vec<char> = Vec::new();
    push_chars(&mut out, machine_id);
    push_chars(&mut out, ".vm.");
    push_chars(&mut out, app);
    push_chars(&mut out, ".internal:");
    push_dec(&mut out, port as u64);
    proof {
        assert(out@ =~= dial_model(machine_id@, app@, port));
    }
    string_from_chars(&out)
}

/// The HTTP route derived from one HTTP exposure.
pub open spec fn http_route_of(e: ResolvedExposureModel, app: Seq<char>) -> HttpRouteModel {
    HttpRouteModel {
        subdomain: http_key(e),
        service: e.service,
        target: dial_model(e.machine_id, app, e.expose->Http_target),
    }
}

/// The TCP route derived from one TCP exposure.
pub open spec fn tcp_route_of(e: ResolvedExposureModel, app: Seq<char>) -> TcpRouteModel {
    TcpRouteModel {
        port: tcp_key(e),
        service: e.service,
        name: e.name,
        target: dial_model(e.machine_id, app, e.expose->Tcp_target),
    }
}

/// The HTTP routes of the exposures, in declaration order.
pub open spec fn http_routes_of(es: Seq<ResolvedExposureModel>, app: Seq<char>) -> Seq<
    HttpRouteModel,
>
    decreases es,
{
    if es.len() == 0 {
        Seq::empty()
    } else {
        (if is_http(es[0]) {
            seq![http_route_of(es[0], app)]
        } else {
            Seq::empty()
        }) + http_routes_of(es.drop_first(), app)
    }
}

/// The TCP routes of the exposures, in declaration order.
pub open spec fn tcp_routes_of(es: Seq<ResolvedExposureModel>, app: Seq<char>) -> Seq<
    TcpRouteModel,
>
    decreases es,
{
    if es.len() == 0 {
        Seq::empty()
    } else {
        (if is_tcp(es[0]) {
            seq![tcp_route_of(es[0], app)]
        } else {
            Seq::empty()
        }) + tcp_routes_of(es.drop_first(), app)
    }
}

/// Two exposure declarations collide when they are of the same kind and
/// claim the same public key: the same subdomain, or the same port.
pub open spec fn collides(es: Seq<ResolvedExposureModel>, j: int, k: int) -> bool {
    (is_http(es[j]) && is_http(es[k]) && http_key(es[j]) == http_key(es[k])) || (is_tcp(es[j])
        && is_tcp(es[k]) && tcp_key(es[j]) == tcp_key(es[k]))
}

/// Whether any two distinct declarations collide.
pub open spec fn has_collision(es: Seq<ResolvedExposureModel>) -> bool {
    exists|j: int, k: int| 0 <= j < k < es.len() && collides(es, j, k)
}

pub proof fn lemma_http_routes_push(
    es: Seq<ResolvedExposureModel>,
    e: ResolvedExposureModel,
    app: Seq<char>,
)
    ensures
        http_routes_of(es.push(e), app) == http_routes_of(es, app) + (if is_http(e) {
            seq![http_route_of(e, app)]
        } else {
            Seq::<HttpRouteModel>::empty()
        }),
    decreases es.len(),
{
    let s = es.push(e);
    if es.len() == 0 {
        assert(s[0] == e);
        assert(s.drop_first() =~= Seq::<ResolvedExposureModel>::empty());
        assert(http_routes_of(s.drop_first(), app) =~= Seq::<HttpRouteModel>::empty());
        assert(http_routes_of(es, app) =~= Seq::<HttpRouteModel>::empty());
        assert(http_routes_of(s, app) =~= http_routes_of(es, app) + (if is_http(e) {
            seq![http_route_of(e, app)]
        } else {
            Seq::<HttpRouteModel>::empty()
        }));
    } else {
        assert(s.drop_first() =~= es.drop_first().push(e));
        lemma_http_routes_push(es.drop_first(), e, app);
        assert(s[0] == es[0]);
        let hd = if is_http(es[0]) {
            seq![http_route_of(es[0], app)]
        } else {
            Seq::<HttpRouteModel>::empty()
        };
        let tl = if is_http(e) {
            seq![http_route_of(e, app)]
        } else {
            Seq::<HttpRouteModel>::empty()
        };
        assert(http_routes_of(s, app) == hd + http_routes_of(s.drop_first(), app));
        assert(http_routes_of(s.drop_first(), app) == http_routes_of(es.drop_first(), app) + tl);
        assert(http_routes_of(es, app) == hd + http_routes_of(es.drop_first(), app));
        assert(hd + (http_routes_of(es.drop_first(), app) + tl) =~= (hd + http_routes_of(
            es.drop_first(),
            app,
        )) + tl);
    }
}

pub proof fn lemma_tcp_routes_push(
    es: Seq<ResolvedExposureModel>,
    e: ResolvedExposureModel,
    app: Seq<char>,
)
    ensures
        tcp_routes_of(es.push(e), app) == tcp_routes_of(es, app) + (if is_tcp(e) {
            seq![tcp_route_of(e, app)]
        } else {
            Seq::<TcpRouteModel>::empty()
        }),
    decreases es.len(),
{
    let s = es.push(e);
    if es.len() == 0 {
        assert(s[0] == e);
        assert(s.drop_first() =~= Seq::<ResolvedExposureModel>::empty());
        assert(tcp_routes_of(s.drop_first(), app) =~= Seq::<TcpRouteModel>::empty());
        assert(tcp_routes_of(es, app) =~= Seq::<TcpRouteModel>::empty());
        assert(tcp_routes_of(s, app) =~= tcp_routes_of(es, app) + (if is_tcp(e) {
            seq![tcp_route_of(e, app)]
        } else {
            Seq::<TcpRouteModel>::empty()
        }));
    } else {
        assert(s.drop_first() =~= es.drop_first().push(e));
        lemma_tcp_routes_push(es.drop_first(), e, app);
        assert(s[0] == es[0]);
        let hd = if is_tcp(es[0]) {
            seq![tcp_route_of(es[0], app)]
        } else {
            Seq::<TcpRouteModel>::empty()
        };
        let tl = if is_tcp(e) {
            seq![tcp_route_of(e, app)]
        } else {
            Seq::<TcpRouteModel>::empty()
        };
        assert(tcp_routes_of(s, app) == hd + tcp_routes_of(s.drop_first(), app));
        assert(tcp_routes_of(s.drop_first(), app) == tcp_routes_of(es.drop_first(), app) + tl);
        assert(tcp_routes_of(es, app) == hd + tcp_routes_of(es.drop_first(), app));
        assert(hd + (tcp_routes_of(es.drop_first(), app) + tl) =~= (hd + tcp_routes_of(
            es.drop_first(),
            app,
        )) + tl);
    }
}

/// Every route comes from some exposure of its kind with its key.
pub proof fn lemma_http_route_source(
    es: Seq<ResolvedExposureModel>,
    app: Seq<char>,
    r: int,
)
    requires
        0 <= r < http_routes_of(es, app).len(),
    ensures
        exists|j: int|
            0 <= j < es.len() && is_http(es[j]) && http_routes_of(es, app)[r] == http_route_of(
                es[j],
                app,
            ),
    decreases es.len(),
{
    if es.len() > 0 {
        if is_http(es[0]) && r == 0 {
            assert(http_routes_of(es, app)[0] == http_route_of(es[0], app));
        } else {
            let off: int = if is_http(es[0]) {
                1
            } else {
                0
            };
            lemma_http_route_source(es.drop_first(), app, r - off);
            let jd = choose|jd: int|
                0 <= jd < es.drop_first().len() && is_http(es.drop_first()[jd])
                    && http_routes_of(es.drop_first(), app)[r - off] == http_route_of(
                    es.drop_first()[jd],
                    app,
                );
            assert(es[jd + 1] == es.drop_first()[jd]);
            assert(http_routes_of(es, app)[r] == http_routes_of(es.drop_first(), app)[r - off]);
        }
    }
}

/// Every TCP route comes from some exposure of its kind with its key.
pub proof fn lemma_tcp_route_source(
    es: Seq<ResolvedExposureModel>,
    app: Seq<char>,
    r: int,
)
    requires
        0 <= r < tcp_routes_of(es, app).len(),
    ensures
        exists|j: int|
            0 <= j < es.len() && is_tcp(es[j]) && tcp_routes_of(es, app)[r] == tcp_route_of(
                es[j],
                app,
            ),
    decreases es.len(),
{
    if es.len() > 0 {
        if is_tcp(es[0]) && r == 0 {
            assert(tcp_routes_of(es, app)[0] == tcp_route_of(es[0], app));
        } else {
            let off: int = if is_tcp(es[0]) {
                1
            } else {
                0
            };
            lemma_tcp_route_source(es.drop_first(), app, r - off);
            let jd = choose|jd: int|
                0 <= jd < es.drop_first().len() && is_tcp(es.drop_first()[jd]) && tcp_routes_of(
                    es.drop_first(),
                    app,
                )[r - off] == tcp_route_of(es.drop_first()[jd], app);
            assert(es[jd + 1] == es.drop_first()[jd]);
            assert(tcp_routes_of(es, app)[r] == tcp_routes_of(es.drop_first(), app)[r - off]);
        }
    }
}

/// Every HTTP exposure's key appears among the routes.
pub proof fn lemma_http_key_in_routes(
    es: Seq<ResolvedExposureModel>,
    app: Seq<char>,
    j: int,
)
    requires
        0 <= j < es.len(),
        is_http(es[j]),
    ensures
        exists|r: int|
            0 <= r < http_routes_of(es, app).len() && http_routes_of(es, app)[r]
                == http_route_of(es[j], app),
    decreases es.len(),
{
    if j == 0 {
        assert(http_routes_of(es, app)[0] == http_route_of(es[0], app));
    } else {
        lemma_http_key_in_routes(es.drop_first(), app, j - 1);
        let r = choose|r: int|
            0 <= r < http_routes_of(es.drop_first(), app).len() && http_routes_of(
                es.drop_first(),
                app,
            )[r] == http_route_of(es.drop_first()[j - 1], app);
        let off: int = if is_http(es[0]) {
            1
        } else {
            0
        };
        assert(es.drop_first()[j - 1] == es[j]);
        assert(http_routes_of(es, app)[r + off] == http_routes_of(es.drop_first(), app)[r]);
    }
}

/// Every TCP exposure's key appears among the routes.
pub proof fn lemma_tcp_key_in_routes(
    es: Seq<ResolvedExposureModel>,
    app: Seq<char>,
    j: int,
)
    requires
        0 <= j < es.len(),
        is_tcp(es[j]),
    ensures
        exists|r: int|
            0 <= r < tcp_routes_of(es, app).len() && tcp_routes_of(es, app)[r] == tcp_route_of(
                es[j],
                app,
            ),
    decreases es.len(),
{
    if j == 0 {
        assert(tcp_routes_of(es, app)[0] == tcp_route_of(es[0], app));
    } else {
        lemma_tcp_key_in_routes(es.drop_first(), app, j - 1);
        let r = choose|r: int|
            0 <= r < tcp_routes_of(es.drop_first(), app).len() && tcp_routes_of(
                es.drop_first(),
                app,
            )[r] == tcp_route_of(es.drop_first()[j - 1], app);
        let off: int = if is_tcp(es[0]) {
            1
        } else {
            0
        };
        assert(es.drop_first()[j - 1] == es[j]);
        assert(tcp_routes_of(es, app)[r + off] == tcp_routes_of(es.drop_first(), app)[r]);
    }
}


/// Finds a route already claiming `sub`.
fn find_http(routes: &Vec<HttpRoute>, sub: &String) -> (r: Option<usize>)
    ensures
        match r {
            Some(i) => i < routes@.len() && routes@[i as int].subdomain@ == sub@,
            None => forall|i: int| 0 <= i < routes@.len() ==> routes@[i].subdomain@ != sub@,
        },
{
    let mut i: usize = 0;
    while i < routes.len()
        invariant
            i <= routes.len(),
            forall|j: int| 0 <= j < i ==> routes@[j].subdomain@ != sub@,
        decreases routes.len() - i,
    {
        if routes[i].subdomain == *sub {
            return Some(i);
        }
        i += 1;
    }
    None
}

/// Finds a route already claiming `port`.
fn find_tcp(routes: &Vec<TcpRoute>, port: u32) -> (r: Option<usize>)
    ensures
        match r {
            Some(i) => i < routes@.len() && routes@[i as int].port == port,
            None => forall|i: int| 0 <= i < routes@.len() ==> routes@[i].port != port,
        },
{
    let mut i: usize = 0;
    while i < routes.len()
        invariant
            i <= routes.len(),
            forall|j: int| 0 <= j < i ==> routes@[j].port != port,
        decreases routes.len() - i,
    {
        if routes[i].port == port {
            return Some(i);
        }
        i += 1;
    }
    None
}

/// Builds both routing tables from the resolved exposures, in declaration
/// order.  Returns the tables exactly when no two declarations collide;
/// a collision yields a configuration error naming both claiming
/// services, and nothing is ever overwritten.
pub fn build_tables(entries: &Vec<ResolvedExposure>, app: &str) -> (r: Result<
    RoutingTables,
    ConfigError,
>)
    ensures
        match r {
            Ok(t) => !has_collision(seq_view(entries@)) && t@.http == http_routes_of(
                seq_view(entries@),
                app@,
            ) && t@.tcp == tcp_routes_of(seq_view(entries@), app@),
            Err(e) => has_collision(seq_view(entries@)) && exists|j: int, k: int|
                0 <= j < k < seq_view(entries@).len() && collides(seq_view(entries@), j, k) && ((e
                    matches ConfigError::DuplicateSubdomain {
                    subdomain,
                    first_service,
                    second_service,
                } && is_http(seq_view(entries@)[j]) && is_http(seq_view(entries@)[k]) && subdomain@
                    == http_key(seq_view(entries@)[k]) && first_service@ == seq_view(
                    entries@,
                )[j].service && second_service@ == seq_view(entries@)[k].service) || (e
                    matches ConfigError::DuplicateTcpPort {
                    port,
                    first_service,
                    second_service,
                } && is_tcp(seq_view(entries@)[j]) && is_tcp(seq_view(entries@)[k]) && port
                    == tcp_key(seq_view(entries@)[k]) && first_service@ == seq_view(
                    entries@,
                )[j].service && second_service@ == seq_view(entries@)[k].service)),
        },
{
    let ghost em = seq_view(entries@);
    let mut http: Vec<HttpRoute> = Vec::new();
    let mut tcp: Vec<TcpRoute> = Vec::new();
    proof {
        assert(em.take(0) =~= Seq::<ResolvedExposureModel>::empty());
        assert(seq_view(http@) =~= http_routes_of(em.take(0), app@));
        assert(seq_view(tcp@) =~= tcp_routes_of(em.take(0), app@));
    }
    let mut k: usize = 0;
    while k < entries.len()
        invariant
            k <= entries.len(),
            em == seq_view(entries@),
            em.len() == entries@.len(),
            seq_view(http@) == http_routes_of(em.take(k as int), app@),
            seq_view(tcp@) == tcp_routes_of(em.take(k as int), app@),
            forall|a: int, b: int| 0 <= a < b < k ==> !collides(em, a, b),
        decreases entries.len() - k,
    {
        proof {
            assert(em[k as int] == entries@[k as int]@);
            assert(em.take(k as int + 1) =~= em.take(k as int).push(em[k as int]));
        }
        let ent = &entries[k];
        match &ent.expose {
            Expose::Http { target, http: sub } => {
                proof {
                    assert(is_http(em[k as int]));
                    assert(http_key(em[k as int]) == sub@);
                }
                match find_http(&http, sub) {
                    Some(ri) => {
                        proof {
                            lemma_http_route_source(em.take(k as int), app@, ri as int);
                            let j = choose|j: int|
                                0 <= j < em.take(k as int).len() && is_http(em.take(k as int)[j])
                                    && http_routes_of(em.take(k as int), app@)[ri as int]
                                    == http_route_of(em.take(k as int)[j], app@);
                            assert(em.take(k as int)[j] == em[j]);
                            assert(seq_view(http@)[ri as int] == http@[ri as int]@);
                            assert(collides(em, j, k as int));
                        }
                        return Err(
                            ConfigError::DuplicateSubdomain {
                                subdomain: sub.clone(),
                                first_service: http[ri].service.clone(),
                                second_service: ent.service.clone(),
                            },
                        );
                    },
                    None => {
                        let route = HttpRoute {
                            subdomain: sub.clone(),
                            service: ent.service.clone(),
                            target: dial_target(ent.machine_id.as_str(), app, *target),
                        };
                        proof {
                            assert(route@ == http_route_of(em[k as int], app@));
                            crate::lemma_seq_view_push(http@, route);
                            lemma_http_routes_push(em.take(k as int), em[k as int], app@);
                            lemma_tcp_routes_push(em.take(k as int), em[k as int], app@);
                            assert(http_routes_of(em.take(k as int), app@) + seq![
                                http_route_of(em[k as int], app@),
                            ] =~= http_routes_of(em.take(k as int), app@).push(
                                http_route_of(em[k as int], app@),
                            ));
                            assert(tcp_routes_of(em.take(k as int), app@) + Seq::<
                                TcpRouteModel,
                            >::empty() =~= tcp_routes_of(em.take(k as int), app@));
                            assert forall|a: int| 0 <= a < k implies !collides(
                                em,
                                a,
                                k as int,
                            ) by {
                                if is_http(em[a]) {
                                    lemma_http_key_in_routes(em.take(k as int), app@, a);
                                }
                            }
                        }
                        http.push(route);
                    },
                }
            },
            Expose::Tcp { target, tcp: port } => {
                proof {
                    assert(is_tcp(em[k as int]));
                    assert(tcp_key(em[k as int]) == *port);
                }
                match find_tcp(&tcp, *port) {
                    Some(ri) => {
                        proof {
                            lemma_tcp_route_source(em.take(k as int), app@, ri as int);
                            let j = choose|j: int|
                                0 <= j < em.take(k as int).len() && is_tcp(em.take(k as int)[j])
                                    && tcp_routes_of(em.take(k as int), app@)[ri as int]
                                    == tcp_route_of(em.take(k as int)[j], app@);
                            assert(em.take(k as int)[j] == em[j]);
                            assert(seq_view(tcp@)[ri as int] == tcp@[ri as int]@);
                            assert(collides(em, j, k as int));
                        }
                        return Err(
                            ConfigError::DuplicateTcpPort {
                                port: *port,
                                first_service: tcp[ri].service.clone(),
                                second_service: ent.service.clone(),
                            },
                        );
                    },
                    None => {
                        let route = TcpRoute {
                            port: *port,
                            service: ent.service.clone(),
                            name: ent.name.clone(),
                            target: dial_target(ent.machine_id.as_str(), app, *target),
                        };
                        proof {
                            assert(route@ == tcp_route_of(em[k as int], app@));
                            crate::lemma_seq_view_push(tcp@, route);
                            lemma_http_routes_push(em.take(k as int), em[k as int], app@);
                            lemma_tcp_routes_push(em.take(k as int), em[k as int], app@);
                            assert(tcp_routes_of(em.take(k as int), app@) + seq![
                                tcp_route_of(em[k as int], app@),
                            ] =~= tcp_routes_of(em.take(k as int), app@).push(
                                tcp_route_of(em[k as int], app@),
                            ));
                            assert(http_routes_of(em.take(k as int), app@) + Seq::<
                                HttpRouteModel,
                            >::empty() =~= http_routes_of(em.take(k as int), app@));
                            assert forall|a: int| 0 <= a < k implies !collides(
                                em,
                                a,
                                k as int,
                            ) by {
                                if is_tcp(em[a]) {
                                    lemma_tcp_key_in_routes(em.take(k as int), app@, a);
                                }
                            }
                        }
                        tcp.push(route);
                    },
                }
            },
        }
        k += 1;
    }
    proof {
        assert(em.take(entries@.len() as int) =~= em);
    }
    Ok(RoutingTables { http, tcp })
}

} // verus!
