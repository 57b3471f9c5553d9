use bearcds::challenge::{Challenge, Container, Expose, Limits};
use bearcds::compose::{load_config_argv, proxy_config_text};
use bearcds::fly::{registry_repo, MachineConfig, MachineImageDetails, MachineInfo};
use bearcds::json::Json;
use bearcds::reconcile::{ingress_missing, plan_container, MachineAction};
use bearcds::router::{build_tables, ResolvedExposure};

fn remote_machine(id: &str, name: &str) -> MachineInfo {
    MachineInfo {
        id: id.to_string(),
        name: name.to_string(),
        state: "started".to_string(),
        region: "ord".to_string(),
        image_ref: MachineImageDetails {
            registry: "registry.fly.io".to_string(),
            repository: "bearapp".to_string(),
            tag: name.to_string(),
            digest: "sha256:0".to_string(),
        },
        config: MachineConfig {
            image: "img".to_string(),
            auto_destroy: None,
            env: None,
            guest: None,
            services: None,
        },
    }
}

#[test]
fn fresh_challenge_deploys_with_one_create_one_route_and_one_push() {
    // A catalog holding crypto/aesy with container `main`: memory 512, an
    // HTTP exposure under subdomain `aesy`, and no existing instance.
    let catalog = vec![Challenge {
        id: "crypto/aesy".to_string(),
        name: "aesy".to_string(),
        author: "someone".to_string(),
        description: "d".to_string(),
        flag: "flag{x}".to_string(),
        hidden: None,
        provide: None,
        containers: vec![(
            "main".to_string(),
            Container {
                build: ".".to_string(),
                limits: Limits { cpu: Some(1), mem: Some(512) },
                ports: None,
                env: None,
            },
        )],
        expose: vec![(
            "main".to_string(),
            Expose::Http { target: 80, http: "aesy".to_string() },
        )],
    }];
    let app_name = "bearapp";
    let hostname = "ctf.example.com";
    let repo = registry_repo(app_name);
    // The remote fleet holds only the ingress.
    let machines = vec![remote_machine("m0", "ingress")];

    // Derived names are unambiguous, checked before any remote call.
    assert!(bearcds::reconcile::check_derived_names(&catalog).is_ok());

    // Reconcile every container of every selected challenge.
    let mut creates: Vec<MachineAction> = Vec::new();
    let mut resolved: Vec<ResolvedExposure> = Vec::new();
    for chall in &catalog {
        for (cname, container) in &chall.containers {
            let action = plan_container(&machines, chall, cname, container, &repo).unwrap();
            let machine_id = match &action {
                // The remote side answers a create with the authoritative id.
                MachineAction::Create { .. } => "m-new-1".to_string(),
                MachineAction::Update { id, .. } => id.clone(),
            };
            creates.push(action);
            for (ename, expose) in &chall.expose {
                if ename == cname {
                    resolved.push(ResolvedExposure {
                        service: chall.id.clone(),
                        name: chall.container_id(cname),
                        machine_id: machine_id.clone(),
                        expose: expose.clone(),
                    });
                }
            }
        }
    }

    // Exactly one create-instance call, under the derived name.
    assert_eq!(creates.len(), 1);
    match &creates[0] {
        MachineAction::Create { name, config } => {
            assert_eq!(name, "crypto-aesy-main");
            assert_eq!(config.image, "registry.fly.io/bearapp:crypto-aesy-main");
        },
        MachineAction::Update { .. } => panic!("a fresh challenge must be created"),
    }

    // The ingress already exists: never rebuilt.
    assert!(!ingress_missing(&machines));

    // Exactly one HTTP route, for host aesy.<hostname>.
    let tables = build_tables(&resolved, app_name).unwrap();
    assert_eq!(tables.http.len(), 1);
    assert_eq!(tables.tcp.len(), 0);
    assert_eq!(tables.http[0].subdomain, "aesy");
    assert_eq!(tables.http[0].target, "m-new-1.vm.bearapp.internal:80");
    let text = proxy_config_text(&tables, hostname, &Json::Obj(vec![]));
    assert!(text.contains("\"host\":[\"aesy.ctf.example.com\"]"));
    assert_eq!(text.matches("reverse_proxy").count(), 1);

    // Exactly one proxy-config push.
    let argv = load_config_argv(text.clone());
    assert_eq!(argv.len(), 6);
    assert_eq!(argv[1], "localhost:2019/load");
    assert_eq!(argv[5], text);
}
