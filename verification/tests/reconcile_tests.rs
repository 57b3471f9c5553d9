use bearcds::challenge::{Challenge, Container, Expose, Limits};
use bearcds::errors::ConfigError;
use bearcds::fly::{MachineConfig, MachineImageDetails, MachineInfo};
use bearcds::reconcile::{
    check_derived_names, ingress_create_config, ingress_missing, plan_container, plan_machine,
    MachineAction,
};

fn machine(id: &str, name: &str) -> MachineInfo {
    MachineInfo {
        id: id.to_string(),
        name: name.to_string(),
        state: "started".to_string(),
        region: "ord".to_string(),
        image_ref: MachineImageDetails {
            registry: "registry.fly.io".to_string(),
            repository: "app".to_string(),
            tag: name.to_string(),
            digest: "sha256:0".to_string(),
        },
        config: MachineConfig {
            image: format!("registry.fly.io/app:{name}"),
            auto_destroy: None,
            env: None,
            guest: None,
            services: None,
        },
    }
}

fn config(image: &str) -> MachineConfig {
    MachineConfig {
        image: image.to_string(),
        auto_destroy: None,
        env: None,
        guest: None,
        services: None,
    }
}

fn aesy() -> Challenge {
    Challenge {
        id: "crypto/aesy".to_string(),
        name: "aesy".to_string(),
        author: "someone".to_string(),
        description: "d".to_string(),
        flag: "flag{x}".to_string(),
        hidden: None,
        provide: None,
        containers: vec![(
            "main".to_string(),
            Container {
                build: ".".to_string(),
                limits: Limits { cpu: Some(1), mem: Some(512) },
                ports: None,
                env: None,
            },
        )],
        expose: vec![("main".to_string(), Expose::Http { target: 80, http: "aesy".to_string() })],
    }
}

#[test]
fn absent_name_plans_a_create_under_the_derived_name() {
    let machines = vec![machine("m0", "ingress")];
    let action = plan_machine(&machines, "crypto-aesy-main".to_string(), config("img:x"));
    match action {
        MachineAction::Create { name, config } => {
            assert_eq!(name, "crypto-aesy-main");
            assert_eq!(config.image, "img:x");
        },
        MachineAction::Update { .. } => panic!("expected a create"),
    }
}

#[test]
fn present_name_plans_an_update_under_the_existing_identity() {
    let machines = vec![machine("m7", "crypto-aesy-main")];
    let action = plan_machine(&machines, "crypto-aesy-main".to_string(), config("img:x"));
    match action {
        MachineAction::Update { id, config } => {
            assert_eq!(id, "m7");
            assert_eq!(config.image, "img:x");
        },
        MachineAction::Create { .. } => panic!("expected an update"),
    }
}

#[test]
fn rerunning_after_a_create_plans_zero_additional_creates() {
    let machines: Vec<MachineInfo> = vec![];
    let first = plan_machine(&machines, "crypto-aesy-main".to_string(), config("img:x"));
    let created_name = match first {
        MachineAction::Create { name, .. } => name,
        MachineAction::Update { .. } => panic!("expected a create on an empty fleet"),
    };
    // The remote fleet now carries the machine the first run created.
    let machines = vec![machine("m42", &created_name)];
    let second = plan_machine(&machines, "crypto-aesy-main".to_string(), config("img:x"));
    match second {
        MachineAction::Update { id, .. } => assert_eq!(id, "m42"),
        MachineAction::Create { .. } => panic!("second run must not create again"),
    }
}

#[test]
fn invalid_memory_fails_before_any_plan_and_names_the_container() {
    let c = aesy();
    let mut bad = c.clone();
    bad.containers[0].1.limits.mem = Some(100);
    let err = plan_container(
        &vec![],
        &bad,
        &"main".to_string(),
        &bad.containers[0].1,
        "registry.fly.io/app",
    )
    .unwrap_err();
    assert_eq!(
        err,
        ConfigError::InvalidMemory {
            service: "crypto/aesy".to_string(),
            container: "main".to_string(),
            mem: 100,
        }
    );
    assert_eq!(
        err.message(),
        "memory of crypto/aesy/main must be a positive multiple of 256, got 100"
    );
}

#[test]
fn valid_memory_plans_the_tagged_image_and_shared_cpu() {
    let c = aesy();
    let action = plan_container(
        &vec![],
        &c,
        &"main".to_string(),
        &c.containers[0].1,
        "registry.fly.io/app",
    )
    .unwrap();
    match action {
        MachineAction::Create { name, config } => {
            assert_eq!(name, "crypto-aesy-main");
            assert_eq!(config.image, "registry.fly.io/app:crypto-aesy-main");
            assert!(config.env.is_none());
            let guest = config.guest.unwrap();
            assert_eq!(guest.cpu_kind, "shared");
            assert_eq!(guest.cpus, Some(1));
            assert_eq!(guest.memory_mb, Some(512));
        },
        MachineAction::Update { .. } => panic!("expected a create"),
    }
}

#[test]
fn planned_config_carries_the_containers_env_vars() {
    let mut c = aesy();
    c.containers[0].1.env = Some(vec![("FLAG".to_string(), "flag{x}".to_string())]);
    let action = plan_container(
        &vec![],
        &c,
        &"main".to_string(),
        &c.containers[0].1,
        "registry.fly.io/app",
    )
    .unwrap();
    match action {
        MachineAction::Create { config, .. } => {
            assert_eq!(
                config.env,
                Some(vec![("FLAG".to_string(), "flag{x}".to_string())])
            );
        },
        MachineAction::Update { .. } => panic!("expected a create"),
    }
}

fn named_chall(id: &str, cname: &str) -> Challenge {
    let mut c = aesy();
    c.id = id.to_string();
    c.containers[0].0 = cname.to_string();
    c.expose = vec![];
    c
}

#[test]
fn distinct_derived_names_pass_the_ambiguity_check() {
    let challs = vec![
        named_chall("crypto/aesy", "main"),
        named_chall("crypto/rsa", "main"),
        named_chall("web/shop", "db"),
    ];
    assert!(check_derived_names(&challs).is_ok());
}

#[test]
fn ambiguous_derived_names_fail_before_any_remote_call() {
    // Hyphen-bearing components make two distinct containers derive the
    // same machine name.
    let challs = vec![
        named_chall("a/b", "c-d"),
        named_chall("a/b-c", "d"),
    ];
    let err = check_derived_names(&challs).unwrap_err();
    assert_eq!(
        err,
        bearcds::errors::ConfigError::AmbiguousDerivedName {
            name: "a-b-c-d".to_string(),
            first_service: "a/b".to_string(),
            first_container: "c-d".to_string(),
            second_service: "a/b-c".to_string(),
            second_container: "d".to_string(),
        }
    );
    assert_eq!(
        err.message(),
        "derived machine name a-b-c-d is ambiguous between a/b/c-d and a/b-c/d"
    );
}

#[test]
fn two_containers_of_one_service_never_collide() {
    let mut c = aesy();
    c.containers.push((
        "aux".to_string(),
        c.containers[0].1.clone(),
    ));
    assert!(check_derived_names(&vec![c]).is_ok());
}

#[test]
fn ingress_is_created_only_when_absent() {
    assert!(ingress_missing(&vec![]));
    assert!(ingress_missing(&vec![machine("m1", "crypto-aesy-main")]));
    assert!(!ingress_missing(&vec![machine("m0", "ingress")]));
    let cfg = ingress_create_config("registry.fly.io/app");
    assert_eq!(cfg.image, "registry.fly.io/app:ingress");
    assert!(cfg.services.is_none());
    assert!(cfg.guest.is_none());
}
