use bearcds::challenge::Limits;
use bearcds::fly::{
    app_url, apps_url, auth_header, ensure_app_decision, image_tag, machine_config_for,
    machine_exec_url, machine_url, machine_wait_url, machines_url, registry_repo, AppInfo,
    AppProbe, AppStep, MachineConfig, MachineImageDetails, MachineInfo,
};
use bearcds::status::{machine_state, state_word, MachineState};

#[test]
fn api_urls_follow_the_machines_api_layout() {
    let host = "https://api.machines.dev";
    assert_eq!(apps_url(host), "https://api.machines.dev/v1/apps");
    assert_eq!(app_url(host, "bearapp"), "https://api.machines.dev/v1/apps/bearapp");
    assert_eq!(
        machines_url(host, "bearapp"),
        "https://api.machines.dev/v1/apps/bearapp/machines"
    );
    assert_eq!(
        machine_url(host, "bearapp", "m1"),
        "https://api.machines.dev/v1/apps/bearapp/machines/m1"
    );
    assert_eq!(
        machine_wait_url(host, "bearapp", "m1"),
        "https://api.machines.dev/v1/apps/bearapp/machines/m1/wait"
    );
    assert_eq!(
        machine_exec_url(host, "bearapp", "m1"),
        "https://api.machines.dev/v1/apps/bearapp/machines/m1/exec"
    );
}

#[test]
fn auth_and_registry_strings() {
    assert_eq!(auth_header("tok123"), "Bearer tok123");
    assert_eq!(registry_repo("bearapp"), "registry.fly.io/bearapp");
    assert_eq!(
        image_tag("registry.fly.io/bearapp", "crypto-aesy-main"),
        "registry.fly.io/bearapp:crypto-aesy-main"
    );
}

#[test]
fn machine_config_allocates_shared_cpus_with_declared_limits() {
    let cfg = machine_config_for(
        "registry.fly.io/bearapp:crypto-aesy-main".to_string(),
        Limits { cpu: Some(2), mem: Some(512) },
        None,
    );
    assert_eq!(cfg.image, "registry.fly.io/bearapp:crypto-aesy-main");
    assert!(cfg.env.is_none());
    assert!(cfg.services.is_none());
    let guest = cfg.guest.unwrap();
    assert_eq!(guest.cpu_kind, "shared");
    assert_eq!(guest.cpus, Some(2));
    assert_eq!(guest.memory_mb, Some(512));
    assert!(guest.kernel_args.is_none());
}

#[test]
fn machine_config_carries_declared_env_vars() {
    let cfg = machine_config_for(
        "img:x".to_string(),
        Limits { cpu: None, mem: Some(256) },
        Some(vec![("FLAG".to_string(), "flag{x}".to_string())]),
    );
    assert_eq!(
        cfg.env,
        Some(vec![("FLAG".to_string(), "flag{x}".to_string())])
    );
}

#[test]
fn ensure_app_creates_only_when_missing() {
    let app = AppInfo {
        id: "app1".to_string(),
        name: "bearapp".to_string(),
        status: "deployed".to_string(),
    };
    assert_eq!(
        ensure_app_decision(AppProbe::Found(app)),
        AppStep::UseExisting(AppInfo {
            id: "app1".to_string(),
            name: "bearapp".to_string(),
            status: "deployed".to_string(),
        })
    );
    assert_eq!(ensure_app_decision(AppProbe::Missing), AppStep::Create);
    assert_eq!(
        ensure_app_decision(AppProbe::Failed("dns".to_string())),
        AppStep::Fail("dns".to_string())
    );
}

fn machine(id: &str, name: &str, state: &str) -> MachineInfo {
    MachineInfo {
        id: id.to_string(),
        name: name.to_string(),
        state: state.to_string(),
        region: "ord".to_string(),
        image_ref: MachineImageDetails {
            registry: "registry.fly.io".to_string(),
            repository: "bearapp".to_string(),
            tag: name.to_string(),
            digest: "sha256:0".to_string(),
        },
        config: MachineConfig {
            image: "img".to_string(),
            auto_destroy: None,
            env: None,
            guest: None,
            services: None,
        },
    }
}

#[test]
fn machines_classify_as_started_stopped_or_not_deployed() {
    let machines = vec![
        machine("m1", "crypto-aesy-main", "started"),
        machine("m2", "web-shop-app", "stopped"),
    ];
    assert_eq!(
        machine_state(&machines, &"crypto-aesy-main".to_string()),
        MachineState::Started
    );
    assert_eq!(
        machine_state(&machines, &"web-shop-app".to_string()),
        MachineState::Stopped
    );
    assert_eq!(
        machine_state(&machines, &"pwn-rop-main".to_string()),
        MachineState::NotDeployed
    );
    assert_eq!(state_word(MachineState::Started), "started");
    assert_eq!(state_word(MachineState::Stopped), "stopped");
    assert_eq!(state_word(MachineState::NotDeployed), "not deployed");
}
