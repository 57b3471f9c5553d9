use bearcds::challenge::{Challenge, Container, Expose, Limits};
use bearcds::errors::ConfigError;

fn chall(id: &str, cname: &str, mem: Option<u32>, expose: Option<Expose>) -> Challenge {
    Challenge {
        id: id.to_string(),
        name: format!("The {id} challenge"),
        author: "someone".to_string(),
        description: "desc".to_string(),
        flag: "flag{x}".to_string(),
        hidden: None,
        provide: None,
        containers: vec![(
            cname.to_string(),
            Container {
                build: ".".to_string(),
                limits: Limits { cpu: Some(1), mem },
                ports: None,
                env: None,
            },
        )],
        expose: match expose {
            Some(e) => vec![(cname.to_string(), e)],
            None => vec![],
        },
    }
}

#[test]
fn container_id_replaces_path_separators() {
    let c = chall("crypto/aesy", "main", Some(512), None);
    assert_eq!(c.container_id("main"), "crypto-aesy-main");
}

#[test]
fn container_id_is_a_pure_function_of_id_and_name() {
    let a = chall("web/shop", "db", Some(256), None);
    let b = chall("web/shop", "db", Some(512), Some(Expose::Tcp { target: 1, tcp: 2 }));
    assert_eq!(a.container_id("db"), b.container_id("db"));
    assert_eq!(a.container_id("db"), "web-shop-db");
}

#[test]
fn service_id_joins_category_and_directory_name() {
    assert_eq!(bearcds::challenge::service_id("crypto", "aesy"), "crypto/aesy");
}

#[test]
fn hyphen_free_containers_never_share_a_derived_name() {
    let a = chall("crypto/aesy", "main", Some(512), None);
    let b = chall("crypto/rsa", "main", Some(512), None);
    assert_ne!(a.container_id("main"), b.container_id("main"));
    assert_ne!(a.container_id("main"), a.container_id("aux"));
}

#[test]
fn derived_names_are_pairwise_distinct_over_generated_ids() {
    // Hyphen-free ids and container names, path separators included.
    let cats = ["crypto", "web", "pwn", "misc"];
    let names = ["aesy", "rsa", "shop", "rop"];
    let containers = ["main", "db", "bot"];
    let mut derived: Vec<String> = Vec::new();
    for cat in cats {
        for name in names {
            let c = chall(&format!("{cat}/{name}"), "main", Some(256), None);
            for cname in containers {
                derived.push(c.container_id(cname));
            }
        }
    }
    for i in 0..derived.len() {
        for j in (i + 1)..derived.len() {
            assert_ne!(derived[i], derived[j]);
        }
    }
}

#[test]
fn memory_validation_accepts_exactly_positive_multiples_of_256() {
    let lim = |mem: Option<u32>| Limits { cpu: None, mem };
    assert!(!lim(Some(100)).mem_valid());
    assert!(lim(Some(256)).mem_valid());
    assert!(!lim(Some(0)).mem_valid());
    assert!(lim(Some(512)).mem_valid());
    assert!(!lim(None).mem_valid());
}

#[test]
fn get_finds_a_challenge_by_id() {
    let catalog = vec![
        chall("crypto/aesy", "main", Some(512), None),
        chall("web/shop", "app", Some(256), None),
    ];
    let found = Challenge::get(&catalog, &"web/shop".to_string()).unwrap();
    assert_eq!(found.id, "web/shop");
}

#[test]
fn get_rejects_an_unknown_id() {
    let catalog = vec![chall("crypto/aesy", "main", Some(512), None)];
    let err = Challenge::get(&catalog, &"web/missing".to_string()).unwrap_err();
    assert_eq!(
        err,
        ConfigError::UnknownChallenge { name: "web/missing".to_string() }
    );
    assert_eq!(err.message(), "unknown challenge web/missing");
}

#[test]
fn get_all_returns_the_whole_catalog() {
    let catalog = vec![
        chall("crypto/aesy", "main", Some(512), None),
        chall("web/shop", "app", Some(256), None),
    ];
    let all = Challenge::get_all(&catalog);
    assert_eq!(all.len(), 2);
    assert_eq!(all[0].id, "crypto/aesy");
    assert_eq!(all[1].id, "web/shop");
}

#[test]
fn get_some_selects_in_request_order_and_fails_fast_on_unknown_names() {
    let catalog = vec![
        chall("crypto/aesy", "main", Some(512), None),
        chall("web/shop", "app", Some(256), None),
    ];
    let some = Challenge::get_some(
        &catalog,
        &vec!["web/shop".to_string(), "crypto/aesy".to_string()],
    )
    .unwrap();
    assert_eq!(some.len(), 2);
    assert_eq!(some[0].id, "web/shop");
    assert_eq!(some[1].id, "crypto/aesy");

    let err = Challenge::get_some(
        &catalog,
        &vec!["web/shop".to_string(), "web/nope".to_string()],
    )
    .unwrap_err();
    assert_eq!(err, ConfigError::UnknownChallenge { name: "web/nope".to_string() });
}
