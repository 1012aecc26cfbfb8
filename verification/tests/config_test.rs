use lazyssh::config::{Config, Host};

#[test]
fn test_add_host() {
    let mut config = Config { hosts: vec![] };
    let host = Host {
        name: "test".into(),
        user: "user".into(),
        host: "host".into(),
        port: Some(22),
        password: None,
        command: None,
    };
    config.add_host(host);
    assert_eq!(config.hosts.len(), 1);
    assert_eq!(config.hosts[0].name, "test");
}

#[test]
fn test_remove_host() {
    let mut config = Config {
        hosts: vec![
            Host {
                name: "test1".into(),
                user: "user1".into(),
                host: "host1".into(),
                port: Some(22),
                password: None,
                command: None,
            },
            Host {
                name: "test2".into(),
                user: "user2".into(),
                host: "host2".into(),
                port: Some(22),
                password: None,
                command: None,
            },
        ],
    };
    config.remove_host(0);
    assert_eq!(config.hosts.len(), 1);
    assert_eq!(config.hosts[0].name, "test2");

    config.remove_host(10);
    assert_eq!(config.hosts.len(), 1);
}

#[test]
fn test_update_host() {
    let mut config = Config {
        hosts: vec![
            Host {
                name: "test1".into(),
                user: "user1".into(),
                host: "host1".into(),
                port: Some(22),
                password: None,
                command: None,
            },
        ],
    };
    let updated_host = Host {
        name: "updated".into(),
        user: "user2".into(),
        host: "host2".into(),
        port: Some(2222),
        password: None,
        command: None,
    };
    config.update_host(0, updated_host);
    assert_eq!(config.hosts[0].name, "updated");
    assert_eq!(config.hosts[0].user, "user2");
    assert_eq!(config.hosts[0].port, Some(2222));

    let new_host = Host {
        name: "new".into(),
        user: "user3".into(),
        host: "host3".into(),
        port: Some(22),
        password: None,
        command: None,
    };
    config.update_host(10, new_host);
    assert_eq!(config.hosts.len(), 1);
}


use lazyssh::config::copy_opt_string;

#[test]
fn test_host_and_config_copies_are_equal_field_by_field() {
    let host = Host {
        name: "n".into(),
        user: "u".into(),
        host: "h".into(),
        port: None,
        password: Some("p".into()),
        command: None,
    };
    let copy = host.clone();
    assert_eq!(copy.name, "n");
    assert_eq!(copy.user, "u");
    assert_eq!(copy.host, "h");
    assert_eq!(copy.port, None);
    assert_eq!(copy.password, Some("p".to_string()));
    assert_eq!(copy.command, None);
    assert_eq!(host.port_or_default(), 22);
    assert!(host.is_complete());
    let config = Config { hosts: vec![host, copy] };
    let again = config.clone();
    assert_eq!(again.hosts.len(), 2);
    assert_eq!(again.hosts[1].password, Some("p".to_string()));
    assert_eq!(copy_opt_string(&None), None);
    assert_eq!(copy_opt_string(&Some("x".to_string())), Some("x".to_string()));
}

#[test]
fn test_incomplete_hosts() {
    let mut host = Host {
        name: "n".into(),
        user: "".into(),
        host: "h".into(),
        port: Some(8022),
        password: None,
        command: None,
    };
    assert!(!host.is_complete());
    assert_eq!(host.port_or_default(), 8022);
    host.user = "u".into();
    host.host = "".into();
    assert!(!host.is_complete());
}

#[test]
fn test_remove_and_update_keep_order() {
    let make = |name: &str| Host {
        name: name.into(),
        user: "u".into(),
        host: "h".into(),
        port: None,
        password: None,
        command: None,
    };
    let mut config = Config { hosts: vec![make("a"), make("b"), make("c")] };
    config.remove_host(1);
    let names: Vec<&str> = config.hosts.iter().map(|h| h.name.as_str()).collect();
    assert_eq!(names, vec!["a", "c"]);
    config.update_host(1, make("z"));
    config.add_host(make("d"));
    let names: Vec<&str> = config.hosts.iter().map(|h| h.name.as_str()).collect();
    assert_eq!(names, vec!["a", "z", "d"]);
    config.remove_host(3);
    config.update_host(3, make("q"));
    assert_eq!(config.hosts.len(), 3);
}
