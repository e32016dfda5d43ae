use filekeeper::config::{
    config_file_name, config_home, config_home_from, config_home_using, project_names, default_config, default_group_name, group_file_name,
    plan_switch, resolve_config, Config, ConfigError, Groups,
};
use std::cell::RefCell;
use std::path::PathBuf;

fn cfg(repo: &str, entries: &[&str]) -> Config {
    Config::new(repo.to_string(), entries.iter().map(|e| e.to_string()).collect())
}

#[test]
fn extract_gives_back_fields() {
    let (r, e) = cfg("/repo", &["/a", "/b"]).extract();
    assert_eq!(r, "/repo");
    assert_eq!(e, vec!["/a".to_string(), "/b".to_string()]);
}

#[test]
fn check_empty_repository() {
    assert!(matches!(cfg("", &["/"]).check(), Err(ConfigError::NoBaseRepositoryProvided)));
}

#[test]
fn check_missing_repository() {
    assert!(matches!(
        cfg("/definitely/not/a/real/path/fkp", &["/"]).check(),
        Err(ConfigError::InvalidBaseRepository)
    ));
}

#[test]
fn check_no_entries() {
    assert!(matches!(cfg("/", &[]).check(), Err(ConfigError::NoEntriesProvided)));
}

#[test]
fn check_missing_entry_names_first_missing() {
    let r = cfg("/", &["/", "/no/such/entry/one", "/no/such/entry/two"]).check();
    match r {
        Err(ConfigError::InvalidEntry(e)) => assert_eq!(e, "/no/such/entry/one"),
        other => panic!("unexpected {:?}", other),
    }
}

#[test]
fn check_all_present() {
    assert!(cfg("/", &["/", "/tmp"]).check().is_ok());
}

#[test]
fn check_with_outcomes() {
    let c = cfg("/repo", &["/a", "/b", "/c"]);
    assert!(c.check_with(true, &vec![true, true, true]).is_ok());
    assert!(matches!(c.check_with(false, &vec![true, true, true]), Err(ConfigError::InvalidBaseRepository)));
    match c.check_with(true, &vec![true, false, false]) {
        Err(ConfigError::InvalidEntry(e)) => assert_eq!(e, "/b"),
        other => panic!("unexpected {:?}", other),
    }
    let empty = cfg("", &["/a"]);
    assert!(matches!(empty.check_with(true, &vec![true]), Err(ConfigError::NoBaseRepositoryProvided)));
    let none = cfg("/repo", &[]);
    assert!(matches!(none.check_with(true, &vec![]), Err(ConfigError::NoEntriesProvided)));
}

#[test]
fn groups_insert_get_replace() {
    let mut g = Groups::new();
    assert!(g.get(&"machine 1".to_string()).is_none());
    g.insert("machine 1".to_string(), cfg("/one", &["/a"]));
    g.insert("machine 2".to_string(), cfg("/two", &["/b"]));
    g.insert("machine 1".to_string(), cfg("/uno", &["/c"]));
    let (r1, _) = g.get(&"machine 1".to_string()).unwrap().clone().extract();
    assert_eq!(r1, "/uno");
    let (r2, _) = g.get(&"machine 2".to_string()).unwrap().clone().extract();
    assert_eq!(r2, "/two");
    assert!(g.get(&"machine 3".to_string()).is_none());
}

#[test]
fn resolve_config_cases() {
    assert!(matches!(resolve_config(None, "x".to_string()), Err(ConfigError::ParseError)));

    let mut g = Groups::new();
    g.insert("machine 1".to_string(), cfg("/one", &["/a"]));
    let (r, e) = resolve_config(Some(g), "machine 1".to_string()).unwrap().extract();
    assert_eq!(r, "/one");
    assert_eq!(e, vec!["/a".to_string()]);

    let mut g = Groups::new();
    g.insert("machine 1".to_string(), cfg("/one", &["/a"]));
    match resolve_config(Some(g), "machine 1\n".to_string()) {
        Err(ConfigError::InvalidGroupName(n)) => assert_eq!(n, "machine 1\n"),
        other => panic!("unexpected {:?}", other),
    }
}

#[test]
fn default_config_text() {
    let t = default_config(Some("/home/u/.config/filekeeper/config.toml")).unwrap();
    assert_eq!(
        t,
        "[group.\"machine 1\"]\nrepository = \"path/to/repository\"\nentries = [\"/home/u/.config/filekeeper/config.toml\"]"
    );
    assert!(matches!(default_config(None), Err(ConfigError::ParseError)));
}

#[test]
fn default_config_declares_default_group() {
    let t = default_config(Some("/x")).unwrap();
    let header = format!("[group.\"{}\"]", default_group_name());
    assert!(t.starts_with(&header));
    assert_eq!(default_group_name(), "machine 1");
}

#[test]
fn file_names() {
    assert_eq!(config_file_name(), "config.toml");
    assert_eq!(group_file_name(), "group_name.txt");
}

#[test]
fn switch_plans() {
    let (w, m) = plan_switch(&"work".to_string(), &"work".to_string());
    assert!(!w);
    assert_eq!(m, "Group is already set to [work]");
    let (w, m) = plan_switch(&"home".to_string(), &"work".to_string());
    assert!(w);
    assert_eq!(m, "Switched to group [home]");
    let (w2, _) = plan_switch(&"home".to_string(), &"home".to_string());
    assert!(!w2);
}

#[test]
fn config_home_choices() {
    let p = PathBuf::from("/cfg");
    assert_eq!(config_home_from(Some(p.clone())).unwrap(), p);
    assert!(matches!(config_home_from(None), Err(ConfigError::NoConfigHome)));
    match config_home() {
        Ok(_) | Err(ConfigError::NoConfigHome) => {}
        Err(e) => panic!("unexpected {:?}", e),
    }
}

#[test]
fn check_using_probe_order() {
    let asked = RefCell::new(Vec::new());
    let c = cfg("/repo", &["/a", "/b", "/c"]);
    let r = c.check_using(|p: &String| {
        asked.borrow_mut().push(p.clone());
        Ok(p != "/b")
    });
    match r {
        Err(ConfigError::InvalidEntry(e)) => assert_eq!(e, "/b"),
        other => panic!("unexpected {:?}", other),
    }
    assert_eq!(*asked.borrow(), vec!["/repo".to_string(), "/a".to_string(), "/b".to_string()]);

    let asked = RefCell::new(Vec::new());
    let r = c.check_using(|p: &String| {
        asked.borrow_mut().push(p.clone());
        Err(std::io::Error::new(std::io::ErrorKind::Other, "no"))
    });
    assert!(matches!(r, Err(ConfigError::InvalidBaseRepository)));
    assert_eq!(*asked.borrow(), vec!["/repo".to_string()]);

    assert!(c.check_using(|_p: &String| Ok(true)).is_ok());
    assert!(matches!(cfg("/repo", &[]).check_using(|_p: &String| Ok(true)), Err(ConfigError::NoEntriesProvided)));
}

#[test]
fn config_home_names() {
    assert_eq!(project_names(), ("org", "FileKeeper", "FileKeeper"));
    let r = config_home_using(|q: &str, o: &str, a: &str| Some(PathBuf::from(format!("/{}/{}/{}", q, o, a))));
    assert_eq!(r.unwrap(), PathBuf::from("/org/FileKeeper/FileKeeper"));
    assert!(matches!(config_home_using(|_q: &str, _o: &str, _a: &str| None), Err(ConfigError::NoConfigHome)));
}
