use filekeeper::entry_tree::{status_word, EntryStatus, EntryTree};

#[test]
fn new_dir_is_empty_directory() {
    match EntryTree::new_dir() {
        EntryTree::Directory { children, status } => {
            assert_eq!(children.len(), 0);
            assert_eq!(status, EntryStatus::Unknow);
        }
        _ => panic!("not a directory"),
    }
}

#[test]
fn insert_replaces_same_path() {
    let mut t = EntryTree::new_dir();
    t.insert("/d/a".to_string(), EntryTree::Missing);
    t.insert("/d/b".to_string(), EntryTree::File(EntryStatus::Equal));
    t.insert("/d/a".to_string(), EntryTree::File(EntryStatus::Different));
    match &t {
        EntryTree::Directory { children, .. } => {
            assert_eq!(children.len(), 2);
            assert!(matches!(children.get(&"/d/a".to_string()), Some(EntryTree::File(EntryStatus::Different))));
            assert!(matches!(children.get(&"/d/b".to_string()), Some(EntryTree::File(EntryStatus::Equal))));
            assert!(children.get(&"/d/c".to_string()).is_none());
        }
        _ => panic!("not a directory"),
    }
}

#[test]
fn render_nested_tree() {
    let mut inner = EntryTree::new_dir();
    inner.insert("/d/sub/x".to_string(), EntryTree::File(EntryStatus::Equal));
    let mut t = EntryTree::new_dir();
    t.insert("/d/a".to_string(), EntryTree::Missing);
    t.insert("/d/sub".to_string(), inner);
    t.insert("/d/b".to_string(), EntryTree::File(EntryStatus::Different));
    let expected = " => \"/d/a\": Missing\n => \"/d/sub\": \n   => \"/d/sub/x\": Ok\n => \"/d/b\": Different\n";
    assert_eq!(t.render(0), expected);
    assert_eq!(t.height_capped(), 2);
}

#[test]
fn render_leaves() {
    assert_eq!(EntryTree::Missing.render(3), "Missing\n");
    assert_eq!(EntryTree::File(EntryStatus::Unknow).render(0), "Unknow\n");
    assert_eq!(EntryTree::new_dir().render(0), "");
    assert_eq!(EntryTree::Missing.height_capped(), 0);
}

#[test]
fn render_quotes_paths() {
    let mut t = EntryTree::new_dir();
    t.insert("/d/with \"quote\"".to_string(), EntryTree::Missing);
    assert_eq!(t.render(1), "   => \"/d/with \\\"quote\\\"\": Missing\n");
}

#[test]
fn status_words() {
    assert_eq!(status_word(EntryStatus::Equal), "Ok");
    assert_eq!(status_word(EntryStatus::Unknow), "Unknow");
    assert_eq!(status_word(EntryStatus::Different), "Different");
}

#[test]
fn render_quotes_paths_as_paths() {
    let mut t = EntryTree::new_dir();
    t.insert("/d/it's \"x\"".to_string(), EntryTree::File(EntryStatus::Equal));
    let expected = format!(" => {:?}: Ok\n", std::path::Path::new("/d/it's \"x\""));
    assert_eq!(t.render(0), expected);
}

#[test]
fn one_child_at_level_one() {
    let mut t = EntryTree::new_dir();
    t.insert("a".to_string(), EntryTree::File(EntryStatus::Equal));
    assert_eq!(t.render(1), "   => \"a\": Ok\n");
    let mut inner = EntryTree::new_dir();
    inner.insert("x".to_string(), EntryTree::Missing);
    let mut t = EntryTree::new_dir();
    t.insert("d".to_string(), inner);
    assert_eq!(t.render(0), " => \"d\": \n   => \"x\": Missing\n");
}

#[test]
fn tree_from_inserts_keeps_last_value_per_path() {
    let mut t = EntryTree::new_dir();
    let keys = ["a", "b", "a", "c", "b", "a"];
    for (i, k) in keys.iter().enumerate() {
        let node = if i % 2 == 0 { EntryTree::Missing } else { EntryTree::File(EntryStatus::Different) };
        t.insert(k.to_string(), node);
    }
    match &t {
        EntryTree::Directory { children, status } => {
            assert_eq!(*status, EntryStatus::Unknow);
            assert_eq!(children.len(), 3);
            assert!(matches!(children.get(&"a".to_string()), Some(EntryTree::File(EntryStatus::Different))));
            assert!(matches!(children.get(&"b".to_string()), Some(EntryTree::Missing)));
            assert!(matches!(children.get(&"c".to_string()), Some(EntryTree::File(EntryStatus::Different))));
        }
        _ => panic!("not a directory"),
    }
}
