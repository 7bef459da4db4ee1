use outpost_config::pathops::{parent_dir, tmp_sibling_path};
use outpost_config::provider::InMemoryProvider;
use outpost_config::savefile::SaveAction;
use outpost_config::{ConfigProvider, FileAwareConfigProvider};

#[test]
fn tmp_path_is_a_distinct_sibling() {
    assert_eq!(
        tmp_sibling_path("etc/app/config.json"),
        "etc/app/config.json.tmp"
    );
    assert_eq!(tmp_sibling_path("config"), "config.tmp");
    assert_ne!(tmp_sibling_path("config.tmp"), "config.tmp");
}

#[test]
fn parent_dir_splits_at_the_last_separator() {
    assert_eq!(parent_dir("etc/app/config.json"), Some("etc/app".to_string()));
    assert_eq!(parent_dir("etc/config.json"), Some("etc".to_string()));
    assert_eq!(parent_dir("config.json"), None);
}

#[test]
fn save_protocol_orders_directory_write_rename() {
    let p = InMemoryProvider::new();
    p.put("a", "1").unwrap();
    let mut t = p.prepare_save("cfg/app.json");

    match t.current_action() {
        SaveAction::CreateDirAll(d) => assert_eq!(d, "cfg"),
        _ => panic!("expected the directory step first"),
    }
    t.advance(true);

    let payload = match t.current_action() {
        SaveAction::WriteWholeFile(path, content) => {
            assert_eq!(path, "cfg/app.json.tmp");
            content
        }
        _ => panic!("expected the write of the temporary file"),
    };
    let written: std::collections::HashMap<String, String> =
        serde_json::from_str(&payload).unwrap();
    assert_eq!(written.get("a").map(String::as_str), Some("1"));
    t.advance(true);

    match t.current_action() {
        SaveAction::RenameInto(from, to) => {
            assert_eq!(from, "cfg/app.json.tmp");
            assert_eq!(to, "cfg/app.json");
        }
        _ => panic!("expected the single rename"),
    }
    assert!(!t.finished());
    t.advance(true);
    assert!(t.finished());
    assert!(t.committed());
    assert!(matches!(t.current_action(), SaveAction::Stop));
}

#[test]
fn interrupted_save_never_names_the_destination() {
    // The save is interrupted right after the temporary file is
    // written, before the rename: no effect so far may target the
    // destination, so its previous content is untouched.
    let p = InMemoryProvider::new();
    p.put("a", "1").unwrap();
    let dest = "cfg/app.json";
    let mut t = p.prepare_save(dest);
    let mut steps = 0;
    loop {
        match t.current_action() {
            SaveAction::CreateDirAll(d) => assert_ne!(d, dest),
            SaveAction::WriteWholeFile(path, _) => {
                assert_ne!(path, dest);
                break;
            }
            SaveAction::RenameInto(_, _) => {
                panic!("rename must not come before the temporary write")
            }
            SaveAction::Stop => panic!("protocol stopped early"),
        }
        t.advance(true);
        steps += 1;
        assert!(steps < 5);
    }
}

#[test]
fn a_failed_step_abandons_the_save() {
    let p = InMemoryProvider::new();
    let mut t = p.prepare_save("dir/file.json");
    t.advance(false);
    assert!(t.finished());
    assert!(!t.committed());
    assert!(matches!(t.current_action(), SaveAction::Stop));
}

#[test]
fn a_bare_file_name_skips_the_directory_step() {
    let p = InMemoryProvider::new();
    let mut t = p.prepare_save("app.json");
    match t.current_action() {
        SaveAction::WriteWholeFile(path, _) => assert_eq!(path, "app.json.tmp"),
        _ => panic!("expected the temporary write straight away"),
    }
    t.advance(true);
    assert!(matches!(t.current_action(), SaveAction::RenameInto(_, _)));
}
