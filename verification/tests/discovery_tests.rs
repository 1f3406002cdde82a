use system_bridge::config::{BrowserInfo, DownloadRoot, ProfileEntry, UnifiedRpcInfo};
use system_bridge::discovery::{empty_discovery, find_entry, record_host, RpcInfo};

fn make_test_root(key: &str, path: &str) -> DownloadRoot {
    DownloadRoot {
        key: key.to_string(),
        path: path.to_string(),
        display_name: format!("Test Root {}", key),
        removable: true,
        last_stat_ok: true,
        last_checked: 0,
    }
}

fn make_rpc_info(pid: u32, install_id: Option<&str>, roots: Option<Vec<DownloadRoot>>) -> RpcInfo {
    RpcInfo {
        version: "0.1.0".to_string(),
        pid,
        port: 12345,
        token: "test-token".to_string(),
        started: 1000,
        last_used: 1000,
        browser: BrowserInfo {
            name: "Chrome".to_string(),
            binary: "/bin/sh".to_string(),
            extension_id: Some("test-ext-id".to_string()),
        },
        download_roots: roots,
        install_id: install_id.map(|s| s.to_string()),
    }
}

#[test]
fn test_startup_preserves_existing_roots() {
    let mut file = empty_discovery();
    let install_id = "test-install-123";
    let test_root = make_test_root("root-key-1", "/home/user/Downloads");

    let info1 = make_rpc_info(1000, Some(install_id), Some(vec![test_root.clone()]));
    let roots1 = record_host(&mut file, &info1, true);
    assert_eq!(roots1.len(), 1);
    assert_eq!(roots1[0].key, "root-key-1");

    let info2 = make_rpc_info(2000, None, None);
    let roots2 = record_host(&mut file, &info2, true);
    assert_eq!(roots2.len(), 0);

    let info3 = make_rpc_info(2000, Some(install_id), None);
    let roots3 = record_host(&mut file, &info3, true);
    assert_eq!(roots3.len(), 1, "Roots should be preserved after restart handshake");
    assert_eq!(roots3[0].key, "root-key-1");
    assert_eq!(roots3[0].path, "/home/user/Downloads");
}

#[test]
fn test_some_empty_wipes_roots_regression() {
    let mut file = empty_discovery();
    let install_id = "test-install-regression";
    let test_root = make_test_root("root-key-1", "/home/user/Downloads");

    let info1 = make_rpc_info(1000, Some(install_id), Some(vec![test_root]));
    let roots1 = record_host(&mut file, &info1, true);
    assert_eq!(roots1.len(), 1);

    let info2 = make_rpc_info(2000, None, None);
    let _roots2 = record_host(&mut file, &info2, true);

    let info3 = make_rpc_info(2000, Some(install_id), Some(vec![]));
    let roots3 = record_host(&mut file, &info3, true);
    assert_eq!(roots3.len(), 0, "Some([]) wipes roots - main.rs must pass None to preserve");
}

#[test]
fn test_removing_root_actually_removes_it() {
    let mut file = empty_discovery();
    let install_id = "test-install-456";
    let test_root = make_test_root("root-to-remove", "/home/user/Videos");

    let info1 = make_rpc_info(1000, Some(install_id), Some(vec![test_root]));
    let roots1 = record_host(&mut file, &info1, true);
    assert_eq!(roots1.len(), 1);

    let info2 = make_rpc_info(1000, Some(install_id), Some(vec![]));
    let roots2 = record_host(&mut file, &info2, true);
    assert_eq!(roots2.len(), 0, "Root should be removed");

    let info3 = make_rpc_info(1000, Some(install_id), None);
    let roots3 = record_host(&mut file, &info3, true);
    assert_eq!(roots3.len(), 0, "Root should still be gone after preserve-mode read");
}

#[test]
fn test_adding_root() {
    let mut file = empty_discovery();
    let install_id = "test-install-789";

    let info1 = make_rpc_info(1000, Some(install_id), Some(vec![]));
    let roots1 = record_host(&mut file, &info1, true);
    assert_eq!(roots1.len(), 0);

    let new_root = make_test_root("new-root", "/home/user/Music");
    let info2 = make_rpc_info(1000, Some(install_id), Some(vec![new_root.clone()]));
    let roots2 = record_host(&mut file, &info2, true);
    assert_eq!(roots2.len(), 1);
    assert_eq!(roots2[0].key, "new-root");

    let info3 = make_rpc_info(1000, Some(install_id), None);
    let roots3 = record_host(&mut file, &info3, true);
    assert_eq!(roots3.len(), 1, "Added root should persist");
}

#[test]
fn empty_file_has_version_one() {
    assert_eq!(empty_discovery(), UnifiedRpcInfo { version: 1, profiles: vec![] });
}

#[test]
fn handshake_takes_over_the_placeholder_of_its_process() {
    let mut file = empty_discovery();
    record_host(&mut file, &make_rpc_info(2000, None, None), true);
    assert_eq!(file.profiles.len(), 1);
    assert_eq!(file.profiles[0].install_id, None);
    record_host(&mut file, &make_rpc_info(2000, Some("install"), None), true);
    assert_eq!(file.profiles.len(), 1);
    assert_eq!(file.profiles[0].install_id, Some("install".to_string()));
    assert_eq!(file.profiles[0].pid, 2000);
}

#[test]
fn placeholders_of_the_process_go_once_the_install_id_is_known() {
    let mut file = empty_discovery();
    record_host(&mut file, &make_rpc_info(1000, Some("install"), None), true);
    record_host(&mut file, &make_rpc_info(2000, None, None), true);
    record_host(&mut file, &make_rpc_info(3000, None, None), true);
    assert_eq!(file.profiles.len(), 3);
    record_host(&mut file, &make_rpc_info(2000, Some("install"), None), true);
    assert_eq!(file.profiles.len(), 2);
    assert_eq!(file.profiles[0].pid, 2000);
    assert_eq!(file.profiles[0].install_id, Some("install".to_string()));
    assert_eq!(file.profiles[1].pid, 3000);
}

#[test]
fn entry_of_another_extension_with_the_same_pid_is_not_taken() {
    let mut file = empty_discovery();
    record_host(&mut file, &make_rpc_info(2000, None, None), true);
    let mut other = make_rpc_info(2000, None, None);
    other.browser.extension_id = Some("another-ext".to_string());
    assert_eq!(find_entry(&file.profiles, &other), None);
    other.browser.extension_id = None;
    assert_eq!(find_entry(&file.profiles, &other), Some(0));
}

#[test]
fn binary_is_kept_unless_the_new_one_exists() {
    let mut file = empty_discovery();
    record_host(&mut file, &make_rpc_info(1000, Some("i"), None), true);
    let mut update = make_rpc_info(1000, Some("i"), None);
    update.browser.binary = "/opt/chrome (deleted)".to_string();
    update.browser.name = "Chromium".to_string();
    update.port = 1;
    update.token = "new".to_string();
    update.started = 5;
    update.last_used = 6;
    record_host(&mut file, &update, false);
    let entry: &ProfileEntry = &file.profiles[0];
    assert_eq!(entry.browser.binary, "/bin/sh");
    assert_eq!(entry.browser.name, "Chromium");
    assert_eq!(entry.port, 1);
    assert_eq!(entry.token, "new");
    assert_eq!(entry.started, 5);
    assert_eq!(entry.last_used, 6);
    record_host(&mut file, &update, true);
    assert_eq!(file.profiles[0].browser.binary, "/opt/chrome (deleted)");
    update.browser.binary = String::new();
    record_host(&mut file, &update, true);
    assert_eq!(file.profiles[0].browser.binary, "/opt/chrome (deleted)");
}
