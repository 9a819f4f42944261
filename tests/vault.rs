use sn_client::vault::{init_vault_path, join_path, mock_vault_path, FILE_NAME};
use sn_client::writer::Mode;

#[test]
fn vault_path_precedence() {
    let env = Some("/env/dir".to_string());
    let dev = Some("/dev/dir/".to_string());
    let tmp = "/tmp".to_string();
    assert_eq!(mock_vault_path(env.clone(), dev.clone(), tmp.clone()), "/env/dir/SCL-Mock");
    assert_eq!(mock_vault_path(None, dev.clone(), tmp.clone()), "/dev/dir/SCL-Mock");
    assert_eq!(mock_vault_path(None, None, tmp.clone()), "/tmp/SCL-Mock");
    assert_eq!(init_vault_path(None, None, tmp), "/tmp");
}

#[test]
fn joining_paths() {
    assert_eq!(join_path("", FILE_NAME), "SCL-Mock");
    assert_eq!(join_path("/", "a"), "/a");
    assert_eq!(join_path("a/b", "c"), "a/b/c");
}

#[test]
fn writer_modes_differ() {
    assert_ne!(Mode::Overwrite, Mode::Append);
    assert_eq!(Mode::Append, Mode::Append.clone());
}
