use opengamecore::bottle::user_reg_backup_name;
use opengamecore::bottle::{create, is_listed};
use opengamecore::fs_utils::{backup_path, should_restore, temp_path};

#[test]
fn create_fails_if_template_missing() {
    let result = create("/tmp/x/nope", false, "/tmp/x/bottle", false);
    assert_eq!(result.unwrap_err().description(), "Bottle not found: /tmp/x/nope");
}

#[test]
fn create_fails_if_bottle_exists() {
    let result = create("/tmp/x/_template", true, "/tmp/x/my-game", true);
    assert_eq!(result.unwrap_err().description(), "Config error: Bottle already exists: /tmp/x/my-game");
}

#[test]
fn create_clones_template() {
    assert!(create("/tmp/x/_template", true, "/tmp/x/my-game", false).is_ok());
}

#[test]
fn list_excludes_template() {
    assert!(!is_listed("_template"));
    assert!(is_listed("game-one"));
    assert!(is_listed("game-two"));
}

#[test]
fn backup_and_temp_paths() {
    assert_eq!(backup_path("/t/config.toml"), "/t/config.bak");
    assert_eq!(temp_path("/t/games.toml"), "/t/games.tmp");
}

#[test]
fn restore_decisions() {
    // restore_from_backup_when_original_missing
    assert!(should_restore(false, 0, true));
    // restore_from_backup_when_original_empty
    assert!(should_restore(true, 0, true));
    // no_restore_when_original_exists_and_valid
    assert!(!should_restore(true, 10, true));
    assert!(!should_restore(false, 0, false));
}

#[test]
fn user_reg_kept_beside_bottle() {
    assert_eq!(user_reg_backup_name("/data/bottles/my-game"), "my-game.user.reg.bak");
    assert_eq!(user_reg_backup_name("/"), ".user.reg.bak");
}
