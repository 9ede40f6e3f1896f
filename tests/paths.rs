use altp::paths::{
    alacritty_config_path_for, altp_config_path_for, default_config_dir, parent_dir,
    resolve_alacritty_config_path, resolve_altp_config_dir, resolve_altp_config_path, target_config_dir,
    themes_dir_in,
};

#[test]
fn default_dir_on_unix() {
    assert_eq!(default_config_dir("jane", "alacritty", false), "/home/jane/.config/alacritty");
}

#[test]
fn default_dir_on_windows() {
    assert_eq!(default_config_dir("jane", "altp", true), "C:/Users/jane/AppData/Roaming/altp");
}

#[test]
fn override_dir_wins() {
    let dir = Some("/tmp/cfg".to_string());
    assert_eq!(target_config_dir(&dir, "jane", false), "/tmp/cfg");
    assert_eq!(alacritty_config_path_for(&dir, "jane", false), "/tmp/cfg/alacritty.toml");
    assert_eq!(altp_config_path_for(&dir, "jane", true), "/tmp/cfg/altp.toml");
    assert_eq!(resolve_alacritty_config_path(&dir, false), "/tmp/cfg/alacritty.toml");
    assert_eq!(resolve_altp_config_path(&dir, false), "/tmp/cfg/altp.toml");
}

#[test]
fn files_default_to_their_own_dirs() {
    assert_eq!(alacritty_config_path_for(&None, "jane", false), "/home/jane/.config/alacritty/alacritty.toml");
    assert_eq!(altp_config_path_for(&None, "jane", false), "/home/jane/.config/altp/altp.toml");
    assert_eq!(altp_config_path_for(&None, "jane", true), "C:/Users/jane/AppData/Roaming/altp/altp.toml");
}

#[test]
fn resolved_state_file_uses_tool_dir() {
    let p = resolve_altp_config_path(&None, false);
    assert!(p.starts_with("/home/"));
    assert!(p.ends_with("/.config/altp/altp.toml"));
}

#[test]
fn resolved_defaults_use_current_user() {
    let p = resolve_alacritty_config_path(&None, false);
    assert!(p.starts_with("/home/"));
    assert!(p.ends_with("/.config/alacritty/alacritty.toml"));
    let d = resolve_altp_config_dir(true);
    assert!(d.starts_with("C:/Users/"));
    assert!(d.ends_with("/AppData/Roaming/altp"));
}

#[test]
fn themes_dir_and_parent() {
    assert_eq!(themes_dir_in("/home/jane/.config/altp"), "/home/jane/.config/altp/themes");
    assert_eq!(parent_dir("/home/jane/.config/alacritty/alacritty.toml"), "/home/jane/.config/alacritty");
    assert_eq!(parent_dir("alacritty.toml"), "");
}
