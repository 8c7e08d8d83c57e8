use cmake_tui_tool::config::{
    app_config_path, config_dir, config_file, config_path, default_workspace_history_limit,
    seconds_or_zero, workspace_key, AppConfig, WorkspaceBuildConfig, DEFAULT_HISTORY_LIMIT,
};

fn settings(limit: usize) -> AppConfig {
    let mut cfg = AppConfig::with_cores(8);
    cfg.workspace_history_limit = limit;
    cfg
}

#[test]
fn first_run() {
    let cfg = AppConfig::with_cores(8);
    assert_eq!(cfg.parallel_jobs, 8);
    assert_eq!(cfg.workspace_history_limit, 200);
    assert!(cfg.workspace_builds.is_empty());
    assert_eq!(default_workspace_history_limit(), DEFAULT_HISTORY_LIMIT);
    let b = WorkspaceBuildConfig::default();
    assert_eq!((b.build_type.as_str(), b.target.as_str(), b.last_used_unix_secs), ("", "", 0));
}

#[test]
fn workspace_keys() {
    assert_eq!(workspace_key("C:\\Work\\A", true), "c:/work/a");
    assert_eq!(workspace_key("C:\\Work\\A", false), "C:/Work/A");
    assert_eq!(workspace_key("c:/WORK/a", true), workspace_key("C:\\work\\A", true));
    assert_eq!(workspace_key("\\É", true), "/é");
}

#[test]
fn builds_are_remembered() {
    let mut cfg = settings(2);
    cfg.remember_workspace_build_at("/a", "debug", "all", 10, false);
    cfg.remember_workspace_build_at("/b", "release", "app", 20, false);
    cfg.remember_workspace_build_at("/a", "release", "lib", 30, false);
    let a = cfg.workspace_build("\\a", false).unwrap();
    assert_eq!((a.build_type.as_str(), a.target.as_str(), a.last_used_unix_secs), ("release", "lib", 30));
    cfg.remember_workspace_build_at("/c", "debug", "", 40, false);
    assert!(cfg.workspace_build("/b", false).is_none());
    assert!(cfg.workspace_build("/a", false).is_some());
    assert!(cfg.workspace_build("/c", false).is_some());
    assert_eq!(cfg.workspace_builds.len(), 2);
    assert!(cfg.workspace_build("/C", true).is_some());
}

#[test]
fn history_keeps_at_least_one() {
    let mut cfg = settings(0);
    cfg.remember_workspace_build_at("/a", "debug", "all", 10, false);
    cfg.remember_workspace_build_at("/b", "debug", "all", 11, false);
    assert_eq!(cfg.workspace_builds.len(), 1);
    assert!(cfg.workspace_build("/b", false).is_some());
}

#[test]
fn pruning_twice_changes_nothing() {
    let mut cfg = settings(10);
    for i in 0..10u64 {
        cfg.remember_workspace_build_at(&format!("/{}", i), "debug", "all", 100 - i, false);
    }
    cfg.workspace_history_limit = 3;
    cfg.prune_workspace_builds();
    cfg.prune_workspace_builds();
    assert_eq!(cfg.workspace_builds.len(), 3);
    for i in 0..3 {
        assert!(cfg.workspace_build(&format!("/{}", i), false).is_some());
    }
}

#[test]
fn builds_carry_the_time_of_the_clock() {
    let before = std::time::UNIX_EPOCH.elapsed().unwrap().as_secs();
    let mut cfg = settings(5);
    cfg.remember_workspace_build("/w", "debug", "all", false);
    let after = std::time::UNIX_EPOCH.elapsed().unwrap().as_secs();
    let b = cfg.workspace_build("/w", false).unwrap();
    assert!(before <= b.last_used_unix_secs && b.last_used_unix_secs <= after);
    assert_eq!(seconds_or_zero(None), 0);
    assert_eq!(seconds_or_zero(Some(5)), 5);
}

#[test]
fn normalizing() {
    let mut cfg = settings(0);
    cfg.parallel_jobs = 0;
    cfg.normalize(6);
    assert_eq!(cfg.parallel_jobs, 6);
    assert_eq!(cfg.workspace_history_limit, 200);
    cfg.parallel_jobs = 2;
    cfg.workspace_history_limit = 7;
    cfg.normalize(6);
    cfg.normalize(6);
    assert_eq!((cfg.parallel_jobs, cfg.workspace_history_limit), (2, 7));
}

#[test]
fn settings_that_were_read() {
    let fresh = AppConfig::loaded(None, 4);
    assert_eq!((fresh.parallel_jobs, fresh.workspace_history_limit), (4, 200));
    let mut read = settings(10);
    read.parallel_jobs = 3;
    read.remember_workspace_build_at("/a", "debug", "all", 1, false);
    read.remember_workspace_build_at("/b", "debug", "all", 2, false);
    read.workspace_history_limit = 1;
    let cfg = AppConfig::loaded(Some(read), 4);
    assert_eq!((cfg.parallel_jobs, cfg.workspace_history_limit), (3, 1));
    assert!(cfg.workspace_build("/b", false).is_some());
    assert!(cfg.workspace_build("/a", false).is_none());
}

#[test]
fn directories_of_files() {
    let sep = std::path::MAIN_SEPARATOR;
    let base = Some("/home/u/.config".to_string());
    assert_eq!(config_dir(base.clone(), "/x/app"), format!("/home/u/.config{}cmake-tui-tool", sep));
    assert_eq!(config_dir(None, "/opt/tool/app"), format!("/opt/tool{}config", sep));
    assert_eq!(config_dir(None, "app"), "config");
    assert_eq!(config_dir(None, ""), format!(".{}config", sep));
    assert_eq!(
        config_file(base, "/x/app", "f.json"),
        format!("/home/u/.config{}cmake-tui-tool{}f.json", sep, sep)
    );
}

#[test]
fn directories_of_servers_and_roots() {
    let sep = std::path::MAIN_SEPARATOR;
    let base = Some("//server/share/u".to_string());
    assert_eq!(
        config_file(base, "/x/app", "config.json"),
        format!("//server/share/u{}cmake-tui-tool{}config.json", sep, sep)
    );
    assert_eq!(config_file(None, "/app", "f"), format!("/config{}f", sep));
    assert_eq!(
        config_file(None, "//server/share/d/app", "f"),
        format!("//server/share/d{}config{}f", sep, sep)
    );
    let verbatim = config_file(Some("\\\\?\\C:\\u".to_string()), "", "f.json");
    assert!(verbatim.ends_with(&format!("cmake-tui-tool{}f.json", sep)));
}

#[test]
fn configuration_files_have_their_names() {
    let settings = app_config_path("/x/app");
    let toolchains = config_path("/x/app");
    assert_ne!(settings, toolchains);
    assert!(settings.ends_with("config.json"));
    assert!(toolchains.ends_with("toolchain.json"));
    assert_eq!(
        std::path::Path::new(&settings).parent(),
        std::path::Path::new(&toolchains).parent()
    );
}

#[test]
fn copies_of_settings() {
    let mut cfg = settings(3);
    cfg.remember_workspace_build_at("/a", "debug", "all", 1, false);
    let copy = cfg.clone();
    assert_eq!(copy.workspace_build("/a", false).unwrap().target, "all");
    assert_eq!(format!("{:?}", copy), format!("{:?}", cfg));
}

#[test]
fn files_lie_in_the_configuration_directory() {
    let base = dirs::config_dir().map(|p| p.to_string_lossy().to_string());
    assert_eq!(app_config_path("/x/app"), config_file(base.clone(), "/x/app", "config.json"));
    assert_eq!(config_path("/x/app"), config_file(base, "/x/app", "toolchain.json"));
}
