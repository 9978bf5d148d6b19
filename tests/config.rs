use cliniscribe::config::{
    backend_descriptor, daemon_descriptor, get_config_dir, get_config_file, get_default_data_dir, join_path,
    AppConfig,
};
use cliniscribe::supervisor::ServiceKind;

#[test]
fn join_inserts_separator_once() {
    assert_eq!(join_path("/a", "b"), "/a/b");
    assert_eq!(join_path("/a/", "b"), "/a/b");
    assert_eq!(join_path("", "b"), "b");
}

#[test]
fn config_paths() {
    assert_eq!(get_config_dir("/home/u/.config"), "/home/u/.config/cliniscribe");
    assert_eq!(get_config_file("/home/u/.config"), "/home/u/.config/cliniscribe/config.json");
    assert_eq!(get_default_data_dir("/home/u/.local/share"), "/home/u/.local/share/cliniscribe/audio_storage");
}

#[test]
fn first_run_defaults() {
    let c = AppConfig::default_in("/d");
    assert!(!c.setup_completed);
    assert_eq!(c.whisper_model, "base");
    assert_eq!(c.ollama_model, "llama3.1:8b");
    assert!(!c.use_gpu);
    assert_eq!(c.default_ratio_milli, 150);
    assert_eq!(c.default_subject, "");
    assert_eq!(c.data_directory, "/d/cliniscribe/audio_storage");
    assert_eq!(c.auto_delete_days, 7);
    assert_eq!(c.theme, "light");
    assert!(c.auto_updates);
}

#[test]
fn daemon_launch() {
    let d = daemon_descriptor("/res");
    assert_eq!(d.service, ServiceKind::Daemon);
    assert_eq!(d.program, "/res/ollama");
    assert_eq!(d.args, vec!["serve".to_string()]);
    assert_eq!(d.working_dir, "/res");
}

#[test]
fn backend_launch_follows_config() {
    let mut c = AppConfig::default_in("/d");
    let b = backend_descriptor("/res", &c);
    assert_eq!(b.program, "/res/api/cliniscribe-api");
    assert_eq!(b.args, vec!["--whisper-model", "base", "--data-dir", "/d/cliniscribe/audio_storage"]);
    assert_eq!(b.working_dir, "/res/api");
    c.use_gpu = true;
    c.whisper_model = "small".to_string();
    let g = backend_descriptor("/res", &c);
    assert_eq!(g.args, vec!["--whisper-model", "small", "--data-dir", "/d/cliniscribe/audio_storage", "--gpu"]);
}

#[test]
fn setup_completion() {
    let mut c = AppConfig::default_in("/d");
    assert!(c.is_first_run());
    c.complete_setup();
    assert!(!c.is_first_run());
    assert_eq!(c.theme, "light");
}
