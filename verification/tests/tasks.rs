use lang::codegen::{crate_manifest, string_literal, toml_path, BuildProfile, CraneliftBackend};
use lang::task::{RuntimeError, TaskIds};

#[test]
fn mod_task_id_is_unique() {
    let mut ids = TaskIds::new();
    let task_a = ids.next_task_id();
    let task_b = ids.next_task_id();
    assert_ne!(task_a.get(), task_b.get());
    assert_eq!(task_a.get(), 1);
    assert_eq!(task_b.get(), 2);
}

#[test]
fn runtime_errors_display_their_message() {
    let err = RuntimeError::new("failed to downcast task output".to_string());
    assert_eq!(err.to_display_string(), "failed to downcast task output");
}

#[test]
fn build_profiles_name_their_settings() {
    assert_eq!(BuildProfile::Dev.cargo_flag(), None);
    assert_eq!(BuildProfile::Release.cargo_flag(), Some("--release"));
    assert_eq!(BuildProfile::Dev.target_dir(), "debug");
    assert_eq!(BuildProfile::Release.target_dir(), "release");
    assert_eq!(BuildProfile::Release.opt_level(), "speed");
    let backend = CraneliftBackend::new(BuildProfile::Release).unwrap();
    assert_eq!(backend.profile(), BuildProfile::Release);
}

#[test]
fn escapes_text_for_generated_sources() {
    assert_eq!(string_literal("a\"b\\c\nd\te\r"), "\"a\\\"b\\\\c\\nd\\te\\r\"");
    assert_eq!(toml_path("C:\\lang"), "C:\\\\lang");
    let manifest = crate_manifest("/work/lang");
    assert!(manifest.starts_with("[package]\nname = \"lang_build_artifact\"\n"));
    assert!(manifest.ends_with("lang = { path = \"/work/lang\" }\n"));
}
