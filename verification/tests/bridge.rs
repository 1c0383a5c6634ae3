use media_export::bridge::{join, output_parent, plan_export, Platform};

const REFUSAL: &str = "Mobile export is only available on iOS/Android.";

#[test]
fn desktop_host_is_refused() {
    let r = plan_export(Platform::Desktop, Ok("/data/app".to_string()), "rec1.mov", None);
    assert_eq!(r.err(), Some(REFUSAL.to_string()));
}

#[test]
fn desktop_refusal_precedes_directory_lookup() {
    let r = plan_export(Platform::Desktop, Err("no data dir".to_string()), "rec1.mov", None);
    assert_eq!(r.err(), Some(REFUSAL.to_string()));
}

#[test]
fn directory_failure_is_passed_through() {
    let r = plan_export(
        Platform::Android,
        Err("data directory unavailable".to_string()),
        "rec1.mov",
        None,
    );
    assert_eq!(r.err(), Some("data directory unavailable".to_string()));
}

#[test]
fn android_plan_resolves_both_paths() {
    let base = "/data/user/0/app/files";
    let plan = plan_export(Platform::Android, Ok(base.to_string()), "rec1.mov", None).unwrap();
    assert_eq!(plan.request.input_path, "/data/user/0/app/files/rec1.mov");
    assert_eq!(plan.request.output_path, "/data/user/0/app/files/rec1.mp4");
    assert_eq!(plan.output_parent, "/data/user/0/app/files");
}

#[test]
fn ios_plan_keeps_requested_name() {
    let plan = plan_export(
        Platform::Ios,
        Ok("/base".to_string()),
        "clip",
        Some("final".to_string()),
    )
    .unwrap();
    assert_eq!(plan.request.input_path, "/base/clip");
    assert_eq!(plan.request.output_path, "/base/final.mp4");
    assert_eq!(plan.output_parent, "/base");
}

#[test]
fn nested_output_name_yields_parent_to_create() {
    let plan = plan_export(
        Platform::Ios,
        Ok("/base".to_string()),
        "rec.mov",
        Some("exports/2024/final".to_string()),
    )
    .unwrap();
    assert_eq!(plan.request.output_path, "/base/exports/2024/final.mp4");
    assert_eq!(plan.output_parent, "/base/exports/2024");
}

#[test]
fn platform_gating() {
    assert!(Platform::Android.is_mobile());
    assert!(Platform::Ios.is_mobile());
    assert!(!Platform::Desktop.is_mobile());
}

#[test]
fn join_follows_unix_rules() {
    assert_eq!(join("/a", "b"), "/a/b");
    assert_eq!(join("/a/", "b"), "/a/b");
    assert_eq!(join("", "b"), "b");
    assert_eq!(join("/a", "/abs"), "/abs");
    assert_eq!(join("/a", ""), "/a/");
}

#[test]
fn output_parent_names_the_directory() {
    assert_eq!(output_parent("/a", "b.mp4"), "/a");
    assert_eq!(output_parent("/a", "c/b.mp4"), "/a/c");
    assert_eq!(output_parent("/a/", "c/b.mp4"), "/a/c");
    assert_eq!(output_parent("/a", "/b.mp4"), "/");
    assert_eq!(output_parent("/a", "/c/b.mp4"), "/c");
}
