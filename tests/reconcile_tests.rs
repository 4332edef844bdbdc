use arsync::error::AppError;
use arsync::lockfile::Lockfile;
use arsync::manifest::Manifest;
use arsync::reconcile::{
    plan_install, plan_update, record_fetch, record_install, restore_jobs, select_update_keys,
    uninstall,
};
use arsync::skill::{SkillName, SkillSource};
use arsync::table::KeyedTable;

fn project() -> Manifest {
    Manifest::new(SkillName::new("demo").unwrap(), "a demo".to_string())
}

#[test]
fn install_then_update_scenario() {
    let mut m = project();
    let mut l = Lockfile::new();
    let target = plan_install(&m, "acme/widgets").unwrap();
    assert_eq!(target.key.as_str(), "widgets");
    record_install(&mut m, &mut l, "acme/widgets", "abc123".to_string()).unwrap();
    assert_eq!(m.source_of("widgets").unwrap().as_str(), "acme/widgets");
    assert_eq!(l.get_commit("widgets").unwrap(), "abc123");

    // Remote still at the recorded revision: nothing to extract.
    assert!(plan_update(&m, &l, "widgets", "abc123").is_none());

    // Remote moved: one unpinned extraction, then the lockfile follows.
    let job = plan_update(&m, &l, "widgets", "def456").unwrap();
    assert_eq!(job.key, "widgets");
    assert_eq!(job.source.as_str(), "acme/widgets");
    assert!(job.pin.is_none());
    record_fetch(&mut l, job.key, "def456".to_string());
    assert_eq!(l.get_commit("widgets").unwrap(), "def456");
    assert!(plan_update(&m, &l, "widgets", "def456").is_none());
}

#[test]
fn update_without_lock_entry_or_with_unknown_extracts() {
    let mut m = project();
    m.add_dependency("widgets".to_string(), SkillSource::new("acme/widgets"));
    let mut l = Lockfile::new();
    assert!(plan_update(&m, &l, "widgets", "abc").is_some());
    l.set_commit("widgets".to_string(), "unknown".to_string());
    assert!(plan_update(&m, &l, "widgets", "unknown").is_some());
    assert!(plan_update(&m, &l, "absent", "abc").is_none());
}

#[test]
fn install_conflict_leaves_state() {
    let mut m = project();
    let mut l = Lockfile::new();
    record_install(&mut m, &mut l, "acme/widgets", "abc".to_string()).unwrap();
    let r = record_install(&mut m, &mut l, "other/widgets", "zzz".to_string());
    assert!(matches!(r, Err(AppError::System(_))));
    assert!(matches!(plan_install(&m, "other/widgets"), Err(AppError::System(_))));
    assert_eq!(m.source_of("widgets").unwrap().as_str(), "acme/widgets");
    assert_eq!(l.get_commit("widgets").unwrap(), "abc");
    assert_eq!(m.dependencies.len(), 1);
}

#[test]
fn reinstall_same_source_is_allowed() {
    let mut m = project();
    let mut l = Lockfile::new();
    record_install(&mut m, &mut l, "acme/widgets", "abc".to_string()).unwrap();
    record_install(&mut m, &mut l, "acme/widgets", "def".to_string()).unwrap();
    assert_eq!(l.get_commit("widgets").unwrap(), "def");
    assert_eq!(m.dependencies.len(), 1);
}

#[test]
fn install_invalid_key_is_skill_error() {
    let m = project();
    assert!(matches!(plan_install(&m, "owner/InvalidSkill"), Err(AppError::Skill(_))));
}

#[test]
fn uninstall_removes_entries() {
    let mut m = project();
    let mut l = Lockfile::new();
    record_install(&mut m, &mut l, "acme/widgets", "abc".to_string()).unwrap();
    record_install(&mut m, &mut l, "acme/tools/sub/lint", "def".to_string()).unwrap();
    uninstall(&mut m, &mut l, "widgets").unwrap();
    assert!(m.source_of("widgets").is_none());
    assert!(l.get_commit("widgets").is_none());
    assert_eq!(m.source_of("lint").unwrap().as_str(), "acme/tools/sub/lint");
    assert!(matches!(uninstall(&mut m, &mut l, "widgets"), Err(AppError::System(_))));
    assert_eq!(l.get_commit("lint").unwrap(), "def");
}

#[test]
fn restore_jobs_pin_locked_revisions() {
    let mut m = project();
    m.add_dependency("a".to_string(), SkillSource::new("o/a"));
    m.add_dependency("b".to_string(), SkillSource::new("o/b#dev"));
    let mut l = Lockfile::new();
    l.set_commit("b".to_string(), "c0ffee".to_string());
    let jobs = restore_jobs(&m, &l);
    assert_eq!(jobs.len(), 2);
    assert_eq!(jobs[0].key, "a");
    assert!(jobs[0].pin.is_none());
    assert_eq!(jobs[1].key, "b");
    assert_eq!(jobs[1].source.as_str(), "o/b#dev");
    assert_eq!(jobs[1].pin.as_deref(), Some("c0ffee"));
    assert!(restore_jobs(&project(), &l).is_empty());
}

#[test]
fn select_update_keys_named_or_all() {
    let mut m = project();
    m.add_dependency("a".to_string(), SkillSource::new("o/a"));
    m.add_dependency("b".to_string(), SkillSource::new("o/b"));
    assert_eq!(select_update_keys(&m, Some("b")).unwrap(), vec!["b".to_string()]);
    assert!(matches!(select_update_keys(&m, Some("zz")), Err(AppError::System(_))));
    assert_eq!(select_update_keys(&m, None).unwrap(), vec!["a".to_string(), "b".to_string()]);
}

#[test]
fn table_keeps_first_insertion_order() {
    let mut t = KeyedTable::new();
    t.insert("x".to_string(), "1".to_string());
    t.insert("y".to_string(), "2".to_string());
    t.insert("x".to_string(), "3".to_string());
    assert_eq!(t.len(), 2);
    assert_eq!(t.entry(0), (&"x".to_string(), &"3".to_string()));
    assert_eq!(t.get("y").unwrap(), "2");
    t.remove("x");
    assert!(!t.contains_key("x"));
    assert_eq!(t.entry(0).0, "y");
    t.remove("missing");
    assert_eq!(t.len(), 1);
}

#[test]
fn manifest_remove_dependency() {
    let mut m = project();
    m.add_dependency("a".to_string(), SkillSource::new("o/a"));
    m.remove_dependency("a");
    assert!(m.source_of("a").is_none());
    assert_eq!(m.name.as_str(), "demo");
    assert_eq!(m.description, "a demo");
    let mut l = Lockfile::new();
    l.set_commit("a".to_string(), "1".to_string());
    l.remove_commit("a");
    assert!(l.get_commit("a").is_none());
}
