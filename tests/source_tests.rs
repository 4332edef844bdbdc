use arsync::skill::SkillName;
use arsync::source::{compose, extract_skill_name_raw, resolve_install_source, SourceSpec};

#[test]
fn test_extract_skill_name_raw() {
    // Basic owner/repo
    assert_eq!(extract_skill_name_raw("BurntSushi/toml"), "toml");
    assert_eq!(extract_skill_name_raw("owner/my-cool-repo"), "my-cool-repo");

    // With branch or tag
    assert_eq!(extract_skill_name_raw("owner/repo#main"), "repo");
    assert_eq!(extract_skill_name_raw("owner/repo@v1.0.0"), "repo");

    // With subfolders
    assert_eq!(extract_skill_name_raw("owner/repo/subfolder/skill"), "skill");
    assert_eq!(extract_skill_name_raw("owner/repo/deep/path/to/my-skill"), "my-skill");

    // With subfolders and branch/tag at the end
    assert_eq!(extract_skill_name_raw("owner/repo/subfolder/skill#branch"), "skill");
    assert_eq!(extract_skill_name_raw("owner/repo/subfolder/skill@tag"), "skill");
}

#[test]
fn test_skill_name_validation_applies() {
    let raw = extract_skill_name_raw("owner/valid-skill");
    assert!(SkillName::new(&raw).is_ok());

    let raw_invalid = extract_skill_name_raw("owner/InvalidSkill");
    assert!(SkillName::new(&raw_invalid).is_err());
}

#[test]
fn test_resolve_shorthand_only() {
    let result = resolve_install_source(
        &Some("owner/repo/path#main".to_string()),
        &None, &None, &None, &None, &None,
    );
    assert_eq!(result.unwrap(), Some("owner/repo/path#main".to_string()));
}

#[test]
fn test_resolve_explicit_flags_only() {
    let result = resolve_install_source(
        &None,
        &Some("myowner".to_string()),
        &Some("myrepo".to_string()),
        &Some("dev".to_string()),
        &None,
        &Some("src/skills".to_string()),
    );
    assert_eq!(result.unwrap(), Some("myowner/myrepo/src/skills#dev".to_string()));
}

#[test]
fn test_resolve_bare_install() {
    let result = resolve_install_source(&None, &None, &None, &None, &None, &None);
    assert_eq!(result.unwrap(), None);
}

#[test]
fn test_resolve_flags_without_owner_errors() {
    let result = resolve_install_source(
        &None, &None, &Some("myrepo".to_string()), &None, &None, &None,
    );
    assert!(result.is_err());
}

#[test]
fn test_resolve_shorthand_with_flag_override() {
    let result = resolve_install_source(
        &Some("owner/repo#dev".to_string()),
        &None, &None,
        &Some("main".to_string()),
        &None, &None,
    );
    assert_eq!(result.unwrap(), Some("owner/repo#main".to_string()));
}

#[test]
fn resolve_tag_flag_keeps_at_delimiter() {
    let result = resolve_install_source(
        &Some("owner/repo".to_string()),
        &None, &None, &None,
        &Some("v2".to_string()),
        &None,
    );
    assert_eq!(result.unwrap(), Some("owner/repo@v2".to_string()));
}

#[test]
fn resolve_flags_override_shorthand_parts() {
    let result = resolve_install_source(
        &Some("owner/repo/old@v1".to_string()),
        &Some("other".to_string()),
        &None, &None, &None,
        &Some("new/dir".to_string()),
    );
    assert_eq!(result.unwrap(), Some("other/repo/new/dir@v1".to_string()));
}

#[test]
fn resolve_tag_flag_without_shorthand() {
    let result = resolve_install_source(
        &None,
        &Some("o".to_string()),
        &Some("r".to_string()),
        &None,
        &Some("t1".to_string()),
        &None,
    );
    assert_eq!(result.unwrap(), Some("o/r@t1".to_string()));
}

#[test]
fn resolve_flags_without_repository_errors() {
    let result = resolve_install_source(
        &None, &Some("o".to_string()), &None, &None, &None, &None,
    );
    assert!(result.is_err());
}

#[test]
fn parse_splits_all_parts() {
    let p = SourceSpec::parse("acme/tools/skills/lint#dev").unwrap();
    assert_eq!(p.owner, "acme");
    assert_eq!(p.repo, "tools");
    assert_eq!(p.subpath, "skills/lint");
    assert_eq!(p.reference, "dev");
    assert!(p.ref_is_branch);

    let q = SourceSpec::parse("acme/tools@v1").unwrap();
    assert_eq!(q.subpath, "");
    assert_eq!(q.reference, "v1");
    assert!(!q.ref_is_branch);
}

#[test]
fn parse_prefers_at_over_hash() {
    let p = SourceSpec::parse("o/r#x@y").unwrap();
    assert_eq!(p.repo, "r#x");
    assert_eq!(p.reference, "y");
    assert!(!p.ref_is_branch);
}

#[test]
fn parse_rejects_missing_owner_or_repo() {
    assert!(SourceSpec::parse("onlyowner").is_err());
    assert!(SourceSpec::parse("/repo").is_err());
    assert!(SourceSpec::parse("owner/").is_err());
    assert!(SourceSpec::parse("").is_err());
}

#[test]
fn compose_parse_round_trip() {
    for s in [
        "owner/repo",
        "owner/repo#main",
        "owner/repo@v1.0.0",
        "owner/repo/sub/skill",
        "owner/repo/sub/skill#b",
        "owner/repo/a/b/c@0123abc",
    ] {
        let p = SourceSpec::parse(s).unwrap();
        assert_eq!(p.to_source_string(), s);
    }
}

#[test]
fn compose_picks_delimiter() {
    assert_eq!(compose("o", "r", "", "", true), "o/r");
    assert_eq!(compose("o", "r", "p/q", "main", true), "o/r/p/q#main");
    assert_eq!(compose("o", "r", "", "v1", false), "o/r@v1");
}

#[test]
fn key_derivation_examples() {
    assert_eq!(extract_skill_name_raw("owner/repo"), "repo");
    assert_eq!(extract_skill_name_raw("owner/repo#main"), "repo");
    assert_eq!(extract_skill_name_raw("owner/repo@v1"), "repo");
    assert_eq!(extract_skill_name_raw("owner/repo/sub/skill"), "skill");
    assert_eq!(extract_skill_name_raw("owner/repo/sub/skill#b"), "skill");
    assert_eq!(extract_skill_name_raw("single"), "single");
}
