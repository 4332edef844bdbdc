use arsync::fetch::{first_revision, plan_fetch, plan_remote_query};
use arsync::frontmatter::{check_name, frontmatter_block, Frontmatter, ParsedName, SkillWarning};
use arsync::skill::SkillSource;

#[test]
fn fetch_plan_prefers_pin_then_reference_then_head() {
    let s = SkillSource::new("acme/tools/skills/lint#dev");
    let p = plan_fetch(&s, Some("abc123")).unwrap();
    assert_eq!(p.owner, "acme");
    assert_eq!(p.repo, "tools");
    assert_eq!(p.subpath, "skills/lint");
    assert_eq!(p.url, "https://github.com/acme/tools.git");
    assert_eq!(p.checkout, "abc123");
    assert_eq!(plan_fetch(&s, None).unwrap().checkout, "dev");
    let bare = SkillSource::new("acme/tools");
    assert_eq!(plan_fetch(&bare, None).unwrap().checkout, "HEAD");
    assert!(plan_fetch(&SkillSource::new("nope"), None).is_err());
}

#[test]
fn remote_query_reference() {
    let q = plan_remote_query(&SkillSource::new("o/r@v1")).unwrap();
    assert_eq!(q.url, "https://github.com/o/r.git");
    assert_eq!(q.reference, "v1");
    assert_eq!(plan_remote_query(&SkillSource::new("o/r")).unwrap().reference, "HEAD");
}

#[test]
fn first_revision_reads_listing() {
    assert_eq!(first_revision("abc123\tHEAD\ndef\trefs/heads/x\n"), "abc123");
    assert_eq!(first_revision("  abc123 HEAD"), "abc123");
    assert_eq!(first_revision(""), "unknown");
    assert_eq!(first_revision("\nabc\tHEAD"), "unknown");
    assert_eq!(first_revision("   \t"), "unknown");
}

#[test]
fn frontmatter_framing() {
    match frontmatter_block("---\nname: my-skill\n---\nBody") {
        Frontmatter::Block(b) => assert_eq!(b, "\nname: my-skill\n"),
        _ => panic!("expected a block"),
    }
    assert!(matches!(frontmatter_block("# title\n"), Frontmatter::Missing));
    assert!(matches!(frontmatter_block("---\nname: x\n"), Frontmatter::Unclosed));
    match frontmatter_block("------") {
        Frontmatter::Block(b) => assert_eq!(b, ""),
        _ => panic!("expected an empty block"),
    }
}

#[test]
fn name_check_findings() {
    assert!(check_name(ParsedName::Present("my-skill".to_string()), "my-skill").is_none());
    match check_name(ParsedName::Present("wrong-name".to_string()), "my-skill") {
        Some(SkillWarning::NameMismatch(n)) => assert_eq!(n, "wrong-name"),
        _ => panic!("expected a mismatch"),
    }
    assert!(matches!(check_name(ParsedName::Absent, "x"), Some(SkillWarning::MissingName)));
    assert!(matches!(check_name(ParsedName::Unparsable, "x"), Some(SkillWarning::BadYaml)));
}
