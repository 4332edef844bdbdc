use arsync::error::AppError;
use arsync::skill::{SkillName, SkillSource};

#[test]
fn name_accepts_lowercase_digits_hyphen() {
    let n = SkillName::new("my-skill-2").unwrap();
    assert_eq!(n.as_str(), "my-skill-2");
    assert!(SkillName::new("a").is_ok());
    assert!(SkillName::new(&"a".repeat(64)).is_ok());
}

#[test]
fn name_rejects_bad_input() {
    assert!(matches!(SkillName::new(""), Err(AppError::Skill(_))));
    assert!(matches!(SkillName::new(&"a".repeat(65)), Err(AppError::Skill(_))));
    assert!(matches!(SkillName::new("Upper"), Err(AppError::Skill(_))));
    assert!(matches!(SkillName::new("under_score"), Err(AppError::Skill(_))));
    assert!(matches!(SkillName::new("dot.name"), Err(AppError::Skill(_))));
    assert!(matches!(SkillName::new("héllo"), Err(AppError::Skill(_))));
}

#[test]
fn source_keeps_text() {
    let s = SkillSource::new("o/r#b");
    assert_eq!(s.as_str(), "o/r#b");
    assert_eq!(s.into_string(), "o/r#b".to_string());
}

#[test]
fn error_message_has_category_and_detail() {
    let e = AppError::System("boom".to_string());
    assert_eq!(e.message(), "system error: boom");
    assert_eq!(e.detail(), "boom");
    assert_eq!(AppError::Skill("x".to_string()).message(), "skill error: x");
}

#[test]
fn default_name_is_lowercased_and_hyphenated() {
    assert_eq!(arsync::skill::default_skill_name("My_Cool_Project"), "my-cool-project");
    assert_eq!(arsync::skill::default_skill_name("plain"), "plain");
    assert_eq!(arsync::skill::hyphenate("a_b_C"), "a-b-C");
    assert_eq!(arsync::skill::hyphenate(""), "");
}
