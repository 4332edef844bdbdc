use vstd::prelude::*;

verus! {

/// `s` holds `---` at position `i`.
pub open spec fn dashes_at(s: Seq<char>, i: int) -> bool {
    0 <= i && i + 3 <= s.len() && s[i] == '-' && s[i + 1] == '-' && s[i + 2] == '-'
}

/// The first position at or after `i` where `---` starts, or -1.
pub open spec fn dashes_from(s: Seq<char>, i: int) -> int
    decreases s.len() - i,
{
    if i < 0 || i + 3 > s.len() {
        -1
    } else if dashes_at(s, i) {
        i
    } else {
        dashes_from(s, i + 1)
    }
}

/// The frontmatter of a skill document: the text between its opening `---`
/// and the next `---`.
pub enum Frontmatter {
    /// The document does not start with `---`.
    Missing,
    /// No `---` closes the block.
    Unclosed,
    /// The text of the block.
    Block(String),
}

/// What the block's `name` field held, as read by a YAML parser.
pub enum ParsedName {
    /// The block is not valid YAML of the expected shape.
    Unparsable,
    /// The block has no `name`.
    Absent,
    Present(String),
}

/// A finding about an installed skill; none of them stops an install.
pub enum SkillWarning {
    MissingFile,
    Unreadable,
    NoFrontmatter,
    UnclosedFrontmatter,
    BadYaml,
    MissingName,
    /// The frontmatter names the skill otherwise than its directory.
    NameMismatch(String),
}

fn dashes(s: &str, n: usize, i: usize) -> (r: bool)
    requires
        n == s@.len(),
    ensures
        r == dashes_at(s@, i as int),
{
    i <= n && n - i >= 3 && s.get_char(i) == '-' && s.get_char(i + 1) == '-' && s.get_char(i + 2)
        == '-'
}

/// Frames the frontmatter of `content`.
pub fn frontmatter_block(content: &str) -> (r: Frontmatter)
    ensures
        !dashes_at(content@, 0) ==> r is Missing,
        dashes_at(content@, 0) && dashes_from(content@, 3) < 0 ==> r is Unclosed,
        dashes_at(content@, 0) && dashes_from(content@, 3) >= 0 ==> r is Block && r->Block_0@
            == content@.subrange(3, dashes_from(content@, 3)),
{
    let n = content.unicode_len();
    if !dashes(content, n, 0) {
        return Frontmatter::Missing;
    }
    let mut i: usize = 3;
    while n - i >= 3
        invariant
            n == content@.len(),
            dashes_at(content@, 0),
            3 <= i,
            i <= n,
            dashes_from(content@, i as int) == dashes_from(content@, 3),
        decreases n - i,
    {
        if dashes(content, n, i) {
            return Frontmatter::Block(content.substring_char(3, i).to_owned());
        }
        i = i + 1;
    }
    Frontmatter::Unclosed
}

/// The finding on a frontmatter's `name` against the skill's directory name.
pub fn check_name(parsed: ParsedName, expected: &str) -> (r: Option<SkillWarning>)
    ensures
        parsed is Unparsable ==> r matches Some(SkillWarning::BadYaml),
        parsed is Absent ==> r matches Some(SkillWarning::MissingName),
        parsed is Present ==> (r is None <==> parsed->Present_0@ == expected@),
        parsed is Present && r is Some ==> r->0 is NameMismatch && r->0->NameMismatch_0
            == parsed->Present_0,
{
    match parsed {
        ParsedName::Unparsable => Some(SkillWarning::BadYaml),
        ParsedName::Absent => Some(SkillWarning::MissingName),
        ParsedName::Present(name) => {
            if name == expected.to_owned() {
                None
            } else {
                Some(SkillWarning::NameMismatch(name))
            }
        },
    }
}

} // verus!
