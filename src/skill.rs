use vstd::prelude::*;

use crate::error::AppError;

verus! {

/// Longest accepted skill name, in characters.
pub const MAX_NAME_LEN: usize = 64;

/// A character allowed in a skill name: lowercase ASCII letter, digit or hyphen.
pub open spec fn is_name_char(c: char) -> bool {
    ('a' <= c && c <= 'z') || ('0' <= c && c <= '9') || c == '-'
}

/// A valid skill key: 1 to 64 characters, each allowed by `is_name_char`.
pub open spec fn is_valid_name(s: Seq<char>) -> bool {
    &&& 1 <= s.len() <= MAX_NAME_LEN
    &&& forall|i: int| 0 <= i < s.len() ==> #[trigger] is_name_char(s[i])
}

fn name_char(c: char) -> (r: bool)
    ensures
        r == is_name_char(c),
{
    ('a' <= c && c <= 'z') || ('0' <= c && c <= '9') || c == '-'
}

/// A validated skill key.
#[derive(Debug, PartialEq, Eq, Hash)]
pub struct SkillName {
    name: String,
}

impl View for SkillName {
    type V = Seq<char>;

    closed spec fn view(&self) -> Seq<char> {
        self.name@
    }
}

impl SkillName {
    #[verifier::type_invariant]
    spec fn inv(&self) -> bool {
        is_valid_name(self.name@)
    }

    /// Accepts `name` exactly when it is a valid skill key.
    pub fn new(name: &str) -> (r: Result<SkillName, AppError>)
        ensures
            r is Ok <==> is_valid_name(name@),
            r is Ok ==> r->Ok_0@ == name@,
            r is Err ==> r->Err_0 is Skill,
    {
        let n = name.unicode_len();
        if n == 0 || n > MAX_NAME_LEN {
            let msg = String::from_str("Skill name length must be between 1 and 64 characters: ")
                .concat(name);
            return Err(AppError::Skill(msg));
        }
        let mut i: usize = 0;
        while i < n
            invariant
                n == name@.len(),
                i <= n,
                forall|j: int| 0 <= j < i ==> #[trigger] is_name_char(name@[j]),
            decreases n - i,
        {
            if !name_char(name.get_char(i)) {
                let msg = String::from_str(
                    "Skill name must contain only lowercase alphanumeric characters and hyphens: ",
                ).concat(name);
                return Err(AppError::Skill(msg));
            }
            i = i + 1;
        }
        Ok(SkillName { name: name.to_owned() })
    }

    /// The key as text; it is always a valid skill key.
    pub fn as_str(&self) -> (r: &str)
        ensures
            r@ == self@,
            is_valid_name(r@),
    {
        proof {
            use_type_invariant(self);
        }
        self.name.as_str()
    }
}

/// The reference a dependency was declared with, as written.
#[derive(Debug, PartialEq, Eq)]
pub struct SkillSource {
    source: String,
}

impl View for SkillSource {
    type V = Seq<char>;

    closed spec fn view(&self) -> Seq<char> {
        self.source@
    }
}

impl SkillSource {
    pub fn new(source: &str) -> (r: SkillSource)
        ensures
            r@ == source@,
    {
        SkillSource { source: source.to_owned() }
    }

    pub fn as_str(&self) -> (r: &str)
        ensures
            r@ == self@,
    {
        self.source.as_str()
    }

    pub fn into_string(self) -> (r: String)
        ensures
            r@ == self@,
    {
        self.source
    }
}

/// What `str::to_lowercase` makes of a text.
pub uninterp spec fn lower_of(s: Seq<char>) -> Seq<char>;

/// Relies on `str::to_lowercase`: the result depends on the characters alone.
#[verifier::external_body]
fn lowercase(s: &str) -> (r: String)
    ensures
        r@ == lower_of(s@),
{
    s.to_lowercase()
}

/// `s` with every `_` turned into `-`.
pub open spec fn hyphenated(s: Seq<char>) -> Seq<char> {
    s.map_values(|c: char| if c == '_' { '-' } else { c })
}

/// Turns every `_` of `s` into `-`.
pub fn hyphenate(s: &str) -> (r: String)
    ensures
        r@ == hyphenated(s@),
{
    let n = s.unicode_len();
    let mut out = String::new();
    let mut i: usize = 0;
    while i < n
        invariant
            n == s@.len(),
            i <= n,
            out@ == hyphenated(s@.take(i as int)),
        decreases n - i,
    {
        let c = s.get_char(i);
        let ghost before = out@;
        if c == '_' {
            proof {
                reveal_strlit("-");
            }
            out.append("-");
        } else {
            let one = s.substring_char(i, i + 1);
            assert(one@ =~= seq![c]);
            out.append(one);
        }
        assert(out@ =~= before.push(if c == '_' { '-' } else { c }));
        assert(s@.take(i + 1) =~= s@.take(i as int).push(c));
        assert(hyphenated(s@.take(i + 1)) =~= hyphenated(s@.take(i as int)).push(
            if c == '_' { '-' } else { c },
        ));
        i = i + 1;
    }
    assert(s@.take(n as int) =~= s@);
    out
}

/// The name a new project is offered: its directory's name, lowercased, with
/// `_` turned into `-`.
pub fn default_skill_name(dir_name: &str) -> (r: String)
    ensures
        r@ == hyphenated(lower_of(dir_name@)),
{
    let lower = lowercase(dir_name);
    hyphenate(lower.as_str())
}

} // verus!
