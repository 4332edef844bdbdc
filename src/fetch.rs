use vstd::prelude::*;

use crate::error::AppError;
use crate::skill::SkillSource;
use crate::source::{owner_of, ref_of, repo_of, subpath_of, SourceSpec};
use crate::text::{before_first, split_first};

verus! {

/// The HTTPS address of a repository.
pub open spec fn remote_url_of(owner: Seq<char>, repo: Seq<char>) -> Seq<char> {
    "https://github.com/"@ + owner + "/"@ + repo + ".git"@
}

/// What an ephemeral checkout is made at: a pinned commit, else the
/// reference's branch or tag, else the mirror's default head.
pub open spec fn checkout_of(pin: Option<Seq<char>>, reference: Seq<char>) -> Seq<char> {
    match pin {
        Some(p) => p,
        None => if reference.len() > 0 {
            reference
        } else {
            "HEAD"@
        },
    }
}

/// Where an extraction comes from and what it checks out.
pub struct FetchPlan {
    pub owner: String,
    pub repo: String,
    pub subpath: String,
    pub url: String,
    pub checkout: String,
}

/// A query of the revision a remote reference points to.
pub struct RemoteQuery {
    pub url: String,
    pub reference: String,
}

fn remote_url(owner: &str, repo: &str) -> (r: String)
    ensures
        r@ == remote_url_of(owner@, repo@),
{
    String::from_str("https://github.com/").concat(owner).concat("/").concat(repo).concat(".git")
}

fn checkout_target(pin: Option<&str>, reference: &str) -> (r: String)
    ensures
        r@ == checkout_of(
            match pin {
                Some(p) => Some(p@),
                None => None,
            },
            reference@,
        ),
{
    match pin {
        Some(p) => p.to_owned(),
        None => if reference.unicode_len() > 0 {
            reference.to_owned()
        } else {
            String::from_str("HEAD")
        },
    }
}

/// Plans the extraction of `source`, pinned to `pin` where one is given.
pub fn plan_fetch(source: &SkillSource, pin: Option<&str>) -> (r: Result<FetchPlan, AppError>)
    ensures
        r is Ok <==> owner_of(source@).len() > 0 && repo_of(source@).len() > 0,
        r is Err ==> r->Err_0 is System,
        r is Ok ==> {
            let p = r->Ok_0;
            &&& p.owner@ == owner_of(source@)
            &&& p.repo@ == repo_of(source@)
            &&& p.subpath@ == subpath_of(source@)
            &&& p.url@ == remote_url_of(owner_of(source@), repo_of(source@))
            &&& p.checkout@ == checkout_of(
                match pin {
                    Some(x) => Some(x@),
                    None => None,
                },
                ref_of(source@),
            )
        },
{
    let spec = SourceSpec::parse(source.as_str())?;
    let url = remote_url(spec.owner.as_str(), spec.repo.as_str());
    let checkout = checkout_target(pin, spec.reference.as_str());
    Ok(FetchPlan { owner: spec.owner, repo: spec.repo, subpath: spec.subpath, url, checkout })
}

/// Plans the query of the revision that `source`'s reference (or the default head) points to.
pub fn plan_remote_query(source: &SkillSource) -> (r: Result<RemoteQuery, AppError>)
    ensures
        r is Ok <==> owner_of(source@).len() > 0 && repo_of(source@).len() > 0,
        r is Err ==> r->Err_0 is System,
        r is Ok ==> r->Ok_0.url@ == remote_url_of(owner_of(source@), repo_of(source@))
            && r->Ok_0.reference@ == checkout_of(None, ref_of(source@)),
{
    let spec = SourceSpec::parse(source.as_str())?;
    let url = remote_url(spec.owner.as_str(), spec.repo.as_str());
    let reference = checkout_target(None, spec.reference.as_str());
    Ok(RemoteQuery { url, reference })
}

/// A character that separates the fields of a remote listing.
pub open spec fn is_blank(c: char) -> bool {
    c == ' ' || c == '\t' || c == '\n' || c == '\r' || c == '\x0b' || c == '\x0c'
}

/// The first position at or after `i` that is not blank, or the length.
pub open spec fn skip_blanks(s: Seq<char>, i: int) -> int
    decreases s.len() - i,
{
    if i < 0 || i >= s.len() {
        s.len() as int
    } else if is_blank(s[i]) {
        skip_blanks(s, i + 1)
    } else {
        i
    }
}

/// The first blank position at or after `i`, or the length.
pub open spec fn word_end(s: Seq<char>, i: int) -> int
    decreases s.len() - i,
{
    if i < 0 || i >= s.len() {
        s.len() as int
    } else if is_blank(s[i]) {
        i
    } else {
        word_end(s, i + 1)
    }
}

/// The first word of a line.
pub open spec fn first_word(line: Seq<char>) -> Seq<char> {
    line.subrange(skip_blanks(line, 0), word_end(line, skip_blanks(line, 0)))
}

/// The revision in a remote listing: the first word of its first line, or
/// `unknown` where there is none.
pub open spec fn listed_revision(listing: Seq<char>) -> Seq<char> {
    let w = first_word(before_first(listing, '\n'));
    if w.len() > 0 {
        w
    } else {
        "unknown"@
    }
}

fn blank(c: char) -> (r: bool)
    ensures
        r == is_blank(c),
{
    c == ' ' || c == '\t' || c == '\n' || c == '\r' || c == '\x0b' || c == '\x0c'
}

/// Reads the revision out of a remote listing (`<revision>\t<ref>` lines).
pub fn first_revision(listing: &str) -> (r: String)
    ensures
        r@ == listed_revision(listing@),
{
    let (line, _rest) = split_first(listing, '\n');
    let n = line.unicode_len();
    let mut start: usize = 0;
    while start < n && blank(line.get_char(start))
        invariant
            n == line@.len(),
            start <= n,
            skip_blanks(line@, start as int) == skip_blanks(line@, 0),
        decreases n - start,
    {
        start = start + 1;
    }
    let mut end: usize = start;
    while end < n && !blank(line.get_char(end))
        invariant
            n == line@.len(),
            start <= end <= n,
            word_end(line@, end as int) == word_end(line@, start as int),
        decreases n - end,
    {
        end = end + 1;
    }
    if end > start {
        line.substring_char(start, end).to_owned()
    } else {
        String::from_str("unknown")
    }
}

} // verus!
