use vstd::prelude::*;

use crate::error::AppError;
use crate::text::{
    after_first, after_last, before_first, index_of, last_index_of, lemma_index_of,
    lemma_index_of_at, lemma_last_index_of, lemma_last_index_of_at, rfind_char, split_first,
};

verus! {

/// Position of the delimiter that starts the reference: the first `@`, else the first `#`, else -1.
pub open spec fn ref_delim(s: Seq<char>) -> int {
    if index_of(s, '@') >= 0 {
        index_of(s, '@')
    } else {
        index_of(s, '#')
    }
}

/// The `owner/repo[/subpath]` part of a reference string.
pub open spec fn path_of(s: Seq<char>) -> Seq<char> {
    if ref_delim(s) >= 0 {
        s.take(ref_delim(s))
    } else {
        s
    }
}

/// The branch, tag or commit after the delimiter; empty where there is none.
pub open spec fn ref_of(s: Seq<char>) -> Seq<char> {
    if ref_delim(s) >= 0 {
        s.skip(ref_delim(s) + 1)
    } else {
        Seq::empty()
    }
}

/// Whether the reference was introduced by `#` (a branch).
pub open spec fn ref_is_branch_of(s: Seq<char>) -> bool {
    index_of(s, '@') < 0 && index_of(s, '#') >= 0
}

pub open spec fn owner_of(s: Seq<char>) -> Seq<char> {
    before_first(path_of(s), '/')
}

pub open spec fn repo_of(s: Seq<char>) -> Seq<char> {
    before_first(after_first(path_of(s), '/'), '/')
}

pub open spec fn subpath_of(s: Seq<char>) -> Seq<char> {
    after_first(after_first(path_of(s), '/'), '/')
}

/// The default key of a dependency: the last `/`-segment of its path. For
/// `owner/repo` that is the repository; with a subpath it is the subpath's
/// last folder.
pub open spec fn derived_key(s: Seq<char>) -> Seq<char> {
    after_last(path_of(s), '/')
}

/// The canonical string `owner/repo[/subpath][#ref|@ref]`.
pub open spec fn compose_seq(
    owner: Seq<char>,
    repo: Seq<char>,
    subpath: Seq<char>,
    reference: Seq<char>,
    ref_is_branch: bool,
) -> Seq<char> {
    owner + seq!['/'] + repo + (if subpath.len() > 0 {
        seq!['/'] + subpath
    } else {
        Seq::<char>::empty()
    }) + (if reference.len() > 0 {
        seq![if ref_is_branch { '#' } else { '@' }] + reference
    } else {
        Seq::<char>::empty()
    })
}

/// A parsed reference.
pub struct SourceSpec {
    pub owner: String,
    pub repo: String,
    pub subpath: String,
    pub reference: String,
    pub ref_is_branch: bool,
}

/// Splits a reference string into its path and the reference after `@` or `#`.
pub fn split_reference<'a>(s: &'a str) -> (r: (&'a str, Option<&'a str>, bool))
    ensures
        r.0@ == path_of(s@),
        r.1 is Some <==> ref_delim(s@) >= 0,
        r.1 is Some ==> r.1->0@ == ref_of(s@),
        r.2 == ref_is_branch_of(s@),
{
    let (before_at, after_at) = split_first(s, '@');
    match after_at {
        Some(rf) => (before_at, Some(rf), false),
        None => {
            let (before_hash, after_hash) = split_first(s, '#');
            let branch = after_hash.is_some();
            (before_hash, after_hash, branch)
        },
    }
}

impl SourceSpec {
    /// Parses `owner/repo[/subpath][#ref|@ref]`; fails when the owner or the repository is empty.
    pub fn parse(raw: &str) -> (r: Result<SourceSpec, AppError>)
        ensures
            r is Ok <==> owner_of(raw@).len() > 0 && repo_of(raw@).len() > 0,
            r is Ok ==> {
                let p = r->Ok_0;
                &&& p.owner@ == owner_of(raw@)
                &&& p.repo@ == repo_of(raw@)
                &&& p.subpath@ == subpath_of(raw@)
                &&& p.reference@ == ref_of(raw@)
                &&& p.ref_is_branch == ref_is_branch_of(raw@)
            },
            r is Err ==> r->Err_0 is System,
    {
        let (path, rf, branch) = split_reference(raw);
        let (owner, rest) = split_first(path, '/');
        let (repo, subpath) = match rest {
            Some(rest) => {
                let (repo, sub) = split_first(rest, '/');
                (repo, match sub {
                    Some(x) => x,
                    None => "",
                })
            },
            None => ("", ""),
        };
        proof {
            reveal_strlit("");
        }
        if owner.unicode_len() == 0 {
            return Err(AppError::System(String::from_str("Invalid source: missing owner")));
        }
        if repo.unicode_len() == 0 {
            return Err(AppError::System(String::from_str("Invalid source: missing repo")));
        }
        let reference = match rf {
            Some(x) => x.to_owned(),
            None => String::new(),
        };
        Ok(
            SourceSpec {
                owner: owner.to_owned(),
                repo: repo.to_owned(),
                subpath: subpath.to_owned(),
                reference,
                ref_is_branch: branch,
            },
        )
    }

    /// The canonical string of this reference.
    pub fn to_source_string(&self) -> (r: String)
        ensures
            r@ == compose_seq(
                self.owner@,
                self.repo@,
                self.subpath@,
                self.reference@,
                self.ref_is_branch,
            ),
    {
        compose(
            self.owner.as_str(),
            self.repo.as_str(),
            self.subpath.as_str(),
            self.reference.as_str(),
            self.ref_is_branch,
        )
    }
}

/// Builds the canonical string; the delimiter is `#` for a branch, `@` otherwise.
pub fn compose(owner: &str, repo: &str, subpath: &str, reference: &str, ref_is_branch: bool) -> (r:
    String)
    ensures
        r@ == compose_seq(owner@, repo@, subpath@, reference@, ref_is_branch),
{
    proof {
        reveal_strlit("/");
        reveal_strlit("#");
        reveal_strlit("@");
    }
    let mut out = String::from_str(owner);
    out.append("/");
    out.append(repo);
    let ghost head = out@;
    if subpath.unicode_len() > 0 {
        out.append("/");
        out.append(subpath);
    }
    let ghost mid = out@;
    if reference.unicode_len() > 0 {
        if ref_is_branch {
            out.append("#");
        } else {
            out.append("@");
        }
        out.append(reference);
    }
    proof {
        let sub_part = if subpath@.len() > 0 {
            seq!['/'] + subpath@
        } else {
            Seq::<char>::empty()
        };
        let ref_part = if reference@.len() > 0 {
            seq![if ref_is_branch { '#' } else { '@' }] + reference@
        } else {
            Seq::<char>::empty()
        };
        assert(mid =~= head + sub_part);
        assert(out@ =~= mid + ref_part);
        assert(out@ =~= compose_seq(owner@, repo@, subpath@, reference@, ref_is_branch));
    }
    out
}

/// The raw key of a reference: the last `/`-segment of its path, before validation.
pub fn extract_skill_name_raw(source: &str) -> (r: String)
    ensures
        r@ == derived_key(source@),
{
    let (path, _rf, _branch) = split_reference(source);
    let n = path.unicode_len();
    proof {
        lemma_last_index_of(path@, '/');
    }
    match rfind_char(path, '/') {
        Some(i) => path.substring_char(i + 1, n).to_owned(),
        None => {
            assert(path@.skip(0) =~= path@);
            path.to_owned()
        },
    }
}


pub open spec fn opt_view(o: Option<String>) -> Option<Seq<char>> {
    match o {
        Some(x) => Some(x@),
        None => None,
    }
}

pub open spec fn or_default(o: Option<Seq<char>>, d: Seq<char>) -> Seq<char> {
    match o {
        Some(x) => x,
        None => d,
    }
}

/// The source that a shorthand `s` stands for once the explicit flags override
/// its parts. A branch flag wins over a tag flag, and either over the
/// shorthand's own reference; `#` is kept where a branch was given or `s` holds a `#`.
pub open spec fn shorthand_source(
    s: Seq<char>,
    owner: Option<Seq<char>>,
    repository: Option<Seq<char>>,
    branch: Option<Seq<char>>,
    tag: Option<Seq<char>>,
    path: Option<Seq<char>>,
) -> Seq<char> {
    let reference = if branch is Some {
        branch->0
    } else if tag is Some {
        tag->0
    } else {
        ref_of(s)
    };
    compose_seq(
        or_default(owner, owner_of(s)),
        or_default(repository, repo_of(s)),
        or_default(path, subpath_of(s)),
        reference,
        branch is Some || index_of(s, '#') >= 0,
    )
}

/// The source written from explicit flags alone: `owner/repository`, then
/// `/path`, then `#branch` or else `@tag`, each where given.
pub open spec fn flags_source(
    owner: Seq<char>,
    repository: Seq<char>,
    branch: Option<Seq<char>>,
    tag: Option<Seq<char>>,
    path: Option<Seq<char>>,
) -> Seq<char> {
    owner + seq!['/'] + repository + (match path {
        Some(p) => seq!['/'] + p,
        None => Seq::<char>::empty(),
    }) + (match branch {
        Some(b) => seq!['#'] + b,
        None => match tag {
            Some(t) => seq!['@'] + t,
            None => Seq::<char>::empty(),
        },
    })
}

fn str_or<'a>(o: &'a Option<String>, d: &'a str) -> (r: &'a str)
    ensures
        r@ == or_default(opt_view(*o), d@),
{
    match o {
        Some(x) => x.as_str(),
        None => d,
    }
}

/// Resolves the source to install from a shorthand and explicit flags.
/// `Ok(None)` asks to restore every dependency; flags without a shorthand
/// need both an owner and a repository.
pub fn resolve_install_source(
    source: &Option<String>,
    owner: &Option<String>,
    repository: &Option<String>,
    branch: &Option<String>,
    tag: &Option<String>,
    path: &Option<String>,
) -> (r: Result<Option<String>, String>)
    ensures
        source is Some ==> r is Ok && r->Ok_0 is Some && r->Ok_0->0@ == shorthand_source(
            source->0@,
            opt_view(*owner),
            opt_view(*repository),
            opt_view(*branch),
            opt_view(*tag),
            opt_view(*path),
        ),
        source is None ==> (r is Err <==> ((owner is Some || repository is Some || branch is Some
            || tag is Some || path is Some) && (owner is None || repository is None))),
        source is None && owner is None && repository is None && branch is None && tag is None
            && path is None ==> r == Ok::<Option<String>, String>(None),
        source is None && owner is Some && repository is Some ==> r is Ok && r->Ok_0 is Some
            && r->Ok_0->0@ == flags_source(
            owner->0@,
            repository->0@,
            opt_view(*branch),
            opt_view(*tag),
            opt_view(*path),
        ),
{
    match source {
        Some(s) => {
            let (path_str, rf, _branch) = split_reference(s.as_str());
            let (own, rest) = split_first(path_str, '/');
            let (rep, sub) = match rest {
                Some(rest) => {
                    let (rep, sub) = split_first(rest, '/');
                    (rep, match sub {
                        Some(x) => x,
                        None => "",
                    })
                },
                None => ("", ""),
            };
            proof {
                reveal_strlit("");
            }
            let shorthand_ref = match rf {
                Some(x) => x,
                None => "",
            };
            let reference = match branch {
                Some(b) => b.as_str(),
                None => str_or(tag, shorthand_ref),
            };
            let hash = branch.is_some() || find_char_in(s.as_str(), '#');
            let composed = compose(
                str_or(owner, own),
                str_or(repository, rep),
                str_or(path, sub),
                reference,
                hash,
            );
            Ok(Some(composed))
        },
        None => {
            if owner.is_some() || repository.is_some() || branch.is_some() || tag.is_some()
                || path.is_some() {
                match (owner, repository) {
                    (Some(o), Some(rp)) => {
                        proof {
                            reveal_strlit("/");
                            reveal_strlit("#");
                            reveal_strlit("@");
                        }
                        let mut out = String::from_str(o.as_str());
                        out.append("/");
                        out.append(rp.as_str());
                        let ghost head = out@;
                        match path {
                            Some(p) => {
                                out.append("/");
                                out.append(p.as_str());
                            },
                            None => {},
                        }
                        let ghost mid = out@;
                        match branch {
                            Some(b) => {
                                out.append("#");
                                out.append(b.as_str());
                            },
                            None => match tag {
                                Some(t) => {
                                    out.append("@");
                                    out.append(t.as_str());
                                },
                                None => {},
                            },
                        }
                        proof {
                            let path_part = match opt_view(*path) {
                                Some(p) => seq!['/'] + p,
                                None => Seq::<char>::empty(),
                            };
                            let ref_part = match opt_view(*branch) {
                                Some(b) => seq!['#'] + b,
                                None => match opt_view(*tag) {
                                    Some(t) => seq!['@'] + t,
                                    None => Seq::<char>::empty(),
                                },
                            };
                            assert(mid =~= head + path_part);
                            assert(out@ =~= mid + ref_part);
                        }
                        Ok(Some(out))
                    },
                    _ => Err(
                        String::from_str(
                            "When using explicit flags without a positional source argument, both --owner and --repository must be provided.",
                        ),
                    ),
                }
            } else {
                Ok(None)
            }
        },
    }
}

/// Whether `s` holds `c`.
fn find_char_in(s: &str, c: char) -> (r: bool)
    ensures
        r == (index_of(s@, c) >= 0),
{
    crate::text::find_char(s, c).is_some()
}


/// `s` holds no `c`.
pub open spec fn lacks(s: Seq<char>, c: char) -> bool {
    forall|i: int| 0 <= i < s.len() ==> s[i] != c
}

/// A path segment: non-empty, without `/` and without a reference delimiter.
pub open spec fn is_segment(s: Seq<char>) -> bool {
    s.len() > 0 && lacks(s, '/') && lacks(s, '@') && lacks(s, '#')
}

proof fn lemma_no_index(s: Seq<char>, c: char)
    requires
        lacks(s, c),
    ensures
        index_of(s, c) == -1,
{
    lemma_index_of(s, c);
}

proof fn lemma_split_at(a: Seq<char>, c: char, b: Seq<char>)
    requires
        lacks(a, c),
    ensures
        index_of(a + seq![c] + b, c) == a.len(),
        before_first(a + seq![c] + b, c) =~= a,
        after_first(a + seq![c] + b, c) =~= b,
{
    let s = a + seq![c] + b;
    assert(s[a.len() as int] == c);
    assert forall|j: int| 0 <= j < a.len() implies s[j] != c by {
        assert(s[j] == a[j]);
    }
    lemma_index_of_at(s, c, a.len() as int);
}

/// The path and the reference of a canonical reference string.
proof fn lemma_compose_parts(
    owner: Seq<char>,
    repo: Seq<char>,
    subpath: Seq<char>,
    reference: Seq<char>,
    ref_is_branch: bool,
)
    requires
        is_segment(owner),
        is_segment(repo),
        lacks(subpath, '@'),
        lacks(subpath, '#'),
        lacks(reference, '@'),
        lacks(reference, '#'),
    ensures
        ({
            let s = compose_seq(owner, repo, subpath, reference, ref_is_branch);
            &&& path_of(s) == owner + seq!['/'] + (repo + (if subpath.len() > 0 {
                seq!['/'] + subpath
            } else {
                Seq::<char>::empty()
            }))
            &&& ref_of(s) == reference
            &&& reference.len() > 0 ==> ref_is_branch_of(s) == ref_is_branch
            &&& reference.len() == 0 ==> !ref_is_branch_of(s)
        }),
{
    let s = compose_seq(owner, repo, subpath, reference, ref_is_branch);
    let sub_part = if subpath.len() > 0 {
        seq!['/'] + subpath
    } else {
        Seq::<char>::empty()
    };
    let tail = repo + sub_part;
    let p = owner + seq!['/'] + tail;
    assert(lacks(tail, '@') && lacks(tail, '#')) by {
        assert forall|i: int| 0 <= i < tail.len() implies tail[i] != '@' && tail[i] != '#' by {
            if i >= repo.len() && subpath.len() > 0 {
                assert(tail[i] == sub_part[i - repo.len()]);
                if i > repo.len() {
                    assert(sub_part[i - repo.len()] == subpath[i - repo.len() - 1]);
                }
            } else {
                assert(tail[i] == repo[i]);
            }
        }
    }
    assert(lacks(p, '@') && lacks(p, '#')) by {
        assert forall|i: int| 0 <= i < p.len() implies p[i] != '@' && p[i] != '#' by {
            if i < owner.len() {
                assert(p[i] == owner[i]);
            } else if i > owner.len() {
                assert(p[i] == tail[i - owner.len() - 1]);
            }
        }
    }
    // The reference part.
    if reference.len() > 0 {
        let d = if ref_is_branch { '#' } else { '@' };
        assert(s =~= p + seq![d] + reference);
        if ref_is_branch {
            assert(lacks(s, '@')) by {
                assert forall|i: int| 0 <= i < s.len() implies s[i] != '@' by {
                    if i < p.len() {
                        assert(s[i] == p[i]);
                    } else if i > p.len() {
                        assert(s[i] == reference[i - p.len() - 1]);
                    }
                }
            }
            lemma_no_index(s, '@');
            lemma_split_at(p, '#', reference);
        } else {
            lemma_split_at(p, '@', reference);
        }
        assert(s.take(p.len() as int) =~= p);
        assert(s.skip(p.len() as int + 1) =~= reference);
    } else {
        assert(s =~= p);
        lemma_no_index(s, '@');
        lemma_no_index(s, '#');
    }
    assert(path_of(s) =~= p);
}

/// Parsing a canonical reference string gives back the parts it was composed
/// from, and composing those parts gives back the string: owner and
/// repository are segments, and neither subpath nor reference holds `@` or `#`.
pub proof fn lemma_parse_compose_round_trip(
    owner: Seq<char>,
    repo: Seq<char>,
    subpath: Seq<char>,
    reference: Seq<char>,
    ref_is_branch: bool,
)
    requires
        is_segment(owner),
        is_segment(repo),
        lacks(subpath, '@'),
        lacks(subpath, '#'),
        lacks(reference, '@'),
        lacks(reference, '#'),
    ensures
        ({
            let s = compose_seq(owner, repo, subpath, reference, ref_is_branch);
            &&& owner_of(s) == owner
            &&& repo_of(s) == repo
            &&& subpath_of(s) == subpath
            &&& ref_of(s) == reference
            &&& reference.len() > 0 ==> ref_is_branch_of(s) == ref_is_branch
            &&& compose_seq(
                owner_of(s),
                repo_of(s),
                subpath_of(s),
                ref_of(s),
                ref_is_branch_of(s),
            ) == s
        }),
{
    let s = compose_seq(owner, repo, subpath, reference, ref_is_branch);
    lemma_compose_parts(owner, repo, subpath, reference, ref_is_branch);
    let sub_part = if subpath.len() > 0 {
        seq!['/'] + subpath
    } else {
        Seq::<char>::empty()
    };
    let tail = repo + sub_part;
    lemma_split_at(owner, '/', tail);
    if subpath.len() > 0 {
        assert(tail =~= repo + seq!['/'] + subpath);
        lemma_split_at(repo, '/', subpath);
    } else {
        assert(tail =~= repo);
        assert(subpath =~= Seq::<char>::empty());
        lemma_no_index(repo, '/');
    }
}

/// The key of a canonical reference string is its repository where it has no
/// subpath, and the last folder of the subpath where it has one.
pub proof fn lemma_derived_key_of_compose(
    owner: Seq<char>,
    repo: Seq<char>,
    subpath: Seq<char>,
    reference: Seq<char>,
    ref_is_branch: bool,
)
    requires
        is_segment(owner),
        is_segment(repo),
        lacks(subpath, '@'),
        lacks(subpath, '#'),
        lacks(reference, '@'),
        lacks(reference, '#'),
    ensures
        derived_key(compose_seq(owner, repo, subpath, reference, ref_is_branch)) == if subpath.len()
            == 0 {
            repo
        } else {
            after_last(subpath, '/')
        },
{
    let s = compose_seq(owner, repo, subpath, reference, ref_is_branch);
    lemma_compose_parts(owner, repo, subpath, reference, ref_is_branch);
    let head = owner + seq!['/'] + repo;
    let q = head + (if subpath.len() > 0 {
        seq!['/'] + subpath
    } else {
        Seq::<char>::empty()
    });
    assert(path_of(s) =~= q);
    if subpath.len() == 0 {
        assert(q =~= head);
        assert forall|j: int| owner.len() < j < q.len() implies q[j] != '/' by {
            assert(q[j] == repo[j - owner.len() - 1]);
        }
        lemma_last_index_of_at(q, '/', owner.len() as int);
        assert(q.skip(owner.len() as int + 1) =~= repo);
    } else {
        lemma_last_index_of(subpath, '/');
        let l = last_index_of(subpath, '/');
        let base = head.len() as int + 1;
        assert forall|j: int| base + l < j < q.len() implies q[j] != '/' by {
            assert(q[j] == subpath[j - base]);
        }
        assert(q[base + l] == '/') by {
            if l >= 0 {
                assert(q[base + l] == subpath[l]);
            }
        }
        lemma_last_index_of_at(q, '/', base + l);
        assert(q.skip(base + l + 1) =~= subpath.skip(l + 1));
    }
}

} // verus!
