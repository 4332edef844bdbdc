use vstd::prelude::*;

use crate::error::AppError;
use crate::lockfile::Lockfile;
use crate::manifest::Manifest;
use crate::skill::{is_valid_name, SkillName, SkillSource};
use crate::source::{derived_key, extract_skill_name_raw};

verus! {

/// `key` is already bound to a source other than `source`.
pub open spec fn conflicts(deps: Map<Seq<char>, Seq<char>>, key: Seq<char>, source: Seq<char>) -> bool {
    deps.contains_key(key) && deps[key] != source
}

/// Installing `source` over `deps` is allowed: its key is valid and free or bound to the same source.
pub open spec fn install_allowed(deps: Map<Seq<char>, Seq<char>>, source: Seq<char>) -> bool {
    is_valid_name(derived_key(source)) && !conflicts(deps, derived_key(source), source)
}

/// The revision recorded for `key`, if any.
pub open spec fn locked(lock: Map<Seq<char>, Seq<char>>, key: Seq<char>) -> Option<Seq<char>> {
    if lock.contains_key(key) {
        Some(lock[key])
    } else {
        None
    }
}

/// The revision text a remote query yields when it reports nothing.
pub open spec fn unknown_revision() -> Seq<char> {
    seq!['u', 'n', 'k', 'n', 'o', 'w', 'n']
}

/// The recorded revision is the one the remote reports, and it is a real one.
pub open spec fn up_to_date(locked: Option<Seq<char>>, remote: Seq<char>) -> bool {
    locked is Some && locked->0 == remote && remote != unknown_revision()
}

/// A checked install: the key it goes under and the source it comes from.
pub struct InstallTarget {
    pub key: SkillName,
    pub source: SkillSource,
}

/// One extraction to perform: a key, its source, and the revision to pin, if any.
pub struct FetchJob {
    pub key: String,
    pub source: SkillSource,
    pub pin: Option<String>,
}

/// Checks an install of `source` against the manifest: derives and validates
/// its key, and refuses a key bound to another source.
pub fn plan_install(manifest: &Manifest, source: &str) -> (r: Result<InstallTarget, AppError>)
    ensures
        r is Ok <==> install_allowed(manifest.deps(), source@),
        r is Ok ==> r->Ok_0.key@ == derived_key(source@) && r->Ok_0.source@ == source@,
        !is_valid_name(derived_key(source@)) ==> r is Err && r->Err_0 is Skill,
        is_valid_name(derived_key(source@)) && conflicts(
            manifest.deps(),
            derived_key(source@),
            source@,
        ) ==> r is Err && r->Err_0 is System,
{
    let raw = extract_skill_name_raw(source);
    let key = SkillName::new(raw.as_str())?;
    let key_str = key.as_str();
    match manifest.dependencies.get(key_str) {
        Some(existing) => {
            if *existing != source.to_owned() {
                let msg = String::from_str("A different skill named '").concat(key_str).concat(
                    "' is already installed from (",
                ).concat(existing.as_str()).concat(
                    ").\nPlease uninstall it first before installing from ",
                ).concat(source).concat(".");
                return Err(AppError::System(msg));
            }
        },
        None => {},
    }
    Ok(InstallTarget { key, source: SkillSource::new(source) })
}

/// Records an install of `source` that resolved to `commit`: the manifest binds
/// the key to the source and the lockfile to the revision. Where the install is
/// not allowed, both stay as they were.
pub fn record_install(manifest: &mut Manifest, lockfile: &mut Lockfile, source: &str, commit: String) -> (r:
    Result<(), AppError>)
    ensures
        r is Ok <==> install_allowed(old(manifest).deps(), source@),
        r is Ok ==> final(manifest).deps() == old(manifest).deps().insert(
            derived_key(source@),
            source@,
        ) && final(lockfile).deps() == old(lockfile).deps().insert(derived_key(source@), commit@),
        r is Err ==> *final(manifest) == *old(manifest) && *final(lockfile) == *old(lockfile),
        final(manifest).same_header(old(manifest)),
        !is_valid_name(derived_key(source@)) ==> r is Err && r->Err_0 is Skill,
        is_valid_name(derived_key(source@)) && conflicts(
            old(manifest).deps(),
            derived_key(source@),
            source@,
        ) ==> r is Err && r->Err_0 is System,
{
    let target = plan_install(manifest, source)?;
    let key = target.key.as_str().to_owned();
    manifest.add_dependency(key.clone(), target.source);
    lockfile.set_commit(key, commit);
    Ok(())
}

/// The extractions that restore every dependency of the manifest, in its key
/// order, each pinned to the revision the lockfile records for it, if any.
pub fn restore_jobs(manifest: &Manifest, lockfile: &Lockfile) -> (r: Vec<FetchJob>)
    ensures
        r@.len() == manifest.dependencies.key_order().len(),
        forall|i: int|
            #![trigger r@[i]]
            0 <= i < r@.len() ==> {
                let k = manifest.dependencies.key_order()[i];
                &&& r@[i].key@ == k
                &&& manifest.deps().contains_key(k)
                &&& r@[i].source@ == manifest.deps()[k]
                &&& r@[i].pin is Some <==> lockfile.deps().contains_key(k)
                &&& r@[i].pin is Some ==> r@[i].pin->0@ == lockfile.deps()[k]
            },
{
    let n = manifest.dependencies.len();
    let mut jobs: Vec<FetchJob> = Vec::new();
    let mut i: usize = 0;
    while i < n
        invariant
            n == manifest.dependencies.key_order().len(),
            i <= n,
            jobs@.len() == i,
            forall|j: int|
                #![trigger jobs@[j]]
                0 <= j < i ==> {
                    let k = manifest.dependencies.key_order()[j];
                    &&& jobs@[j].key@ == k
                    &&& manifest.deps().contains_key(k)
                    &&& jobs@[j].source@ == manifest.deps()[k]
                    &&& jobs@[j].pin is Some <==> lockfile.deps().contains_key(k)
                    &&& jobs@[j].pin is Some ==> jobs@[j].pin->0@ == lockfile.deps()[k]
                },
        decreases n - i,
    {
        let (key, source) = manifest.dependencies.entry(i);
        let pin = match lockfile.get_commit(key.as_str()) {
            Some(c) => Some(c.clone()),
            None => None,
        };
        let job = FetchJob { key: key.clone(), source: SkillSource::new(source.as_str()), pin };
        let ghost old_jobs = jobs@;
        jobs.push(job);
        proof {
            assert forall|j: int| 0 <= j < i implies #[trigger] jobs@[j] == old_jobs[j] by {}
            assert(jobs@[i as int] == job);
        }
        i = i + 1;
    }
    jobs
}

/// Records the revision that an extraction for `key` resolved to.
pub fn record_fetch(lockfile: &mut Lockfile, key: String, commit: String)
    ensures
        final(lockfile).deps() == old(lockfile).deps().insert(key@, commit@),
{
    lockfile.set_commit(key, commit);
}

/// The keys an update covers: the one named, which must be in the manifest,
/// or else all of them in the manifest's key order.
pub fn select_update_keys(manifest: &Manifest, key: Option<&str>) -> (r: Result<Vec<String>, AppError>)
    ensures
        key is Some ==> (r is Ok <==> manifest.deps().contains_key(key->0@)),
        key is Some && r is Ok ==> r->Ok_0@.len() == 1 && r->Ok_0@[0]@ == key->0@,
        r is Err ==> r->Err_0 is System,
        key is None ==> r is Ok && r->Ok_0@.len() == manifest.dependencies.key_order().len()
            && forall|i: int|
            0 <= i < r->Ok_0@.len() ==> #[trigger] r->Ok_0@[i]@
                == manifest.dependencies.key_order()[i],
{
    match key {
        Some(k) => {
            if !manifest.dependencies.contains_key(k) {
                let msg = String::from_str("Skill '").concat(k).concat("' not found in manifest");
                return Err(AppError::System(msg));
            }
            let mut keys: Vec<String> = Vec::new();
            keys.push(k.to_owned());
            Ok(keys)
        },
        None => {
            let n = manifest.dependencies.len();
            let mut keys: Vec<String> = Vec::new();
            let mut i: usize = 0;
            while i < n
                invariant
                    n == manifest.dependencies.key_order().len(),
                    i <= n,
                    keys@.len() == i,
                    forall|j: int|
                        0 <= j < i ==> #[trigger] keys@[j]@ == manifest.dependencies.key_order()[j],
                decreases n - i,
            {
                let (k, _source) = manifest.dependencies.entry(i);
                keys.push(k.clone());
                i = i + 1;
            }
            Ok(keys)
        },
    }
}

fn is_unknown(s: &str) -> (r: bool)
    ensures
        r == (s@ == unknown_revision()),
{
    proof {
        reveal_strlit("unknown");
    }
    let u = String::from_str("unknown");
    assert(u@ =~= unknown_revision());
    s.to_owned() == u
}

/// Decides the update of `key` once the remote reported revision `remote`:
/// nothing to extract where the lockfile already records that revision (or
/// where the manifest does not hold the key); else one extraction that
/// follows the reference forward, unpinned.
pub fn plan_update(manifest: &Manifest, lockfile: &Lockfile, key: &str, remote: &str) -> (r: Option<
    FetchJob,
>)
    ensures
        r is None <==> !manifest.deps().contains_key(key@) || up_to_date(
            locked(lockfile.deps(), key@),
            remote@,
        ),
        r is Some ==> r->0.key@ == key@ && r->0.source@ == manifest.deps()[key@] && r->0.pin is None,
{
    match manifest.source_of(key) {
        None => None,
        Some(source) => {
            let current = lockfile.get_commit(key);
            let fresh = match current {
                Some(c) => *c == remote.to_owned() && !is_unknown(remote),
                None => false,
            };
            if fresh {
                None
            } else {
                Some(FetchJob { key: key.to_owned(), source, pin: None })
            }
        },
    }
}

/// Removes `key`: from the manifest and from the lockfile. Fails, changing
/// nothing, where the manifest does not hold it.
pub fn uninstall(manifest: &mut Manifest, lockfile: &mut Lockfile, key: &str) -> (r: Result<(), AppError>)
    ensures
        r is Ok <==> old(manifest).deps().contains_key(key@),
        r is Ok ==> final(manifest).deps() == old(manifest).deps().remove(key@),
        r is Ok ==> final(lockfile).deps() == old(lockfile).deps().remove(key@),
        r is Err ==> *final(manifest) == *old(manifest) && *final(lockfile) == *old(lockfile)
            && r->Err_0 is System,
        final(manifest).same_header(old(manifest)),
{
    if !manifest.dependencies.contains_key(key) {
        let msg = String::from_str("Skill '").concat(key).concat("' not found in manifest");
        return Err(AppError::System(msg));
    }
    manifest.remove_dependency(key);
    lockfile.remove_commit(key);
    Ok(())
}

/// An update follows the remote revision. Where the lockfile records the
/// revision the remote reports, nothing is extracted. Where it does not, the
/// extraction's revision is what the lockfile then records; and where that is
/// the remote's revision, a second update against it extracts nothing.
pub proof fn lemma_update_follows_remote(
    lock: Map<Seq<char>, Seq<char>>,
    key: Seq<char>,
    remote: Seq<char>,
    fetched: Seq<char>,
)
    ensures
        lock.contains_key(key) && lock[key] == remote && remote != unknown_revision() ==> up_to_date(
            locked(lock, key),
            remote,
        ),
        locked(lock.insert(key, fetched), key) == Some(fetched),
        fetched == remote && remote != unknown_revision() ==> up_to_date(
            locked(lock.insert(key, fetched), key),
            remote,
        ),
        forall|k: Seq<char>| k != key ==> locked(lock.insert(key, fetched), k) == locked(lock, k),
{
    assert(lock.insert(key, fetched).contains_key(key));
}

} // verus!
