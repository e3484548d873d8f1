//! Bumping a version: the next version for each kind of release, whether a
//! commit that already carries a version may get another, and how a run ends.

use vstd::prelude::*;
use crate::resolve::{Resolution, tag_version, any_version_at_head, is_resolution};
use crate::version::{prerelease_accepts, build_accepts, Version, VersionModel};

verus! {

/// The kind of release to make.
pub enum BumpRequest {
    /// 3.2.1 -> 3.2.2
    Patch,
    /// 3.2.1 -> 3.3.0
    Minor,
    /// 3.2.1 -> 4.0.0
    Major,
    /// 3.2.1 -> 3.2.1-label
    Pre(String),
    /// 3.2.1 -> 3.2.1+label
    Build(String),
}

#[derive(Clone, Copy, Debug, PartialEq, Eq, Structural)]
pub enum BumpError {
    /// A pre-release or build label is empty, or holds a character or an
    /// empty component that semantic versions do not allow.
    InvalidIdentifier,
    /// The number to increment is already the largest one.
    Overflow,
    /// More than one kind of bump was asked for.
    ConflictingOptions,
}

/// How many kinds of bump the flags ask for.
pub open spec fn requested_count(
    patch: bool,
    minor: bool,
    major: bool,
    pre: Option<String>,
    build: Option<String>,
) -> int {
    (if patch { 1int } else { 0 }) + (if minor { 1int } else { 0 }) + (if major { 1int } else { 0 })
        + (if pre is Some { 1int } else { 0 }) + (if build is Some { 1int } else { 0 })
}

/// Turns the command-line flags into a bump request: none when no flag is
/// set, an error when more than one is.
pub fn select_request(
    patch: bool,
    minor: bool,
    major: bool,
    pre: Option<String>,
    build: Option<String>,
) -> (r: Result<Option<BumpRequest>, BumpError>)
    ensures
        requested_count(patch, minor, major, pre, build) == 0 <==> r matches Ok(None),
        requested_count(patch, minor, major, pre, build) > 1 <==> r == Err::<
            Option<BumpRequest>,
            BumpError,
        >(BumpError::ConflictingOptions),
        requested_count(patch, minor, major, pre, build) == 1 ==> match r {
            Ok(Some(BumpRequest::Patch)) => patch,
            Ok(Some(BumpRequest::Minor)) => minor,
            Ok(Some(BumpRequest::Major)) => major,
            Ok(Some(BumpRequest::Pre(l))) => pre == Some(l),
            Ok(Some(BumpRequest::Build(l))) => build == Some(l),
            _ => false,
        },
{
    let ghost count = requested_count(patch, minor, major, pre, build);
    let mut n: u8 = 0;
    if patch {
        n = n + 1;
    }
    if minor {
        n = n + 1;
    }
    if major {
        n = n + 1;
    }
    if pre.is_some() {
        n = n + 1;
    }
    if build.is_some() {
        n = n + 1;
    }
    assert(n == count);
    if n > 1 {
        return Err(BumpError::ConflictingOptions);
    }
    if patch {
        Ok(Some(BumpRequest::Patch))
    } else if minor {
        Ok(Some(BumpRequest::Minor))
    } else if major {
        Ok(Some(BumpRequest::Major))
    } else {
        match pre {
            Some(l) => Ok(Some(BumpRequest::Pre(l))),
            None => match build {
                Some(l) => Ok(Some(BumpRequest::Build(l))),
                None => Ok(None),
            },
        }
    }
}

/// The version that a bump of `v` yields, or why there is none.
pub open spec fn bumped(v: VersionModel, request: BumpRequest) -> Result<VersionModel, BumpError> {
    match request {
        BumpRequest::Patch => if v.patch == u64::MAX {
            Err(BumpError::Overflow)
        } else {
            Ok(VersionModel::plain(v.major, v.minor, (v.patch + 1) as u64))
        },
        BumpRequest::Minor => if v.minor == u64::MAX {
            Err(BumpError::Overflow)
        } else {
            Ok(VersionModel::plain(v.major, (v.minor + 1) as u64, 0))
        },
        BumpRequest::Major => if v.major == u64::MAX {
            Err(BumpError::Overflow)
        } else {
            Ok(VersionModel::plain((v.major + 1) as u64, 0, 0))
        },
        BumpRequest::Pre(label) => if label@.len() > 0 && prerelease_accepts(label@) {
            Ok(VersionModel { pre: label@, ..v })
        } else {
            Err(BumpError::InvalidIdentifier)
        },
        BumpRequest::Build(label) => if label@.len() > 0 && build_accepts(label@) {
            Ok(VersionModel { build: label@, ..v })
        } else {
            Err(BumpError::InvalidIdentifier)
        },
    }
}

/// The next version: an increment of a number resets the smaller ones and
/// drops both labels; a label request replaces that label alone, and needs
/// a label that is not empty.
pub fn bump(current: Version, request: &BumpRequest) -> (r: Result<Version, BumpError>)
    requires
        current.wf(),
    ensures
        match r {
            Ok(v) => bumped(current@, *request) == Ok::<VersionModel, BumpError>(v@) && v.wf(),
            Err(e) => bumped(current@, *request) == Err::<VersionModel, BumpError>(e),
        },
{
    match request {
        BumpRequest::Patch => {
            if current.patch == u64::MAX {
                return Err(BumpError::Overflow);
            }
            let mut v = Version::zero();
            v.major = current.major;
            v.minor = current.minor;
            v.patch = current.patch + 1;
            Ok(v)
        },
        BumpRequest::Minor => {
            if current.minor == u64::MAX {
                return Err(BumpError::Overflow);
            }
            let mut v = Version::zero();
            v.major = current.major;
            v.minor = current.minor + 1;
            Ok(v)
        },
        BumpRequest::Major => {
            if current.major == u64::MAX {
                return Err(BumpError::Overflow);
            }
            let mut v = Version::zero();
            v.major = current.major + 1;
            Ok(v)
        },
        BumpRequest::Pre(label) => {
            if label.as_str().is_empty() || !Version::is_legal_prerelease(label.as_str()) {
                return Err(BumpError::InvalidIdentifier);
            }
            let mut v = current;
            v.pre = label.clone();
            Ok(v)
        },
        BumpRequest::Build(label) => {
            if label.as_str().is_empty() || !Version::is_legal_build(label.as_str()) {
                return Err(BumpError::InvalidIdentifier);
            }
            let mut v = current;
            v.build = label.clone();
            Ok(v)
        },
    }
}

/// A new version may be tagged: always when forced, else only when no
/// semantic-version tag is on HEAD yet.
pub open spec fn may_increment(head_tagged: bool, force: bool) -> bool {
    force || !head_tagged
}

/// Whether a new version may be tagged.
pub fn allow_increment(head_tagged: bool, force: bool) -> (r: bool)
    ensures
        r == may_increment(head_tagged, force),
{
    force || !head_tagged
}

/// How a run ends.
pub enum Outcome {
    /// No bump was asked for and no tag is a semantic version.
    NoVersion,
    /// No bump was asked for: the latest version.
    Latest(Version),
    /// A bump was asked for, but HEAD already carries a version tag: the
    /// latest version, and nothing is tagged.
    AlreadyTagged(Version),
    /// The version to tag HEAD with.
    NewTag(Version),
}

/// Decides a run from the scan of the tags, the requested bump (if any) and
/// the force flag.
pub fn decide(res: Resolution, request: &Option<BumpRequest>, force: bool) -> (r: Result<
    Outcome,
    BumpError,
>)
    requires
        res.latest.wf(),
    ensures
        request is None ==> (r matches Ok(o) && match o {
            Outcome::NoVersion => !res.found,
            Outcome::Latest(v) => res.found && v@ == res.latest@,
            _ => false,
        }),
        request is Some && !force && res.head_tagged ==> (r matches Ok(o) && match o {
            Outcome::AlreadyTagged(v) => v@ == res.latest@,
            _ => false,
        }),
        request is Some && (force || !res.head_tagged) ==> match r {
            Ok(Outcome::NewTag(v)) => bumped(res.latest@, request->0) == Ok::<
                VersionModel,
                BumpError,
            >(v@) && v.wf(),
            Ok(_) => false,
            Err(e) => bumped(res.latest@, request->0) == Err::<VersionModel, BumpError>(e),
        },
{
    match request {
        None => {
            if res.found {
                Ok(Outcome::Latest(res.latest))
            } else {
                Ok(Outcome::NoVersion)
            }
        },
        Some(req) => {
            if !allow_increment(res.head_tagged, force) {
                Ok(Outcome::AlreadyTagged(res.latest))
            } else {
                match bump(res.latest, req) {
                    Ok(v) => Ok(Outcome::NewTag(v)),
                    Err(e) => Err(e),
                }
            }
        },
    }
}

/// A second run on an unchanged repository tags nothing: once HEAD carries
/// the tag of a version made by the first run, the scan finds HEAD tagged,
/// and without force no increment is allowed.
pub proof fn lemma_second_run_tags_nothing(
    ts: Seq<(Seq<char>, bool)>,
    new_tag: Seq<char>,
    latest: VersionModel,
    found: bool,
    head_tagged: bool,
)
    requires
        tag_version(new_tag) is Some,
        is_resolution(ts.push((new_tag, true)), latest, found, head_tagged),
    ensures
        head_tagged,
        !may_increment(head_tagged, false),
{
    let t = ts.push((new_tag, true));
    assert(t[ts.len() as int].1 && tag_version(t[ts.len() as int].0) is Some);
    assert(any_version_at_head(t));
}

} // verus!
