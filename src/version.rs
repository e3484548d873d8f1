//! Semantic versions: the library's own representation, and the calls into
//! the `semver` crate that parse them and order their pre-release labels.

use vstd::prelude::*;
use vstd::string::*;
use crate::resolve::{strip_v, tag_version};

verus! {

/// Mathematical model of a semantic version.
pub struct VersionModel {
    pub major: u64,
    pub minor: u64,
    pub patch: u64,
    pub pre: Seq<char>,
    pub build: Seq<char>,
}

/// A semantic version. `pre` and `build` hold the dot-separated labels as
/// text, the empty string meaning "none".
pub struct Version {
    pub major: u64,
    pub minor: u64,
    pub patch: u64,
    pub pre: String,
    pub build: String,
}

impl View for Version {
    type V = VersionModel;

    open spec fn view(&self) -> VersionModel {
        VersionModel {
            major: self.major,
            minor: self.minor,
            patch: self.patch,
            pre: self.pre@,
            build: self.build@,
        }
    }
}

/// What `semver::Version::parse` yields for a text, `None` where it fails.
pub uninterp spec fn parse_result(s: Seq<char>) -> Option<VersionModel>;

/// Whether `semver::Prerelease::new` accepts a text.
pub uninterp spec fn prerelease_accepts(s: Seq<char>) -> bool;

/// Whether `semver::BuildMetadata::new` accepts a text.
pub uninterp spec fn build_accepts(s: Seq<char>) -> bool;

/// The precedence of two pre-release labels under `semver`'s `Ord for
/// Prerelease`: -1, 0 or 1.
pub uninterp spec fn prerelease_order(a: Seq<char>, b: Seq<char>) -> int;

/// The order of two build-metadata texts under `semver`'s `Ord for
/// BuildMetadata`: -1, 0 or 1.
pub uninterp spec fn build_order(a: Seq<char>, b: Seq<char>) -> int;

/// The decimal digit for `d < 10`.
pub open spec fn digit_char(d: nat) -> char {
    ((d + 48) as u8) as char
}

/// The decimal numeral of `n`, without leading zeros.
pub open spec fn decimal(n: nat) -> Seq<char>
    decreases n,
{
    if n < 10 {
        seq![digit_char(n)]
    } else {
        decimal(n / 10).push(digit_char(n % 10))
    }
}

/// The text of a version: `major.minor.patch`, then `-pre` and `+build`
/// where those labels are not empty.
pub open spec fn display_of(v: VersionModel) -> Seq<char> {
    decimal(v.major as nat) + seq!['.'] + decimal(v.minor as nat) + seq!['.'] + decimal(
        v.patch as nat,
    ) + (if v.pre.len() > 0 {
        seq!['-'] + v.pre
    } else {
        Seq::empty()
    }) + (if v.build.len() > 0 {
        seq!['+'] + v.build
    } else {
        Seq::empty()
    })
}

/// A legal pre-release label; the empty label means "no pre-release".
pub open spec fn pre_ok(s: Seq<char>) -> bool {
    s.len() == 0 || prerelease_accepts(s)
}

/// Legal build metadata; the empty text means "no build metadata".
pub open spec fn build_ok(s: Seq<char>) -> bool {
    s.len() == 0 || build_accepts(s)
}

impl VersionModel {
    pub open spec fn wf(self) -> bool {
        pre_ok(self.pre) && build_ok(self.build)
    }

    /// The version `major.minor.patch` without labels.
    pub open spec fn plain(major: u64, minor: u64, patch: u64) -> VersionModel {
        VersionModel { major, minor, patch, pre: Seq::empty(), build: Seq::empty() }
    }
}

/// The order of two numbers: -1, 0 or 1.
pub open spec fn cmp_u64(a: u64, b: u64) -> int {
    if a < b {
        -1
    } else if a > b {
        1
    } else {
        0
    }
}

/// The two versions have the same major, minor and patch numbers.
pub open spec fn same_numbers(a: VersionModel, b: VersionModel) -> bool {
    a.major == b.major && a.minor == b.minor && a.patch == b.patch
}

/// Semantic-version precedence: the numbers in order, then the pre-release
/// label. Build metadata takes no part. -1, 0 or 1.
pub open spec fn precedence(a: VersionModel, b: VersionModel) -> int {
    if a.major != b.major {
        cmp_u64(a.major, b.major)
    } else if a.minor != b.minor {
        cmp_u64(a.minor, b.minor)
    } else if a.patch != b.patch {
        cmp_u64(a.patch, b.patch)
    } else {
        prerelease_order(a.pre, b.pre)
    }
}

/// The total order of `semver`'s `Ord for Version`: precedence first, and
/// build metadata to break ties. -1, 0 or 1.
pub open spec fn version_order(a: VersionModel, b: VersionModel) -> int {
    if precedence(a, b) != 0 {
        precedence(a, b)
    } else {
        build_order(a.build, b.build)
    }
}

/// `a` ranks no higher than `b` in `semver`'s order: it is `b`, or it ranks
/// below `b` seen from both sides, their pre-release labels included.
pub open spec fn ranks_at_most(a: VersionModel, b: VersionModel) -> bool {
    a == b || (version_order(a, b) == -1 && version_order(b, a) == 1 && (same_numbers(a, b)
        ==> prerelease_order(b.pre, a.pre) == -prerelease_order(a.pre, b.pre)))
}

/// Relies on `semver::Version::parse`: the parsed parts, whose labels are
/// accepted again by `Prerelease::new` and `BuildMetadata::new`, since all
/// three read labels with the same identifier grammar.
#[verifier::external_body]
fn parse_semver(s: &str) -> (r: Option<Version>)
    ensures
        match r {
            Some(v) => parse_result(s@) == Some(v@) && v@.wf(),
            None => parse_result(s@) is None,
        },
{
    match semver::Version::parse(s) {
        Ok(v) => Some(
            Version {
                major: v.major,
                minor: v.minor,
                patch: v.patch,
                pre: v.pre.as_str().to_string(),
                build: v.build.as_str().to_string(),
            },
        ),
        Err(_) => None,
    }
}

/// Relies on `semver::Prerelease::new`: whether the label is legal; the
/// empty label is (it is `Prerelease::EMPTY`).
#[verifier::external_body]
fn prerelease_is_legal(s: &str) -> (r: bool)
    ensures
        r == prerelease_accepts(s@),
        s@.len() == 0 ==> r,
{
    semver::Prerelease::new(s).is_ok()
}

/// Relies on `semver::BuildMetadata::new`: whether the metadata is legal;
/// the empty text is (it is `BuildMetadata::EMPTY`).
#[verifier::external_body]
fn build_is_legal(s: &str) -> (r: bool)
    ensures
        r == build_accepts(s@),
        s@.len() == 0 ==> r,
{
    semver::BuildMetadata::new(s).is_ok()
}

/// Relies on `semver`'s `Ord for Prerelease`: a total order (as `Ord`
/// demands) in which an empty label ranks above every non-empty one, and
/// two labels are equal only when their texts are.
#[verifier::external_body]
fn compare_prerelease(a: &str, b: &str) -> (r: i8)
    requires
        pre_ok(a@),
        pre_ok(b@),
    ensures
        r as int == prerelease_order(a@, b@),
        -1 <= r <= 1,
        (r == 0) == (a@ == b@),
        prerelease_order(b@, a@) == -r,
        a@.len() == 0 && b@.len() > 0 ==> r == 1,
        a@.len() > 0 && b@.len() == 0 ==> r == -1,
        r == -1 ==> forall|c: Seq<char>|
            pre_ok(c) && #[trigger] prerelease_order(c, a@) <= 0 ==> prerelease_order(c, b@)
                == -1 && prerelease_order(b@, c) == 1,
{
    let x = semver::Prerelease::new(a).unwrap();
    let y = semver::Prerelease::new(b).unwrap();
    match x.cmp(&y) {
        std::cmp::Ordering::Less => -1,
        std::cmp::Ordering::Equal => 0,
        std::cmp::Ordering::Greater => 1,
    }
}

/// Relies on `semver`'s `Ord for BuildMetadata`: a total order (as `Ord`
/// demands) in which empty metadata ranks below every non-empty one, and two
/// texts are equal only when they are the same (numeric segments that differ
/// in leading zeros still differ, by length).
#[verifier::external_body]
fn compare_build(a: &str, b: &str) -> (r: i8)
    requires
        build_ok(a@),
        build_ok(b@),
    ensures
        r as int == build_order(a@, b@),
        -1 <= r <= 1,
        (r == 0) == (a@ == b@),
        build_order(b@, a@) == -r,
        a@.len() == 0 && b@.len() > 0 ==> r == -1,
        a@.len() > 0 && b@.len() == 0 ==> r == 1,
        r == -1 ==> forall|c: Seq<char>|
            build_ok(c) && #[trigger] build_order(c, a@) <= 0 ==> build_order(c, b@) == -1
                && build_order(b@, c) == 1,
{
    let x = semver::BuildMetadata::new(a).unwrap();
    let y = semver::BuildMetadata::new(b).unwrap();
    match x.cmp(&y) {
        std::cmp::Ordering::Less => -1,
        std::cmp::Ordering::Equal => 0,
        std::cmp::Ordering::Greater => 1,
    }
}

/// Relies on `Display for semver::Version`, which writes the three numbers
/// in decimal, then `-pre` and `+build` where not empty; and on
/// `Version::parse` reading that text back to the same version.
#[verifier::external_body]
fn display_semver(v: &Version) -> (r: String)
    requires
        v@.wf(),
    ensures
        r@ == display_of(v@),
        parse_result(r@) == Some(v@),
{
    let s = semver::Version {
        major: v.major,
        minor: v.minor,
        patch: v.patch,
        pre: semver::Prerelease::new(&v.pre).unwrap(),
        build: semver::BuildMetadata::new(&v.build).unwrap(),
    };
    s.to_string()
}

impl Version {
    /// Both labels are legal.
    pub open spec fn wf(&self) -> bool {
        self@.wf()
    }

    /// The version 0.0.0.
    pub fn zero() -> (r: Version)
        ensures
            r@ == VersionModel::plain(0, 0, 0),
            r.wf(),
    {
        let r = Version { major: 0, minor: 0, patch: 0, pre: String::new(), build: String::new() };
        assert(r@ =~= VersionModel::plain(0, 0, 0));
        r
    }

    /// Parses a text such as `1.2.3-rc.1+b5` (no leading `v`).
    pub fn parse(s: &str) -> (r: Option<Version>)
        ensures
            match r {
                Some(v) => parse_result(s@) == Some(v@) && v.wf(),
                None => parse_result(s@) is None,
            },
    {
        parse_semver(s)
    }

    /// Compares in `semver`'s order: -1 when `self` ranks below `other`, 1
    /// when above, 0 when they are the same version. Precedence decides,
    /// and build metadata breaks ties.
    pub fn compare(&self, other: &Version) -> (r: i8)
        requires
            self.wf(),
            other.wf(),
        ensures
            r as int == version_order(self@, other@),
            -1 <= r <= 1,
            version_order(other@, self@) == -r,
            same_numbers(self@, other@) ==> prerelease_order(other.pre@, self.pre@)
                == -prerelease_order(self.pre@, other.pre@),
            r == 0 <==> self@ == other@,
            precedence(self@, other@) < 0 ==> r == -1,
            r == -1 ==> forall|c: VersionModel|
                c.wf() && #[trigger] ranks_at_most(c, self@) ==> ranks_at_most(c, other@) && c
                    != other@,
            same_numbers(self@, other@) && self.pre@.len() > 0 && other.pre@.len() == 0 ==> r
                == -1,
            same_numbers(self@, other@) && self.pre@.len() == 0 && other.pre@.len() > 0 ==> r
                == 1,
    {
        if self.major != other.major {
            if self.major < other.major {
                -1
            } else {
                1
            }
        } else if self.minor != other.minor {
            if self.minor < other.minor {
                -1
            } else {
                1
            }
        } else if self.patch != other.patch {
            if self.patch < other.patch {
                -1
            } else {
                1
            }
        } else {
            let p = compare_prerelease(self.pre.as_str(), other.pre.as_str());
            if p != 0 {
                assert(p == -1 ==> forall|c: VersionModel|
                    c.wf() && #[trigger] ranks_at_most(c, self@) ==> ranks_at_most(c, other@) && c != other@) by {
                    if p == -1 {
                        assert forall|c: VersionModel|
                            c.wf() && #[trigger] ranks_at_most(c, self@) implies ranks_at_most(c, other@) && c != other@ by {
                            if c != self@ && same_numbers(c, self@) {
                                assert(prerelease_order(c.pre, self.pre@) <= 0);
                            }
                        }
                    }
                }
                p
            } else {
                let b = compare_build(self.build.as_str(), other.build.as_str());
                assert(self@.pre == other@.pre);
                assert(b == 0 ==> self@ =~= other@);
                assert(b == -1 ==> forall|c: VersionModel|
                    c.wf() && #[trigger] ranks_at_most(c, self@) ==> ranks_at_most(c, other@) && c != other@) by {
                    if b == -1 {
                        assert forall|c: VersionModel|
                            c.wf() && #[trigger] ranks_at_most(c, self@) implies ranks_at_most(c, other@) && c != other@ by {
                            if c != self@ && same_numbers(c, self@) && prerelease_order(
                                c.pre,
                                self.pre@,
                            ) == 0 {
                                assert(build_order(c.build, self.build@) <= 0);
                                assert(build_order(c.build, other.build@) == -1);
                                assert(build_order(other.build@, c.build) == 1);
                                assert(prerelease_order(c.pre, other.pre@) == 0);
                            } else if c != self@ && same_numbers(c, self@) {
                                assert(prerelease_order(c.pre, other.pre@) == -1);
                            }
                        }
                    }
                }
                b
            }
        }
    }

    /// The name of the tag for this version: `v` and its text.
    pub fn tag_name(&self) -> (r: String)
        requires
            self.wf(),
        ensures
            r@ == seq!['v'] + display_of(self@),
            tag_version(r@) == Some(self@),
    {
        let d = display_semver(self);
        let mut r = String::from_str("v");
        r.append(d.as_str());
        proof {
            reveal_strlit("v");
        }
        assert(r@ =~= seq!['v'] + d@);
        assert(r@.drop_first() =~= d@);
        assert(strip_v(r@) == r@.drop_first());
        r
    }

    /// Checks that a label is legal as a pre-release.
    pub fn is_legal_prerelease(label: &str) -> (r: bool)
        ensures
            r == prerelease_accepts(label@),
            r == pre_ok(label@),
    {
        prerelease_is_legal(label)
    }

    /// Checks that a text is legal as build metadata.
    pub fn is_legal_build(label: &str) -> (r: bool)
        ensures
            r == build_accepts(label@),
            r == build_ok(label@),
    {
        build_is_legal(label)
    }
}

/// The greater of two versions in `semver`'s order; `a` where they are the
/// same.
pub fn max_version(a: Version, b: Version) -> (r: Version)
    requires
        a.wf(),
        b.wf(),
    ensures
        r@ == if version_order(a@, b@) < 0 {
            b@
        } else {
            a@
        },
        r.wf(),
        precedence(a@, b@) < 0 ==> r@ == b@,
        precedence(b@, a@) < 0 ==> r@ == a@,
        same_numbers(a@, b@) && a@.pre.len() > 0 && b@.pre.len() == 0 ==> r@ == b@,
        same_numbers(a@, b@) && a@.pre.len() == 0 && b@.pre.len() > 0 ==> r@ == a@,
{
    if a.compare(&b) < 0 {
        b
    } else {
        a
    }
}

} // verus!
