//! Scanning a repository's tag names for the latest semantic version, and
//! for a semantic-version tag on the checked-out commit.

use vstd::prelude::*;
use vstd::string::*;
use crate::version::{parse_result, ranks_at_most, version_order, Version, VersionModel};

verus! {

/// A tag of the repository: its name, and whether it points at the same
/// object as HEAD.
pub struct Tag {
    pub name: String,
    pub points_at_head: bool,
}

/// What a scan of the tags finds.
pub struct Resolution {
    /// The greatest semantic version among the tags, and 0.0.0.
    pub latest: Version,
    /// Whether any tag is a semantic version at all.
    pub found: bool,
    /// Whether a semantic-version tag points at HEAD.
    pub head_tagged: bool,
}

/// A tag as a plain value: its name and whether it points at HEAD.
pub open spec fn tag_model(t: Tag) -> (Seq<char>, bool) {
    (t.name@, t.points_at_head)
}

pub open spec fn tags_model(tags: Seq<Tag>) -> Seq<(Seq<char>, bool)> {
    tags.map_values(|t: Tag| tag_model(t))
}

/// A tag name with at most one leading `v` removed.
pub open spec fn strip_v(s: Seq<char>) -> Seq<char> {
    if s.len() > 0 && s[0] == 'v' {
        s.drop_first()
    } else {
        s
    }
}

/// The version a tag name stands for, if any.
pub open spec fn tag_version(name: Seq<char>) -> Option<VersionModel> {
    parse_result(strip_v(name))
}

/// Some tag is a semantic version.
pub open spec fn any_version(ts: Seq<(Seq<char>, bool)>) -> bool {
    exists|i: int| 0 <= i < ts.len() && (#[trigger] tag_version(ts[i].0)) is Some
}

/// Some semantic-version tag points at HEAD.
pub open spec fn any_version_at_head(ts: Seq<(Seq<char>, bool)>) -> bool {
    exists|i: int| 0 <= i < ts.len() && ts[i].1 && (#[trigger] tag_version(ts[i].0)) is Some
}

/// `latest` is the greatest, in `semver`'s order, of 0.0.0 and the versions
/// that the tags stand for, `found` says whether there are any such, and `head_tagged` whether
/// one of them is on a tag that points at HEAD.
pub open spec fn is_resolution(
    ts: Seq<(Seq<char>, bool)>,
    latest: VersionModel,
    found: bool,
    head_tagged: bool,
) -> bool {
    &&& found == any_version(ts)
    &&& head_tagged == any_version_at_head(ts)
    &&& latest == VersionModel::plain(0, 0, 0) || exists|i: int|
        0 <= i < ts.len() && #[trigger] tag_version(ts[i].0) == Some(latest)
    &&& ranks_at_most(VersionModel::plain(0, 0, 0), latest)
    &&& forall|i: int|
        0 <= i < ts.len() && (#[trigger] tag_version(ts[i].0)) is Some ==> ranks_at_most(
            tag_version(ts[i].0)->0,
            latest,
        )
}

/// Removes at most one leading `v` from a tag name.
pub fn strip_v_prefix(name: &str) -> (r: &str)
    ensures
        r@ == strip_v(name@),
{
    let n = name.unicode_len();
    if n > 0 && name.get_char(0) == 'v' {
        let r = name.substring_char(1, n);
        assert(r@ =~= name@.drop_first());
        r
    } else {
        name
    }
}

/// The version a tag name stands for, if any.
pub fn parse_tag(name: &str) -> (r: Option<Version>)
    ensures
        match r {
            Some(v) => tag_version(name@) == Some(v@) && v.wf(),
            None => tag_version(name@) is None,
        },
{
    Version::parse(strip_v_prefix(name))
}

/// Scans the tags for the latest semantic version and for a
/// semantic-version tag at HEAD. Tags that are not versions are skipped.
pub fn resolve(tags: &Vec<Tag>) -> (r: Resolution)
    ensures
        r.latest.wf(),
        is_resolution(tags_model(tags@), r.latest@, r.found, r.head_tagged),
{
    let ghost ts = tags_model(tags@);
    let ghost zero = VersionModel::plain(0, 0, 0);
    let mut latest = Version::zero();
    let mut found = false;
    let mut head_tagged = false;
    let mut i: usize = 0;
    while i < tags.len()
        invariant
            ts == tags_model(tags@),
            zero == VersionModel::plain(0, 0, 0),
            0 <= i <= tags.len(),
            latest.wf(),
            found == any_version(ts.take(i as int)),
            head_tagged == any_version_at_head(ts.take(i as int)),
            latest@ == zero || exists|j: int|
                0 <= j < i && #[trigger] tag_version(ts[j].0) == Some(latest@),
            ranks_at_most(zero, latest@),
            forall|j: int|
                0 <= j < i && (#[trigger] tag_version(ts[j].0)) is Some ==> tag_version(
                    ts[j].0,
                )->0.wf() && ranks_at_most(tag_version(ts[j].0)->0, latest@),
        decreases tags.len() - i,
    {
        let tag = &tags[i];
        assert(ts[i as int] == (tag.name@, tag.points_at_head));
        let ghost prev = ts.take(i as int);
        let ghost next = ts.take(i + 1);
        assert(next =~= prev.push(ts[i as int]));
        match parse_tag(tag.name.as_str()) {
            Some(v) => {
                let ghost old_latest = latest@;
                let c = latest.compare(&v);
                if c < 0 {
                    latest = v;
                }
                found = true;
                if tag.points_at_head {
                    head_tagged = true;
                }
                assert(tag_version(next[i as int].0) is Some);
                proof {
                    if head_tagged {
                        if tag.points_at_head {
                            assert(next[i as int].1);
                        } else {
                            let k = choose|k: int|
                                0 <= k < prev.len() && prev[k].1 && (#[trigger] tag_version(
                                    prev[k].0,
                                )) is Some;
                            assert(next[k] == prev[k]);
                        }
                    }
                    if c > 0 {
                        assert(version_order(v@, old_latest) == -1);
                        assert(ranks_at_most(v@, old_latest));
                    }
                }
            },
            None => {
                proof {
                    if found {
                        let k = choose|k: int|
                            0 <= k < prev.len() && (#[trigger] tag_version(prev[k].0)) is Some;
                        assert(next[k] == prev[k]);
                    }
                    if head_tagged {
                        let k = choose|k: int|
                            0 <= k < prev.len() && prev[k].1 && (#[trigger] tag_version(
                                prev[k].0,
                            )) is Some;
                        assert(next[k] == prev[k]);
                    }
                }
            },
        }
        i += 1;
    }
    assert(ts.take(i as int) =~= ts);
    Resolution { latest, found, head_tagged }
}

/// With no tag that is a semantic version, the latest version is 0.0.0,
/// none is found, and HEAD does not count as tagged.
pub proof fn lemma_no_version_gives_zero(
    ts: Seq<(Seq<char>, bool)>,
    latest: VersionModel,
    found: bool,
    head_tagged: bool,
)
    requires
        !any_version(ts),
        is_resolution(ts, latest, found, head_tagged),
    ensures
        latest == VersionModel::plain(0, 0, 0),
        !found,
        !head_tagged,
{
    if latest != VersionModel::plain(0, 0, 0) {
        let i = choose|i: int| 0 <= i < ts.len() && #[trigger] tag_version(ts[i].0) == Some(latest);
        assert(tag_version(ts[i].0) is Some);
    }
    if head_tagged {
        let i = choose|i: int|
            0 <= i < ts.len() && ts[i].1 && (#[trigger] tag_version(ts[i].0)) is Some;
        assert(tag_version(ts[i].0) is Some);
    }
}

/// The order in which the tags are listed does not matter: an outcome that
/// is correct for one listing is correct for every listing of the same tags.
pub proof fn lemma_resolution_ignores_order(
    ts1: Seq<(Seq<char>, bool)>,
    ts2: Seq<(Seq<char>, bool)>,
    latest: VersionModel,
    found: bool,
    head_tagged: bool,
)
    requires
        ts1.to_set() == ts2.to_set(),
        is_resolution(ts1, latest, found, head_tagged),
    ensures
        is_resolution(ts2, latest, found, head_tagged),
{
    assert forall|t: (Seq<char>, bool)| ts1.contains(t) <==> ts2.contains(t) by {
        assert(ts1.to_set().contains(t) == ts1.contains(t));
        assert(ts2.to_set().contains(t) == ts2.contains(t));
    }
    if any_version(ts1) {
        let i = choose|i: int| 0 <= i < ts1.len() && (#[trigger] tag_version(ts1[i].0)) is Some;
        assert(ts1.contains(ts1[i]));
        let j = choose|j: int| 0 <= j < ts2.len() && ts2[j] == ts1[i];
        assert(tag_version(ts2[j].0) is Some);
    }
    if any_version(ts2) {
        let j = choose|j: int| 0 <= j < ts2.len() && (#[trigger] tag_version(ts2[j].0)) is Some;
        assert(ts2.contains(ts2[j]));
        let i = choose|i: int| 0 <= i < ts1.len() && ts1[i] == ts2[j];
        assert(tag_version(ts1[i].0) is Some);
    }
    if any_version_at_head(ts1) {
        let i = choose|i: int|
            0 <= i < ts1.len() && ts1[i].1 && (#[trigger] tag_version(ts1[i].0)) is Some;
        assert(ts1.contains(ts1[i]));
        let j = choose|j: int| 0 <= j < ts2.len() && ts2[j] == ts1[i];
        assert(ts2[j].1 && tag_version(ts2[j].0) is Some);
    }
    if any_version_at_head(ts2) {
        let j = choose|j: int|
            0 <= j < ts2.len() && ts2[j].1 && (#[trigger] tag_version(ts2[j].0)) is Some;
        assert(ts2.contains(ts2[j]));
        let i = choose|i: int| 0 <= i < ts1.len() && ts1[i] == ts2[j];
        assert(ts1[i].1 && tag_version(ts1[i].0) is Some);
    }
    if latest != VersionModel::plain(0, 0, 0) {
        let i = choose|i: int| 0 <= i < ts1.len() && #[trigger] tag_version(ts1[i].0) == Some(latest);
        assert(ts1.contains(ts1[i]));
        let j = choose|j: int| 0 <= j < ts2.len() && ts2[j] == ts1[i];
        assert(tag_version(ts2[j].0) == Some(latest));
    }
    assert forall|j: int|
        0 <= j < ts2.len() && (#[trigger] tag_version(ts2[j].0)) is Some implies ranks_at_most(
        tag_version(ts2[j].0)->0,
        latest,
    ) by {
        assert(ts2.contains(ts2[j]));
        let i = choose|i: int| 0 <= i < ts1.len() && ts1[i] == ts2[j];
        assert(tag_version(ts1[i].0) is Some);
    }
}

/// Two scans of the same tags, listed in any orders, agree on everything:
/// the latest version, whether a version is found, and whether HEAD is
/// tagged.
pub proof fn lemma_resolutions_agree(
    ts1: Seq<(Seq<char>, bool)>,
    ts2: Seq<(Seq<char>, bool)>,
    latest1: VersionModel,
    found1: bool,
    head_tagged1: bool,
    latest2: VersionModel,
    found2: bool,
    head_tagged2: bool,
)
    requires
        ts1.to_set() == ts2.to_set(),
        is_resolution(ts1, latest1, found1, head_tagged1),
        is_resolution(ts2, latest2, found2, head_tagged2),
    ensures
        found1 == found2,
        head_tagged1 == head_tagged2,
        latest1 == latest2,
{
    lemma_resolution_ignores_order(ts1, ts2, latest1, found1, head_tagged1);
    if latest1 != VersionModel::plain(0, 0, 0) {
        let i = choose|i: int| 0 <= i < ts2.len() && #[trigger] tag_version(ts2[i].0) == Some(latest1);
        assert(tag_version(ts2[i].0) is Some);
    }
    if latest2 != VersionModel::plain(0, 0, 0) {
        let i = choose|i: int| 0 <= i < ts2.len() && #[trigger] tag_version(ts2[i].0) == Some(latest2);
        assert(tag_version(ts2[i].0) is Some);
    }
    assert(ranks_at_most(latest1, latest2) && ranks_at_most(latest2, latest1));
}

/// Of two version tags, listed in either order, the scan picks the greater.
/// This needs the greater to rank at least 0.0.0, where the scan starts: a
/// pre-release of 0.0.0 ranks below it.
pub proof fn lemma_two_tags_pick_greater(
    ts: Seq<(Seq<char>, bool)>,
    a: VersionModel,
    b: VersionModel,
    latest: VersionModel,
    found: bool,
    head_tagged: bool,
)
    requires
        ts.len() == 2,
        (tag_version(ts[0].0) == Some(a) && tag_version(ts[1].0) == Some(b)) || (tag_version(
            ts[0].0,
        ) == Some(b) && tag_version(ts[1].0) == Some(a)),
        ranks_at_most(a, b),
        a != b,
        ranks_at_most(VersionModel::plain(0, 0, 0), b),
        is_resolution(ts, latest, found, head_tagged),
    ensures
        latest == b,
{
    assert(tag_version(ts[0].0) is Some);
    assert(tag_version(ts[1].0) is Some);
    assert(ranks_at_most(a, latest) && ranks_at_most(b, latest));
    if latest != VersionModel::plain(0, 0, 0) {
        let i = choose|i: int| 0 <= i < ts.len() && #[trigger] tag_version(ts[i].0) == Some(latest);
        assert(i == 0 || i == 1);
    }
}

} // verus!
