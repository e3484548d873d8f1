use semver_tag::bump::{decide, BumpRequest, Outcome};
use semver_tag::resolve::{parse_tag, resolve, strip_v_prefix, Resolution, Tag};
use semver_tag::version::{max_version, Version};

fn tag(name: &str, points_at_head: bool) -> Tag {
    Tag { name: name.to_string(), points_at_head }
}

fn ver(s: &str) -> Version {
    Version::parse(s).unwrap()
}

fn numbers(v: &Version) -> (u64, u64, u64, String, String) {
    (v.major, v.minor, v.patch, v.pre.clone(), v.build.clone())
}

fn plain(major: u64, minor: u64, patch: u64) -> (u64, u64, u64, String, String) {
    (major, minor, patch, String::new(), String::new())
}

#[test]
fn no_version_tags_resolve_to_zero() {
    let r = resolve(&vec![tag("release-candidate", true), tag("latest", false), tag("v", false)]);
    assert_eq!(numbers(&r.latest), plain(0, 0, 0));
    assert!(!r.found);
    assert!(!r.head_tagged);
}

#[test]
fn empty_repository_reports_no_version() {
    let r = resolve(&vec![]);
    assert_eq!(numbers(&r.latest), plain(0, 0, 0));
    assert!(!r.found);
    match decide(r, &None, false) {
        Ok(Outcome::NoVersion) => {}
        _ => panic!("expected no version"),
    }
}

#[test]
fn zero_tag_is_found() {
    let r = resolve(&vec![tag("v0.0.0", false)]);
    assert_eq!(numbers(&r.latest), plain(0, 0, 0));
    assert!(r.found);
    match decide(r, &None, false) {
        Ok(Outcome::Latest(v)) => assert_eq!(v.tag_name(), "v0.0.0"),
        _ => panic!("expected the latest version"),
    }
}

#[test]
fn order_of_tags_does_not_matter() {
    let names = ["v1.0.0", "v2.1.0-beta", "1.3.7", "junk", "v2.0.5", "v2.1.0-alpha"];
    let forward: Vec<Tag> = names.iter().map(|n| tag(n, false)).collect();
    let backward: Vec<Tag> = names.iter().rev().map(|n| tag(n, false)).collect();
    let a = resolve(&forward);
    let b = resolve(&backward);
    assert_eq!(numbers(&a.latest), numbers(&b.latest));
    assert_eq!(a.latest.tag_name(), "v2.1.0-beta");
    assert_eq!(a.found, b.found);
}

#[test]
fn prerelease_ranks_below_release() {
    let beta = ver("1.0.0-beta");
    let release = ver("1.0.0");
    assert_eq!(beta.compare(&release), -1);
    assert_eq!(release.compare(&beta), 1);
    let m = max_version(ver("1.0.0-beta"), ver("1.0.0"));
    assert_eq!(m.tag_name(), "v1.0.0");
    let m = max_version(ver("1.0.0"), ver("1.0.0-beta"));
    assert_eq!(m.tag_name(), "v1.0.0");
}

#[test]
fn max_picks_greater_version() {
    assert_eq!(max_version(ver("1.9.9"), ver("1.10.0")).tag_name(), "v1.10.0");
    assert_eq!(max_version(ver("2.0.0"), ver("1.99.99")).tag_name(), "v2.0.0");
    assert_eq!(max_version(ver("1.0.0-alpha.2"), ver("1.0.0-alpha.10")).tag_name(), "v1.0.0-alpha.10");
    assert_eq!(max_version(ver("1.0.0-alpha.1"), ver("1.0.0-alpha.beta")).tag_name(), "v1.0.0-alpha.beta");
}

#[test]
fn build_metadata_breaks_ties() {
    assert_eq!(ver("1.0.0+a").compare(&ver("1.0.0+b")), -1);
    assert_eq!(ver("1.0.0+b").compare(&ver("1.0.0+a")), 1);
    assert_eq!(ver("1.0.0+a").compare(&ver("1.0.0+a")), 0);
    assert_eq!(ver("1.0.0-rc.1+z").compare(&ver("1.0.0+a")), -1);
    assert_eq!(max_version(ver("1.0.0+a"), ver("1.0.0+b")).tag_name(), "v1.0.0+b");
    assert_eq!(max_version(ver("1.0.0+b"), ver("1.0.0+a")).tag_name(), "v1.0.0+b");
}

#[test]
fn ties_in_precedence_are_order_free() {
    let a = resolve(&vec![tag("v1.0.0+a", false), tag("v1.0.0+b", false)]);
    let b = resolve(&vec![tag("v1.0.0+b", false), tag("v1.0.0+a", false)]);
    assert_eq!(a.latest.tag_name(), "v1.0.0+b");
    assert_eq!(b.latest.tag_name(), "v1.0.0+b");
}

#[test]
fn zero_with_build_metadata_is_latest() {
    let r = resolve(&vec![tag("v0.0.0+x", false)]);
    assert_eq!(r.latest.tag_name(), "v0.0.0+x");
    let r = resolve(&vec![tag("v0.0.0-alpha", false)]);
    assert_eq!(r.latest.tag_name(), "v0.0.0");
    assert!(r.found);
}

#[test]
fn two_tags_pick_greater_in_either_order() {
    for (lo, hi) in [("v1.0.0-beta", "v1.0.0"), ("v0.9.0", "v0.10.0"), ("v0.0.0", "v0.0.0+x")] {
        let a = resolve(&vec![tag(lo, false), tag(hi, false)]);
        let b = resolve(&vec![tag(hi, false), tag(lo, false)]);
        assert_eq!(a.latest.tag_name(), hi);
        assert_eq!(b.latest.tag_name(), hi);
    }
}

#[test]
fn strips_one_leading_v() {
    assert_eq!(strip_v_prefix("v1.2.3"), "1.2.3");
    assert_eq!(strip_v_prefix("vv1.2.3"), "v1.2.3");
    assert_eq!(strip_v_prefix("1.2.3"), "1.2.3");
    assert_eq!(strip_v_prefix(""), "");
    assert!(parse_tag("vv1.2.3").is_none());
    let v = parse_tag("v1.2.3-rc.1+b7").unwrap();
    assert_eq!(numbers(&v), (1, 2, 3, "rc.1".to_string(), "b7".to_string()));
    assert!(parse_tag("release-candidate").is_none());
    assert!(parse_tag("v1.0").is_none());
}

#[test]
fn minor_bump_after_two_releases() {
    let tags = vec![tag("v1.0.0", false), tag("v1.1.0", false), tag("release-candidate", false)];
    let r = resolve(&tags);
    assert_eq!(numbers(&r.latest), plain(1, 1, 0));
    assert!(!r.head_tagged);
    match decide(r, &Some(BumpRequest::Minor), false) {
        Ok(Outcome::NewTag(v)) => assert_eq!(v.tag_name(), "v1.2.0"),
        _ => panic!("expected a new tag"),
    }
}

#[test]
fn tagged_head_is_not_bumped() {
    let r = resolve(&vec![tag("v2.0.0", true)]);
    assert!(r.head_tagged);
    match decide(r, &Some(BumpRequest::Patch), false) {
        Ok(Outcome::AlreadyTagged(v)) => assert_eq!(v.tag_name(), "v2.0.0"),
        _ => panic!("expected already tagged"),
    }
}

#[test]
fn forced_bump_of_tagged_head() {
    let r = resolve(&vec![tag("v2.0.0", true)]);
    match decide(r, &Some(BumpRequest::Patch), true) {
        Ok(Outcome::NewTag(v)) => assert_eq!(v.tag_name(), "v2.0.1"),
        _ => panic!("expected a new tag"),
    }
}

#[test]
fn non_version_tag_at_head_does_not_count() {
    let r = resolve(&vec![tag("v1.0.0", false), tag("deployed", true)]);
    assert!(!r.head_tagged);
    assert!(r.found);
}

#[test]
fn second_run_reports_already_tagged() {
    let mut tags = vec![tag("v1.4.2", false), tag("notes", false)];
    let first = resolve(&tags);
    let new_version = match decide(first, &Some(BumpRequest::Minor), false) {
        Ok(Outcome::NewTag(v)) => v,
        _ => panic!("expected a new tag"),
    };
    let name = new_version.tag_name();
    assert_eq!(name, "v1.5.0");
    tags.push(Tag { name, points_at_head: true });
    let second: Resolution = resolve(&tags);
    assert!(second.head_tagged);
    match decide(second, &Some(BumpRequest::Minor), false) {
        Ok(Outcome::AlreadyTagged(v)) => assert_eq!(v.tag_name(), "v1.5.0"),
        _ => panic!("expected already tagged"),
    }
}
