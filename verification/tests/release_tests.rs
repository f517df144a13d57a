use std::sync::Arc;

use multiservice_discovery::release::ReplicaRelease;

fn release(commit: &str, name: &str, previous: Option<Arc<ReplicaRelease>>) -> ReplicaRelease {
    ReplicaRelease {
        commit_hash: commit.to_string(),
        branch: format!("rc--{}", name),
        name: name.to_string(),
        time: 1_700_000_000,
        previous_patch_release: previous,
    }
}

fn chain() -> ReplicaRelease {
    // base <- mid <- top
    let base = Arc::new(release("aaa", "base", None));
    let mid = Arc::new(release("bbb", "mid", Some(base)));
    release("ccc", "top", Some(mid))
}

#[test]
fn patch_count_reports_the_base_of_the_chain() {
    let top = chain();
    assert_eq!(top.patch_count(), 0);
}

#[test]
fn contains_patch_walks_the_whole_lineage() {
    let top = chain();
    assert!(top.contains_patch("ccc"));
    assert!(top.contains_patch("bbb"));
    assert!(top.contains_patch("aaa"));
    assert!(!top.contains_patch("zzz"));
}

#[test]
fn patches_is_strict_and_transitive() {
    let base = Arc::new(release("aaa", "base", None));
    let mid = Arc::new(release("bbb", "mid", Some(base.clone())));
    let top = release("ccc", "top", Some(mid.clone()));

    assert!(top.patches(&base));
    assert!(top.patches(&mid));
    let top_copy = multiservice_discovery::release::duplicate_release(&top);
    assert!(!top.patches(&top_copy));
    assert!(!base.patches(&top));
}

#[test]
fn patches_for_lists_the_releases_on_top_of_a_commit() {
    let top = chain();
    let on_base = top.patches_for("aaa").expect("aaa is in the lineage");
    let names: Vec<&str> = on_base.iter().map(|r| r.name.as_str()).collect();
    assert_eq!(names, vec!["mid", "top"]);

    let on_top = top.patches_for("ccc").expect("ccc is the release itself");
    assert!(on_top.is_empty());

    let err = top.patches_for("zzz").expect_err("zzz is not in the lineage");
    assert_eq!(err, "doesn't patch this release");
}

#[test]
fn get_finds_the_release_of_a_commit() {
    let top = chain();
    let found = top.get("bbb").expect("bbb is in the lineage");
    assert_eq!(found.name, "mid");
    assert_eq!(found.commit_hash, "bbb");
    let err = top.get("zzz").expect_err("zzz is not in the lineage");
    assert_eq!(err, "doesn't patch this release");
}

