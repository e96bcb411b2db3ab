use nixhist::types::{format_bytes, GenerationDiff, Package, Timestamp};

fn pkg(name: &str, version: &str, size: u64) -> Package {
    Package { name: name.into(), version: version.into(), size }
}

#[test]
fn test_format_bytes() {
    assert_eq!(format_bytes(500), "500 B");
    assert_eq!(format_bytes(1500), "1.5 KB");
    assert_eq!(format_bytes(1_500_000), "1.4 MB");
    assert_eq!(format_bytes(1_500_000_000), "1.4 GB");
}

#[test]
fn test_generation_diff() {
    let old = vec![pkg("foo", "1.0", 100), pkg("bar", "2.0", 200)];
    let new = vec![pkg("foo", "1.1", 100), pkg("baz", "1.0", 150)];

    let diff = GenerationDiff::calculate(&old, &new);
    assert_eq!(diff.added.len(), 1);
    assert_eq!(diff.removed.len(), 1);
    assert_eq!(diff.updated.len(), 1);
}

#[test]
fn test_generation_diff_example() {
    let old = vec![pkg("foo", "1.0", 100), pkg("bar", "2.0", 200)];
    let new = vec![pkg("foo", "1.1", 100), pkg("baz", "1.0", 150)];

    let diff = GenerationDiff::calculate(&old, &new);
    assert_eq!(diff.added[0].name, "baz");
    assert_eq!(diff.added[0].version, "1.0");
    assert_eq!(diff.removed[0].name, "bar");
    assert_eq!(diff.removed[0].version, "2.0");
    assert_eq!(diff.updated[0].name, "foo");
    assert_eq!(diff.updated[0].old_version, "1.0");
    assert_eq!(diff.updated[0].new_version, "1.1");
}

#[test]
fn test_generation_diff_swap_symmetry() {
    let a = vec![pkg("foo", "1.0", 0), pkg("bar", "2.0", 0)];
    let b = vec![pkg("foo", "1.1", 0), pkg("baz", "1.0", 0)];
    let fwd = GenerationDiff::calculate(&a, &b);
    let bwd = GenerationDiff::calculate(&b, &a);
    let names = |v: &Vec<Package>| v.iter().map(|p| p.name.clone()).collect::<Vec<String>>();
    assert_eq!(names(&fwd.added), names(&bwd.removed));
    assert_eq!(names(&fwd.removed), names(&bwd.added));
}

#[test]
fn test_generation_diff_equal_versions_listed_nowhere() {
    let a = vec![pkg("same", "1.0", 0)];
    let b = vec![pkg("same", "1.0", 0)];
    let diff = GenerationDiff::calculate(&a, &b);
    assert!(diff.added.is_empty());
    assert!(diff.removed.is_empty());
    assert!(diff.updated.is_empty());
}

#[test]
fn test_update_classifiers() {
    let old = vec![pkg("linux-firmware", "1", 0), pkg("openssl", "3.0", 0)];
    let new = vec![pkg("linux-firmware", "2", 0), pkg("openssl", "3.1", 0)];
    let diff = GenerationDiff::calculate(&old, &new);
    let kernel = diff.updated.iter().find(|u| u.name == "linux-firmware").unwrap();
    assert!(kernel.is_kernel);
    let sec = diff.updated.iter().find(|u| u.name == "openssl").unwrap();
    assert!(sec.is_security);
    assert!(!sec.is_kernel);
}

#[test]
fn test_diff_summary() {
    let old = vec![pkg("foo", "1.0", 0), pkg("bar", "2.0", 0)];
    let new = vec![pkg("foo", "1.1", 0), pkg("baz", "1.0", 0)];
    let diff = GenerationDiff::calculate(&old, &new);
    assert_eq!(diff.summary(), "+1 added \u{b7} -1 removed \u{b7} ~1 updated");
}

#[test]
fn test_formatted_date() {
    let ts = Timestamp { year: 2024, month: 1, day: 15, hour: 8, minute: 44, second: 32 };
    assert_eq!(ts.formatted(), "15.01.24 08:44");
}
