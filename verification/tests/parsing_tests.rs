use nixhist::generations::{
    extract_generation_id, get_generation_path, kernel_version_from_path, parse_generation_list,
    parse_path_info_size, sort_generations_desc, version_from_store_path,
};
use nixhist::packages::{
    parse_manifest, parse_path_info_json, parse_store_path, should_skip_package,
};
use nixhist::types::{Generation, ProfileType, Timestamp};

#[test]
fn test_parse_generation_list() {
    let input = "\n   1   2024-01-15 08:44:32\n   2   2024-01-18 11:03:15   (current)\n  10   2024-01-22 14:32:00\n";
    let result = parse_generation_list(input).unwrap();
    assert_eq!(result.len(), 3);
    assert_eq!(result[0].0, 1);
    assert_eq!(result[1].0, 2);
    assert_eq!(result[2].0, 10);
}

#[test]
fn test_parse_generation_list_timestamps() {
    let result = parse_generation_list("  5   2024-02-29 23:59:59\n").unwrap();
    assert_eq!(result.len(), 1);
    assert_eq!(
        result[0].1,
        Timestamp { year: 2024, month: 2, day: 29, hour: 23, minute: 59, second: 59 }
    );
}

#[test]
fn test_parse_generation_list_rejects_bad_id() {
    assert!(parse_generation_list("  x   2024-01-15 08:44:32\n").is_none());
}

#[test]
fn test_parse_generation_list_rejects_bad_date() {
    // February 30th does not exist, and 2023 is no leap year.
    assert!(parse_generation_list("  1   2024-02-30 08:44:32\n").is_none());
    assert!(parse_generation_list("  1   2023-02-29 08:44:32\n").is_none());
    assert!(parse_generation_list("  1   2024-13-01 08:44:32\n").is_none());
}

#[test]
fn test_parse_generation_list_skips_short_lines() {
    let result = parse_generation_list("header\n  4   2024-01-15 08:44:32\n\n").unwrap();
    assert_eq!(result.len(), 1);
    assert_eq!(result[0].0, 4);
}

#[test]
fn test_extract_generation_id() {
    assert_eq!(extract_generation_id("system-142-link").unwrap(), 142);
    assert_eq!(extract_generation_id("home-manager-89-link").unwrap(), 89);
}

#[test]
fn test_extract_generation_id_rejects_other_names() {
    assert!(extract_generation_id("system-142").is_none());
    assert!(extract_generation_id("link").is_none());
    assert!(extract_generation_id("system-x-link").is_none());
}

#[test]
fn test_extract_generation_id_from_full_path() {
    assert_eq!(
        extract_generation_id("/nix/var/nix/profiles/system-7-link").unwrap(),
        7
    );
}

#[test]
fn test_parse_store_path() {
    let result = parse_store_path("/nix/store/abc123defghijklmnop123456789012-firefox-122.0");
    assert!(result.is_some());
    let (name, version) = result.unwrap();
    assert_eq!(name, "firefox");
    assert_eq!(version, "122.0");
}

#[test]
fn test_parse_store_path_complex_version() {
    let result = parse_store_path("/nix/store/abc123defghijklmnop123456789012-linux-6.6.52");
    assert!(result.is_some());
    let (name, version) = result.unwrap();
    assert_eq!(name, "linux");
    assert_eq!(version, "6.6.52");
}

#[test]
fn test_parse_store_path_without_version() {
    let result = parse_store_path("/nix/store/abc123defghijklmnop123456789012-hello-world-tool");
    let (name, version) = result.unwrap();
    assert_eq!(name, "hello-world-tool");
    assert_eq!(version, "");
}

#[test]
fn test_parse_store_path_too_short() {
    assert!(parse_store_path("/nix/store/short-x").is_none());
}

#[test]
fn test_should_skip_package() {
    assert!(should_skip_package("bootstrap-tools"));
    assert!(should_skip_package("setup-hook"));
    assert!(should_skip_package("curl-dev"));
    assert!(!should_skip_package("firefox"));
    assert!(!should_skip_package("neovim"));
}

#[test]
fn test_generation_path() {
    assert_eq!(
        get_generation_path("/nix/var/nix/profiles/system", 3, ProfileType::System),
        "/nix/var/nix/profiles/system-3-link"
    );
    assert_eq!(
        get_generation_path("profiles/home-manager", 9, ProfileType::HomeManager),
        "profiles/home-manager-9-link"
    );
}

#[test]
fn test_parse_path_info_json() {
    let json = "{\"/nix/store/aaaaaaaaaaaaaaaaaaaaaaaaaaaaaaaa-foo-1.0\": {\"narSize\": 123}, \
                 \"/nix/store/bbbbbbbbbbbbbbbbbbbbbbbbbbbbbbbb-foo-1.0\": {\"narSize\": 99}, \
                 \"/nix/store/cccccccccccccccccccccccccccccccc-curl-dev-8.0\": {\"narSize\": 5}}";
    let packages = parse_path_info_json(json).unwrap();
    // duplicates keep the larger entry, hidden names are dropped
    assert_eq!(packages.len(), 1);
    assert_eq!(packages[0].name, "foo");
    assert_eq!(packages[0].version, "1.0");
    assert_eq!(packages[0].size, 123);
}

#[test]
fn test_parse_path_info_json_rejects_bad_text() {
    assert!(parse_path_info_json("not json").is_none());
}

#[test]
fn test_parse_path_info_json_sorted_by_name() {
    let json = "{\"/nix/store/aaaaaaaaaaaaaaaaaaaaaaaaaaaaaaaa-Zeta-1.0\": {\"narSize\": 1}, \
                 \"/nix/store/bbbbbbbbbbbbbbbbbbbbbbbbbbbbbbbb-alpha-1.0\": {\"narSize\": 2}, \
                 \"/nix/store/cccccccccccccccccccccccccccccccc-Beta-1.0\": {\"narSize\": 3}}";
    let packages = parse_path_info_json(json).unwrap();
    let names: Vec<String> = packages.iter().map(|p| p.name.clone()).collect();
    assert_eq!(names, vec!["alpha", "Beta", "Zeta"]);
}

#[test]
fn test_parse_manifest_deduplicates_names() {
    let content = "name = \"user-environment-packages-collection-24.11\";\n\
                   name = \"user-environment-packages-collection-25.05\";\n";
    let packages = parse_manifest(content);
    assert_eq!(packages.len(), 1);
    assert_eq!(packages[0].version, "24.11");
}

#[test]
fn test_count_occurrences() {
    assert_eq!(nixhist::strutil::count_occurrences("name = \"a\"; name = \"b\";", "name = "), 2);
    assert_eq!(nixhist::strutil::count_occurrences("aaaa", "aa"), 2);
    assert_eq!(nixhist::strutil::count_occurrences("abc", ""), 0);
}

#[test]
fn test_parse_manifest() {
    let content = "  name = \"user-environment-packages-collection-24.11\";\n  other = 1;\n";
    let packages = parse_manifest(content);
    assert_eq!(packages.len(), 1);
    assert_eq!(packages[0].name, "user-environment-packages-collection");
    assert_eq!(packages[0].version, "24.11");
    // short names carry no recognisable hash and are dropped
    assert!(parse_manifest("name = \"ripgrep-14.1.0\";\n").is_empty());
}

#[test]
fn test_version_from_store_path() {
    let v = version_from_store_path("/nix/store/abc-nixos-system-myhost-24.11.20240101");
    assert_eq!(v.unwrap(), "24.11.20240101");
    assert!(version_from_store_path("/nix/store/abc-something-else").is_none());
}

#[test]
fn test_kernel_version_from_path() {
    // only a path component that itself starts with the kernel prefix counts
    let v = kernel_version_from_path("/run/booted-system/kernel-modules/linux-6.6.52-modules/x");
    assert_eq!(v.unwrap(), "6.6.52");
    assert!(kernel_version_from_path("/nix/store/xyz-glibc-2.39/lib").is_none());
}

#[test]
fn test_parse_path_info_size() {
    let out = "warning: something\n/nix/store/abc-system 12345678901\n";
    assert_eq!(parse_path_info_size(out), 12345678901);
    assert_eq!(parse_path_info_size("no sizes here"), 0);
}

#[test]
fn test_sort_generations_desc() {
    let mk = |id: u32| Generation {
        id,
        date: Timestamp { year: 2024, month: 1, day: 1, hour: 0, minute: 0, second: 0 },
        is_current: false,
        nixos_version: None,
        kernel_version: None,
        package_count: 0,
        closure_size: 0,
        store_path: String::new(),
        is_pinned: false,
        in_bootloader: false,
    };
    let sorted = sort_generations_desc(vec![mk(3), mk(10), mk(1), mk(7)]);
    let ids: Vec<u32> = sorted.iter().map(|g| g.id).collect();
    assert_eq!(ids, vec![10, 7, 3, 1]);
}
