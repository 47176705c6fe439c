use cargo_bitbake::assemble::{directive_block, generate_recipe, license_tokens, recipe_file_name};
use cargo_bitbake::license::{license_file, license_file_target, LicenseProbe};
use cargo_bitbake::model::{GitReference, ResolvedPackage, RootPackage, SourceDescriptor};
use cargo_bitbake::translate::{check_translatable, translate};

fn registry_pkg(name: &str, version: &str) -> ResolvedPackage {
    ResolvedPackage {
        name: name.to_string(),
        version: version.to_string(),
        source: SourceDescriptor::Registry { host: "crates.io".to_string() },
    }
}

fn local_pkg(name: &str, version: &str) -> ResolvedPackage {
    ResolvedPackage {
        name: name.to_string(),
        version: version.to_string(),
        source: SourceDescriptor::LocalPath,
    }
}

fn git_pkg(name: &str, version: &str, url: &str, reference: GitReference) -> ResolvedPackage {
    ResolvedPackage {
        name: name.to_string(),
        version: version.to_string(),
        source: SourceDescriptor::VersionControl { url: url.to_string(), reference },
    }
}

fn simple_root(name: &str, version: &str, license: Option<&str>) -> RootPackage {
    RootPackage {
        name: name.to_string(),
        version: version.to_string(),
        description: None,
        homepage: None,
        repository: None,
        license: license.map(|s| s.to_string()),
        license_file: None,
    }
}

fn absent_probe() -> LicenseProbe {
    LicenseProbe { plain_exists: false, special_exists: false, bytes: None }
}

#[test]
fn root_package_is_never_emitted() {
    let resolved = vec![local_pkg("foo", "1.0"), registry_pkg("bar", "2.0")];
    assert!(check_translatable(&resolved));
    let block = directive_block("foo", &resolved);
    assert_eq!(block.len(), 1);
    assert_eq!(block[0], "crate://crates.io/bar/2.0 \\\n");
}

#[test]
fn root_package_with_registry_source_is_still_excluded() {
    let resolved = vec![registry_pkg("foo", "1.0"), registry_pkg("bar", "2.0")];
    let block = directive_block("foo", &resolved);
    assert_eq!(block.len(), 1);
    assert_eq!(block[0], "crate://crates.io/bar/2.0 \\\n");
}

#[test]
fn local_path_dependencies_are_never_emitted() {
    let resolved = vec![local_pkg("inner", "0.1"), registry_pkg("bar", "2.0")];
    let block = directive_block("foo", &resolved);
    assert_eq!(block.len(), 1);
    assert_eq!(block[0], "crate://crates.io/bar/2.0 \\\n");
}

#[test]
fn directive_block_is_sorted_and_stable_under_permutation() {
    let a = vec![
        registry_pkg("zeta", "1.0"),
        registry_pkg("alpha", "2.0"),
        git_pkg("y", "0.3", "https://github.com/x/y.git", GitReference::Branch("master".to_string())),
    ];
    let b = vec![
        git_pkg("y", "0.3", "https://github.com/x/y.git", GitReference::Branch("master".to_string())),
        registry_pkg("alpha", "2.0"),
        registry_pkg("zeta", "1.0"),
    ];
    let block_a = directive_block("root", &a);
    let block_b = directive_block("root", &b);
    assert_eq!(block_a, block_b);
    let mut sorted = block_a.clone();
    sorted.sort();
    assert_eq!(block_a, sorted);
}

#[test]
fn https_master_branch_rewrites_url_and_uses_autorev() {
    let pkg = git_pkg(
        "y",
        "0.3",
        "https://github.com/x/y.git",
        GitReference::Branch("master".to_string()),
    );
    let (directive, aux) = translate(&pkg, "root").unwrap();
    assert_eq!(directive, "git://github.com/x/y.git;protocol=https;name=y;destsuffix=y");
    assert_eq!(aux.len(), 3);
    assert_eq!(aux[0], "SRCREV_FORMAT .= \"_y\"");
    assert_eq!(aux[1], "SRCREV_y = \"${{AUTOREV}}\"");
    assert_eq!(aux[2], "EXTRA_OECARGO_PATHS += \"${WORKDIR}/y\"");
}

#[test]
fn non_master_branch_pins_the_literal_branch() {
    let pkg = git_pkg(
        "y",
        "0.3",
        "https://github.com/x/y.git",
        GitReference::Branch("dev".to_string()),
    );
    let (_, aux) = translate(&pkg, "root").unwrap();
    assert_eq!(aux[1], "SRCREV_y = \"dev\"");
}

#[test]
fn tag_and_revision_pin_their_literal_values() {
    let tagged = git_pkg("t", "0.1", "https://example.com/t.git", GitReference::Tag("v1.2".to_string()));
    let (_, aux) = translate(&tagged, "root").unwrap();
    assert_eq!(aux[1], "SRCREV_t = \"v1.2\"");

    let pinned = git_pkg(
        "r",
        "0.1",
        "https://example.com/r.git",
        GitReference::Revision("abcdef012345".to_string()),
    );
    let (_, aux) = translate(&pinned, "root").unwrap();
    assert_eq!(aux[1], "SRCREV_r = \"abcdef012345\"");
}

#[test]
fn ssh_scheme_is_rewritten_with_protocol_parameter() {
    let pkg = git_pkg("w", "0.1", "ssh://git@example.com/w.git", GitReference::Tag("v1".to_string()));
    let (directive, _) = translate(&pkg, "root").unwrap();
    assert_eq!(directive, "git://git@example.com/w.git;protocol=ssh;name=w;destsuffix=w");
}

#[test]
fn other_schemes_pass_through_unchanged() {
    let pkg = git_pkg("g", "0.1", "git://example.com/g.git", GitReference::Tag("v1".to_string()));
    let (directive, _) = translate(&pkg, "root").unwrap();
    assert_eq!(directive, "git://example.com/g.git;name=g;destsuffix=g");
}

#[test]
fn generic_urls_are_emitted_as_is_with_continuation() {
    let pkg = ResolvedPackage {
        name: "blob".to_string(),
        version: "0.1".to_string(),
        source: SourceDescriptor::Generic { url: "ftp://example.com/blob.tar.gz".to_string() },
    };
    let (directive, aux) = translate(&pkg, "root").unwrap();
    assert_eq!(directive, "ftp://example.com/blob.tar.gz \\\n");
    assert!(aux.is_empty());
}

#[test]
fn license_tokens_split_on_slash_and_default_to_unknown() {
    let root = simple_root("foo", "1.0", Some("MIT/Apache-2.0"));
    let tokens = license_tokens(&root);
    assert_eq!(tokens, vec!["MIT".to_string(), "Apache-2.0".to_string()]);

    let bare = simple_root("foo", "1.0", None);
    assert_eq!(license_tokens(&bare), vec!["unknown".to_string()]);
}

#[test]
fn license_file_target_prefers_the_plain_name() {
    assert_eq!(license_file_target("MIT", true, true), Some("MIT".to_string()));
    assert_eq!(license_file_target("MIT", false, true), Some("LICENSE-MIT".to_string()));
    assert_eq!(license_file_target("MIT", false, false), None);
}

#[test]
fn license_entry_uses_the_real_checksum_when_readable() {
    let probe = LicenseProbe { plain_exists: true, special_exists: false, bytes: Some(Vec::new()) };
    let entry = license_file("MIT", &probe);
    assert_eq!(entry, "file://MIT;md5=d41d8cd98f00b204e9800998ecf8427e \\\n");
}

#[test]
fn missing_license_file_yields_the_placeholder_not_a_failure() {
    let entry = license_file("NoSuchLicense", &absent_probe());
    assert_eq!(entry, "file://NoSuchLicense;md5=generateme \\\n");
}

#[test]
fn unreadable_license_file_yields_the_placeholder() {
    let probe = LicenseProbe { plain_exists: true, special_exists: false, bytes: None };
    let entry = license_file("MIT", &probe);
    assert_eq!(entry, "file://MIT;md5=generateme \\\n");
}

#[test]
fn dual_license_resolves_both_files_and_builds_an_or_expression() {
    let root = simple_root("foo", "1.0", Some("MIT/Apache-2.0"));
    let resolved = vec![registry_pkg("bar", "2.0")];
    let mit_bytes = b"mit license text".to_vec();
    let apache_bytes = b"apache license text".to_vec();
    let probes = vec![
        LicenseProbe { plain_exists: true, special_exists: false, bytes: Some(mit_bytes.clone()) },
        LicenseProbe {
            plain_exists: false,
            special_exists: true,
            bytes: Some(apache_bytes.clone()),
        },
    ];
    let out = generate_recipe(&root, &resolved, &probes, "0.1.0");
    assert!(out.contains("LICENSE = \"MIT | Apache-2.0\""));
    let mit_md5 = format!("{:x}", md5::compute(&mit_bytes));
    let apache_md5 = format!("{:x}", md5::compute(&apache_bytes));
    assert!(out.contains(&format!("file://MIT;md5={}", mit_md5)));
    assert!(out.contains(&format!("file://LICENSE-Apache-2.0;md5={}", apache_md5)));
}

#[test]
fn license_expression_trims_its_tokens() {
    let root = simple_root("foo", "1.0", Some(" MIT / Apache-2.0 "));
    let resolved: Vec<ResolvedPackage> = Vec::new();
    let probes = vec![absent_probe(), absent_probe()];
    let out = generate_recipe(&root, &resolved, &probes, "0.1.0");
    assert!(out.contains("LICENSE = \"MIT | Apache-2.0\""));
}

#[test]
fn summary_and_homepage_fall_back_in_order() {
    let mut root = simple_root("foo", "1.0", Some("MIT"));
    root.repository = Some("https://example.com/foo.git".to_string());
    let resolved: Vec<ResolvedPackage> = Vec::new();
    let probes = vec![absent_probe()];
    let out = generate_recipe(&root, &resolved, &probes, "0.1.0");
    assert!(out.contains("SUMMARY = \"foo\""));
    assert!(out.contains("HOMEPAGE = \"https://example.com/foo.git\""));

    root.description = Some("a thing".to_string());
    root.homepage = Some("https://foo.example.com".to_string());
    let out = generate_recipe(&root, &resolved, &probes, "0.1.0");
    assert!(out.contains("SUMMARY = \"a thing\""));
    assert!(out.contains("HOMEPAGE = \"https://foo.example.com\""));
}

#[test]
fn generation_twice_is_byte_identical() {
    let root = simple_root("foo", "1.0", Some("MIT/Apache-2.0"));
    let resolved = vec![
        registry_pkg("zeta", "1.0"),
        git_pkg("y", "0.3", "https://github.com/x/y.git", GitReference::Branch("master".to_string())),
        registry_pkg("alpha", "2.0"),
        local_pkg("inner", "0.0.1"),
    ];
    let probes = vec![absent_probe(), absent_probe()];
    let first = generate_recipe(&root, &resolved, &probes, "0.1.0");
    let second = generate_recipe(&root, &resolved, &probes, "0.1.0");
    assert_eq!(first, second);
}

#[test]
fn whole_document_has_the_sorted_directive_block() {
    let root = simple_root("foo", "1.0", Some("MIT"));
    let resolved = vec![registry_pkg("zeta", "1.0"), registry_pkg("alpha", "2.0")];
    let probes = vec![absent_probe()];
    let out = generate_recipe(&root, &resolved, &probes, "0.1.0");
    assert!(out.contains(
        "SRC_URI = \"crate://crates.io/alpha/2.0 \\\ncrate://crates.io/zeta/1.0 \\\n\""
    ));
    assert!(out.contains("# generated by cargo-bitbake 0.1.0"));
}

#[test]
fn recipe_file_name_joins_name_and_version() {
    let root = simple_root("foo", "1.2.3", Some("MIT"));
    assert_eq!(recipe_file_name(&root), "foo_1.2.3.bb");
}

#[test]
fn version_control_url_without_a_scheme_is_refused_by_the_checker() {
    let resolved = vec![git_pkg("odd", "0.1", "no-scheme-here", GitReference::Tag("v1".to_string()))];
    assert!(!check_translatable(&resolved));
    let fine = vec![registry_pkg("bar", "2.0")];
    assert!(check_translatable(&fine));
}
