//! The commands of the program.
use indexmap::IndexMap;

use sonata::commands::add::{
    add_requirements, eligible_packages, is_restored, no_match, parse_package_spec,
    recommended_constraint, remove_requirements, restore_project_file,
    select_recommended_package, update_after_add,
    wanted_package, AddArgs, Restoration,
};
use sonata::commands::audit::{
    abandoned_packages, advisory_entries, audited_packages, conclude, exit_code, is_fresh,
    map_or_empty_array, matching_advisories, output_json, output_plain, output_summary,
    output_table, severity, Advisories, AdvisorySource, Line, SecurityAdvisory, Severity,
};
use sonata::commands::check_platform_reqs::{
    candidates_for, collect_candidates, collect_requirements, evaluate, output_text, Candidate,
    CandidateConstraint, PackageMetadata, PlatformResult, Requirement, Status, Target, Verdict,
};
use sonata::commands::check_platform_reqs::{
    installed_dev_names_in, installed_dev_package_names, locked_metadata,
};
use sonata::commands::command::Commands;
use sonata::commands::install::{audit_args, audit_follows, RunArgs, UpdateArgs};
use sonata::commands::outdated::{show_args, OutdatedArgs};
use sonata::commands::status::{
    self, archive_source, archive_type, cache_archive_path, current_version, git_version_change,
    install_path, note, origin, place_to_look, remote_branches, report, shortest_changes, source_query,
    tree_changes, ArchiveSource, Findings, InstalledPackage, Origin, PackageDist, PackageSource,
    SnapshotEntry,
};
use sonata::commands::validate::{
    dependency_manifests, dependency_name, lock_is_checked, missing_requirement_info,
    output_result, resolve_manifest_path, validate_lock, Demands, ManifestValidation, ValidateArgs,
};
use sonata::commands::why::{answer, early, needles, obstacle, Dependent, WhyArgs};
use sonata::downloader::ArchiveType;
use sonata::http::Duration;
use sonata::json::{same, Json};
use sonata::lock::{ComposerLock, LockedPackage};
use sonata::names::NameSet;
use sonata::package::Package;
use sonata::paths::{lexical_join, lock_path_for, normalize_path};
use sonata::schema::ComposerJson;

fn text(s: &str) -> Json {
    Json::Text(s.to_string())
}

fn locked(name: &str, version: &str) -> LockedPackage {
    LockedPackage {
        name: name.to_string(),
        version: version.to_string(),
        ..Default::default()
    }
}

fn links(entries: &[(&str, &str)]) -> IndexMap<String, String> {
    entries.iter().map(|(k, v)| (k.to_string(), v.to_string())).collect()
}

// add and remove

#[test]
fn parses_optional_constraint() {
    assert_eq!(
        parse_package_spec("vendor/package:^1.2"),
        ("vendor/package".to_string(), Some("^1.2".to_string()))
    );
    assert_eq!(
        parse_package_spec("vendor/package"),
        ("vendor/package".to_string(), None)
    );
}

#[test]
fn empty_names_and_constraints_are_refused() {
    assert_eq!(wanted_package(":^1").unwrap_err().message, "Package name cannot be empty");
    assert_eq!(
        wanted_package("a/b:").unwrap_err().message,
        "Version constraint for a/b cannot be empty"
    );
    assert_eq!(wanted_package("a/b").unwrap(), ("a/b".to_string(), None));
    assert_eq!(no_match("a/b"), "Could not find a matching version of package a/b");
}

#[test]
fn recommends_composer_style_constraints() {
    let package = Package::new("vendor/package", "3.1.2.0");
    assert_eq!(recommended_constraint(&package, "3.1.2.0", None), "^3.1");

    let package = Package::new("vendor/package", "0.1.3.0");
    assert_eq!(recommended_constraint(&package, "0.1.3.0", None), "^0.1.3");

    let mut package = Package::new("vendor/package", "dev-main");
    package.pretty_version = Some("dev-main".to_string());
    assert_eq!(recommended_constraint(&package, "dev-main", Some("dev")), "dev-main");
}

#[test]
fn unstable_versions_keep_their_stability() {
    let package = Package::new("vendor/package", "2.0.0.0-beta1");
    assert_eq!(recommended_constraint(&package, "2.0.0.0-beta1", Some("beta")), "^2.0@beta");
}

#[test]
fn the_best_stability_is_eligible() {
    assert_eq!(eligible_packages(&vec![3, 1, 2, 1]), vec![1, 3]);
    assert!(eligible_packages(&vec![]).is_empty());
}

#[test]
fn requirements_are_added_and_removed() {
    let mut require = links(&[("a/a", "^1")]);
    let mut dev = links(&[("d/d", "^1")]);
    let added = vec![("b/b".to_string(), "^2".to_string()), ("a/a".to_string(), "^3".to_string())];
    add_requirements(&mut require, &mut dev, &added, false);
    assert_eq!(require, links(&[("a/a", "^3"), ("b/b", "^2")]));
    assert_eq!(dev.len(), 1);

    let names = vec!["a/a".to_string(), "x/x".to_string(), "d/d".to_string()];
    let were_there = remove_requirements(&mut require, &mut dev, &names, false);
    assert_eq!(were_there, vec![true, false, true]);
    assert_eq!(require, links(&[("b/b", "^2")]));
    assert!(dev.is_empty());

    let names = vec!["b/b".to_string()];
    assert_eq!(remove_requirements(&mut require, &mut dev, &names, true), vec![false]);
    assert_eq!(require.len(), 1);
}

#[test]
fn what_was_written_is_taken_back_after_a_failure() {
    assert!(is_restored(false, Some(1)));
    assert!(is_restored(false, None));
    assert!(!is_restored(false, Some(0)));
    assert!(!is_restored(true, Some(1)));
}

#[test]
fn added_packages_are_the_ones_to_update() {
    let args = AddArgs {
        packages: vec!["a/a".to_string()],
        dev: false,
        prefer_source: false,
        prefer_dist: false,
        dry_run: false,
        no_autoloader: true,
        no_scripts: false,
        no_plugins: false,
        no_update: false,
        optimize_autoloader: true,
        working_dir: ".".to_string(),
    };
    let options = update_after_add(&args, vec!["a/a".to_string()]);
    assert_eq!(options.update_packages, Some(vec!["a/a".to_string()]));
    assert!(options.optimize_autoloader && options.no_autoloader && !options.no_scripts);
}

// audit

fn advisory(package: &str, affected: &str) -> SecurityAdvisory {
    SecurityAdvisory {
        advisory_id: "PKSA-1".to_string(),
        package_name: package.to_string(),
        title: "Trouble".to_string(),
        cve: None,
        link: Some("https://example.org".to_string()),
        severity: Some("high".to_string()),
        affected_versions: affected.to_string(),
        reported_at: "2024-01-01".to_string(),
        sources: vec![AdvisorySource { name: "GitHub".to_string(), remote_id: "1".to_string() }],
    }
}

#[test]
fn accepts_empty_advisory_array_from_packagist() {
    assert!(advisory_entries(&Json::Array(vec![])).unwrap().is_empty());
}

#[test]
fn advisories_are_an_object_or_an_empty_array() {
    let refused = advisory_entries(&Json::Array(vec![Json::Null]));
    assert_eq!(
        refused.unwrap_err().message,
        "advisories must be an object or an empty array"
    );
    assert!(advisory_entries(&Json::Null).is_err());
    let object = Json::Object(vec![("a/b".to_string(), Json::Array(vec![]))]);
    assert_eq!(advisory_entries(&object).unwrap()[0].0, "a/b");
}

#[test]
fn serializes_empty_audit_maps_as_arrays() {
    assert!(same(&map_or_empty_array(vec![]), &Json::Array(vec![])));
}

#[test]
fn an_audit_tells_what_affects_the_packages() {
    let mut lock = ComposerLock::default();
    lock.packages.push(locked("a/a", "1.0"));
    lock.packages.push(locked("b/b", "2.0"));
    lock.packages_dev.push(locked("d/d", "1.0"));
    lock.packages[1].abandoned = text("c/c");

    let installed = NameSet::from_names(&["a/a".to_string(), "b/b".to_string()]);
    assert_eq!(audited_packages(&lock, false, None).len(), 3);
    assert_eq!(audited_packages(&lock, true, None).len(), 2);
    let packages = audited_packages(&lock, false, Some(&installed));
    assert_eq!(packages.len(), 2);

    let known = Advisories {
        entries: vec![
            ("a/a".to_string(), vec![advisory("a/a", "<2"), advisory("a/a", "<1")]),
            ("x/x".to_string(), vec![advisory("x/x", "*")]),
        ],
    };
    let affected = vec![Some(vec![true, false]), Some(vec![true])];
    let findings = matching_advisories(&known, &packages, &affected);
    assert_eq!(findings.len(), 1);
    assert_eq!(findings[0].package, "a/a");
    assert_eq!(findings[0].advisories.len(), 1);

    let abandoned = abandoned_packages(&packages, &None);
    assert_eq!(abandoned.len(), 1);
    assert!(abandoned_packages(&packages, &Some("ignore".to_string())).is_empty());

    let conclusion = conclude(&packages, &known, &affected, &None);
    assert_eq!((conclusion.findings.len(), conclusion.abandoned.len(), conclusion.code), (1, 1, 3));
    assert_eq!(exit_code(1, 1, &None), 3);
    assert_eq!(exit_code(1, 0, &None), 1);
    assert_eq!(exit_code(0, 1, &None), 2);
    assert_eq!(exit_code(0, 1, &Some("report".to_string())), 0);

    assert_eq!(
        output_plain(&findings, &abandoned),
        "Found 1 security vulnerability advisory affecting 1 package:\n\
         Package: a/a\nSeverity: high\nAdvisory ID: PKSA-1\nCVE: NO CVE\nTitle: Trouble\n\
         URL: https://example.org\nAffected versions: <2\nReported at: 2024-01-01\n\
         Found 1 abandoned package:\nb/b is abandoned. Use c/c instead\n"
    );
    assert_eq!(
        output_summary(&findings),
        "Found 1 security vulnerability advisory affecting 1 package.\n\
         Run \"sonata audit\" for a full list of advisories.\n"
    );
    let table = output_table(&findings, &abandoned);
    assert_eq!(table.len(), 15);
    assert!(matches!(&table[4], Line::Severity(Severity::High)));
    let report: serde_json::Value =
        serde_json::from_str(&output_json(&findings, &abandoned)).unwrap();
    assert_eq!(report["advisories"]["a/a"][0]["sources"][0]["remoteId"], "1");
    assert_eq!(report["abandoned"]["b/b"], "c/c");
    assert_eq!(report["filter"], serde_json::Value::Array(vec![]));
}

#[test]
fn an_audit_without_findings_is_calm() {
    assert_eq!(
        output_plain(&vec![], &vec![]),
        "No security vulnerability advisories found.\n"
    );
    let report: serde_json::Value = serde_json::from_str(&output_json(&vec![], &vec![])).unwrap();
    assert!(report["advisories"].is_array());
    assert_eq!(severity(&None), Severity::Unknown);
    assert!(is_fresh(Some(Duration::from_secs(599))));
    assert!(!is_fresh(Some(Duration::from_secs(600))));
    assert!(!is_fresh(None));
}

// check-platform-reqs

fn requirement(constraint: &str) -> Requirement {
    Requirement {
        source: "__root__".to_string(),
        kind: "requires".to_string(),
        target: "ext-example".to_string(),
        constraint: constraint.to_string(),
    }
}

fn example(candidate: Candidate, constraint: &str, verdict: Verdict) -> Target {
    Target {
        name: "ext-example".to_string(),
        requirements: vec![requirement(constraint)],
        candidates: vec![candidate],
        verdicts: vec![vec![verdict]],
    }
}

fn version(v: &str) -> Candidate {
    Candidate {
        package_name: "ext-example".to_string(),
        constraint: CandidateConstraint::Version(v.to_string()),
    }
}

#[test]
fn reports_successful_version_candidate() {
    let (results, exit_code) =
        evaluate(&vec![example(version("8.5.9"), "^8.5", Verdict::Met)]).unwrap();
    assert_eq!(exit_code, 0);
    assert_eq!(results[0].status, Status::Success);
}

#[test]
fn distinguishes_failed_and_missing_requirements() {
    let missing = Target {
        name: "ext-missing".to_string(),
        requirements: vec![Requirement { target: "ext-missing".to_string(), ..requirement("*") }],
        candidates: vec![],
        verdicts: vec![],
    };
    let targets = vec![example(version("8.5.9"), "^7.0", Verdict::Unmet), missing];
    let (results, exit_code) = evaluate(&targets).unwrap();
    assert_eq!(exit_code, 2);
    assert!(results.iter().any(|result| result.status == Status::Failed));
    assert!(results.iter().any(|result| result.status == Status::Missing));
}

#[test]
fn accepts_intersecting_provider_constraint() {
    let polyfill = Candidate {
        package_name: "vendor/polyfill".to_string(),
        constraint: CandidateConstraint::Provided("^2.1".to_string()),
    };
    let (results, exit_code) = evaluate(&vec![example(polyfill, "^2.0", Verdict::Met)]).unwrap();
    assert_eq!(exit_code, 0);
    assert_eq!(
        results[0].provider.as_deref(),
        Some("provided by vendor/polyfill")
    );
}

#[test]
fn constraints_that_cannot_be_read_end_the_check() {
    let invalid = Verdict::Invalid("Invalid platform constraint \"x\"".to_string());
    let refused = evaluate(&vec![example(version("8.5.9"), "x", invalid)]);
    assert_eq!(refused.unwrap_err(), "Invalid platform constraint \"x\"");
}

#[test]
fn requirements_meet_what_is_there() {
    let mut composer = ComposerJson::default();
    composer.require = links(&[("PHP", ">=8.0"), ("a/a", "^1")]);
    composer.require_dev = links(&[("ext-xdebug", "*")]);
    composer.provide = links(&[("ext-zip", "self.version")]);
    let mut lock = ComposerLock::default();
    let mut package = locked("a/a", "1.0");
    package.require = links(&[("php", "^8.1"), ("ext-json", "*")]);
    lock.packages.push(package);

    let packages: Vec<PackageMetadata> = locked_metadata(&lock, true);
    let groups = collect_requirements(&composer, &packages, true);
    let names: Vec<&str> = groups.iter().map(|g| g.0.as_str()).collect();
    assert_eq!(names, ["ext-json", "php"]);
    assert_eq!(groups[1].1.len(), 2);
    assert_eq!(groups[1].1[1].source, "a/a");
    assert_eq!(collect_requirements(&composer, &packages, false).len(), 3);

    let platform = vec![Package::new("php", "8.3.1.0")];
    let candidates = collect_candidates(&composer, &packages, &platform);
    assert_eq!(candidates_for(&candidates, "php")[0].displayed_version(), "8.3.1.0");
    assert_eq!(candidates_for(&candidates, "ext-zip")[0].displayed_version(), "=dev-main");
    assert!(candidates_for(&candidates, "ext-json").is_empty());
}

#[test]
fn development_packages_are_named_by_the_list_or_the_lock() {
    let mut lock = ComposerLock::default();
    lock.packages_dev.push(locked("D/D", "1.0"));
    let by_lock = installed_dev_package_names(None, Some(&lock));
    assert!(by_lock.contains("d/d"));
    let list = Json::Object(vec![(
        "dev-package-names".to_string(),
        Json::Array(vec![text("E/E")]),
    )]);
    let by_list = installed_dev_package_names(Some(&list), Some(&lock));
    assert!(by_list.contains("e/e"));
    assert!(!by_list.contains("d/d"));
}

#[test]
fn results_stand_in_columns() {
    let results = vec![PlatformResult {
        name: "php".to_string(),
        version: "8.3".to_string(),
        status: Status::Failed,
        failed_requirement: Some(requirement("^9")),
        provider: None,
    }];
    assert_eq!(
        output_text(&results),
        "php 8.3 __root__ requires ext-example (^9)               failed\n"
    );
}

// validate

#[test]
fn lock_path_matches_composer_naming() {
    assert_eq!(lock_path_for("custom.json"), "custom.lock");
    assert_eq!(lock_path_for("custom"), "custom.lock");
}

#[test]
fn joins_installed_paths_without_filesystem_canonicalization() {
    assert_eq!(
        lexical_join("/project/vendor/composer", "../vendor/package"),
        "/project/vendor/vendor/package"
    );
    assert_eq!(lexical_join("/project", "/elsewhere"), "/elsewhere");
    assert_eq!(lexical_join("/", "../a"), "/a");
}

#[test]
fn reports_missing_and_mismatched_locked_requirements() {
    let mut composer = ComposerJson::default();
    composer.require = links(&[("vendor/missing", "^1"), ("vendor/wrong", "^2")]);
    let mut lock = ComposerLock::default();
    lock.packages.push(locked("vendor/wrong", "1.0.0"));

    let answers = vec![Some(vec![]), Some(vec![false])];
    let errors = missing_requirement_info(&composer, &lock, &answers, &vec![]);
    assert!(errors
        .iter()
        .any(|error| error.contains("vendor/missing") && error.contains("not present")));
    assert!(errors
        .iter()
        .any(|error| error.contains("vendor/wrong") && error.contains("does not satisfy")));
    assert_eq!(errors.len(), 5);
}

#[test]
fn accepts_locked_provider() {
    let mut composer = ComposerJson::default();
    composer.require = links(&[("virtual/package", "^2")]);
    let mut lock = ComposerLock::default();
    let mut provider = locked("vendor/provider", "1.0.0");
    provider.provide = links(&[("virtual/package", "^2.1")]);
    lock.packages.push(provider);

    let answers = vec![Some(vec![true])];
    assert!(missing_requirement_info(&composer, &lock, &answers, &vec![]).is_empty());
}

#[test]
fn a_stale_lock_is_told() {
    let composer = ComposerJson::default();
    let mut lock = ComposerLock::default();
    lock.content_hash = "old".to_string();
    assert_eq!(validate_lock(&composer, &lock, "new", &vec![], &vec![]).len(), 1);
    assert!(validate_lock(&composer, &lock, "old", &vec![], &vec![]).is_empty());
}

fn demands(strict: bool) -> Demands {
    Demands { check_publish: true, check_lock: true, strict, print_schema_url: false }
}

#[test]
fn the_verdict_decides_on_the_exit_code() {
    let fine = ManifestValidation::default();
    let report = output_result("a.json", &fine, &vec![], &demands(true));
    assert_eq!((report.out.as_str(), report.err.as_str(), report.code), ("a.json is valid\n", "", 0));

    let warned = ManifestValidation {
        warnings: vec!["no license".to_string()],
        ..Default::default()
    };
    let report = output_result("a.json", &warned, &vec![], &demands(false));
    assert_eq!(report.code, 0);
    assert_eq!(
        report.err,
        "a.json is valid, but with a few warnings\n# General warnings\n- no license\n"
    );
    assert_eq!(output_result("a.json", &warned, &vec![], &demands(true)).code, 1);

    let broken = ManifestValidation { errors: vec!["name".to_string()], ..Default::default() };
    let report = output_result("a.json", &broken, &vec![], &demands(false));
    assert_eq!(report.code, 2);
    assert_eq!(
        report.err,
        "a.json is invalid, the following errors/warnings were found:\n# General errors\n- name\n"
    );
    let report = output_result("a.json", &fine, &vec!["- stale".to_string()], &demands(false));
    assert_eq!(report.code, 2);
    assert_eq!(report.out, "a.json is valid but your composer.lock has some errors\n");
    assert_eq!(report.err, "# Lock file errors\n- stale\n");
}

#[test]
fn manifests_are_found_and_named() {
    assert_eq!(
        resolve_manifest_path("/p", None),
        ("/p/composer.json".to_string(), "./composer.json".to_string())
    );
    assert_eq!(
        resolve_manifest_path("/p", Some("/q/c.json")),
        ("/q/c.json".to_string(), "/q/c.json".to_string())
    );
    let installed = Json::Object(vec![(
        "packages".to_string(),
        Json::Array(vec![Json::Object(vec![(
            "install-path".to_string(),
            text("../a/b"),
        )])]),
    )]);
    assert_eq!(
        dependency_manifests(&installed, "/p/vendor"),
        vec!["/p/vendor/a/b/composer.json"]
    );
    assert_eq!(dependency_name(None, "/x/composer.json"), "/x/composer.json");
    let named = Json::Object(vec![("name".to_string(), text("a/b"))]);
    assert_eq!(dependency_name(Some(&named), "/x/composer.json"), "a/b");
}

#[test]
fn the_lock_is_checked_where_it_is_enabled_or_asked_for() {
    let mut args = ValidateArgs {
        no_check_all: false,
        check_lock: false,
        no_check_lock: false,
        no_check_publish: false,
        no_check_version: false,
        with_dependencies: false,
        strict: false,
        file: None,
        working_dir: ".".to_string(),
    };
    assert!(lock_is_checked(&args, true));
    assert!(!lock_is_checked(&args, false));
    args.no_check_lock = true;
    assert!(!lock_is_checked(&args, true));
    args.check_lock = true;
    assert!(lock_is_checked(&args, false));
}

// status

fn installed_package() -> InstalledPackage {
    InstalledPackage {
        name: "a/b".to_string(),
        version: "1.0".to_string(),
        version_normalized: String::new(),
        package_type: "library".to_string(),
        installation_source: None,
        source: None,
        dist: None,
        install_path: Some("../a/b".to_string()),
    }
}

#[test]
fn normalizes_composer_relative_install_paths() {
    assert_eq!(
        normalize_path("/project/vendor/composer/../vendor/pkg"),
        "/project/vendor/vendor/pkg"
    );
    assert_eq!(normalize_path("/../a/./b"), "/a/b");
    assert_eq!(
        install_path("/p/vendor/composer", &installed_package()).unwrap(),
        "/p/vendor/a/b"
    );
}

#[test]
fn the_origin_is_noted_or_guessed() {
    let mut package = installed_package();
    assert_eq!(origin(&package), Origin::Other);
    package.source = Some(PackageSource {
        source_type: "git".to_string(),
        reference: "abc".to_string(),
    });
    assert_eq!(origin(&package), Origin::Source);
    package.dist = Some(PackageDist {
        dist_type: "zip".to_string(),
        url: "https://example.org/a.zip".to_string(),
        reference: None,
        shasum: String::new(),
    });
    assert_eq!(origin(&package), Origin::Dist);
    assert_eq!(
        cache_archive_path("/cache", &package, "zip"),
        "/cache/files/a/b/a-b-1.0.zip"
    );
    let dist = package.dist.as_mut().unwrap();
    assert_eq!(archive_source(true, dist), ArchiveSource::Kept);
    assert_eq!(archive_source(false, dist), ArchiveSource::Download);
    dist.shasum = "sum".to_string();
    assert_eq!(archive_source(false, dist), ArchiveSource::Verified);
    dist.url = "file:///tmp/a.zip".to_string();
    assert_eq!(archive_source(false, dist), ArchiveSource::File);
    dist.url = "a.zip".to_string();
    assert_eq!(archive_source(false, dist), ArchiveSource::Nowhere);
}

#[test]
fn programs_are_asked_for_changes() {
    assert_eq!(source_query("hg").unwrap(), (".hg", vec!["st"]));
    assert!(source_query("cvs").is_none());
    assert_eq!(status::source_local_changes(" M a\n"), Some("M a".to_string()));
    assert_eq!(status::source_local_changes("\n"), None);
    assert_eq!(archive_type("TGZ"), Some(ArchiveType::TarGz));
    assert_eq!(archive_type("rar"), None);
}

#[test]
fn trees_are_compared_path_by_path() {
    let file = |path: &str, digest: u64| (path.to_string(), SnapshotEntry::File(digest));
    let baseline = vec![file("changed", 1), file("gone", 2), file("same", 3)];
    let installed = vec![file("added", 9), file("changed", 8), file("same", 3)];
    assert_eq!(
        tree_changes(&baseline, &installed),
        Some("./changed\n./gone\n./added".to_string())
    );
    assert_eq!(tree_changes(&baseline, &vec![file("gone", 2), file("same", 3), file("changed", 1)]), None);
    let link = vec![("l".to_string(), SnapshotEntry::Symlink("a//b".to_string()))];
    let other = vec![("l".to_string(), SnapshotEntry::Symlink("a/b".to_string()))];
    assert_eq!(tree_changes(&link, &other), None);
}

#[test]
fn unpushed_changes_are_the_shortest() {
    assert_eq!(
        remote_branches("origin/main\r\nfork/main\nfork/domain\n", "main"),
        vec!["origin/main", "fork/main"]
    );
    let outputs = vec!["M\tlong-name\n".to_string(), "\n".to_string(), "M\ta\n".to_string()];
    assert_eq!(shortest_changes(&outputs), Some("Ma".to_string()));
    assert_eq!(
        status::unpushed_branch("main"),
        "Branch main could not be found on any remote and appears to be unpushed"
    );
}

#[test]
fn other_versions_are_told() {
    let mut package = installed_package();
    package.installation_source = Some("source".to_string());
    package.source = Some(PackageSource {
        source_type: "git".to_string(),
        reference: "abc".to_string(),
    });
    assert!(git_version_change(&package, "abc\n", "").is_none());
    let change = git_version_change(&package, "def\n", "dev-main").unwrap();
    assert_eq!(change.previous_ref, "abc");
    assert_eq!(change.current_ref, "def");
    let some = |s: &str| Some(s.to_string());
    assert_eq!(current_version(&some("1.1\n"), &some("main"), &None), "1.1");
    assert_eq!(current_version(&some("\n"), &some("main\n"), &None), "dev-main");
    let refs = some("refs/remotes/origin/HEAD\nrefs/remotes/origin/fix/it\n");
    assert_eq!(current_version(&None, &None, &refs), "dev-fix/it");
    assert_eq!(current_version(&None, &None, &None), "");
}

#[test]
fn the_status_tells_what_was_found() {
    let mut findings = Findings::new();
    assert_eq!(status::exit_code(&findings), 0);
    let lines = report(&findings, 0);
    assert!(matches!(&lines[0], status::Line::Stderr(t) if t == "No local changes"));

    let link = note("/v/b", true, &Ok(None));
    assert_eq!(link, Some("/v/b is a symbolic link.".to_string()));
    findings.record("/v/b", link, None, None);
    findings.record("/v/a", note("/v/a", false, &Err("no".to_string())), None, None);
    let mut package = installed_package();
    package.installation_source = Some("dist".to_string());
    package.dist = Some(PackageDist {
        dist_type: "zip".to_string(),
        url: String::new(),
        reference: Some("abc".to_string()),
        shasum: String::new(),
    });
    findings.record("/v/a", None, None, git_version_change(&package, "def", ""));
    assert_eq!(status::exit_code(&findings), 5);
    assert_eq!(findings.errors[0].0, "/v/a");
    let lines = report(&findings, 2);
    let texts: Vec<&str> = lines
        .iter()
        .map(|l| match l {
            status::Line::Stdout(t) => t.as_str(),
            status::Line::Stderr(t) => t.as_str(),
        })
        .collect();
    assert_eq!(
        texts,
        [
            "You have changes in the following dependencies:",
            "/v/a:",
            "    Failed to detect changes: no",
            "/v/b:",
            "    /v/b is a symbolic link.",
            "You have version variations in the following dependencies:",
            "/v/a:",
            "    From 1.0 (abc) to def (def)",
        ]
    );
    assert_eq!(status::final_code(Some(7), 5), 7);
    assert_eq!(status::final_code(Some(0), 5), 5);
}

// why

fn dependent(name: &str, target: &str, children: Option<Vec<Dependent>>) -> Dependent {
    Dependent {
        name: name.to_string(),
        version: "1.0".to_string(),
        package_type: if name == "__root__" { "root-package" } else { "library" }.to_string(),
        link_description: "requires".to_string(),
        link_target: target.to_string(),
        link_constraint: "^1".to_string(),
        children,
    }
}

fn why(tree: bool, constraint: Option<&str>) -> WhyArgs {
    WhyArgs {
        package: "x/x".to_string(),
        constraint: constraint.map(|c| c.to_string()),
        tree,
        recursive: false,
        locked: false,
        working_dir: ".".to_string(),
    }
}

#[test]
fn a_tree_shows_what_leads_to_a_package() {
    let results = vec![
        dependent("b/b", "x/x", Some(vec![dependent("__root__", "b/b", None)])),
        dependent("a/a", "x/x", Some(vec![])),
    ];
    let none = IndexMap::new();
    let reply = answer(&why(true, None), false, &results, ("x/x", "2.0"), &none, &none);
    assert_eq!(
        reply.out,
        "x/x 2.0\n\
         ├── b/b 1.0 (requires x/x ^1)\n\
         │   └── __root__ 1.0 (requires b/b ^1) (circular dependency aborted here)\n\
         └── a/a 1.0 (requires x/x ^1)\n"
    );
    assert_eq!(reply.code, 0);
}

#[test]
fn a_table_shows_each_link_once_and_the_project_first() {
    let results = vec![
        dependent("b/b", "x/x", Some(vec![dependent("__root__", "b/b", None)])),
        dependent("a/a", "x/x", Some(vec![dependent("b/b", "x/x", None)])),
    ];
    let none = IndexMap::new();
    let reply = answer(&why(false, None), false, &results, ("x/x", "2.0"), &none, &none);
    let names: Vec<&str> =
        reply.out.lines().skip(2).map(|l| l.split(' ').next().unwrap()).collect();
    assert_eq!(names, ["__root__", "a/a", "b/b"]);
}

#[test]
fn prohibitions_end_with_a_hint() {
    let results = vec![dependent("a/a", "x/x", Some(vec![]))];
    let dev = links(&[("X/X", "^1")]);
    let reply =
        answer(&why(false, Some("^2")), true, &results, ("x/x", "2.0"), &IndexMap::new(), &dev);
    assert_eq!(reply.code, 1);
    assert_eq!(
        reply.err,
        "\nNot finding what you were looking for? Try calling `composer-rs require --dev \"x/x:^2\" --dry-run` to get another view on the problem.\n"
    );
    let reply = answer(&why(false, Some("^2")), true, &vec![], ("x/x", "2.0"), &dev, &dev);
    assert_eq!(reply.code, 0);
    assert_eq!(
        reply.out,
        "There is no installed package depending on \"x/x\" in versions not matching ^2\n"
    );
}

#[test]
fn searches_can_end_early() {
    assert_eq!(
        obstacle(true, false, 1, 1),
        Some("Error: A valid composer.lock is required for --locked")
    );
    assert!(obstacle(false, false, 0, 1).is_some());
    assert!(obstacle(false, false, 0, 0).is_none());
    let reply = early("x/x", 0, None, false).unwrap();
    assert_eq!(reply.err, "Error: Could not find package \"x/x\" in your project\n");
    let reply = early("x/x", 1, Some("1.0"), true).unwrap();
    assert_eq!(reply.code, 0);
    assert!(early("x/x", 1, Some("1.0"), false).is_none());
    let replaces = vec![links(&[("o/o", "*")])];
    assert_eq!(needles("x/x", &replaces, true), vec!["x/x", "o/o"]);
    assert_eq!(needles("x/x", &replaces, false), vec!["x/x"]);
}

// outdated, install, update and run

fn outdated(all: bool) -> OutdatedArgs {
    OutdatedArgs {
        package: None,
        all,
        locked: false,
        direct: false,
        strict: false,
        major_only: false,
        minor_only: false,
        patch_only: false,
        format: "text".to_string(),
        ignore: vec![],
        no_dev: false,
        working_dir: ".".to_string(),
    }
}

#[test]
fn test_outdated_args_to_show_args_default() {
    let args = outdated(false);
    assert!(!args.all);
    let show = show_args(args);
    assert!(show.latest && show.outdated && show.update_filter.is_none());
}

#[test]
fn test_outdated_args_with_all_flag() {
    let args = outdated(true);
    assert!(args.all);
    assert!(!show_args(args).outdated);
}

#[test]
fn test_outdated_format_validation() {
    let is_valid_format = |format: &str| format == "text" || format == "json";
    assert!(is_valid_format("text"));
    assert!(is_valid_format("json"));
    assert!(!is_valid_format("xml"));
}

#[test]
fn only_one_kind_of_update_counts() {
    let mut args = outdated(false);
    args.minor_only = true;
    args.patch_only = true;
    assert_eq!(show_args(args).update_filter, Some("minor".to_string()));
}

fn update(dry_run: bool) -> UpdateArgs {
    UpdateArgs {
        packages: vec![],
        prefer_source: false,
        prefer_dist: false,
        dry_run,
        no_dev: false,
        no_autoloader: false,
        no_scripts: false,
        no_plugins: false,
        no_progress: false,
        with_dependencies: false,
        with_all_dependencies: false,
        prefer_stable: false,
        prefer_lowest: false,
        lock: false,
        optimize_autoloader: false,
        working_dir: ".".to_string(),
        ansi: false,
        no_ansi: false,
        no_interaction: false,
        quiet: false,
        verbose: 0,
        no_audit: false,
        audit_format: "summary".to_string(),
    }
}

#[test]
fn dry_run_update_uses_current_thread_runtime() {
    assert!(!Commands::Update(update(true)).needs_parallel_runtime());
}

#[test]
fn installing_update_keeps_parallel_runtime() {
    assert!(Commands::Update(update(false)).needs_parallel_runtime());
    assert!(!Commands::WhyNot(why(false, None)).needs_parallel_runtime());
}

#[test]
fn all_dependencies_are_dependencies() {
    let mut args = update(false);
    args.with_all_dependencies = true;
    let options = args.update_options();
    assert!(options.with_dependencies && options.with_all_dependencies);
    assert!(options.update_packages.is_none());
    args.packages.push("a/a".to_string());
    assert_eq!(args.update_options().update_packages, Some(vec!["a/a".to_string()]));
}

#[test]
fn an_audit_follows_what_ended_well() {
    assert!(audit_follows(false, None, Some(0)));
    assert!(!audit_follows(false, None, Some(1)));
    assert!(!audit_follows(false, Some("1"), Some(0)));
    assert!(audit_follows(false, Some("0"), Some(0)));
    assert!(!audit_follows(true, None, Some(0)));
    let args = audit_args(true, "summary", "/p");
    assert_eq!(args.abandoned, Some("report".to_string()));
}

#[test]
fn scripts_are_run_or_listed() {
    let mut args = RunArgs {
        script: Some("build".to_string()),
        list: false,
        working_dir: ".".to_string(),
        args: vec![],
    };
    assert_eq!(args.script_to_run(), Some("build"));
    args.list = true;
    assert_eq!(args.script_to_run(), None);
}

#[test]
fn a_file_is_taken_back() {
    let written = Restoration::Write("{}".to_string());
    assert_eq!(restore_project_file(Some("{}"), true), written);
    assert_eq!(restore_project_file(Some("{}"), false), written);
    assert_eq!(restore_project_file(None, true), Restoration::Remove);
    assert_eq!(restore_project_file(None, false), Restoration::Leave);
}

#[test]
fn the_best_version_is_recommended() {
    let versions: Vec<String> =
        ["2.0-dev", "1.1", "1.2", "1.2"].iter().map(|v| v.to_string()).collect();
    let priorities = vec![20, 0, 0, 0];
    assert_eq!(select_recommended_package(&priorities, &versions, "1.2"), Some(2));
    assert_eq!(select_recommended_package(&priorities, &versions, "2.0-dev"), None);
    assert_eq!(select_recommended_package(&Vec::new(), &Vec::new(), "1.2"), None);
}

#[test]
fn the_installed_version_is_found_whatever_the_case() {
    let mut a = sonata::package::Package::new("Vendor/A", "1.0.0.0");
    a.pretty_version = Some("v1.0.0".to_string());
    let all = [sonata::package::Package::new("b/b", "2.0"), a];
    assert_eq!(sonata::commands::why::installed_version(&all, "vendor/a"), Some("v1.0.0"));
    assert_eq!(sonata::commands::why::installed_version(&all, "B/B"), Some("2.0"));
    assert_eq!(sonata::commands::why::installed_version(&all, "c/c"), None);
}

#[test]
fn manifests_come_directory_by_directory() {
    let paths: Vec<String> =
        ["v/a-b/x", "v/a/x", "v/a-b/x", "v/a/b/x"].iter().map(|p| p.to_string()).collect();
    assert_eq!(
        sonata::commands::validate::in_order(&paths),
        ["v/a/b/x", "v/a/x", "v/a-b/x"]
    );
}

#[test]
fn names_for_development_are_read_from_the_list() {
    let names = installed_dev_names_in(Some(r#"{"dev-package-names": ["A/a"]}"#), None);
    assert!(names.contains("a/a"));
    let mut lock = sonata::lock::ComposerLock::default();
    lock.packages_dev =
        vec![sonata::lock::LockedPackage { name: "D/d".to_string(), ..Default::default() }];
    assert!(installed_dev_names_in(Some("no json"), Some(&lock)).contains("d/d"));
    assert!(!installed_dev_names_in(None, None).contains("a/a"));
}

#[test]
fn metapackages_have_no_place() {
    let mut package = installed_package();
    assert_eq!(place_to_look("/p/vendor/composer", &package).unwrap(), "/p/vendor/a/b");
    package.package_type = "metapackage".to_string();
    assert_eq!(place_to_look("/p/vendor/composer", &package), None);
    package.package_type = "library".to_string();
    package.install_path = None;
    assert_eq!(place_to_look("/p/vendor/composer", &package), None);
}
