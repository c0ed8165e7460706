//! The installer: what is loaded, selected, installed and told.
use indexmap::IndexMap;

use sonata::autoload::types::{Autoload, AutoloadPath};
use sonata::installer::autoloads::{create_root_package_info, root_autoload, suffix_of};
use sonata::installer::binary::{link_name, BinaryInstaller, LibraryInstaller};
use sonata::installer::closure::{expand_update_allowlist, find_transitive_dependencies, Pool};
use sonata::installer::flow::{
    next_install_step, next_update_step, Outcome, Step, Switches,
};
use sonata::installer::loading::{
    absorb, extract_stability_flag, linked_names, merge_pending_constraint, minimum_stability,
    next_batch, root_requirements, solver_requirements, stability_flags, Pending, Stability,
};
use sonata::installer::operations::{
    phases, split_metapackages, update_kind, user_cache_dir, InstallConfig, Operation, UpdateKind,
};
use sonata::installer::pool::{add_batch, audit_installed_names, pool_packages, root_stands_in_pool};
use sonata::installer::report::{
    autoload_config, dump_failed, dump_report, install_report, lock_report, next_dump_step,
    package_autoloads, root_aliases, update_report, DumpStep,
};
use sonata::installer::selection::{
    aliases_of, audit_abandoned_packages, lock_file_changed, new_lock, partition, pinned_versions,
    platform_requirements, preferred_versions, selected_package_identities_changed, to_install,
    without_platform,
};
use sonata::installer::root::{create_root_package, get_root_version, RootSource};
use sonata::installer::settle::{packages_to_install, settle};
use sonata::lock::{ComposerLock, LockAlias, LockedPackage};
use sonata::names::NameSet;
use sonata::package::{Abandoned, Package};
use sonata::schema::ComposerJson;

fn locked(name: &str, version: &str) -> LockedPackage {
    LockedPackage {
        name: name.to_string(),
        version: version.to_string(),
        ..Default::default()
    }
}

fn links(entries: &[(&str, &str)]) -> IndexMap<String, String> {
    entries.iter().map(|(k, v)| (k.to_string(), v.to_string())).collect()
}

fn names(v: &[&str]) -> NameSet {
    let list: Vec<String> = v.iter().map(|s| s.to_string()).collect();
    NameSet::from_names(&list)
}

fn requiring(name: &str, require: &[(&str, &str)]) -> Package {
    let mut package = Package::new(name, "1.0.0.0");
    package.require = links(require);
    package
}

#[test]
fn changed_package_identity_proves_lock_change() {
    let package = Package::new("vendor/package", "2.0.0.0");
    let current = ComposerLock {
        packages: vec![locked("vendor/package", "1.0.0")],
        ..Default::default()
    };

    assert!(selected_package_identities_changed(&current, &[&package], &[]));
}

#[test]
fn matching_identity_requires_full_lock_comparison() {
    let mut package = Package::new("vendor/package", "1.0.0.0");
    package.pretty_version = Some("1.0.0".to_string());
    package.description = Some("metadata may still differ".to_string());
    let current = ComposerLock {
        packages: vec![locked("vendor/package", "1.0.0")],
        ..Default::default()
    };

    assert!(!selected_package_identities_changed(&current, &[&package], &[]));
}

#[test]
fn production_and_development_identity_lists_are_distinct() {
    let package = Package::new("vendor/package", "1.0.0.0");
    let current = ComposerLock {
        packages_dev: vec![locked("vendor/package", "1.0.0.0")],
        ..Default::default()
    };

    assert!(selected_package_identities_changed(&current, &[&package], &[]));
}

#[test]
fn update_dependency_allowlist_respects_root_requirement_mode() {
    let mut pool = Pool::new();
    let mut target = Package::new("fixture/target", "2.0.0");
    target
        .require
        .insert("fixture/dependency".to_string(), "^2.0".to_string());
    target
        .require
        .insert("fixture/root-dependency".to_string(), "^2.0".to_string());
    pool.add_package(target);

    let mut dependency = Package::new("fixture/dependency", "2.0.0");
    dependency
        .require
        .insert("fixture/transitive".to_string(), "^1.0".to_string());
    pool.add_package(dependency);

    let explicit = names(&["fixture/target"]);
    let root_requirements = names(&["fixture/root-dependency"]);
    let dependencies_only = expand_update_allowlist(&pool, &explicit, &root_requirements, false);
    assert!(dependencies_only.contains("fixture/dependency"));
    assert!(dependencies_only.contains("fixture/transitive"));
    assert!(!dependencies_only.contains("fixture/root-dependency"));

    let all_dependencies = expand_update_allowlist(&pool, &explicit, &root_requirements, true);
    assert!(all_dependencies.contains("fixture/root-dependency"));
}

#[test]
fn pending_constraints_merge_in_insertion_order() {
    let mut pending = Pending::new();
    merge_pending_constraint(&mut pending, "vendor/package".to_string(), "^1".to_string());
    merge_pending_constraint(&mut pending, "vendor/package".to_string(), "^2".to_string());
    merge_pending_constraint(&mut pending, "vendor/package".to_string(), "^3".to_string());

    assert_eq!(pending.get("vendor/package").unwrap(), "^1 || ^2 || ^3");
}

#[test]
fn each_package_is_loaded_once() {
    let require = links(&[("B/b", "^1"), ("php", "^8"), ("r/r", "*")]);
    let dev = links(&[("a/a", "^2"), ("b/b", "^3")]);
    let replaced = linked_names(&links(&[("R/r", "*")]), &IndexMap::new());
    let mut pending = root_requirements(&require, &dev, &replaced);
    let mut loaded = replaced;
    let batch = next_batch(&mut pending, &mut loaded);
    assert_eq!(
        batch,
        vec![
            ("a/a".to_string(), "^2".to_string()),
            ("b/b".to_string(), "^1 || ^3".to_string()),
        ]
    );
    assert!(pending.is_empty());
    let found = vec![requiring("a/a", &[("b/b", "*"), ("C/c", "^1"), ("ext-json", "*")])];
    absorb(&mut pending, &found, &loaded);
    assert_eq!(
        next_batch(&mut pending, &mut loaded),
        vec![("c/c".to_string(), "^1".to_string())]
    );
    assert!(next_batch(&mut pending, &mut loaded).is_empty());
}

#[test]
fn stability_is_flagged_behind_an_at_sign() {
    assert_eq!(extract_stability_flag("^1.0@beta"), Some(Stability::Beta));
    assert_eq!(extract_stability_flag("^1.0"), None);
    assert_eq!(minimum_stability(&Some("RC".to_string())), Stability::Rc);
    assert_eq!(minimum_stability(&Some("odd".to_string())), Stability::Stable);
    let require = links(&[("b/b", "^1@dev"), ("a/a", "^1@alpha"), ("c/c", "^1")]);
    assert_eq!(
        stability_flags(&require),
        vec![("a/a".to_string(), Stability::Alpha), ("b/b".to_string(), Stability::Dev)]
    );
    assert_eq!(solver_requirements(&links(&[("php", "*"), ("a/a", "^1")])).len(), 1);
}

#[test]
fn dependencies_of_production_are_for_production() {
    let a = requiring("a/a", &[("B/b", "*")]);
    let b = requiring("b/b", &[]);
    let d = requiring("d/d", &[("b/b", "*")]);
    let php = Package::new("php", "8.3");
    let all = [&a, &b, &d, &php];
    let selected = without_platform(&all);
    assert_eq!(selected.len(), 3);
    let production = find_transitive_dependencies(&selected, &names(&["a/a"]));
    let (prod, dev) = partition(&selected, &production);
    assert_eq!(prod.iter().map(|p| p.name.as_str()).collect::<Vec<_>>(), ["a/a", "b/b"]);
    assert_eq!(dev[0].name, "d/d");
    assert_eq!(to_install(&all, &production, true).len(), 2);
    assert_eq!(to_install(&all, &production, false).len(), 3);
}

#[test]
fn versions_that_are_not_to_change_are_kept() {
    let lock = ComposerLock {
        packages: vec![locked("A/a", "1.0"), locked("b/b", "2.0")],
        ..Default::default()
    };
    assert_eq!(
        pinned_versions(&lock, &names(&["b/b"])),
        vec![("a/a".to_string(), "1.0".to_string())]
    );
    let none = IndexMap::new();
    let asked = Some(vec!["B/b".to_string()]);
    let kept = preferred_versions(&asked, false, false, &Pool::new(), &none, &none, Some(&lock));
    assert_eq!(kept, vec![("a/a".to_string(), "1.0".to_string())]);
    assert!(preferred_versions(&None, false, false, &Pool::new(), &none, &none, Some(&lock)).is_empty());
}

#[test]
fn a_new_lock_says_what_the_manifest_asks() {
    let mut manifest = ComposerJson::default();
    manifest.require = links(&[("php", "^8"), ("a/a", "^1")]);
    let lock = new_lock(&manifest, "hash".to_string(), vec![locked("a/a", "1.0")], vec![], true);
    assert_eq!(lock.minimum_stability, "stable");
    assert_eq!(lock.plugin_api_version, "2.9.0");
    assert_eq!(lock.platform, links(&[("php", "^8")]));
    assert!(lock.prefer_lowest);
    assert_eq!(platform_requirements(&manifest.require).len(), 1);
    assert!(lock_file_changed(Some(&lock), None));
    assert!(!lock_file_changed(Some(&lock), Some(&lock)));
    assert_eq!(suffix_of(Some(&lock)), Some("hash".to_string()));
    assert_eq!(suffix_of(None), None);
}

#[test]
fn abandoned_packages_are_named_in_order() {
    let mut b = Package::new("b/b", "1.0");
    b.abandoned = Some(Abandoned::Replacement("c/c".to_string()));
    let mut a = Package::new("a/a", "1.0");
    a.abandoned = Some(Abandoned::Bool(true));
    let notices = audit_abandoned_packages(&[&b, &a]);
    assert_eq!(notices[0].0, "a/a");
    assert_eq!(
        notices[1].1,
        "Package b/b is abandoned, you should avoid using it. Use c/c instead."
    );
}

#[test]
fn the_pool_ignores_which_answer_came_first() {
    let make = |first: &str, second: &str| {
        let mut batches = Vec::new();
        for name in [first, second] {
            add_batch(
                &mut batches,
                name,
                vec![Package::new(name, "2.0"), Package::new(name, "1.0")],
            );
        }
        add_batch(&mut batches, "a/a", vec![Package::new("a/a", "1.5")]);
        pool_packages(batches)
            .iter()
            .map(|p| format!("{} {}", p.name, p.version))
            .collect::<Vec<_>>()
    };
    assert_eq!(make("a/a", "b/b"), ["a/a 1.0", "a/a 1.5", "a/a 2.0", "b/b 1.0", "b/b 2.0"]);
    assert_eq!(make("b/b", "a/a"), make("a/a", "b/b"));
}

#[test]
fn the_project_stands_in_the_pool_where_it_replaces() {
    let mut manifest = ComposerJson::default();
    assert!(!root_stands_in_pool(&manifest));
    manifest.provide = links(&[("x/x", "*")]);
    assert!(root_stands_in_pool(&manifest));
    let present = vec![Package::new("A/a", "1.0")];
    assert!(audit_installed_names(false, &present).is_none());
    assert!(audit_installed_names(true, &present).unwrap().contains("a/a"));
}

fn steps(switches: Switches, install: bool, lock_changed: bool) -> Vec<Step> {
    let mut out = Vec::new();
    let mut last = None;
    let mut outcome = Outcome::Done;
    loop {
        let step = if install {
            next_install_step(switches, last, outcome)
        } else {
            next_update_step(switches, last, outcome)
        };
        out.push(step);
        if matches!(step, Step::Finish { .. } | Step::Fail) {
            return out;
        }
        outcome = match step {
            Step::BuildLock => Outcome::Built { lock_changed },
            Step::PreScripts | Step::PreDumpScripts | Step::PostDumpScripts | Step::PostScripts => {
                Outcome::Scripts(0)
            }
            _ => Outcome::Done,
        };
        last = Some(step);
    }
}

#[test]
fn an_update_goes_step_by_step() {
    let all = Switches { dry_run: false, no_scripts: false, no_autoloader: false, lock_only: false };
    assert_eq!(
        steps(all, false, true),
        vec![
            Step::PreScripts,
            Step::Resolve,
            Step::CheckPlugins,
            Step::BuildLock,
            Step::WriteLock,
            Step::Install,
            Step::PreDumpScripts,
            Step::Dump,
            Step::PostDumpScripts,
            Step::Report,
            Step::NameAbandoned,
            Step::PostScripts,
            Step::Finish { exit_code: 0 },
        ]
    );
}

#[test]
fn a_dry_run_writes_nothing() {
    let dry = Switches { dry_run: true, no_scripts: false, no_autoloader: false, lock_only: false };
    assert_eq!(
        steps(dry, false, true),
        vec![
            Step::PreScripts,
            Step::Resolve,
            Step::CheckPlugins,
            Step::BuildLock,
            Step::Install,
            Step::Report,
            Step::Finish { exit_code: 0 },
        ]
    );
}

#[test]
fn an_install_keeps_the_lock() {
    let quiet = Switches { dry_run: false, no_scripts: true, no_autoloader: true, lock_only: false };
    assert_eq!(
        steps(quiet, true, true),
        vec![
            Step::CheckPlugins,
            Step::Install,
            Step::WriteMetadata,
            Step::Report,
            Step::NameAbandoned,
            Step::Finish { exit_code: 0 },
        ]
    );
}

#[test]
fn only_the_lock_can_be_updated() {
    let lock = Switches { dry_run: false, no_scripts: true, no_autoloader: false, lock_only: true };
    assert_eq!(
        steps(lock, false, false),
        vec![
            Step::Resolve,
            Step::CheckPlugins,
            Step::BuildLock,
            Step::ReportLock { changed: false },
            Step::Finish { exit_code: 0 },
        ]
    );
}

#[test]
fn failing_scripts_end_the_run() {
    let all = Switches { dry_run: false, no_scripts: false, no_autoloader: false, lock_only: false };
    assert_eq!(
        next_update_step(all, Some(Step::PreScripts), Outcome::Scripts(3)),
        Step::Finish { exit_code: 3 }
    );
    assert_eq!(
        next_update_step(all, Some(Step::Resolve), Outcome::Unresolvable),
        Step::Finish { exit_code: 1 }
    );
}

#[test]
fn refused_plugins_end_the_run() {
    let all = Switches { dry_run: false, no_scripts: false, no_autoloader: false, lock_only: false };
    assert_eq!(
        next_install_step(all, Some(Step::PreScripts), Outcome::Scripts(0)),
        Step::CheckPlugins
    );
    for step in [next_install_step, next_update_step] {
        assert_eq!(step(all, Some(Step::CheckPlugins), Outcome::Refused), Step::Fail);
        assert_eq!(step(all, Some(Step::Install), Outcome::Failed), Step::Fail);
        assert_eq!(step(all, Some(Step::Fail), Outcome::Done), Step::Fail);
        assert_eq!(
            step(all, Some(Step::Finish { exit_code: 3 }), Outcome::Failed),
            Step::Finish { exit_code: 3 }
        );
    }
}

#[test]
fn an_install_is_about_what_is_locked() {
    let mut lock = ComposerLock::default();
    lock.packages = vec![LockedPackage { name: "a/a".to_string(), ..Default::default() }];
    lock.packages_dev = vec![LockedPackage { name: "d/d".to_string(), ..Default::default() }];
    let names = |no_dev: bool| -> Vec<String> {
        packages_to_install(Some(&lock), no_dev).unwrap().iter().map(|p| p.name.clone()).collect()
    };
    assert_eq!(names(false), ["a/a", "d/d"]);
    assert_eq!(names(true), ["a/a"]);
    match packages_to_install(None, false) {
        Ok(_) => panic!("there is no lock file"),
        Err(refusal) => assert_eq!(refusal.message, "No composer.lock file found"),
    }
}

#[test]
fn a_dump_fails_only_before_it_starts() {
    assert_eq!(
        next_dump_step(false, Some(DumpStep::PreScripts), 2),
        DumpStep::Fail { exit_code: 2 }
    );
    assert_eq!(next_dump_step(false, Some(DumpStep::PostScripts), 2), DumpStep::Report);
    assert_eq!(next_dump_step(true, None, 0), DumpStep::Dump);
    assert_eq!(dump_failed(-2), "pre-autoload-dump script exited with code -2");
    assert_eq!(dump_report(false, true), "Generated optimized autoload files");
}

#[test]
fn reports_count_packages() {
    assert_eq!(update_report(1, 2, false), Some("3 packages updated".to_string()));
    assert_eq!(update_report(0, 0, true), Some("0 packages updated".to_string()));
    assert_eq!(update_report(0, 0, false), None);
    assert_eq!(install_report(12), "12 packages installed");
    assert_eq!(lock_report(false), "Lock file is up to date");
}

#[test]
fn the_generator_gets_what_the_lock_says() {
    let alias = LockAlias {
        package: "a/a".to_string(),
        version: "dev-main".to_string(),
        alias: "1.x-dev".to_string(),
        alias_normalized: "1.9999999.9999999.9999999-dev".to_string(),
    };
    let mut package = locked("a/a", "1.0");
    package.require = links(&[("php", "*"), ("b/b", "^1")]);
    let lock = ComposerLock {
        packages: vec![package],
        packages_dev: vec![locked("d/d", "2.0")],
        ..Default::default()
    };
    let aliases = vec![alias];
    let normalized = vec![Some("1.0.0.0".to_string()), None];
    let taken = package_autoloads(&lock, true, &aliases, false, &normalized);
    assert_eq!(taken.len(), 2);
    assert_eq!(taken[0].version, Some("1.0.0.0".to_string()));
    assert_eq!(taken[0].requires, vec!["b/b"]);
    assert_eq!(taken[0].aliases, vec!["1.x-dev"]);
    assert!(taken[1].dev_requirement);
    assert_eq!(taken[1].version, Some("2.0".to_string()));
    assert_eq!(package_autoloads(&lock, false, &aliases, false, &normalized).len(), 1);
    assert_eq!(aliases_of(&aliases, "a/a"), vec!["1.x-dev"]);
    assert!(root_aliases(&aliases, &ComposerJson::default()).is_empty());
    let config = autoload_config("/p/vendor", "/p", false, true, false, None);
    assert!(config.optimize && config.authoritative);
    let root = create_root_package_info(
        &ComposerJson::default(),
        "dev-main".to_string(),
        "dev-main".to_string(),
        None,
        vec![],
        true,
    );
    assert_eq!(root.name, "__root__");
}

#[test]
fn test_binary_installer_creation() {
    let installer = BinaryInstaller::new("/app/vendor/bin", "/app/vendor");
    assert_eq!(installer.bin_dir(), "/app/vendor/bin");
}

#[test]
fn programs_are_linked_by_their_names() {
    let installer = BinaryInstaller::new("/app/vendor/bin", "/app/vendor");
    let mut package = Package::new("a/a", "1.0");
    package.bin = vec!["bin/tool".to_string()];
    assert_eq!(
        installer.links(&package),
        vec![("/app/vendor/a/a/bin/tool".to_string(), "/app/vendor/bin/tool".to_string())]
    );
    assert_eq!(link_name("bin/tool"), "tool");
}

#[test]
fn test_get_install_path() {
    let installer = LibraryInstaller::new("/tmp/vendor");
    let package = Package::new("vendor/package", "1.0.0");
    assert!(installer.get_install_path(&package).ends_with("vendor/vendor/package"));
}

#[test]
fn test_install_config_default() {
    let config = InstallConfig::default(None, None);
    assert_eq!(config.vendor_dir, "vendor");
    assert_eq!(config.bin_dir, "vendor/bin");
    assert!(config.prefer_dist);
    assert!(!config.prefer_source);
    assert!(!config.dry_run);
}

#[test]
fn caches_are_those_of_the_user() {
    let cache = |xdg: Option<&str>, home: Option<&str>| InstallConfig::default(xdg, home).cache_dir;
    assert_eq!(cache(Some("/x"), Some("/home/u")), "/x/composer/cache");
    assert_eq!(cache(None, Some("/home/u")), "/home/u/.cache/composer/cache");
    assert_eq!(cache(None, None), ".composer/cache");
}

#[test]
fn operations_are_sorted_by_what_they_do() {
    let a = Package::new("a/a", "1.0");
    let b = Package::new("b/b", "1.0");
    let php = Package::new("php", "8.3");
    let ops = [
        Operation::Install(&a),
        Operation::Install(&php),
        Operation::Update { from: &a, to: &b },
        Operation::Uninstall(&b),
    ];
    let result = phases(&ops, false);
    assert_eq!((result.installed.len(), result.updated.len(), result.removed.len()), (1, 1, 1));
    assert_eq!(phases(&ops, true).installed.len(), 2);

    let mut meta = Package::new("m/m", "1.0");
    meta.package_type = "metapackage".to_string();
    assert_eq!(update_kind(&a, &meta), UpdateKind::RemoveOld);
    assert_eq!(update_kind(&meta, &a), UpdateKind::InstallNew);
    let (without, with) = split_metapackages(&[&meta, &a, &php]);
    assert_eq!((without.len(), with.len()), (1, 1));
    assert_eq!(user_cache_dir(None, Some("/h")), Some("/h/.cache/composer".to_string()));
}

#[test]
fn the_project_is_loadable_with_its_development_code() {
    let namespace = |name: &str, path: &str| {
        let mut map = IndexMap::new();
        map.insert(name.to_string(), AutoloadPath::Single(path.to_string()));
        map
    };
    let mut manifest = ComposerJson::default();
    manifest.autoload = Autoload { psr4: namespace("App\\", "src"), ..Default::default() };
    manifest.autoload_dev = Autoload {
        psr4: namespace("App\\", "tests"),
        files: vec!["dev.php".to_string()],
        ..Default::default()
    };
    assert_eq!(root_autoload(&manifest, false).psr4["App\\"].as_vec(), vec!["src"]);
    let all = root_autoload(&manifest, true);
    assert_eq!(all.psr4["App\\"].as_vec(), vec!["src", "tests"]);
    assert_eq!(all.files, vec!["dev.php"]);
}

#[test]
fn a_resolution_is_settled_in_one_go() {
    let a = requiring("a/a", &[("B/b", "*")]);
    let b = requiring("b/b", &[]);
    let d = requiring("d/d", &[]);
    let php = Package::new("php", "8.3");
    let all = [&a, &b, &d, &php];
    let require = links(&[("A/a", "^1"), ("php", "^8")]);
    let settled = settle(&all, &require, None, true, true);
    assert!(settled.identity_changed && settled.outline);
    assert_eq!(settled.prod_packages.len(), 2);
    assert_eq!(settled.dev_packages[0].name, "d/d");
    assert_eq!(settled.to_install.len(), 2);

    let lock = ComposerLock {
        packages: vec![locked("a/a", "1.0.0.0"), locked("b/b", "1.0.0.0")],
        packages_dev: vec![locked("d/d", "1.0.0.0")],
        ..Default::default()
    };
    let settled = settle(&all, &require, Some(&lock), true, false);
    assert!(!settled.identity_changed && !settled.outline);
    assert_eq!(settled.to_install.len(), 3);
}

#[test]
fn the_version_of_the_project() {
    let aliases = sonata::json::Json::Object(vec![(
        "branch-alias".to_string(),
        sonata::json::Json::Object(vec![(
            "dev-main".to_string(),
            sonata::json::Json::Text("1.0.x-dev".to_string()),
        )]),
    )]);
    let version = |environment: Option<&str>, manifest: Option<&str>, branch: Option<&str>| {
        get_root_version(environment, manifest, branch, &aliases)
            .map(|root| (root.pretty_version, root.source))
    };
    let main = Some("main");
    let is = |version: &str, source: RootSource| Some((version.to_string(), source));
    assert_eq!(version(Some("9.0"), Some("2.0"), main), is("9.0", RootSource::Environment));
    assert_eq!(version(None, Some("2.0"), main), is("2.0", RootSource::Manifest));
    assert_eq!(version(None, None, main), is("1.0.x-dev", RootSource::BranchAlias));
    assert_eq!(version(None, None, Some("fix")), is("dev-fix", RootSource::Branch));
    assert_eq!(version(None, None, None), None);
}

#[test]
fn the_project_is_a_package() {
    let mut manifest = ComposerJson::default();
    manifest.replace = links(&[("own/part", "self.version"), ("x/x", "^1.0")]);
    let root = create_root_package(&manifest, "1.2", "1.2.0.0");
    assert_eq!(root.name, "__root__");
    assert_eq!(root.pretty_version.as_deref(), Some("1.2"));
    assert_eq!(root.replace["own/part"], "1.2.0.0");
    assert_eq!(root.replace["x/x"], "^1.0");
    assert!(root.require.is_empty());
}
