use gvm::actions::{Action, GvmError};
use gvm::catalog::list;
use gvm::commands::{activate_version, alias, remove, remove_alias, use_version, AliasCommand};
use gvm::installer::{install, RenameOutcome};
use gvm::listing::FilteredRelease;
use gvm::store::{AliasEntry, Store};

fn store_with(versions: &[&str], aliases: &[(&str, &str)], active: Option<&str>) -> Store {
    let v: Vec<String> = versions.iter().map(|s| s.to_string()).collect();
    let a: Vec<AliasEntry> = aliases
        .iter()
        .map(|(n, t)| AliasEntry { name: n.to_string(), target: t.to_string() })
        .collect();
    Store::new("/home/u".to_string(), &v, &a, active.map(|s| s.to_string()))
}

fn catalog() -> Vec<FilteredRelease> {
    vec![
        FilteredRelease { version: "go1.24.0".to_string(), url: "https://go.dev/dl/go1.24.0.linux-amd64.tar.gz".to_string() },
        FilteredRelease { version: "go1.23.0".to_string(), url: "https://go.dev/dl/go1.23.0.linux-amd64.tar.gz".to_string() },
    ]
}

#[test]
fn install_twice_is_refused() {
    let mut store = store_with(&[], &[], None);
    let plan = install(&store, &catalog(), "1.24.0".to_string()).unwrap();
    assert_eq!(plan.version, "go1.24.0");
    assert_eq!(plan.url, "https://go.dev/dl/go1.24.0.linux-amd64.tar.gz");
    assert_eq!(plan.archive_file, "/home/u/.gvm/archive/go1.24.0.linux-amd64.tar.gz");
    assert_eq!(plan.staging_dir, "/home/u/.gvm/archive/staging-go1.24.0");
    assert_eq!(plan.unpacked_dir, "/home/u/.gvm/archive/staging-go1.24.0/go");
    assert_eq!(plan.version_dir, "/home/u/.gvm/version/go1.24.0");
    assert_eq!(store.commit_install("go1.24.0".to_string(), RenameOutcome::Renamed), Ok(()));
    assert!(matches!(install(&store, &catalog(), "go1.24.0".to_string()), Err(GvmError::AlreadyInstalled)));
    assert_eq!(
        store.commit_install("go1.24.0".to_string(), RenameOutcome::TargetExists),
        Err(GvmError::AlreadyInstalled)
    );
    let count = store.installed_versions().iter().filter(|v| v.as_str() == "go1.24.0").count();
    assert_eq!(count, 1);
}

#[test]
fn install_needs_one_catalog_entry() {
    let store = store_with(&[], &[], None);
    assert!(matches!(install(&store, &catalog(), "1.20".to_string()), Err(GvmError::NotFound)));
    let mut twice = catalog();
    twice.push(FilteredRelease { version: "go1.23.0".to_string(), url: "https://x/y.tar.gz".to_string() });
    assert!(matches!(install(&store, &twice, "1.23.0".to_string()), Err(GvmError::NotFound)));
}

#[test]
fn catalog_lookup_comes_before_installed_check() {
    let store = store_with(&["go1.20.0"], &[], None);
    assert!(matches!(install(&store, &catalog(), "1.20.0".to_string()), Err(GvmError::NotFound)));
    let installed = store_with(&["go1.23.0"], &[], None);
    assert!(matches!(install(&installed, &catalog(), "1.23.0".to_string()), Err(GvmError::AlreadyInstalled)));
}

#[test]
fn failed_unpack_leaves_store_unchanged() {
    let mut store = store_with(&[], &[], None);
    assert_eq!(store.commit_install("go1.24.0".to_string(), RenameOutcome::Failed), Err(GvmError::IoFailure));
    assert!(!store.is_installed("go1.24.0"));
}

#[test]
fn activate_twice_is_a_no_op() {
    let mut store = store_with(&["go1.24.0", "go1.23.0"], &[], Some("go1.23.0"));
    let steps = activate_version(&mut store, "1.24.0".to_string()).unwrap();
    assert_eq!(steps.len(), 6);
    assert_eq!(
        steps[0],
        Action::WriteFile { path: "/home/u/.gvm/version/active".to_string(), contents: "go1.24.0".to_string() }
    );
    assert_eq!(
        steps[1],
        Action::ReplaceSymlink {
            link: "/home/u/.gvm/alias/default".to_string(),
            target: "/home/u/.gvm/version/go1.24.0".to_string()
        }
    );
    assert_eq!(steps[2], Action::CreateDirAll { path: "/home/u/.gvm/cache/go1.24.0/go-build".to_string() });
    assert_eq!(steps[3], Action::CreateDirAll { path: "/home/u/.gvm/package/go1.24.0/bin".to_string() });
    assert_eq!(steps[4], Action::CreateDirAll { path: "/home/u/.gvm/environment".to_string() });
    assert_eq!(
        steps[5],
        Action::WriteFile {
            path: "/home/u/.gvm/environment/go.env".to_string(),
            contents: "GOROOT=/home/u/.gvm/version/go1.24.0\nGOCACHE=/home/u/.gvm/cache/go1.24.0/go-build\nGOPATH=/home/u/.gvm/package/go1.24.0\nGOENV=/home/u/.gvm/environment/go.env\n".to_string()
        }
    );
    let again = use_version(&mut store, "go1.24.0".to_string()).unwrap();
    assert!(again.is_empty());
    assert_eq!(store.active().as_deref(), Some("go1.24.0"));
    assert_eq!(store.resolve_alias("default"), Ok("go1.24.0".to_string()));
}

#[test]
fn activate_requires_install() {
    let mut store = store_with(&["go1.23.0"], &[], None);
    assert!(matches!(activate_version(&mut store, "1.24.0".to_string()), Err(GvmError::NotInstalled)));
    assert!(store.active().is_none());
}

#[test]
fn removing_missing_alias_is_a_no_op() {
    let mut store = store_with(&["go1.23.0"], &[("old", "go1.23.0")], None);
    assert_eq!(remove_alias(&mut store, "foo".to_string()), Ok(vec![]));
    assert_eq!(store.aliases().len(), 1);
    assert_eq!(remove_alias(&mut store, "default".to_string()), Err(GvmError::ReservedName));
    assert_eq!(
        remove_alias(&mut store, "old".to_string()),
        Ok(vec![Action::RemoveSymlink { link: "/home/u/.gvm/alias/old".to_string() }])
    );
    assert_eq!(store.resolve_alias("old"), Err(GvmError::NotFound));
}

#[test]
fn reserved_alias_names_are_refused() {
    let mut store = store_with(&["go1.23.0"], &[], None);
    assert!(matches!(alias(&mut store, "default".to_string(), Some("1.23.0".to_string())), Err(GvmError::ReservedName)));
    assert!(matches!(alias(&mut store, "list".to_string(), None), Ok(AliasCommand::List)));
    assert!(matches!(alias(&mut store, "ls".to_string(), Some("1.23.0".to_string())), Ok(AliasCommand::List)));
    assert_eq!(store.create_alias("list".to_string(), "1.23.0".to_string()), Err(GvmError::ReservedName));
    assert_eq!(store.create_alias("ls".to_string(), "1.23.0".to_string()), Err(GvmError::ReservedName));
    assert!(store.aliases().is_empty());
}

#[test]
fn alias_creation_checks() {
    let mut store = store_with(&["go1.23.0"], &[], None);
    match alias(&mut store, "stable".to_string(), Some("1.23.0".to_string())) {
        Ok(AliasCommand::Created(steps)) => assert_eq!(
            steps,
            vec![Action::CreateSymlink {
                link: "/home/u/.gvm/alias/stable".to_string(),
                target: "/home/u/.gvm/version/go1.23.0".to_string()
            }]
        ),
        _ => panic!("alias not created"),
    }
    assert_eq!(store.resolve_alias("stable"), Ok("go1.23.0".to_string()));
    assert!(matches!(alias(&mut store, "stable".to_string(), Some("1.23.0".to_string())), Err(GvmError::AliasExists)));
    assert!(matches!(alias(&mut store, "next".to_string(), Some("1.24.0".to_string())), Err(GvmError::NotInstalled)));
    assert!(matches!(alias(&mut store, "bare".to_string(), None), Err(GvmError::NotInstalled)));
}

#[test]
fn filter_installed_versions() {
    let store = store_with(&["go1.22.0", "go1.21.5", "go1.21.0"], &[], Some("go1.21.5"));
    let listed = list(&store, Some("1.21.*".to_string()), false);
    let names: Vec<&str> = listed.iter().map(|l| l.version.as_str()).collect();
    assert_eq!(names, vec!["go1.21.0", "go1.21.5"]);
    assert!(!listed[0].marked);
    assert!(listed[1].marked);
}

#[test]
fn remove_inactive_and_active() {
    let mut store = store_with(&["go1.22.0", "go1.21.0"], &[("old", "go1.21.0")], Some("go1.22.0"));
    assert_eq!(
        remove(&mut store, "1.21.0".to_string()),
        Ok(vec![Action::RemoveDirAll { path: "/home/u/.gvm/version/go1.21.0".to_string() }])
    );
    assert!(!store.is_installed("go1.21.0"));
    assert!(store.is_installed("go1.22.0"));
    assert_eq!(store.resolve_alias("old"), Ok("go1.21.0".to_string()));
    assert_eq!(remove(&mut store, "1.22.0".to_string()), Err(GvmError::VersionActive));
    assert!(store.is_installed("go1.22.0"));
    assert_eq!(remove(&mut store, "1.20".to_string()), Err(GvmError::NotInstalled));
}

#[test]
fn store_construction_deduplicates() {
    let store = store_with(&["go1.22.0", "go1.22.0"], &[("a", "go1.21.0"), ("a", "go1.22.0")], None);
    assert_eq!(store.installed_versions().len(), 1);
    assert_eq!(store.aliases().len(), 1);
    assert_eq!(store.resolve_alias("a"), Ok("go1.22.0".to_string()));
    assert_eq!(store.home(), "/home/u");
}
