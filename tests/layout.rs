use gvm::catalog::{create_release_cache, list_remote, Release, ReleaseFile};
use gvm::commands::init_go_environment;
use gvm::disk::{get_active_version, is_version_active, list_aliases, list_installed_versions, DirEntryInfo};
use gvm::environment::{environment_file_content, render_env_line};
use gvm::installer::package_name;
use gvm::listing::FilteredRelease;
use gvm::paths::{
    get_alias_file_path, get_archive_file_path, get_cache_dir, get_environment_file_path,
    get_gvm_base_file_path, get_package_file_path, get_shell_config_file_path, get_version_file_path,
    join_path,
};
use gvm::actions::{Action, GvmError};
use gvm::shell::{append_init_block, get_init_script_content, has_init_block, init};
use gvm::store::{AliasEntry, Store};

#[test]
fn layout_paths() {
    assert_eq!(get_gvm_base_file_path("/home/u"), "/home/u/.gvm");
    assert_eq!(get_gvm_base_file_path("/home/u/"), "/home/u/.gvm");
    assert_eq!(get_cache_dir("/home/u"), "/home/u/.gvm/cache");
    assert_eq!(get_environment_file_path("/home/u"), "/home/u/.gvm/environment");
    assert_eq!(get_version_file_path("/home/u"), "/home/u/.gvm/version");
    assert_eq!(get_package_file_path("/home/u"), "/home/u/.gvm/package");
    assert_eq!(get_archive_file_path("/home/u"), "/home/u/.gvm/archive");
    assert_eq!(get_alias_file_path("/home/u"), "/home/u/.gvm/alias");
    assert_eq!(join_path("/a", "/b"), "/b");
    assert_eq!(join_path("", "b"), "b");
}

#[test]
fn shell_config_paths() {
    assert_eq!(get_shell_config_file_path(Some("/bin/bash".to_string()), "/home/u"), Ok("/home/u/.bashrc".to_string()));
    assert_eq!(get_shell_config_file_path(Some("/usr/bin/zsh".to_string()), "/home/u"), Ok("/home/u/.zshrc".to_string()));
    assert_eq!(
        get_shell_config_file_path(Some("/bin/fish".to_string()), "/home/u"),
        Err("Unsupported shell: /bin/fish".to_string())
    );
    assert_eq!(
        get_shell_config_file_path(None, "/home/u"),
        Err("Failed to retrieve SHELL environment variable".to_string())
    );
}

#[test]
fn env_lines_quote_and_escape() {
    assert_eq!(render_env_line("GOROOT", "/opt/go"), "GOROOT=/opt/go\n");
    assert_eq!(render_env_line("GOROOT", "/my dir/go"), "GOROOT=\"/my dir/go\"\n");
    assert_eq!(render_env_line("K", "a\"b"), "K=\"a\\\"b\"\n");
    assert_eq!(render_env_line("K", "it's"), "K=\"it's\"\n");
}

#[test]
fn env_file_for_home_with_space() {
    let content = environment_file_content("/home/a b", "go1.21.0");
    assert_eq!(
        content,
        "GOROOT=\"/home/a b/.gvm/version/go1.21.0\"\nGOCACHE=\"/home/a b/.gvm/cache/go1.21.0/go-build\"\nGOPATH=\"/home/a b/.gvm/package/go1.21.0\"\nGOENV=\"/home/a b/.gvm/environment/go.env\"\n"
    );
}

#[test]
fn environment_for_active_version() {
    let store = Store::new("/h".to_string(), &vec!["go1.21.0".to_string()], &vec![], Some("go1.21.0".to_string()));
    let steps = init_go_environment(&store, None).unwrap();
    assert_eq!(steps[0], Action::CreateDirAll { path: "/h/.gvm/environment".to_string() });
    let none = Store::new("/h".to_string(), &vec![], &vec![], None);
    assert_eq!(init_go_environment(&none, None), Err(GvmError::NotFound));
}

#[test]
fn archive_name_from_url() {
    assert_eq!(package_name("https://go.dev/dl/go1.21.0.linux-amd64.tar.gz"), "go1.21.0.linux-amd64.tar.gz");
    assert_eq!(package_name("plain"), "plain");
    assert_eq!(package_name("https://x/"), "");
}

#[test]
fn release_cache_keeps_linux_amd64_archives() {
    let file = |name: &str, os: &str, arch: &str| ReleaseFile {
        filename: name.to_string(),
        os: os.to_string(),
        arch: arch.to_string(),
        kind: "archive".to_string(),
    };
    let releases = vec![Release {
        version: "go1.22.0".to_string(),
        stable: true,
        files: vec![
            file("go1.22.0.linux-amd64.tar.gz", "linux", "amd64"),
            file("go1.22.0.darwin-amd64.tar.gz", "darwin", "amd64"),
            file("go1.22.0.linux-arm64.tar.gz", "linux", "arm64"),
            file("go1.22.0.linux-amd64.zip", "linux", "amd64"),
        ],
    }];
    let entries = create_release_cache(&releases);
    assert_eq!(entries.len(), 1);
    assert_eq!(entries[0].version, "go1.22.0");
    assert_eq!(entries[0].url, "https://go.dev/dl/go1.22.0.linux-amd64.tar.gz");
}

#[test]
fn remote_listing_marks_installed() {
    let store = Store::new("/h".to_string(), &vec!["go1.21.0".to_string()], &vec![], None);
    let rel = |v: &str| FilteredRelease { version: v.to_string(), url: String::new() };
    let listed = list_remote(&store, vec![rel("go1.22.0"), rel("go1.21.0"), rel("go1.22rc1")], None, true);
    let names: Vec<&str> = listed.iter().map(|l| l.version.as_str()).collect();
    assert_eq!(names, vec!["go1.21.0", "go1.22.0"]);
    assert!(listed[0].marked);
    assert!(!listed[1].marked);
    let twice = list_remote(&store, vec![rel("go1.22.0"), rel("go1.21.0"), rel("go1.22.0")], None, false);
    let names: Vec<&str> = twice.iter().map(|l| l.version.as_str()).collect();
    assert_eq!(names, vec!["go1.21.0", "go1.22.0", "go1.22.0"]);
}

#[test]
fn disk_entries() {
    let e = |name: &str, dir: bool, link: Option<&str>| DirEntryInfo {
        name: name.to_string(),
        is_dir: dir,
        is_symlink: link.is_some(),
        link_target: link.map(|t| t.to_string()),
    };
    let versions = list_installed_versions(&vec![e("go1.21.0", true, None), e("active", false, None)]);
    assert_eq!(versions, vec!["go1.21.0"]);
    let aliases = list_aliases(&vec![
        e("default", false, Some("/h/.gvm/version/go1.21.0")),
        e("stray", false, None),
    ]);
    assert_eq!(aliases.len(), 1);
    assert_eq!(aliases[0].name, "default");
    assert_eq!(aliases[0].target, "go1.21.0");
    assert_eq!(get_active_version(Some("go1.21.0".to_string())), Some("go1.21.0".to_string()));
    assert_eq!(get_active_version(Some("garbage".to_string())), None);
    assert_eq!(get_active_version(None), None);
    let store = Store::new("/h".to_string(), &versions, &vec![AliasEntry { name: "x".to_string(), target: "go1.21.0".to_string() }], Some("go1.21.0".to_string()));
    assert!(is_version_active(&store, "go1.21.0"));
    assert!(!is_version_active(&store, "go1.22.0"));
}

#[test]
fn init_script_and_profile_block() {
    let script = get_init_script_content("/h/.gvm");
    assert!(script.starts_with("\n# >>> gvm initialize >>>\nexport GVM_ROOT=\"/h/.gvm\"\n"));
    assert!(script.ends_with("# <<< gvm initialize <<<\n"));
    assert!(has_init_block(&format!("x\n{script}")));
    assert!(!has_init_block("# <<< gvm initialize <<<\n# >>> gvm initialize >>>\n"));
    assert_eq!(append_init_block("a", "B"), "a\nB");
    assert_eq!(append_init_block("a\n", "B"), "a\nB");
    assert_eq!(append_init_block("", "B"), "\nB");
}

#[test]
fn init_plan() {
    assert_eq!(init("/bin/zsh", "/h", ""), Err(GvmError::UnsupportedShell));
    assert_eq!(init("bash", "/h", ""), Err(GvmError::UnsupportedShell));
    let steps = init("/bin/bash", "/h", "export A=1\n").unwrap();
    assert_eq!(steps.len(), 8);
    assert_eq!(steps[0], Action::CreateDirAll { path: "/h/.gvm/alias".to_string() });
    assert_eq!(steps[5], Action::CreateDirAll { path: "/h/.gvm/version".to_string() });
    let script = get_init_script_content("/h/.gvm");
    assert_eq!(steps[6], Action::WriteFile { path: "/h/.gvm/init-shell".to_string(), contents: script.clone() });
    assert_eq!(
        steps[7],
        Action::WriteFile { path: "/h/.bashrc".to_string(), contents: format!("export A=1\n{script}") }
    );
    let again = init("/bin/bash", "/h", &format!("export A=1\n{script}")).unwrap();
    assert_eq!(again.len(), 7);
}
