use mirror_store::backend::nix::{
    apps_dir, delete_nix_module, hm_switch, install, installed_module, is_installed, uninstall,
    write_nix_module, NixStep,
};
use mirror_store::command::{join_path, CommandLine};

fn command(program: &str, args: &[&str]) -> CommandLine {
    CommandLine {
        program: program.to_string(),
        args: args.iter().map(|a| a.to_string()).collect(),
    }
}

fn switch_of(home: &str, user: &str) -> Vec<NixStep> {
    let config = format!("{}/.config/home-manager", home);
    vec![
        NixStep::Run(command("git", &["-C", &config, "add", "-A"]), None),
        NixStep::Run(
            command("home-manager", &["switch", "--flake", &format!("{}#{}", config, user)]),
            Some("home-manager switch failed".to_string()),
        ),
    ]
}

#[test]
fn paths_are_joined_as_std_does() {
    for base in ["", "/", "/home/u", "/home/u/", "rel"] {
        for rel in ["", "a", "a/b.nix", "/abs"] {
            let expected = std::path::PathBuf::from(base).join(rel);
            assert_eq!(join_path(base, rel), expected.to_str().unwrap(), "{:?} {:?}", base, rel);
        }
    }
}

#[test]
fn directory_of_modules() {
    assert_eq!(apps_dir("/home/u"), "/home/u/.config/home-manager/apps");
}

#[test]
fn install_writes_and_switches() {
    let mut expected = vec![
        NixStep::CreateDir("/home/u/.config/home-manager/apps".to_string()),
        NixStep::WriteFile(
            "/home/u/.config/home-manager/apps/hello.nix".to_string(),
            "# Installed via Mirror OS Software Center\n\
             { pkgs, ... }:\n\
             {\n\
               home.packages = [ pkgs.hello ];\n\
             }\n"
                .to_string(),
        ),
    ];
    expected.extend(switch_of("/home/u", "me"));
    assert_eq!(install("hello", "/home/u", Some("me")), expected);
    assert_eq!(install("nixpkgs.hello", "/home/u", Some("me")), expected);
}

#[test]
fn uninstall_removes_and_switches() {
    let mut expected =
        vec![NixStep::RemoveFile("/home/u/.config/home-manager/apps/hello.nix".to_string())];
    expected.extend(switch_of("/home/u", "user"));
    assert_eq!(uninstall("nixpkgs.hello", "/home/u", None), expected);
}

#[test]
fn single_steps() {
    assert_eq!(hm_switch("/h", None), switch_of("/h", "user"));
    assert_eq!(
        write_nix_module("/h", "nixpkgs.a", "x"),
        vec![
            NixStep::CreateDir("/h/.config/home-manager/apps".to_string()),
            NixStep::WriteFile(
                "/h/.config/home-manager/apps/nixpkgs.a.nix".to_string(),
                "x".to_string()
            ),
        ]
    );
    assert_eq!(
        delete_nix_module("/h", "a"),
        vec![NixStep::RemoveFile("/h/.config/home-manager/apps/a.nix".to_string())]
    );
}

#[test]
fn installed_means_the_module_exists() {
    let path = installed_module("nixpkgs.hello", Some("/h")).unwrap();
    assert_eq!(path, "/h/.config/home-manager/apps/hello.nix");
    let existing = vec!["/etc/passwd".to_string(), path];
    assert!(is_installed("hello", Some("/h"), &existing));
    assert!(is_installed("nixpkgs.hello", Some("/h"), &existing));
    assert!(!is_installed("hello", Some("/other"), &existing));
    assert!(!is_installed("hell", Some("/h"), &existing));
    assert!(!is_installed("hello", None, &existing));
    assert_eq!(installed_module("hello", None), None);
}

#[test]
fn installing_and_uninstalling_meet_at_one_file() {
    let mut files: Vec<String> = Vec::new();
    for step in install("a", "/h", None) {
        if let NixStep::WriteFile(path, _) = step {
            files.push(path);
        }
    }
    assert!(is_installed("a", Some("/h"), &files));
    for step in uninstall("a", "/h", None) {
        if let NixStep::RemoveFile(path) = step {
            files.retain(|f| *f != path);
        }
    }
    assert!(!is_installed("a", Some("/h"), &files));
}

#[test]
fn other_packages_keep_their_modules() {
    let path = |attr: &str| installed_module(attr, Some("/h")).unwrap();
    let mut existing = vec![path("vim")];
    assert!(is_installed("vim", Some("/h"), &existing));
    for step in install("nixpkgs.emacs", "/h", None) {
        if let NixStep::WriteFile(file, _) = step {
            existing.push(file);
        }
    }
    assert!(is_installed("emacs", Some("/h"), &existing));
    assert!(is_installed("vim", Some("/h"), &existing));
    assert!(!is_installed("vi", Some("/h"), &existing));
    for step in uninstall("emacs", "/h", None) {
        if let NixStep::RemoveFile(file) = step {
            existing.retain(|kept| *kept != file);
        }
    }
    assert!(!is_installed("emacs", Some("/h"), &existing));
    assert!(is_installed("vim", Some("/h"), &existing));
}
