use mirror_store::backend::desktop::{
    desktop_icon_field, desktop_search_dirs, desktop_stem, icon_theme_roots,
    scan_available_icon_names, scan_nix_desktop_files, DesktopFileInfo, DesktopFiles, FoundFile,
    IconNames, ScanDir,
};

#[test]
fn directories_to_scan() {
    assert_eq!(
        icon_theme_roots(true),
        vec![
            ScanDir::System("/usr/share/icons/hicolor"),
            ScanDir::Home(".nix-profile/share/icons/hicolor"),
            ScanDir::Home(".local/share/icons/hicolor"),
        ]
    );
    assert_eq!(icon_theme_roots(false), vec![ScanDir::System("/usr/share/icons/hicolor")]);
    assert_eq!(
        desktop_search_dirs(true),
        vec![
            ScanDir::Home(".nix-profile/share/applications"),
            ScanDir::Home(".local/share/applications"),
            ScanDir::System("/usr/share/applications"),
        ]
    );
    assert_eq!(desktop_search_dirs(false), vec![ScanDir::System("/usr/share/applications")]);
}

#[test]
fn names_of_icons() {
    let mut names = IconNames::new();
    names.collect_icon_stems(&vec!["gimp.png".to_string(), "org.a.B.svg".to_string()]);
    names.collect_icon_stems(&vec!["plain".to_string()]);
    for name in ["gimp", "org.a.B", "plain"] {
        assert!(names.contains(name));
    }
    for name in ["gimp.png", "org.a", ""] {
        assert!(!names.contains(name));
    }
}

#[test]
fn stems_of_desktop_files_agree_with_std() {
    for name in [
        "winboard.desktop",
        "org.a.B.desktop",
        ".desktop",
        "..desktop",
        "desktop",
        "a.desktop.bak",
        "a.Desktop",
        "a",
        "x.desktop.desktop",
        "Ü.desktop",
    ] {
        let path = std::path::Path::new(name);
        let expected = if path.extension().and_then(|e| e.to_str()) == Some("desktop") {
            path.file_stem().map(|s| s.to_string_lossy().into_owned())
        } else {
            None
        };
        assert_eq!(desktop_stem(name), expected, "{:?}", name);
    }
}

#[test]
fn icon_of_the_entry() {
    let content = "# c\n[Desktop Entry]\nName=X\n  Icon = no\n Icon=  winboard  \r\nIcon=second\n";
    assert_eq!(desktop_icon_field(content), Some("winboard".to_string()));
    assert_eq!(desktop_icon_field("[Desktop Entry]\nIcon=\nIcon=b"), Some("b".to_string()));
}

#[test]
fn icons_of_other_sections_do_not_count() {
    assert_eq!(desktop_icon_field("Icon=before\n[Desktop Entry]\nName=X"), None);
    assert_eq!(desktop_icon_field("[Desktop Entry]\n[Desktop Action x]\nIcon=y"), None);
    assert_eq!(
        desktop_icon_field("[Desktop Entry]\n[Other]\n[Desktop Entry]\nIcon=late"),
        None
    );
    assert_eq!(
        desktop_icon_field("[Other]\nIcon=a\n[Desktop Entry]\n[Desktop Entry]\nIcon=b"),
        Some("b".to_string())
    );
    assert_eq!(desktop_icon_field(""), None);
}

#[test]
fn first_desktop_file_of_a_name_wins() {
    let mut files = DesktopFiles::new();
    files.add_file("WinBoard.desktop", Some("[Desktop Entry]\nIcon=wb"));
    files.add_file("winboard.desktop", Some("[Desktop Entry]\nIcon=other"));
    files.add_file("notes.txt", Some("[Desktop Entry]\nIcon=n"));
    files.add_file("unread.desktop", None);
    let file = files.find("WINBOARD", "x").unwrap();
    assert_eq!(file.desktop_stem, "WinBoard");
    assert_eq!(file.icon_name.as_deref(), Some("wb"));
    assert!(files.find("notes", "notes.txt").is_none());
    assert_eq!(files.find("unread", "").unwrap().icon_name, None);
}

#[test]
fn package_name_comes_before_attribute() {
    let mut files = DesktopFiles::new();
    files.add_file("one.desktop", None);
    files.add_file("two.desktop", None);
    files.add_file("ÄÖ.desktop", None);
    assert_eq!(files.find("one", "two").unwrap().desktop_stem, "one");
    assert_eq!(files.find("none", "Two").unwrap().desktop_stem, "two");
    assert_eq!(files.find("äö", "").unwrap().desktop_stem, "ÄÖ");
    assert!(files.find("none", "neither").is_none());
}

#[test]
fn entries_stay_under_their_keys() {
    let entry = |stem: &str| DesktopFileInfo { desktop_stem: stem.to_string(), icon_name: None };
    let mut files = DesktopFiles::new();
    files.add_entry("k".to_string(), entry("first"));
    files.add_entry("k".to_string(), entry("second"));
    files.add_entry("l".to_string(), entry("third"));
    assert_eq!(files.find_entry("k", "l").unwrap().desktop_stem, "first");
    assert_eq!(files.find_entry("x", "l").unwrap().desktop_stem, "third");
    assert!(files.find_entry("K", "x").is_none());
}

fn found(name: &str, content: Option<&str>) -> FoundFile {
    FoundFile { name: name.to_string(), content: content.map(|text| text.to_string()) }
}

#[test]
fn scans_keep_the_earliest_files() {
    let files = scan_nix_desktop_files(&vec![
        found("readme", Some("[Desktop Entry]\nIcon=r")),
        found("Gimp.desktop", Some("[Desktop Entry]\nIcon=profile")),
        found("vim.desktop", None),
        found("gimp.desktop", Some("[Desktop Entry]\nIcon=system")),
        found("VIM.desktop", Some("[Desktop Entry]\nIcon=vim")),
        found("only-system.desktop", Some("[Desktop Entry]\nIcon=s")),
    ]);
    let entry = |key: &str| {
        files.find_entry(key, key).map(|f| (f.desktop_stem.as_str(), f.icon_name.as_deref()))
    };
    assert_eq!(entry("gimp"), Some(("Gimp", Some("profile"))));
    assert_eq!(entry("vim"), Some(("vim", None)));
    assert_eq!(entry("only-system"), Some(("only-system", Some("s"))));
    assert_eq!(entry("readme"), None);
    assert_eq!(entry("Gimp"), None);
    assert!(scan_nix_desktop_files(&vec![]).find_entry("gimp", "vim").is_none());
}

#[test]
fn icons_of_all_directories() {
    let names = |list: &[&str]| list.iter().map(|s| s.to_string()).collect::<Vec<String>>();
    let icons = scan_available_icon_names(&vec![
        names(&["gimp.png", "vim.svg"]),
        names(&[]),
        names(&["gimp.svg", "plain"]),
    ]);
    for name in ["gimp", "vim", "plain"] {
        assert!(icons.contains(name));
    }
    assert!(!icons.contains("gimp.png"));
    assert!(!icons.contains("emacs"));
}
