use mirror_store::app_id::AppId;
use mirror_store::app_info::{AppIcon, AppInfo, AppUrl};
use mirror_store::backend::catalog::{read_package, AppMapRow, CatalogBackend, CatalogTables};
use mirror_store::backend::desktop::{DesktopFileInfo, DesktopFiles, IconNames};
use mirror_store::backend::infos::{build_flatpak_info, build_nix_info, FlatpakRow, NixRow};
use mirror_store::backend::installed::{
    managed_list_command, system_list_command, IconChoice, InstalledApp,
};
use std::path::PathBuf;
use std::sync::Arc;

fn nix_row(attr: &str, pname: &str) -> NixRow {
    NixRow {
        attr: attr.to_string(),
        pname: pname.to_string(),
        version: "1.0".to_string(),
        description: "Short".to_string(),
        long_description: String::new(),
        homepage: String::new(),
        license: String::new(),
    }
}

fn flatpak_row(app_id: &str) -> FlatpakRow {
    FlatpakRow {
        app_id: app_id.to_string(),
        name: "Name".to_string(),
        summary: "Summary".to_string(),
        description: "Description".to_string(),
        version: "2".to_string(),
        developer: "Dev".to_string(),
        license: "MIT".to_string(),
        homepage: "https://h".to_string(),
        bugtracker_url: String::new(),
        donation_url: "https://d".to_string(),
        categories: r#"["Game"]"#.to_string(),
        icon_name: "icon".to_string(),
        icon_local_path: String::new(),
        screenshots: "[]".to_string(),
        content_rating: "moderate".to_string(),
        flatpak_ref: "app/x".to_string(),
        releases_json: "[]".to_string(),
        verified: 1,
        monthly_downloads: 42,
    }
}

fn map_row(flatpak_id: Option<&str>, nix_attr: Option<&str>) -> Option<AppMapRow> {
    Some(AppMapRow {
        flatpak_id: flatpak_id.map(str::to_string),
        nix_attr: nix_attr.map(str::to_string),
    })
}

fn backend() -> CatalogBackend {
    CatalogBackend::new(PathBuf::from("/db"), PathBuf::from("/media"))
}

fn tables(
    nix: Vec<Option<NixRow>>,
    app_map: Vec<Option<AppMapRow>>,
    flatpak: Vec<Option<FlatpakRow>>,
) -> CatalogTables {
    CatalogTables {
        icons: IconNames::new(),
        desktop_files: DesktopFiles::new(),
        nix_packages: Ok(nix),
        app_map: Ok(app_map),
        flatpak_apps: Ok(flatpak),
    }
}

fn get(backend: &CatalogBackend, id: &str) -> Option<Arc<AppInfo>> {
    backend.info(&AppId::new(id)).cloned()
}

fn stock(info: &AppInfo) -> &str {
    match &info.icons[..] {
        [AppIcon::Stock(name)] => name,
        _ => panic!("no stock icon"),
    }
}

#[test]
fn new_catalog_is_empty() {
    let backend = backend();
    assert_eq!(backend.db_path(), &PathBuf::from("/db"));
    assert_eq!(backend.media_dir(), &PathBuf::from("/media"));
    assert!(backend.catalog_infos().unwrap().is_empty());
    assert!(backend.updates().is_empty());
    assert!(backend.file_packages("/x.flatpakref").is_empty());
}

#[test]
fn info_of_a_nix_package() {
    let mut row = nix_row("attr", "pname");
    row.homepage = "https://h".to_string();
    row.license = "GPL".to_string();
    row.long_description = "Long".to_string();
    let info = build_nix_info(&row, "icon", vec!["d".to_string()]);
    assert_eq!(info.source_id, "nixpkgs");
    assert_eq!(info.source_name, "nixpkgs");
    assert_eq!(info.origin_opt, None);
    assert_eq!(info.name, "pname");
    assert_eq!(info.summary, "Short");
    assert_eq!(info.description, "Long");
    assert_eq!(info.license_opt.as_deref(), Some("GPL"));
    assert_eq!(info.pkgnames, vec!["attr"]);
    assert_eq!(info.desktop_ids, vec!["d"]);
    assert_eq!(info.content_rating, "all");
    assert_eq!(stock(&info), "icon");
    assert!(matches!(&info.urls[..], [AppUrl::Homepage(u)] if u == "https://h"));
    assert!(!info.is_verified);
    let bare = build_nix_info(&nix_row("attr", ""), "i", vec![]);
    assert_eq!(bare.name, "attr");
    assert_eq!(bare.description, "Short");
    assert_eq!(bare.license_opt, None);
    assert!(bare.urls.is_empty());
}

#[test]
fn long_descriptions_are_cut() {
    let mut row = nix_row("a", "a");
    row.description = "é".repeat(120);
    assert_eq!(build_nix_info(&row, "i", vec![]).summary, "é".repeat(120));
    row.description = "é".repeat(121);
    let info = build_nix_info(&row, "i", vec![]);
    assert_eq!(info.summary, format!("{}…", "é".repeat(117)));
    assert_eq!(info.description, "é".repeat(121));
}

#[test]
fn info_of_a_flatpak_application() {
    let info = build_flatpak_info(&flatpak_row("org.a.B"));
    assert_eq!(info.source_id, "flathub");
    assert_eq!(info.source_name, "Flathub");
    assert_eq!(info.origin_opt.as_deref(), Some("flathub"));
    assert_eq!(info.name, "Name");
    assert_eq!(info.summary, "Summary");
    assert_eq!(info.developer_name, "Dev");
    assert_eq!(info.description, "Description");
    assert_eq!(info.license_opt.as_deref(), Some("MIT"));
    assert_eq!(info.categories, vec!["Game"]);
    assert_eq!(info.desktop_ids, vec!["org.a.B"]);
    assert_eq!(info.flatpak_refs, vec!["app/x"]);
    assert!(info.pkgnames.is_empty());
    assert_eq!(stock(&info), "icon");
    assert!(matches!(&info.urls[..], [AppUrl::Homepage(_), AppUrl::Donation(_)]));
    assert_eq!(info.monthly_downloads, 42);
    assert!(info.is_verified);
    assert_eq!(info.content_rating, "moderate");
}

#[test]
fn icons_of_a_flatpak_application() {
    let mut row = flatpak_row("a");
    row.icon_local_path = "/p.png".to_string();
    let info = build_flatpak_info(&row);
    assert!(
        matches!(&info.icons[..], [AppIcon::Local(p, Some(128), Some(128), None)] if p == "/p.png")
    );
    row.icon_local_path.clear();
    row.icon_name.clear();
    assert_eq!(stock(&build_flatpak_info(&row)), "package-x-generic");
}

#[test]
fn lists_of_a_flatpak_application() {
    let mut row = flatpak_row("a");
    row.screenshots = r#"[
        {"local_path": "/l.png", "url": "https://r", "caption": "One"},
        {"local_path": "", "url": "https://r2"},
        {"caption": "nothing"},
        7
    ]"#
    .to_string();
    row.releases_json = r#"[
        {"timestamp": 5, "version": "1", "description": "First"},
        {"timestamp": 0, "description": ""},
        {"timestamp": "x", "version": 3}
    ]"#
    .to_string();
    let info = build_flatpak_info(&row);
    let screenshots: Vec<(&str, &str)> =
        info.screenshots.iter().map(|s| (s.caption.as_str(), s.url.as_str())).collect();
    assert_eq!(screenshots, vec![("One", "/l.png"), ("", "https://r2")]);
    let releases: Vec<(Option<i64>, &str, Option<&str>)> = info
        .releases
        .iter()
        .map(|r| (r.timestamp, r.version.as_str(), r.description.as_deref()))
        .collect();
    assert_eq!(
        releases,
        vec![(Some(5), "1", Some("First")), (None, "", None), (None, "", None)]
    );
    assert!(info.releases.iter().all(|r| r.url.is_none()));
}

#[test]
fn broken_lists_and_odd_counts() {
    let mut row = flatpak_row("a");
    row.categories = "[".to_string();
    row.screenshots = "{}".to_string();
    row.releases_json = "".to_string();
    row.verified = 0;
    row.monthly_downloads = -1;
    row.flatpak_ref.clear();
    row.license.clear();
    row.homepage.clear();
    row.bugtracker_url = "https://b".to_string();
    row.donation_url.clear();
    let info = build_flatpak_info(&row);
    assert!(info.categories.is_empty());
    assert!(info.screenshots.is_empty());
    assert!(info.releases.is_empty());
    assert!(!info.is_verified);
    assert_eq!(info.monthly_downloads, u64::MAX);
    assert!(info.flatpak_refs.is_empty());
    assert_eq!(info.license_opt, None);
    assert!(matches!(&info.urls[..], [AppUrl::BugTracker(_)]));
    row.monthly_downloads = i64::MIN;
    assert_eq!(build_flatpak_info(&row).monthly_downloads, i64::MIN as u64);
}

#[test]
fn icons_of_nix_packages() {
    let mut loaded = tables(
        vec![
            Some(nix_row("a1", "named")),
            Some(nix_row("themed", "p2")),
            Some(nix_row("a3", "")),
            Some(nix_row("a4", "with-file")),
            Some(nix_row("file-attr", "p5")),
        ],
        vec![],
        vec![],
    );
    loaded.icons.collect_icon_stems(&vec![
        "named.png".to_string(),
        "themed.svg".to_string(),
        "from-file.svg".to_string(),
        ".png".to_string(),
    ]);
    loaded.desktop_files.add_file("With-File.desktop", Some("[Desktop Entry]\nIcon=from-file"));
    loaded.desktop_files.add_file("file-attr.desktop", Some("[Desktop Entry]\nIcon=absent"));
    let mut backend = backend();
    assert_eq!(backend.load_caches(Ok(loaded)), Ok(()));
    let icon = |id: &str| stock(&get(&backend, id).unwrap()).to_string();
    assert_eq!(icon("a1"), "named");
    assert_eq!(icon("themed"), "themed");
    assert_eq!(icon("a3"), "package-x-generic");
    assert_eq!(icon("a4"), "from-file");
    assert_eq!(icon("file-attr"), "package-x-generic");
    assert_eq!(get(&backend, "a4").unwrap().desktop_ids, vec!["With-File"]);
    assert_eq!(get(&backend, "file-attr").unwrap().desktop_ids, vec!["file-attr"]);
    assert!(get(&backend, "a1").unwrap().desktop_ids.is_empty());
}

#[test]
fn desktop_files_name_icons_and_ids() {
    let mut icons = IconNames::new();
    icons.collect_icon_stems(&vec!["themed.svg".to_string(), "p.svg".to_string()]);
    let file = |icon: Option<&str>| DesktopFileInfo {
        desktop_stem: "stem".to_string(),
        icon_name: icon.map(str::to_string),
    };
    let row = nix_row("a", "p");
    let info = read_package(&row, &icons, Some(&file(Some("themed"))));
    assert_eq!(stock(&info), "themed");
    assert_eq!(info.desktop_ids, vec!["stem"]);
    assert_eq!(stock(&read_package(&row, &icons, Some(&file(Some("gone"))))), "p");
    assert_eq!(stock(&read_package(&row, &icons, Some(&file(None)))), "p");
    assert!(read_package(&row, &icons, None).desktop_ids.is_empty());
}

#[test]
fn flatpak_applications_replace_related_packages() {
    let mut backend = backend();
    let result = backend.load_caches(Ok(tables(
        vec![Some(nix_row("gimp", "gimp")), None, Some(nix_row("hello", "hello"))],
        vec![
            map_row(Some("org.gimp.GIMP"), Some("gimp")),
            map_row(None, Some("hello")),
            map_row(Some("org.b.C"), None),
            None,
        ],
        vec![Some(flatpak_row("org.gimp.GIMP")), Some(flatpak_row("org.b.C")), None],
    )));
    assert_eq!(result, Ok(()));
    assert_eq!(backend.infos.len(), 3);
    let gimp = get(&backend, "org.gimp.GIMP").unwrap();
    assert_eq!(gimp.source_id, "flathub");
    assert_eq!(gimp.pkgnames, vec!["gimp"]);
    assert!(get(&backend, "gimp").is_none());
    assert_eq!(get(&backend, "hello").unwrap().source_id, "nixpkgs");
    assert!(get(&backend, "org.b.C").unwrap().pkgnames.is_empty());
}

#[test]
fn later_rows_count() {
    let mut backend = backend();
    let result = backend.load_caches(Ok(tables(
        vec![
            Some(nix_row("old", "")),
            Some(nix_row("new", "")),
            Some(nix_row("both", "first")),
            Some(nix_row("both", "second")),
            Some(nix_row("x", "")),
        ],
        vec![map_row(Some("org.a.B"), Some("old")), map_row(Some("org.a.B"), Some("new"))],
        vec![Some(flatpak_row("x"))],
    )));
    assert_eq!(result, Ok(()));
    assert!(get(&backend, "old").is_some());
    assert!(get(&backend, "new").is_none());
    assert_eq!(get(&backend, "both").unwrap().name, "second");
    assert_eq!(get(&backend, "x").unwrap().source_id, "flathub");
}

#[test]
fn applications_stay_also_under_related_attributes() {
    let mut backend = backend();
    let rows =
        vec![map_row(Some("same"), Some("same")), map_row(Some("org.y.Y"), Some("x"))];
    let packages = vec![Some(nix_row("same", "")), Some(nix_row("x", ""))];
    let apps = vec![Some(flatpak_row("same")), Some(flatpak_row("x"))];
    assert_eq!(backend.load_caches(Ok(tables(packages, rows, apps))), Ok(()));
    let same = get(&backend, "same").unwrap();
    assert_eq!(same.source_id, "flathub");
    assert_eq!(same.pkgnames, vec!["same"]);
    let x = get(&backend, "x").unwrap();
    assert_eq!(x.source_id, "flathub");
    assert!(x.pkgnames.is_empty());
}

#[test]
fn packages_go_also_if_their_application_is_not_there() {
    let mut backend = backend();
    let rows = vec![map_row(Some("org.y.Y"), Some("x"))];
    let packages = vec![Some(nix_row("x", ""))];
    assert_eq!(backend.load_caches(Ok(tables(packages, rows, vec![]))), Ok(()));
    assert!(get(&backend, "x").is_none());
}

#[test]
fn failed_loads_keep_what_was_loaded_so_far() {
    let mut backend = backend();
    assert_eq!(
        backend.load_caches(Ok(tables(vec![Some(nix_row("a", ""))], vec![], vec![]))),
        Ok(())
    );
    assert_eq!(backend.load_caches(Err("cannot open".to_string())), Err("cannot open".to_string()));
    assert!(get(&backend, "a").is_some());

    let mut no_apps = tables(vec![Some(nix_row("b", ""))], vec![], vec![]);
    no_apps.flatpak_apps = Err("no flatpak_apps".to_string());
    assert_eq!(backend.load_caches(Ok(no_apps)), Err("no flatpak_apps".to_string()));
    assert!(get(&backend, "a").is_none());
    assert!(get(&backend, "b").is_some());

    let mut no_map = tables(vec![Some(nix_row("c", ""))], vec![], vec![Some(flatpak_row("f"))]);
    no_map.app_map = Err("no app_map".to_string());
    no_map.flatpak_apps = Err("not this one".to_string());
    assert_eq!(backend.load_caches(Ok(no_map)), Err("no app_map".to_string()));
    assert!(get(&backend, "c").is_some());
    assert!(get(&backend, "f").is_none());

    let mut no_nix = tables(vec![], vec![], vec![Some(flatpak_row("f"))]);
    no_nix.nix_packages = Err("no nix_packages".to_string());
    assert_eq!(backend.load_caches(Ok(no_nix)), Err("no nix_packages".to_string()));
    assert_eq!(backend.infos.len(), 0);
}

fn with_icons(icons: Vec<AppIcon>) -> AppInfo {
    AppInfo { icons, ..AppInfo::default() }
}

#[test]
fn first_usable_icon_is_shown() {
    let backend = backend();
    let local = |p: &str| AppIcon::Local(p.to_string(), None, None, None);
    let named = |n: &str| AppIcon::Stock(n.to_string());
    let files = vec!["/there.png".to_string(), String::new()];
    let generic = Some(IconChoice::Named("package-x-generic".to_string(), 128));
    assert_eq!(backend.resolve_icon(&with_icons(vec![]), &files), generic);
    assert_eq!(
        backend.resolve_icon(&with_icons(vec![named("package-x-generic"), local("")]), &files),
        generic
    );
    assert_eq!(
        backend.resolve_icon(
            &with_icons(vec![local("/gone.png"), local("/there.png"), named("x")]),
            &files
        ),
        Some(IconChoice::File("/there.png".to_string()))
    );
    assert_eq!(
        backend.resolve_icon(&with_icons(vec![named("package-x-generic"), named("x")]), &files),
        Some(IconChoice::Named("x".to_string(), 128))
    );
}

#[test]
fn commands_that_list_applications() {
    let managed = managed_list_command();
    assert_eq!(managed.program, "mirror-os");
    assert_eq!(managed.args, vec!["list", "--json"]);
    let system = system_list_command();
    assert_eq!(system.program, "flatpak");
    assert_eq!(system.args, vec!["list", "--system", "--app", "--columns=application"]);
}

#[test]
fn installed_applications_are_listed_once() {
    let mut backend = backend();
    assert_eq!(
        backend.load_caches(Ok(tables(
            vec![Some(nix_row("hello", "hello"))],
            vec![],
            vec![Some(flatpak_row("org.a.B"))]
        ))),
        Ok(())
    );
    let managed = br#"[
        {"source_id": "hello", "display_name": "ignored", "version": "2.1", "source": "nix"},
        {"source_id": "custom", "display_name": "Custom", "version": "3", "source": "own"},
        {"source_id": ""},
        {"display_name": "no id"},
        {"source_id": "custom", "version": "4"},
        5
    ]"#;
    let system = b"org.a.B\n  hello \r\n\norg.x.Y\norg.x.Y\n";
    let apps: Vec<InstalledApp> = backend.installed(Some(&managed[..]), Some(&system[..]));
    let found: Vec<(&str, &str, &str, &str)> = apps
        .iter()
        .map(|a| {
            (a.id.raw(), a.version.as_str(), a.info.name.as_str(), a.info.source_name.as_str())
        })
        .collect();
    assert_eq!(
        found,
        vec![
            ("hello", "2.1", "hello", "nixpkgs"),
            ("custom", "3", "Custom", "own"),
            ("org.a.B", "", "Name", "Flathub"),
            ("org.x.Y", "", "", "flathub"),
        ]
    );
    assert!(Arc::ptr_eq(&apps[0].info, backend.info(&AppId::new("hello")).unwrap()));
    assert_eq!(apps[1].info.source_id, "custom");
    assert_eq!(stock(&apps[1].info), "package-x-generic");
    assert_eq!(apps[3].info.source_id, "org.x.Y");
    assert_eq!(stock(&apps[3].info), "package-x-generic");
}

#[test]
fn lists_that_cannot_be_read_are_empty() {
    let backend = backend();
    assert!(backend.installed(None, None).is_empty());
    assert!(backend.installed(Some(&b"{}"[..]), Some(&b"\n \n"[..])).is_empty());
    let lossy = backend.installed(Some(&b"["[..]), Some(&b"a\xffb"[..]));
    assert_eq!(lossy.len(), 1);
    assert_eq!(lossy[0].id.raw(), "a\u{fffd}b");
}

#[test]
fn packages_of_installed_applications() {
    let backend = backend();
    let apps = backend.installed(Some(&br#"[{"source_id": "a", "version": "7"}]"#[..]), None);
    for app in apps {
        let package = backend.package(app, &Vec::new());
        assert_eq!(package.id.raw(), "a");
        assert_eq!(package.version, "7");
        assert_eq!(package.icon, IconChoice::Named("package-x-generic".to_string(), 128));
        assert_eq!(package.info.source_id, "a");
        assert_eq!(package.extra.len(), 0);
    }
}
