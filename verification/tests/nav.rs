use mirror_store::app_id::AppId;
use mirror_store::backend::BackendName;
use mirror_store::nav::{Category, NavPage, ScrollContext};
use mirror_store::priority::priority;

#[test]
fn pages_in_order() {
    assert_eq!(
        NavPage::all(),
        &[NavPage::Explore, NavPage::Applets, NavPage::Installed, NavPage::Updates]
    );
    assert_eq!(NavPage::default(), NavPage::Explore);
}

#[test]
fn titles_are_translated() {
    let ids: Vec<String> =
        NavPage::all().iter().map(|page| page.title(|id| format!("<{}>", id))).collect();
    assert_eq!(ids, vec!["<explore>", "<applets>", "<installed-apps>", "<updates>"]);
}

#[test]
fn icons_of_pages() {
    let names: Vec<&str> = NavPage::all().iter().map(|page| page.icon().name).collect();
    assert_eq!(
        names,
        vec![
            "store-home-symbolic",
            "store-applets-symbolic",
            "store-installed-symbolic",
            "store-updates-symbolic"
        ]
    );
    assert_eq!(NavPage::Updates.icon().size, 16);
}

#[test]
fn only_applets_have_categories() {
    assert_eq!(NavPage::Applets.categories(), Some(&[Category::CosmicApplet][..]));
    assert_eq!(NavPage::Explore.categories(), None);
    assert_eq!(NavPage::Installed.categories(), None);
    assert_eq!(NavPage::Updates.categories(), None);
}

#[test]
fn identifiers_of_categories() {
    let all = [
        (Category::AudioVideo, "AudioVideo"),
        (Category::Development, "Development"),
        (Category::Education, "Education"),
        (Category::Game, "Game"),
        (Category::Graphics, "Graphics"),
        (Category::Network, "Network"),
        (Category::Office, "Office"),
        (Category::Science, "Science"),
        (Category::Settings, "Settings"),
        (Category::System, "System"),
        (Category::Utility, "Utility"),
        (Category::CosmicApplet, "CosmicApplet"),
    ];
    for (category, id) in all {
        assert_eq!(category.id(), id);
    }
}

#[test]
fn removable_contexts() {
    let nav = ScrollContext::NavPage;
    let explore = ScrollContext::ExplorePage;
    let results = ScrollContext::SearchResults;
    let selected = ScrollContext::Selected;
    assert_eq!(nav.unused_contexts(), &[selected, results, explore]);
    assert_eq!(explore.unused_contexts(), &[selected, results]);
    assert_eq!(results.unused_contexts(), &[selected]);
    assert!(selected.unused_contexts().is_empty());
}

#[test]
fn priorities() {
    let id = AppId::new("org.example.App");
    assert_eq!(priority(BackendName::FlatpakUser, "flathub", &id), 3);
    assert_eq!(priority(BackendName::FlatpakUser, "fedora", &id), 2);
    assert_eq!(priority(BackendName::FlatpakSystem, "flathub", &id), 0);
    assert_eq!(priority(BackendName::Catalog, "flathub", &id), 0);
    assert_eq!(priority(BackendName::Nix, "nixpkgs", &id), 0);
}

#[test]
fn backend_names() {
    for (name, text, flatpak) in [
        (BackendName::Catalog, "catalog", false),
        (BackendName::FlatpakUser, "flatpak-user", true),
        (BackendName::FlatpakSystem, "flatpak-system", true),
        (BackendName::Nix, "nix", false),
    ] {
        assert_eq!(name.as_str(), text);
        assert_eq!(name.to_string(), text);
        assert_eq!(BackendName::from_str(text), Ok(name));
        assert_eq!(text.parse::<BackendName>(), Ok(name));
        assert_eq!(name.is_flatpak(), flatpak);
    }
    assert_eq!(
        BackendName::from_str("Nix"),
        Err("unknown backend name: Nix".to_string())
    );
    assert_eq!("".parse::<BackendName>(), Err("unknown backend name: ".to_string()));
    assert!(BackendName::Catalog < BackendName::FlatpakUser);
}

#[test]
fn ids_keep_their_text() {
    assert_eq!(AppId::new("org.example.App").raw(), "org.example.App");
    assert_eq!(AppId::new("a"), AppId::new("a"));
    assert_ne!(AppId::new("a"), AppId::new("b"));
}
