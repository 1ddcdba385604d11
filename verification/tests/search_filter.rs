use mirror_store::app_info::AppInfo;
use mirror_store::search_filter::{
    filter_panel, ChipStyle, ContentRating, FilterSource, SearchFilter,
};

fn info(source_id: &str, categories: &[&str], rating: &str, verified: bool) -> AppInfo {
    AppInfo {
        source_id: source_id.to_string(),
        categories: categories.iter().map(|c| c.to_string()).collect(),
        content_rating: rating.to_string(),
        is_verified: verified,
        ..AppInfo::default()
    }
}

#[test]
fn empty_filter_lets_all_pass() {
    let filter = SearchFilter::default();
    assert!(filter.is_empty());
    assert!(filter.matches(&info("flathub", &[], "intense", false), false));
    assert!(filter.matches(&info("nixpkgs", &["Game"], "", true), true));
}

#[test]
fn any_criterion_makes_a_filter_not_empty() {
    let filters = vec![
        SearchFilter { source: Some(FilterSource::Nix), ..SearchFilter::default() },
        SearchFilter { category: Some(String::new()), ..SearchFilter::default() },
        SearchFilter { content_rating: Some(ContentRating::Intense), ..SearchFilter::default() },
        SearchFilter { verified_only: true, ..SearchFilter::default() },
        SearchFilter { installed_only: true, ..SearchFilter::default() },
    ];
    for filter in filters {
        assert!(!filter.is_empty());
    }
}

#[test]
fn sources_exclude_each_other() {
    let flatpak = SearchFilter { source: Some(FilterSource::Flatpak), ..SearchFilter::default() };
    let nix = SearchFilter { source: Some(FilterSource::Nix), ..SearchFilter::default() };
    let from_flathub = info("flathub", &[], "all", false);
    let from_nixpkgs = info("nixpkgs", &[], "all", false);
    assert!(flatpak.matches(&from_flathub, false));
    assert!(!flatpak.matches(&from_nixpkgs, false));
    assert!(!nix.matches(&from_flathub, false));
    assert!(nix.matches(&from_nixpkgs, false));
}

#[test]
fn categories_are_compared_exactly() {
    let filter = SearchFilter { category: Some("Game".to_string()), ..SearchFilter::default() };
    assert!(filter.matches(&info("flathub", &["Audio", "Game"], "all", false), false));
    assert!(!filter.matches(&info("flathub", &["game", "Games"], "all", false), false));
}

#[test]
fn content_ratings() {
    let passes = |limit: ContentRating, rating: &str| {
        SearchFilter { content_rating: Some(limit), ..SearchFilter::default() }
            .matches(&info("flathub", &[], rating, false), false)
    };
    for (rating, all, moderate) in [
        ("all", true, true),
        ("moderate", false, true),
        ("intense", false, false),
        ("unknown", false, false),
        ("", false, false),
    ] {
        assert_eq!(passes(ContentRating::All, rating), all);
        assert_eq!(passes(ContentRating::Moderate, rating), moderate);
        assert!(passes(ContentRating::Intense, rating));
    }
}

#[test]
fn verified_and_installed() {
    let verified = SearchFilter { verified_only: true, ..SearchFilter::default() };
    assert!(verified.matches(&info("flathub", &[], "all", true), false));
    assert!(!verified.matches(&info("flathub", &[], "all", false), true));
    let installed = SearchFilter { installed_only: true, ..SearchFilter::default() };
    assert!(installed.matches(&info("flathub", &[], "all", false), true));
    assert!(!installed.matches(&info("flathub", &[], "all", true), false));
}

#[test]
fn panel_of_the_empty_filter() {
    let panel = filter_panel(&SearchFilter::default());
    let labels: Vec<&str> = panel.source.iter().map(|c| c.label).collect();
    assert_eq!(labels, vec!["All", "Flatpak", "Nix"]);
    assert_eq!(panel.source[0].style, ChipStyle::Suggested);
    assert_eq!(panel.source[0].on_press, None);
    assert_eq!(panel.source[1].style, ChipStyle::Standard);
    assert_eq!(
        panel.source[1].on_press,
        Some(SearchFilter { source: Some(FilterSource::Flatpak), ..SearchFilter::default() })
    );
    assert_eq!(panel.verified.len(), 1);
    assert_eq!(panel.verified[0].label, "Verified");
    assert_eq!(
        panel.verified[0].on_press,
        Some(SearchFilter { verified_only: true, ..SearchFilter::default() })
    );
}

#[test]
fn panel_of_a_filter_with_criteria() {
    let filter = SearchFilter {
        source: Some(FilterSource::Nix),
        category: Some("Game".to_string()),
        content_rating: Some(ContentRating::All),
        verified_only: true,
        installed_only: true,
    };
    let panel = filter_panel(&filter);
    assert_eq!(panel.source[0].style, ChipStyle::Standard);
    assert_eq!(panel.source[0].on_press, Some(SearchFilter { source: None, ..filter.clone() }));
    assert_eq!(panel.source[2].style, ChipStyle::Suggested);
    assert_eq!(panel.source[2].on_press, None);
    assert_eq!(panel.verified.len(), 2);
    assert_eq!(panel.verified[0].label, "Verified ✓");
    assert_eq!(panel.verified[0].style, ChipStyle::Suggested);
    assert_eq!(panel.verified[0].on_press, None);
    assert_eq!(panel.verified[1].label, "×");
    assert_eq!(panel.verified[1].style, ChipStyle::Destructive);
    assert_eq!(
        panel.verified[1].on_press,
        Some(SearchFilter { verified_only: false, ..filter.clone() })
    );
}
