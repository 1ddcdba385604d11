//! From the rows of the catalog to what is known of an application.

use crate::app_info::{
    icon_views, release_views, screenshot_views, url_views, AppIcon, AppInfo, AppKind, AppRelease,
    AppScreenshot, AppUrl, IconView, InfoView, ReleaseView, ScreenshotView, UrlView, GENERIC_ICON,
};
use crate::json::{
    array_items, int_field, items_or_none, parse_json_strings, parse_text, strings_or_none,
    text_field, text_json, text_or_empty, text_strings, trees, Json, JsonTree,
};
use crate::text::{chars_of, opt_text, text_of, texts};
use vstd::prelude::*;

verus! {

/// A row of the table of Nix packages.
#[derive(Clone, Debug)]
pub struct NixRow {
    pub attr: String,
    pub pname: String,
    pub version: String,
    pub description: String,
    pub long_description: String,
    pub homepage: String,
    pub license: String,
}

/// A row of the table of Flatpak applications.
#[derive(Clone, Debug)]
pub struct FlatpakRow {
    pub app_id: String,
    pub name: String,
    pub summary: String,
    pub description: String,
    pub version: String,
    pub developer: String,
    pub license: String,
    pub homepage: String,
    pub bugtracker_url: String,
    pub donation_url: String,
    /// A JSON list of strings
    pub categories: String,
    pub icon_name: String,
    pub icon_local_path: String,
    /// A JSON list of objects
    pub screenshots: String,
    pub content_rating: String,
    pub flatpak_ref: String,
    /// A JSON list of objects
    pub releases_json: String,
    /// Zero if the application is not verified
    pub verified: i64,
    pub monthly_downloads: i64,
}

/// The text, unless it is empty.
pub open spec fn unless_empty(s: Seq<char>) -> Option<Seq<char>> {
    if s.len() > 0 {
        Some(s)
    } else {
        None
    }
}

/// The first text, or the second if the first is empty.
pub open spec fn first_of(a: Seq<char>, b: Seq<char>) -> Seq<char> {
    if a.len() > 0 {
        a
    } else {
        b
    }
}

/// The summary for a description: the description, cut to fit 120 characters.
pub open spec fn summary_of(description: Seq<char>) -> Seq<char> {
    if description.len() <= 120 {
        description
    } else {
        description.take(117).push('…')
    }
}

/// What is known of a Nix package.
pub open spec fn nix_info(row: NixRow, icon_name: Seq<char>, desktop_ids: Seq<Seq<char>>) -> InfoView {
    InfoView {
        source_id: "nixpkgs"@,
        source_name: "nixpkgs"@,
        origin_opt: None,
        name: first_of(row.pname@, row.attr@),
        summary: summary_of(row.description@),
        kind: AppKind::DesktopApplication,
        developer_name: Seq::empty(),
        description: first_of(row.long_description@, row.description@),
        license_opt: unless_empty(row.license@),
        pkgnames: seq![row.attr@],
        package_paths: Seq::empty(),
        categories: Seq::empty(),
        desktop_ids,
        flatpak_refs: Seq::empty(),
        icons: seq![IconView::Stock(icon_name)],
        provides: Seq::empty(),
        releases: Seq::empty(),
        screenshots: Seq::empty(),
        urls: if row.homepage@.len() > 0 {
            seq![UrlView::Homepage(row.homepage@)]
        } else {
            Seq::empty()
        },
        monthly_downloads: 0,
        is_verified: false,
        content_rating: "all"@,
    }
}

/// The text, unless it is empty.
fn some_unless_empty(s: &str) -> (r: Option<String>)
    ensures
        opt_text(r) == unless_empty(s@),
{
    if s.is_empty() {
        None
    } else {
        Some(s.to_owned())
    }
}

/// The first text, or the second if the first is empty.
fn first_or(a: &str, b: &str) -> (r: String)
    ensures
        r@ == first_of(a@, b@),
{
    if a.is_empty() {
        b.to_owned()
    } else {
        a.to_owned()
    }
}

/// A list of one text.
fn one_text(s: &str) -> (r: Vec<String>)
    ensures
        texts(r@) == seq![s@],
{
    let mut list: Vec<String> = Vec::new();
    list.push(s.to_owned());
    assert(texts(list@) =~= seq![s@]);
    list
}

/// The description, cut to fit 120 characters.
fn short_summary(description: &str) -> (r: String)
    ensures
        r@ == summary_of(description@),
{
    let cs = chars_of(description);
    if cs.len() <= 120 {
        description.to_owned()
    } else {
        let mut summary = text_of(&cs, 0, 117);
        assert(summary@ =~= description@.take(117));
        summary.push('…');
        summary
    }
}

/// What is known of a Nix package, given its icon and desktop files.
pub fn build_nix_info(row: &NixRow, icon_name: &str, desktop_ids: Vec<String>) -> (r: AppInfo)
    ensures
        r@ == nix_info(*row, icon_name@, texts(desktop_ids@)),
{
    let mut urls: Vec<AppUrl> = Vec::new();
    if !row.homepage.as_str().is_empty() {
        urls.push(AppUrl::Homepage(row.homepage.clone()));
    }
    let mut icons: Vec<AppIcon> = Vec::new();
    icons.push(AppIcon::Stock(icon_name.to_owned()));
    let r = AppInfo {
        source_id: "nixpkgs".to_owned(),
        source_name: "nixpkgs".to_owned(),
        origin_opt: None,
        name: first_or(row.pname.as_str(), row.attr.as_str()),
        summary: short_summary(row.description.as_str()),
        kind: AppKind::DesktopApplication,
        developer_name: String::new(),
        description: first_or(row.long_description.as_str(), row.description.as_str()),
        license_opt: some_unless_empty(row.license.as_str()),
        pkgnames: one_text(row.attr.as_str()),
        package_paths: Vec::new(),
        categories: Vec::new(),
        desktop_ids,
        flatpak_refs: Vec::new(),
        icons,
        provides: Vec::new(),
        releases: Vec::new(),
        screenshots: Vec::new(),
        urls,
        monthly_downloads: 0,
        is_verified: false,
        content_rating: "all".to_owned(),
    };
    assert(r@ =~= nix_info(*row, icon_name@, texts(desktop_ids@)));
    r
}

/// The screenshot that an item of the list of screenshots describes, if it names a picture. A
/// picture that is stored locally is preferred.
pub open spec fn screenshot_of(item: JsonTree) -> Option<ScreenshotView> {
    let url = first_of(text_or_empty(item, "local_path"@), text_or_empty(item, "url"@));
    if url.len() > 0 {
        Some(ScreenshotView { caption: text_or_empty(item, "caption"@), url })
    } else {
        None
    }
}

/// The screenshots that the items of a list describe, in order.
pub open spec fn screenshots_of(items: Seq<JsonTree>) -> Seq<ScreenshotView>
    decreases items.len(),
{
    if items.len() == 0 {
        Seq::empty()
    } else {
        match screenshot_of(items.last()) {
            Some(screenshot) => screenshots_of(items.drop_last()).push(screenshot),
            None => screenshots_of(items.drop_last()),
        }
    }
}

/// The release that an item of the list of releases describes.
pub open spec fn release_of(item: JsonTree) -> ReleaseView {
    ReleaseView {
        timestamp: match int_field(item, "timestamp"@) {
            Some(t) => if t > 0 {
                Some(t)
            } else {
                None
            },
            None => None,
        },
        version: text_or_empty(item, "version"@),
        description: match text_field(item, "description"@) {
            Some(s) => unless_empty(s),
            None => None,
        },
        url: None,
    }
}

/// The releases that the items of a list describe, in order.
pub open spec fn releases_of(items: Seq<JsonTree>) -> Seq<ReleaseView> {
    items.map_values(|item: JsonTree| release_of(item))
}

/// The icons of a Flatpak application: the picture that is stored locally, or else the stock icon
/// with the application's icon name, or else the generic one.
pub open spec fn flatpak_icons(row: FlatpakRow) -> Seq<IconView> {
    if row.icon_local_path@.len() > 0 {
        seq![IconView::Local(row.icon_local_path@, Some(128), Some(128), None)]
    } else if row.icon_name@.len() > 0 {
        seq![IconView::Stock(row.icon_name@)]
    } else {
        seq![IconView::Stock(GENERIC_ICON@)]
    }
}

/// The links of a Flatpak application.
pub open spec fn flatpak_urls(row: FlatpakRow) -> Seq<UrlView> {
    let homepage = if row.homepage@.len() > 0 {
        seq![UrlView::Homepage(row.homepage@)]
    } else {
        Seq::empty()
    };
    let bugtracker = if row.bugtracker_url@.len() > 0 {
        seq![UrlView::BugTracker(row.bugtracker_url@)]
    } else {
        Seq::empty()
    };
    let donation = if row.donation_url@.len() > 0 {
        seq![UrlView::Donation(row.donation_url@)]
    } else {
        Seq::empty()
    };
    homepage + bugtracker + donation
}

/// A count as the database stores it, its 64 bits read as an unsigned number.
pub open spec fn unsigned_count(count: i64) -> int {
    if count >= 0 {
        count as int
    } else {
        count + 0x1_0000_0000_0000_0000
    }
}

/// What is known of a Flatpak application, given the contents of its lists.
pub open spec fn flatpak_info(
    row: FlatpakRow,
    categories: Seq<Seq<char>>,
    screenshots: Seq<JsonTree>,
    releases: Seq<JsonTree>,
) -> InfoView {
    InfoView {
        source_id: "flathub"@,
        source_name: "Flathub"@,
        origin_opt: Some("flathub"@),
        name: row.name@,
        summary: row.summary@,
        kind: AppKind::DesktopApplication,
        developer_name: row.developer@,
        description: row.description@,
        license_opt: unless_empty(row.license@),
        pkgnames: Seq::empty(),
        package_paths: Seq::empty(),
        categories,
        desktop_ids: seq![row.app_id@],
        flatpak_refs: if row.flatpak_ref@.len() > 0 {
            seq![row.flatpak_ref@]
        } else {
            Seq::empty()
        },
        icons: flatpak_icons(row),
        provides: Seq::empty(),
        releases: releases_of(releases),
        screenshots: screenshots_of(screenshots),
        urls: flatpak_urls(row),
        monthly_downloads: unsigned_count(row.monthly_downloads) as u64,
        is_verified: row.verified != 0,
        content_rating: row.content_rating@,
    }
}

/// What is known of a Flatpak application, its lists read from their JSON texts. A text that is no
/// such list stands for an empty one.
pub open spec fn flatpak_info_of_row(row: FlatpakRow) -> InfoView {
    flatpak_info(
        row,
        strings_or_none(text_strings(row.categories@)),
        items_or_none(text_json(row.screenshots@)),
        items_or_none(text_json(row.releases_json@)),
    )
}

/// The screenshots that the items of a list describe.
fn read_screenshots(items: &Vec<Json>) -> (r: Vec<AppScreenshot>)
    ensures
        screenshot_views(r@) == screenshots_of(trees(items@)),
{
    let ghost all = trees(items@);
    let mut out: Vec<AppScreenshot> = Vec::new();
    let mut i: usize = 0;
    assert(screenshot_views(out@) =~= screenshots_of(all.take(0)));
    while i < items.len()
        invariant
            i <= items@.len(),
            all == trees(items@),
            screenshot_views(out@) == screenshots_of(all.take(i as int)),
        decreases items@.len() - i,
    {
        let ghost before = screenshot_views(out@);
        assert(all.take(i + 1).drop_last() =~= all.take(i as int));
        assert(all.take(i + 1).last() == items@[i as int]@);
        let item = &items[i];
        let local = item.text_or_empty("local_path");
        let remote = item.text_or_empty("url");
        let url = first_or(local.as_str(), remote.as_str());
        if !url.as_str().is_empty() {
            let screenshot = AppScreenshot { caption: item.text_or_empty("caption"), url };
            let ghost view = screenshot@;
            out.push(screenshot);
            assert(screenshot_views(out@) =~= before.push(view));
        }
        i = i + 1;
    }
    assert(all.take(i as int) =~= all);
    out
}

/// The release that an item of the list of releases describes.
fn read_release(item: &Json) -> (r: AppRelease)
    ensures
        r@ == release_of(item@),
{
    let timestamp = match item.integer("timestamp") {
        Some(t) => if t > 0 {
            Some(t)
        } else {
            None
        },
        None => None,
    };
    let description = match item.text("description") {
        Some(s) => some_unless_empty(s.as_str()),
        None => None,
    };
    AppRelease { timestamp, version: item.text_or_empty("version"), description, url: None }
}

/// The releases that the items of a list describe.
fn read_releases(items: &Vec<Json>) -> (r: Vec<AppRelease>)
    ensures
        release_views(r@) == releases_of(trees(items@)),
{
    let mut out: Vec<AppRelease> = Vec::new();
    let mut i: usize = 0;
    while i < items.len()
        invariant
            i == out@.len(),
            i <= items@.len(),
            forall|j: int| 0 <= j < i ==> (#[trigger] out@[j])@ == release_of(items@[j]@),
        decreases items@.len() - i,
    {
        out.push(read_release(&items[i]));
        i = i + 1;
    }
    assert(release_views(out@) =~= releases_of(trees(items@)));
    out
}

/// What is known of a Flatpak application, given the contents of its lists.
pub fn assemble_flatpak_info(
    row: &FlatpakRow,
    categories: Vec<String>,
    screenshots: &Vec<Json>,
    releases: &Vec<Json>,
) -> (r: AppInfo)
    ensures
        r@ == flatpak_info(*row, texts(categories@), trees(screenshots@), trees(releases@)),
{
    let mut icons: Vec<AppIcon> = Vec::new();
    if !row.icon_local_path.as_str().is_empty() {
        icons.push(AppIcon::Local(row.icon_local_path.clone(), Some(128), Some(128), None));
    } else if !row.icon_name.as_str().is_empty() {
        icons.push(AppIcon::Stock(row.icon_name.clone()));
    } else {
        icons.push(AppIcon::Stock(GENERIC_ICON.to_owned()));
    }
    let mut urls: Vec<AppUrl> = Vec::new();
    if !row.homepage.as_str().is_empty() {
        urls.push(AppUrl::Homepage(row.homepage.clone()));
    }
    if !row.bugtracker_url.as_str().is_empty() {
        urls.push(AppUrl::BugTracker(row.bugtracker_url.clone()));
    }
    if !row.donation_url.as_str().is_empty() {
        urls.push(AppUrl::Donation(row.donation_url.clone()));
    }
    let flatpak_refs = if row.flatpak_ref.as_str().is_empty() {
        Vec::new()
    } else {
        one_text(row.flatpak_ref.as_str())
    };
    let monthly_downloads: u64 = if row.monthly_downloads >= 0 {
        row.monthly_downloads as u64
    } else {
        u64::MAX - ((-(row.monthly_downloads + 1)) as u64)
    };
    let r = AppInfo {
        source_id: "flathub".to_owned(),
        source_name: "Flathub".to_owned(),
        origin_opt: Some("flathub".to_owned()),
        name: row.name.clone(),
        summary: row.summary.clone(),
        kind: AppKind::DesktopApplication,
        developer_name: row.developer.clone(),
        description: row.description.clone(),
        license_opt: some_unless_empty(row.license.as_str()),
        pkgnames: Vec::new(),
        package_paths: Vec::new(),
        categories,
        desktop_ids: one_text(row.app_id.as_str()),
        flatpak_refs,
        icons,
        provides: Vec::new(),
        releases: read_releases(releases),
        screenshots: read_screenshots(screenshots),
        urls,
        monthly_downloads,
        is_verified: row.verified != 0,
        content_rating: row.content_rating.clone(),
    };
    assert(r@.icons =~= flatpak_icons(*row));
    assert(r@.urls =~= flatpak_urls(*row));
    assert(r@ =~= flatpak_info(*row, texts(categories@), trees(screenshots@), trees(releases@)));
    r
}

/// What is known of a Flatpak application.
pub fn build_flatpak_info(row: &FlatpakRow) -> (r: AppInfo)
    ensures
        r@ == flatpak_info_of_row(*row),
{
    let categories = parse_json_strings(row.categories.as_str());
    let screenshots = array_items(parse_text(row.screenshots.as_str()));
    let releases = array_items(parse_text(row.releases_json.as_str()));
    assemble_flatpak_info(row, categories, &screenshots, &releases)
}

/// The summary of a Nix package never has more than 120 characters.
pub proof fn summaries_are_short(row: NixRow, icon_name: Seq<char>, desktop_ids: Seq<Seq<char>>)
    ensures
        nix_info(row, icon_name, desktop_ids).summary.len() <= 120,
{
}

/// Every screenshot names a picture.
pub proof fn screenshots_name_pictures(items: Seq<JsonTree>, i: int)
    ensures
        0 <= i < screenshots_of(items).len() ==> screenshots_of(items)[i].url.len() > 0,
    decreases items.len(),
{
    if items.len() > 0 {
        screenshots_name_pictures(items.drop_last(), i);
    }
}

/// The summary of a Nix package begins its description: it is the whole description if that has at
/// most 120 characters, and else the first 117 characters of it, in their places, and an ellipsis
/// that stands for the rest.
pub proof fn summaries_begin_descriptions(
    row: NixRow,
    icon_name: Seq<char>,
    desktop_ids: Seq<Seq<char>>,
    r: AppInfo,
)
    requires
        r@ == nix_info(row, icon_name, desktop_ids),
    ensures
        forall|i: int|
            0 <= i < row.description@.len() && i < 117 ==> #[trigger] r.summary@[i]
                == row.description@[i],
        row.description@.len() <= 120 ==> r.summary@ == row.description@,
        row.description@.len() > 120 ==> r.summary@.len() == 118 && r.summary@.last() == '…',
{
    assert(r@.summary == r.summary@);
}

/// What is known of a Nix package is what its row says: its name is the package's, or the
/// attribute where that is missing; its description is the long one, or the short one where that
/// is missing; a license or homepage that is missing is left out. It is known by its attribute.
pub proof fn nix_infos_say_what_rows_say(
    row: NixRow,
    icon_name: Seq<char>,
    desktop_ids: Seq<Seq<char>>,
    r: AppInfo,
)
    requires
        r@ == nix_info(row, icon_name, desktop_ids),
    ensures
        row.pname@.len() > 0 ==> r.name@ == row.pname@,
        row.pname@.len() == 0 ==> r.name@ == row.attr@,
        row.long_description@.len() > 0 ==> r.description@ == row.long_description@,
        row.long_description@.len() == 0 ==> r.description@ == row.description@,
        row.license@.len() > 0 ==> r.license_opt is Some && r.license_opt->0@ == row.license@,
        row.license@.len() == 0 ==> r.license_opt is None,
        r.pkgnames@.len() == 1 && r.pkgnames@[0]@ == row.attr@,
        r.desktop_ids@.len() == desktop_ids.len(),
        forall|i: int|
            0 <= i < desktop_ids.len() ==> (#[trigger] r.desktop_ids@[i])@ == desktop_ids[i],
        r.icons@.len() == 1 && r.icons@[0]@ == IconView::Stock(icon_name),
        r.urls@.len() == if row.homepage@.len() > 0 {
            1nat
        } else {
            0nat
        },
        row.homepage@.len() > 0 ==> r.urls@[0]@ == UrlView::Homepage(row.homepage@),
        r.source_id@ == "nixpkgs"@ && r.source_name@ == "nixpkgs"@ && r.origin_opt is None,
        r.developer_name@.len() == 0,
        r.content_rating@ == "all"@ && !r.is_verified && r.monthly_downloads == 0,
        r.flatpak_refs@.len() == 0 && r.categories@.len() == 0 && r.package_paths@.len() == 0
            && r.provides@.len() == 0 && r.releases@.len() == 0 && r.screenshots@.len() == 0,
{
    let v = nix_info(row, icon_name, desktop_ids);
    assert(texts(r.pkgnames@).len() == 1);
    assert(texts(r.pkgnames@)[0] == r.pkgnames@[0]@);
    assert(icon_views(r.icons@).len() == 1);
    assert(icon_views(r.icons@)[0] == r.icons@[0]@);
    assert(url_views(r.urls@).len() == v.urls.len());
    if row.homepage@.len() > 0 {
        assert(url_views(r.urls@)[0] == r.urls@[0]@);
    }
    assert(texts(r.desktop_ids@).len() == desktop_ids.len());
    assert forall|i: int| 0 <= i < desktop_ids.len() implies (#[trigger] r.desktop_ids@[i])@
        == desktop_ids[i] by {
        assert(texts(r.desktop_ids@)[i] == r.desktop_ids@[i]@);
    }
    assert(texts(r.flatpak_refs@).len() == 0);
    assert(texts(r.categories@).len() == 0);
    assert(texts(r.package_paths@).len() == 0);
    assert(texts(r.provides@).len() == 0);
    assert(release_views(r.releases@).len() == 0);
    assert(screenshot_views(r.screenshots@).len() == 0);
}

/// What is known of a Flatpak application is what its row says. A license or reference that is
/// missing is left out, and an application is verified unless the row says zero.
pub proof fn flatpak_infos_say_what_rows_say(
    row: FlatpakRow,
    categories: Seq<Seq<char>>,
    screenshots: Seq<JsonTree>,
    releases: Seq<JsonTree>,
    r: AppInfo,
)
    requires
        r@ == flatpak_info(row, categories, screenshots, releases),
    ensures
        r.name@ == row.name@ && r.summary@ == row.summary@ && r.description@ == row.description@,
        r.developer_name@ == row.developer@ && r.content_rating@ == row.content_rating@,
        row.license@.len() > 0 ==> r.license_opt is Some && r.license_opt->0@ == row.license@,
        row.license@.len() == 0 ==> r.license_opt is None,
        r.is_verified <==> row.verified != 0,
        row.monthly_downloads >= 0 ==> r.monthly_downloads == row.monthly_downloads,
        row.monthly_downloads < 0 ==> r.monthly_downloads - row.monthly_downloads
            == 0x1_0000_0000_0000_0000,
        r.source_id@ == "flathub"@ && r.source_name@ == "Flathub"@,
        r.origin_opt is Some && r.origin_opt->0@ == r.source_id@,
        r.pkgnames@.len() == 0 && r.package_paths@.len() == 0 && r.provides@.len() == 0,
        r.desktop_ids@.len() == 1 && r.desktop_ids@[0]@ == row.app_id@,
        r.flatpak_refs@.len() == if row.flatpak_ref@.len() > 0 {
            1nat
        } else {
            0nat
        },
        row.flatpak_ref@.len() > 0 ==> r.flatpak_refs@[0]@ == row.flatpak_ref@,
        r.categories@.len() == categories.len(),
        forall|i: int|
            0 <= i < categories.len() ==> (#[trigger] r.categories@[i])@ == categories[i],
        screenshot_views(r.screenshots@) == screenshots_of(screenshots),
        release_views(r.releases@) == releases_of(releases),
{
    let v = flatpak_info(row, categories, screenshots, releases);
    assert(texts(r.pkgnames@).len() == 0);
    assert(texts(r.package_paths@).len() == 0);
    assert(texts(r.provides@).len() == 0);
    assert(texts(r.desktop_ids@).len() == 1);
    assert(texts(r.desktop_ids@)[0] == r.desktop_ids@[0]@);
    assert(texts(r.flatpak_refs@).len() == v.flatpak_refs.len());
    if row.flatpak_ref@.len() > 0 {
        assert(texts(r.flatpak_refs@)[0] == r.flatpak_refs@[0]@);
    }
    assert(texts(r.categories@).len() == categories.len());
    assert forall|i: int| 0 <= i < categories.len() implies (#[trigger] r.categories@[i])@
        == categories[i] by {
        assert(texts(r.categories@)[i] == r.categories@[i]@);
    }
}

/// A Flatpak application has exactly one icon: the picture that is stored locally if there is one,
/// else the stock icon that the row names, and the generic one only if the row names none either.
pub proof fn flatpak_icons_prefer_pictures(
    row: FlatpakRow,
    categories: Seq<Seq<char>>,
    screenshots: Seq<JsonTree>,
    releases: Seq<JsonTree>,
    r: AppInfo,
)
    requires
        r@ == flatpak_info(row, categories, screenshots, releases),
    ensures
        r.icons@.len() == 1,
        r.icons@[0] matches AppIcon::Local(path, width, height, scale) ==> path@
            == row.icon_local_path@ && path@.len() > 0 && width == Some(128u32) && height == Some(
            128u32,
        ) && scale is None,
        r.icons@[0] matches AppIcon::Stock(name) ==> row.icon_local_path@.len() == 0 && name@ == (
        if row.icon_name@.len() > 0 {
            row.icon_name@
        } else {
            GENERIC_ICON@
        }),
{
    assert(icon_views(r.icons@).len() == 1);
    assert(icon_views(r.icons@)[0] == r.icons@[0]@);
}

/// The links of a Flatpak application are those that the row has, each as what it is and once:
/// its homepage, its bug tracker and its donation page, in this order.
pub proof fn flatpak_links_are_complete(
    row: FlatpakRow,
    categories: Seq<Seq<char>>,
    screenshots: Seq<JsonTree>,
    releases: Seq<JsonTree>,
    r: AppInfo,
    i: int,
    j: int,
)
    requires
        r@ == flatpak_info(row, categories, screenshots, releases),
    ensures
        row.homepage@.len() > 0 <==> url_views(r.urls@).contains(UrlView::Homepage(row.homepage@)),
        row.bugtracker_url@.len() > 0 <==> url_views(r.urls@).contains(
            UrlView::BugTracker(row.bugtracker_url@),
        ),
        row.donation_url@.len() > 0 <==> url_views(r.urls@).contains(
            UrlView::Donation(row.donation_url@),
        ),
        url_views(r.urls@).len() == r.urls@.len(),
        0 <= i < r.urls@.len() ==> url_views(r.urls@)[i] == r.urls@[i]@ && link_text(r.urls@[i]).len()
            > 0 && link_text(r.urls@[i]) == match r.urls@[i] {
            AppUrl::Homepage(_) => row.homepage@,
            AppUrl::BugTracker(_) => row.bugtracker_url@,
            AppUrl::Donation(_) => row.donation_url@,
        },
        0 <= i < j < r.urls@.len() ==> link_rank(r.urls@[i]) < link_rank(r.urls@[j]),
{
    let urls = flatpak_urls(row);
    let has_homepage: nat = if row.homepage@.len() > 0 { 1 } else { 0 };
    let has_bugtracker: nat = if row.bugtracker_url@.len() > 0 { 1 } else { 0 };
    assert(url_views(r.urls@) == urls);
    assert(urls.len() == r.urls@.len());
    if row.homepage@.len() > 0 {
        assert(urls[0] == UrlView::Homepage(row.homepage@));
    }
    if row.bugtracker_url@.len() > 0 {
        assert(urls[has_homepage as int] == UrlView::BugTracker(row.bugtracker_url@));
    }
    if row.donation_url@.len() > 0 {
        assert(urls[(has_homepage + has_bugtracker) as int] == UrlView::Donation(
            row.donation_url@,
        ));
    }
    if 0 <= i < r.urls@.len() {
        assert(urls[i] == r.urls@[i]@);
    }
    if 0 <= j < r.urls@.len() {
        assert(urls[j] == r.urls@[j]@);
    }
}

/// The address of a link.
pub open spec fn link_text(url: AppUrl) -> Seq<char> {
    match url {
        AppUrl::Homepage(text) => text@,
        AppUrl::BugTracker(text) => text@,
        AppUrl::Donation(text) => text@,
    }
}

/// Where a link stands among the others.
pub open spec fn link_rank(url: AppUrl) -> int {
    match url {
        AppUrl::Homepage(_) => 0,
        AppUrl::BugTracker(_) => 1,
        AppUrl::Donation(_) => 2,
    }
}

/// Every item that names a picture gives a screenshot, in order: the screenshots of two lists in a
/// row are those of the first and then those of the second. An item gives the picture that is
/// stored locally, or else the remote one, with its caption; it gives none if it names neither.
pub proof fn screenshots_are_complete(a: Seq<JsonTree>, b: Seq<JsonTree>, item: JsonTree)
    ensures
        screenshots_of(a + b) == screenshots_of(a) + screenshots_of(b),
        text_or_empty(item, "local_path"@).len() > 0 ==> screenshots_of(seq![item]) == seq![
            ScreenshotView {
                caption: text_or_empty(item, "caption"@),
                url: text_or_empty(item, "local_path"@),
            },
        ],
        text_or_empty(item, "local_path"@).len() == 0 && text_or_empty(item, "url"@).len() > 0
            ==> screenshots_of(seq![item]) == seq![
            ScreenshotView {
                caption: text_or_empty(item, "caption"@),
                url: text_or_empty(item, "url"@),
            },
        ],
        text_or_empty(item, "local_path"@).len() == 0 && text_or_empty(item, "url"@).len() == 0
            ==> screenshots_of(seq![item]).len() == 0,
    decreases b.len(),
{
    let one = seq![item];
    assert(one.drop_last() =~= Seq::<JsonTree>::empty());
    assert(one.last() == item);
    assert(screenshots_of(Seq::<JsonTree>::empty()) =~= Seq::<ScreenshotView>::empty());
    if text_or_empty(item, "local_path"@).len() > 0 || text_or_empty(item, "url"@).len() > 0 {
        assert(screenshots_of(one) =~= seq![screenshot_of(item)->0]);
    }
    if b.len() == 0 {
        assert(a + b =~= a);
        assert(screenshots_of(a) + screenshots_of(b) =~= screenshots_of(a));
    } else {
        screenshots_are_complete(a, b.drop_last(), item);
        assert((a + b).drop_last() =~= a + b.drop_last());
        assert((a + b).last() == b.last());
        assert(screenshots_of(a + b) =~= screenshots_of(a) + screenshots_of(b));
    }
}

/// Every item of the list of releases gives one release, in its place, with the item's version,
/// its timestamp if that is a positive integer, and its description if that is not empty.
pub proof fn releases_are_complete(items: Seq<JsonTree>, i: int)
    ensures
        releases_of(items).len() == items.len(),
        0 <= i < items.len() ==> releases_of(items)[i].version == text_or_empty(
            items[i],
            "version"@,
        ),
        0 <= i < items.len() ==> releases_of(items)[i].url is None,
        0 <= i < items.len() ==> (releases_of(items)[i].timestamp matches Some(t) ==> t > 0
            && int_field(items[i], "timestamp"@) == Some(t)),
        0 <= i < items.len() ==> (int_field(items[i], "timestamp"@) matches Some(t) ==> t > 0
            ==> releases_of(items)[i].timestamp is Some),
        0 <= i < items.len() ==> (releases_of(items)[i].description matches Some(s) ==> s.len() > 0
            && text_field(items[i], "description"@) == Some(s)),
        0 <= i < items.len() ==> (text_field(items[i], "description"@) matches Some(s) ==> s.len()
            > 0 ==> releases_of(items)[i].description is Some),
{
}

/// The lists of a Flatpak application are read from the row's own texts: its categories, its
/// screenshots and its releases.
pub proof fn flatpak_lists_come_from_their_texts(row: FlatpakRow, r: AppInfo)
    requires
        r@ == flatpak_info_of_row(row),
    ensures
        text_strings(row.categories@) matches Some(list) ==> r@.categories == list,
        text_strings(row.categories@) is None ==> r.categories@.len() == 0,
        text_json(row.screenshots@) matches Ok(JsonTree::Array(items)) ==> screenshot_views(
            r.screenshots@,
        ) == screenshots_of(items),
        !(text_json(row.screenshots@) is Ok && text_json(row.screenshots@)->Ok_0 is Array)
            ==> r.screenshots@.len() == 0,
        text_json(row.releases_json@) matches Ok(JsonTree::Array(items)) ==> release_views(
            r.releases@,
        ) == releases_of(items),
        !(text_json(row.releases_json@) is Ok && text_json(row.releases_json@)->Ok_0 is Array)
            ==> r.releases@.len() == 0,
        r@ == flatpak_info(
            row,
            r@.categories,
            items_or_none(text_json(row.screenshots@)),
            items_or_none(text_json(row.releases_json@)),
        ),
{
    flatpak_infos_say_what_rows_say(
        row,
        strings_or_none(text_strings(row.categories@)),
        items_or_none(text_json(row.screenshots@)),
        items_or_none(text_json(row.releases_json@)),
        r,
    );
    assert(texts(r.categories@).len() == r.categories@.len());
    assert(screenshot_views(r.screenshots@).len() == r.screenshots@.len());
    assert(release_views(r.releases@).len() == r.releases@.len());
}

} // verus!
