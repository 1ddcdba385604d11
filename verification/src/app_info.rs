//! What is known of an application.

use crate::text::{opt_text, texts};
use vstd::prelude::*;

verus! {

/// The name of the stock icon for an application without an icon of its own.
pub const GENERIC_ICON: &'static str = "package-x-generic";

/// An icon of an application.
#[derive(Clone, Debug)]
pub enum AppIcon {
    /// An image file, with its width, height and scale
    Local(String, Option<u32>, Option<u32>, Option<u32>),
    /// The name of an icon of the icon theme
    Stock(String),
}

/// What kind of component an application is.
#[derive(Clone, Copy, Debug, PartialEq, Eq, Structural)]
pub enum AppKind {
    DesktopApplication,
}

/// A release of an application.
#[derive(Clone, Debug)]
pub struct AppRelease {
    /// Seconds since the epoch
    pub timestamp: Option<i64>,
    pub version: String,
    pub description: Option<String>,
    pub url: Option<String>,
}

/// A picture of an application.
#[derive(Clone, Debug)]
pub struct AppScreenshot {
    pub caption: String,
    /// The path or address of the picture
    pub url: String,
}

/// A link of an application.
#[derive(Clone, Debug)]
pub enum AppUrl {
    Homepage(String),
    BugTracker(String),
    Donation(String),
}

/// What is known of an application.
#[derive(Clone, Debug)]
pub struct AppInfo {
    pub source_id: String,
    pub source_name: String,
    pub origin_opt: Option<String>,
    pub name: String,
    pub summary: String,
    pub kind: AppKind,
    pub developer_name: String,
    pub description: String,
    pub license_opt: Option<String>,
    pub pkgnames: Vec<String>,
    pub package_paths: Vec<String>,
    pub categories: Vec<String>,
    pub desktop_ids: Vec<String>,
    pub flatpak_refs: Vec<String>,
    pub icons: Vec<AppIcon>,
    pub provides: Vec<String>,
    pub releases: Vec<AppRelease>,
    pub screenshots: Vec<AppScreenshot>,
    pub urls: Vec<AppUrl>,
    pub monthly_downloads: u64,
    pub is_verified: bool,
    pub content_rating: String,
}

/// The mathematical content of an `AppIcon`.
pub enum IconView {
    Local(Seq<char>, Option<u32>, Option<u32>, Option<u32>),
    Stock(Seq<char>),
}

/// The mathematical content of an `AppRelease`.
pub struct ReleaseView {
    pub timestamp: Option<i64>,
    pub version: Seq<char>,
    pub description: Option<Seq<char>>,
    pub url: Option<Seq<char>>,
}

/// The mathematical content of an `AppScreenshot`.
pub struct ScreenshotView {
    pub caption: Seq<char>,
    pub url: Seq<char>,
}

/// The mathematical content of an `AppUrl`.
pub enum UrlView {
    Homepage(Seq<char>),
    BugTracker(Seq<char>),
    Donation(Seq<char>),
}

/// The mathematical content of an `AppInfo`.
#[verifier::ext_equal]
pub struct InfoView {
    pub source_id: Seq<char>,
    pub source_name: Seq<char>,
    pub origin_opt: Option<Seq<char>>,
    pub name: Seq<char>,
    pub summary: Seq<char>,
    pub kind: AppKind,
    pub developer_name: Seq<char>,
    pub description: Seq<char>,
    pub license_opt: Option<Seq<char>>,
    pub pkgnames: Seq<Seq<char>>,
    pub package_paths: Seq<Seq<char>>,
    pub categories: Seq<Seq<char>>,
    pub desktop_ids: Seq<Seq<char>>,
    pub flatpak_refs: Seq<Seq<char>>,
    pub icons: Seq<IconView>,
    pub provides: Seq<Seq<char>>,
    pub releases: Seq<ReleaseView>,
    pub screenshots: Seq<ScreenshotView>,
    pub urls: Seq<UrlView>,
    pub monthly_downloads: u64,
    pub is_verified: bool,
    pub content_rating: Seq<char>,
}

impl View for AppIcon {
    type V = IconView;

    open spec fn view(&self) -> IconView {
        match *self {
            AppIcon::Local(path, width, height, scale) => IconView::Local(
                path@,
                width,
                height,
                scale,
            ),
            AppIcon::Stock(name) => IconView::Stock(name@),
        }
    }
}

impl View for AppRelease {
    type V = ReleaseView;

    open spec fn view(&self) -> ReleaseView {
        ReleaseView {
            timestamp: self.timestamp,
            version: self.version@,
            description: opt_text(self.description),
            url: opt_text(self.url),
        }
    }
}

impl View for AppScreenshot {
    type V = ScreenshotView;

    open spec fn view(&self) -> ScreenshotView {
        ScreenshotView { caption: self.caption@, url: self.url@ }
    }
}

impl View for AppUrl {
    type V = UrlView;

    open spec fn view(&self) -> UrlView {
        match *self {
            AppUrl::Homepage(url) => UrlView::Homepage(url@),
            AppUrl::BugTracker(url) => UrlView::BugTracker(url@),
            AppUrl::Donation(url) => UrlView::Donation(url@),
        }
    }
}

/// The contents of icons.
pub open spec fn icon_views(icons: Seq<AppIcon>) -> Seq<IconView> {
    icons.map_values(|icon: AppIcon| icon@)
}

/// The contents of releases.
pub open spec fn release_views(releases: Seq<AppRelease>) -> Seq<ReleaseView> {
    releases.map_values(|release: AppRelease| release@)
}

/// The contents of screenshots.
pub open spec fn screenshot_views(screenshots: Seq<AppScreenshot>) -> Seq<ScreenshotView> {
    screenshots.map_values(|screenshot: AppScreenshot| screenshot@)
}

/// The contents of links.
pub open spec fn url_views(urls: Seq<AppUrl>) -> Seq<UrlView> {
    urls.map_values(|url: AppUrl| url@)
}

impl View for AppInfo {
    type V = InfoView;

    open spec fn view(&self) -> InfoView {
        InfoView {
            source_id: self.source_id@,
            source_name: self.source_name@,
            origin_opt: opt_text(self.origin_opt),
            name: self.name@,
            summary: self.summary@,
            kind: self.kind,
            developer_name: self.developer_name@,
            description: self.description@,
            license_opt: opt_text(self.license_opt),
            pkgnames: texts(self.pkgnames@),
            package_paths: texts(self.package_paths@),
            categories: texts(self.categories@),
            desktop_ids: texts(self.desktop_ids@),
            flatpak_refs: texts(self.flatpak_refs@),
            icons: icon_views(self.icons@),
            provides: texts(self.provides@),
            releases: release_views(self.releases@),
            screenshots: screenshot_views(self.screenshots@),
            urls: url_views(self.urls@),
            monthly_downloads: self.monthly_downloads,
            is_verified: self.is_verified,
            content_rating: self.content_rating@,
        }
    }
}

/// The content of an `AppInfo` of which nothing is known.
pub open spec fn blank_info() -> InfoView {
    InfoView {
        source_id: Seq::empty(),
        source_name: Seq::empty(),
        origin_opt: None,
        name: Seq::empty(),
        summary: Seq::empty(),
        kind: AppKind::DesktopApplication,
        developer_name: Seq::empty(),
        description: Seq::empty(),
        license_opt: None,
        pkgnames: Seq::empty(),
        package_paths: Seq::empty(),
        categories: Seq::empty(),
        desktop_ids: Seq::empty(),
        flatpak_refs: Seq::empty(),
        icons: Seq::empty(),
        provides: Seq::empty(),
        releases: Seq::empty(),
        screenshots: Seq::empty(),
        urls: Seq::empty(),
        monthly_downloads: 0,
        is_verified: false,
        content_rating: Seq::empty(),
    }
}

impl Default for AppInfo {
    fn default() -> (r: AppInfo)
        ensures
            r@ == blank_info(),
    {
        let r = AppInfo {
            source_id: String::new(),
            source_name: String::new(),
            origin_opt: None,
            name: String::new(),
            summary: String::new(),
            kind: AppKind::DesktopApplication,
            developer_name: String::new(),
            description: String::new(),
            license_opt: None,
            pkgnames: Vec::new(),
            package_paths: Vec::new(),
            categories: Vec::new(),
            desktop_ids: Vec::new(),
            flatpak_refs: Vec::new(),
            icons: Vec::new(),
            provides: Vec::new(),
            releases: Vec::new(),
            screenshots: Vec::new(),
            urls: Vec::new(),
            monthly_downloads: 0,
            is_verified: false,
            content_rating: String::new(),
        };
        assert(r@ =~= blank_info());
        r
    }
}

/// The content of what is known of an application holds each text and each list in its place.
pub proof fn infos_hold_their_fields(info: AppInfo)
    ensures
        info@.source_id == info.source_id@ && info@.source_name == info.source_name@,
        info@.name == info.name@ && info@.summary == info.summary@,
        info@.description == info.description@ && info@.developer_name == info.developer_name@,
        info@.content_rating == info.content_rating@ && info@.is_verified == info.is_verified,
        info@.monthly_downloads == info.monthly_downloads && info@.kind == info.kind,
        info@.license_opt == opt_text(info.license_opt),
        info@.origin_opt == opt_text(info.origin_opt),
        info@.pkgnames == texts(info.pkgnames@) && info@.categories == texts(info.categories@),
        info@.desktop_ids == texts(info.desktop_ids@),
        info@.flatpak_refs == texts(info.flatpak_refs@),
        info@.icons.len() == info.icons@.len() && forall|i: int|
            0 <= i < info.icons@.len() ==> #[trigger] info@.icons[i] == info.icons@[i]@,
        info@.urls.len() == info.urls@.len() && forall|i: int|
            0 <= i < info.urls@.len() ==> #[trigger] info@.urls[i] == info.urls@[i]@,
        info@.releases.len() == info.releases@.len() && forall|i: int|
            0 <= i < info.releases@.len() ==> (#[trigger] info@.releases[i]).version
                == info.releases@[i].version@ && info@.releases[i].timestamp
                == info.releases@[i].timestamp && info@.releases[i].description == opt_text(
                info.releases@[i].description,
            ),
        info@.screenshots.len() == info.screenshots@.len() && forall|i: int|
            0 <= i < info.screenshots@.len() ==> (#[trigger] info@.screenshots[i]).url
                == info.screenshots@[i].url@ && info@.screenshots[i].caption
                == info.screenshots@[i].caption@,
{
}

} // verus!
