//! Pages and categories.

use crate::app_id::AppId;
use std::collections::HashMap;
use vstd::prelude::*;

verus! {

/// The categories of applications, after the freedesktop menu specification.
#[derive(Clone, Copy, Debug, Eq, PartialEq, Structural)]
pub enum Category {
    AudioVideo,
    Development,
    Education,
    Game,
    Graphics,
    Network,
    Office,
    Science,
    Settings,
    System,
    Utility,
    CosmicApplet,
}

/// The identifier of a category in the metadata of applications.
pub open spec fn category_id(category: Category) -> Seq<char> {
    match category {
        Category::AudioVideo => "AudioVideo"@,
        Category::Development => "Development"@,
        Category::Education => "Education"@,
        Category::Game => "Game"@,
        Category::Graphics => "Graphics"@,
        Category::Network => "Network"@,
        Category::Office => "Office"@,
        Category::Science => "Science"@,
        Category::Settings => "Settings"@,
        Category::System => "System"@,
        Category::Utility => "Utility"@,
        Category::CosmicApplet => "CosmicApplet"@,
    }
}

impl Category {
    /// The identifier of the category in the metadata of applications.
    pub fn id(&self) -> (r: &'static str)
        ensures
            r@ == category_id(*self),
    {
        match self {
            Category::AudioVideo => "AudioVideo",
            Category::Development => "Development",
            Category::Education => "Education",
            Category::Game => "Game",
            Category::Graphics => "Graphics",
            Category::Network => "Network",
            Category::Office => "Office",
            Category::Science => "Science",
            Category::Settings => "Settings",
            Category::System => "System",
            Category::Utility => "Utility",
            Category::CosmicApplet => "CosmicApplet",
        }
    }
}

/// The applications of each category, by the category's identifier.
pub type CategoryIndex = HashMap<String, Vec<AppId>>;

/// The pages of the navigation bar.
#[derive(Clone, Copy, Debug, Eq, PartialEq, Structural)]
pub enum NavPage {
    Explore,
    Applets,
    Installed,
    Updates,
}

impl Default for NavPage {
    fn default() -> (r: NavPage)
        ensures
            r == NavPage::Explore,
    {
        NavPage::Explore
    }
}

/// An icon of the icon theme, by name and size.
#[derive(Clone, Copy, Debug, Eq, PartialEq)]
pub struct ThemeIcon {
    pub name: &'static str,
    pub size: u16,
}

/// All pages, in the order of the navigation bar.
pub open spec fn all_pages() -> Seq<NavPage> {
    seq![NavPage::Explore, NavPage::Applets, NavPage::Installed, NavPage::Updates]
}

/// The identifier of the message that titles a page.
pub open spec fn title_id(page: NavPage) -> Seq<char> {
    match page {
        NavPage::Explore => "explore"@,
        NavPage::Applets => "applets"@,
        NavPage::Installed => "installed-apps"@,
        NavPage::Updates => "updates"@,
    }
}

/// The name of the icon of a page.
pub open spec fn icon_name(page: NavPage) -> Seq<char> {
    match page {
        NavPage::Explore => "store-home-symbolic"@,
        NavPage::Applets => "store-applets-symbolic"@,
        NavPage::Installed => "store-installed-symbolic"@,
        NavPage::Updates => "store-updates-symbolic"@,
    }
}

impl NavPage {
    /// All pages, in the order of the navigation bar.
    pub fn all() -> (r: &'static [NavPage])
        ensures
            r@ == all_pages(),
    {
        &[NavPage::Explore, NavPage::Applets, NavPage::Installed, NavPage::Updates]
    }

    /// The title of the page, where `translate` gives the user's text for a message.
    pub fn title<F: Fn(&str) -> String>(&self, translate: F) -> (r: String)
        requires
            forall|id: &str| call_requires(translate, (id,)),
        ensures
            exists|id: &str| id@ == title_id(*self) && call_ensures(translate, (id,), r),
    {
        let id = match self {
            NavPage::Explore => "explore",
            NavPage::Applets => "applets",
            NavPage::Installed => "installed-apps",
            NavPage::Updates => "updates",
        };
        let r = translate(id);
        assert(id@ == title_id(*self) && call_ensures(translate, (id,), r));
        r
    }

    /// The categories that the page shows, if it shows applications by category.
    pub fn categories(&self) -> (r: Option<&'static [Category]>)
        ensures
            match r {
                Some(categories) => *self == NavPage::Applets && categories@
                    == seq![Category::CosmicApplet],
                None => *self != NavPage::Applets,
            },
    {
        match self {
            NavPage::Applets => Some(&[Category::CosmicApplet]),
            _ => None,
        }
    }

    /// The icon of the page.
    pub fn icon(&self) -> (r: ThemeIcon)
        ensures
            r.name@ == icon_name(*self),
            r.size == 16,
    {
        let name = match self {
            NavPage::Explore => "store-home-symbolic",
            NavPage::Applets => "store-applets-symbolic",
            NavPage::Installed => "store-installed-symbolic",
            NavPage::Updates => "store-updates-symbolic",
        };
        ThemeIcon { name, size: 16 }
    }
}

/// What a scroll position belongs to.
#[derive(Clone, Copy, Debug, Eq, Hash, PartialEq, Structural)]
pub enum ScrollContext {
    NavPage,
    ExplorePage,
    SearchResults,
    Selected,
}

/// The contexts whose scroll positions are of no use while a context is active.
pub open spec fn unused(context: ScrollContext) -> Seq<ScrollContext> {
    match context {
        ScrollContext::NavPage => seq![
            ScrollContext::Selected,
            ScrollContext::SearchResults,
            ScrollContext::ExplorePage,
        ],
        ScrollContext::ExplorePage => seq![ScrollContext::Selected, ScrollContext::SearchResults],
        ScrollContext::SearchResults => seq![ScrollContext::Selected],
        ScrollContext::Selected => Seq::empty(),
    }
}

impl ScrollContext {
    /// Contexts that can be safely removed while this one is active.
    pub fn unused_contexts(&self) -> (r: &'static [ScrollContext])
        ensures
            r@ == unused(*self),
    {
        match self {
            ScrollContext::NavPage => &[
                ScrollContext::Selected,
                ScrollContext::SearchResults,
                ScrollContext::ExplorePage,
            ],
            ScrollContext::ExplorePage => &[ScrollContext::Selected, ScrollContext::SearchResults],
            ScrollContext::SearchResults => &[ScrollContext::Selected],
            ScrollContext::Selected => &[],
        }
    }
}

/// No two categories have the same identifier.
pub proof fn category_ids_differ(a: Category, b: Category)
    ensures
        category_id(a) == category_id(b) ==> a == b,
{
    reveal_strlit("AudioVideo");
    reveal_strlit("Development");
    reveal_strlit("Education");
    reveal_strlit("Game");
    reveal_strlit("Graphics");
    reveal_strlit("Network");
    reveal_strlit("Office");
    reveal_strlit("Science");
    reveal_strlit("Settings");
    reveal_strlit("System");
    reveal_strlit("Utility");
    reveal_strlit("CosmicApplet");
    let x = category_id(a);
    let y = category_id(b);
    if x == y {
        assert(x.len() == y.len() && x[0] == y[0] && x[1] == y[1]);
    }
}

/// The navigation bar shows every page exactly once.
pub proof fn every_page_is_shown_once(page: NavPage)
    ensures
        exists|i: int|
            0 <= i < all_pages().len() && all_pages()[i] == page && forall|j: int|
                0 <= j < all_pages().len() && j != i ==> #[trigger] all_pages()[j] != page,
{
    let i: int = match page {
        NavPage::Explore => 0,
        NavPage::Applets => 1,
        NavPage::Installed => 2,
        NavPage::Updates => 3,
    };
    assert(all_pages()[i] == page);
}

/// A context is never removed while it is active.
pub proof fn active_context_is_kept(context: ScrollContext)
    ensures
        !unused(context).contains(context),
{
}

/// Of two different contexts, exactly one can be removed while the other is active, and removing
/// is transitive: what can go while a removable context is active can go as well.
pub proof fn contexts_are_nested(a: ScrollContext, b: ScrollContext, c: ScrollContext)
    ensures
        a != b ==> unused(a).contains(b) != unused(b).contains(a),
        unused(a).contains(b) && unused(b).contains(c) ==> unused(a).contains(c),
{
    let nav = unused(ScrollContext::NavPage);
    assert(nav[0] == ScrollContext::Selected && nav[1] == ScrollContext::SearchResults && nav[2]
        == ScrollContext::ExplorePage);
    let explore = unused(ScrollContext::ExplorePage);
    assert(explore[0] == ScrollContext::Selected && explore[1] == ScrollContext::SearchResults);
    assert(unused(ScrollContext::SearchResults)[0] == ScrollContext::Selected);
}

} // verus!
