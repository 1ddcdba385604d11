//! Filters for search results.

use crate::app_info::{AppInfo, InfoView};
use crate::text::{any_same, opt_text, same};
use vstd::prelude::*;

verus! {

/// Which package source to include in search results
#[derive(Clone, Copy, Debug, Eq, PartialEq, Structural)]
pub enum FilterSource {
    Flatpak,
    Nix,
}

/// Maximum OARS content rating to include
#[derive(Clone, Copy, Debug, Eq, PartialEq, Structural)]
pub enum ContentRating {
    /// Only "all-ages" rated content
    All,
    /// "all" + "moderate"
    Moderate,
    /// No restriction
    Intense,
}

/// The criteria that search results have to meet
#[derive(Clone, Debug, PartialEq)]
pub struct SearchFilter {
    /// None means "all sources"
    pub source: Option<FilterSource>,
    /// AppStream category string, e.g. "Game", "AudioVideo"
    pub category: Option<String>,
    pub content_rating: Option<ContentRating>,
    pub verified_only: bool,
    pub installed_only: bool,
}

/// The mathematical content of a `SearchFilter`.
#[verifier::ext_equal]
pub struct FilterView {
    pub source: Option<FilterSource>,
    pub category: Option<Seq<char>>,
    pub content_rating: Option<ContentRating>,
    pub verified_only: bool,
    pub installed_only: bool,
}

impl View for SearchFilter {
    type V = FilterView;

    open spec fn view(&self) -> FilterView {
        FilterView {
            source: self.source,
            category: opt_text(self.category),
            content_rating: self.content_rating,
            verified_only: self.verified_only,
            installed_only: self.installed_only,
        }
    }
}

/// The filter without any criteria.
pub open spec fn no_filter() -> FilterView {
    FilterView {
        source: None,
        category: None,
        content_rating: None,
        verified_only: false,
        installed_only: false,
    }
}

/// Whether an application comes from the source.
pub open spec fn source_allows(source: FilterSource, source_id: Seq<char>) -> bool {
    match source {
        FilterSource::Flatpak => source_id == "flathub"@,
        FilterSource::Nix => source_id != "flathub"@,
    }
}

/// Whether the content rating of an application is within the limit.
pub open spec fn rating_allows(limit: ContentRating, rating: Seq<char>) -> bool {
    match limit {
        ContentRating::All => rating == "all"@,
        ContentRating::Moderate => rating == "all"@ || rating == "moderate"@,
        ContentRating::Intense => true,
    }
}

/// Whether an application, installed or not, meets all criteria of the filter.
pub open spec fn filter_passes(filter: FilterView, info: InfoView, installed: bool) -> bool {
    &&& filter.source is Some ==> source_allows(filter.source->0, info.source_id)
    &&& filter.category is Some ==> info.categories.contains(filter.category->0)
    &&& filter.content_rating is Some ==> rating_allows(
        filter.content_rating->0,
        info.content_rating,
    )
    &&& filter.verified_only ==> info.is_verified
    &&& filter.installed_only ==> installed
}

impl Default for SearchFilter {
    fn default() -> (r: SearchFilter)
        ensures
            r@ == no_filter(),
    {
        SearchFilter {
            source: None,
            category: None,
            content_rating: None,
            verified_only: false,
            installed_only: false,
        }
    }
}

impl SearchFilter {
    /// Whether the filter has no criteria.
    pub fn is_empty(&self) -> (r: bool)
        ensures
            r == (self@ == no_filter()),
    {
        self.source.is_none() && self.category.is_none() && self.content_rating.is_none()
            && !self.verified_only && !self.installed_only
    }

    /// Returns `true` if `info` passes all active filter criteria.
    /// `installed` is `true` when the package is currently installed.
    pub fn matches(&self, info: &AppInfo, installed: bool) -> (r: bool)
        ensures
            r == filter_passes(self@, info@, installed),
    {
        if let Some(source) = &self.source {
            let is_flatpak = same(info.source_id.as_str(), "flathub");
            match source {
                FilterSource::Flatpak => {
                    if !is_flatpak {
                        return false;
                    }
                },
                FilterSource::Nix => {
                    if is_flatpak {
                        return false;
                    }
                },
            }
        }
        if let Some(category) = &self.category {
            if !any_same(&info.categories, category.as_str()) {
                return false;
            }
        }
        if let Some(rating) = &self.content_rating {
            match rating {
                ContentRating::All => {
                    if !same(info.content_rating.as_str(), "all") {
                        return false;
                    }
                },
                ContentRating::Moderate => {
                    if !same(info.content_rating.as_str(), "all") && !same(
                        info.content_rating.as_str(),
                        "moderate",
                    ) {
                        return false;
                    }
                },
                ContentRating::Intense => {},
            }
        }
        if self.verified_only && !info.is_verified {
            return false;
        }
        if self.installed_only && !installed {
            return false;
        }
        true
    }

    /// The same filter.
    fn copy(&self) -> (r: SearchFilter)
        ensures
            r@ == self@,
    {
        SearchFilter {
            source: self.source,
            category: match &self.category {
                Some(category) => Some(category.clone()),
                None => None,
            },
            content_rating: self.content_rating,
            verified_only: self.verified_only,
            installed_only: self.installed_only,
        }
    }
}

/// How a chip of the filter panel looks.
#[derive(Clone, Copy, Debug, Eq, PartialEq, Structural)]
pub enum ChipStyle {
    /// The choice that is active
    Suggested,
    /// A choice that can be made
    Standard,
    /// The way to take a choice back
    Destructive,
}

/// A chip of the filter panel.
#[derive(Clone, Debug)]
pub struct FilterChip {
    pub label: &'static str,
    pub style: ChipStyle,
    /// The filter that pressing the chip sets; `None` if the chip cannot be pressed
    pub on_press: Option<SearchFilter>,
}

/// The mathematical content of a `FilterChip`.
pub struct ChipView {
    pub label: Seq<char>,
    pub style: ChipStyle,
    pub on_press: Option<FilterView>,
}

impl View for FilterChip {
    type V = ChipView;

    open spec fn view(&self) -> ChipView {
        ChipView {
            label: self.label@,
            style: self.style,
            on_press: match self.on_press {
                Some(filter) => Some(filter@),
                None => None,
            },
        }
    }
}

/// The contents of chips.
pub open spec fn chip_views(chips: Seq<FilterChip>) -> Seq<ChipView> {
    chips.map_values(|chip: FilterChip| chip@)
}

/// The filter with its source changed.
pub open spec fn with_source(filter: FilterView, source: Option<FilterSource>) -> FilterView {
    FilterView { source, ..filter }
}

/// The filter with or without the criterion that applications are verified.
pub open spec fn with_verified_only(filter: FilterView, verified_only: bool) -> FilterView {
    FilterView { verified_only, ..filter }
}

/// The chip that chooses a source: it looks active and cannot be pressed if the source is chosen.
pub open spec fn source_chip(
    label: Seq<char>,
    filter: FilterView,
    source: Option<FilterSource>,
) -> ChipView {
    if filter.source == source {
        ChipView { label, style: ChipStyle::Suggested, on_press: None }
    } else {
        ChipView { label, style: ChipStyle::Standard, on_press: Some(with_source(filter, source)) }
    }
}

/// The chips that choose a source.
pub open spec fn source_chips(filter: FilterView) -> Seq<ChipView> {
    seq![
        source_chip("All"@, filter, None),
        source_chip("Flatpak"@, filter, Some(FilterSource::Flatpak)),
        source_chip("Nix"@, filter, Some(FilterSource::Nix)),
    ]
}

/// The chips that choose whether applications have to be verified: one that turns the criterion
/// on or, where it is on, one that shows it and one that turns it off.
pub open spec fn verified_chips(filter: FilterView) -> Seq<ChipView> {
    if filter.verified_only {
        seq![
            ChipView { label: "Verified ✓"@, style: ChipStyle::Suggested, on_press: None },
            ChipView {
                label: "×"@,
                style: ChipStyle::Destructive,
                on_press: Some(with_verified_only(filter, false)),
            },
        ]
    } else {
        seq![
            ChipView {
                label: "Verified"@,
                style: ChipStyle::Standard,
                on_press: Some(with_verified_only(filter, true)),
            },
        ]
    }
}

/// The row of chips that lets the user set filter options: those for the source, and after a
/// separator those for verified applications.
#[derive(Clone, Debug)]
pub struct FilterPanel {
    pub source: Vec<FilterChip>,
    pub verified: Vec<FilterChip>,
}

/// The chip that chooses `source`.
fn chip_for_source(
    label: &'static str,
    filter: &SearchFilter,
    source: Option<FilterSource>,
) -> (r: FilterChip)
    ensures
        r@ == source_chip(label@, filter@, source),
{
    let active = match (filter.source, source) {
        (None, None) => true,
        (Some(a), Some(b)) => a == b,
        _ => false,
    };
    if active {
        FilterChip { label, style: ChipStyle::Suggested, on_press: None }
    } else {
        let mut changed = filter.copy();
        changed.source = source;
        FilterChip { label, style: ChipStyle::Standard, on_press: Some(changed) }
    }
}

/// The chips that let the user change `filter`.
pub fn filter_panel(filter: &SearchFilter) -> (r: FilterPanel)
    ensures
        chip_views(r.source@) == source_chips(filter@),
        chip_views(r.verified@) == verified_chips(filter@),
{
    let mut source: Vec<FilterChip> = Vec::new();
    source.push(chip_for_source("All", filter, None));
    source.push(chip_for_source("Flatpak", filter, Some(FilterSource::Flatpak)));
    source.push(chip_for_source("Nix", filter, Some(FilterSource::Nix)));
    assert(chip_views(source@) =~= source_chips(filter@));

    let mut verified: Vec<FilterChip> = Vec::new();
    let mut changed = filter.copy();
    changed.verified_only = !filter.verified_only;
    if filter.verified_only {
        verified.push(
            FilterChip { label: "Verified ✓", style: ChipStyle::Suggested, on_press: None },
        );
        verified.push(
            FilterChip { label: "×", style: ChipStyle::Destructive, on_press: Some(changed) },
        );
    } else {
        verified.push(
            FilterChip { label: "Verified", style: ChipStyle::Standard, on_press: Some(changed) },
        );
    }
    assert(chip_views(verified@) =~= verified_chips(filter@));
    FilterPanel { source, verified }
}

/// A filter without criteria lets every application pass.
pub proof fn empty_filter_passes_all(info: InfoView, installed: bool)
    ensures
        filter_passes(no_filter(), info, installed),
{
}

/// The two sources exclude each other and together make up all applications.
pub proof fn sources_partition(source_id: Seq<char>)
    ensures
        source_allows(FilterSource::Flatpak, source_id) != source_allows(
            FilterSource::Nix,
            source_id,
        ),
{
}

/// A higher limit on the content rating lets pass what a lower one does.
pub proof fn rating_limits_are_nested(rating: Seq<char>)
    ensures
        rating_allows(ContentRating::All, rating) ==> rating_allows(
            ContentRating::Moderate,
            rating,
        ),
        rating_allows(ContentRating::Moderate, rating) ==> rating_allows(
            ContentRating::Intense,
            rating,
        ),
{
}

/// The lowest limit lets pass what is rated `all`, the middle one what is rated `all` or
/// `moderate`, and the highest everything.
pub proof fn limits_on_the_scale(rating: Seq<char>)
    ensures
        rating_allows(ContentRating::All, rating) <==> rating == "all"@,
        rating_allows(ContentRating::Moderate, rating) <==> (rating == "all"@ || rating
            == "moderate"@),
        rating_allows(ContentRating::Intense, rating),
{
}

/// Exactly one of the chips for the source is active, and it is the one that cannot be pressed.
pub proof fn one_source_is_active(filter: FilterView)
    ensures
        exists|i: int|
            0 <= i < source_chips(filter).len() && source_chips(filter)[i].style
                == ChipStyle::Suggested && forall|j: int|
                0 <= j < source_chips(filter).len() && j != i ==> (#[trigger] source_chips(
                    filter,
                )[j]).style != ChipStyle::Suggested,
        forall|i: int|
            0 <= i < source_chips(filter).len() ==> ((#[trigger] source_chips(filter)[i]).on_press
                is None <==> source_chips(filter)[i].style == ChipStyle::Suggested),
{
    let i: int = match filter.source {
        None => 0,
        Some(FilterSource::Flatpak) => 1,
        Some(FilterSource::Nix) => 2,
    };
    assert(source_chips(filter)[i].style == ChipStyle::Suggested);
}

/// Pressing a chip changes only the criterion that the chip is for.
pub proof fn chips_change_one_criterion(filter: FilterView, i: int)
    ensures
        0 <= i < source_chips(filter).len() ==> (source_chips(filter)[i].on_press matches Some(next)
            ==> with_source(next, filter.source) == filter),
        0 <= i < verified_chips(filter).len() ==> (verified_chips(filter)[i].on_press matches Some(
            next,
        ) ==> with_verified_only(next, filter.verified_only) == filter),
{
}

/// An application that passes a filter meets each of its criteria, whatever the others are: it
/// comes from the source, it is in the category, its content rating is within the limit, it is
/// verified, and it is installed. An application that meets them all passes.
pub proof fn every_criterion_counts(filter: SearchFilter, info: AppInfo, installed: bool)
    ensures
        filter_passes(filter@, info@, installed) && filter.verified_only ==> info.is_verified,
        filter_passes(filter@, info@, installed) && filter.installed_only ==> installed,
        filter_passes(filter@, info@, installed) ==> (filter.category matches Some(category)
            ==> exists|i: int|
            0 <= i < info.categories@.len() && (#[trigger] info.categories@[i])@ == category@),
        filter_passes(filter@, info@, installed) && filter.content_rating == Some(
            ContentRating::All,
        ) ==> info.content_rating@ == "all"@,
        filter_passes(filter@, info@, installed) && filter.content_rating == Some(
            ContentRating::Moderate,
        ) ==> info.content_rating@ == "all"@ || info.content_rating@ == "moderate"@,
        filter_passes(filter@, info@, installed) && filter.source == Some(FilterSource::Flatpak)
            ==> info.source_id@ == "flathub"@,
        filter_passes(filter@, info@, installed) && filter.source == Some(FilterSource::Nix)
            ==> info.source_id@ != "flathub"@,
        (filter.verified_only ==> info.is_verified) && (filter.installed_only ==> installed) && (
        filter.source == Some(FilterSource::Flatpak) ==> info.source_id@ == "flathub"@) && (
        filter.source == Some(FilterSource::Nix) ==> info.source_id@ != "flathub"@) && (
        filter.content_rating == Some(ContentRating::All) ==> info.content_rating@ == "all"@) && (
        filter.content_rating == Some(ContentRating::Moderate) ==> (info.content_rating@ == "all"@
            || info.content_rating@ == "moderate"@)) && (filter.category is Some ==> exists|i: int|
            0 <= i < info.categories@.len() && (#[trigger] info.categories@[i])@
                == filter.category->0@) ==> filter_passes(filter@, info@, installed),
{
    let names = info@.categories;
    assert(names.len() == info.categories@.len());
    assert(forall|i: int|
        0 <= i < info.categories@.len() ==> (#[trigger] info.categories@[i])@ == names[i]);
    if filter.category is Some {
        let wanted = filter.category->0@;
        if names.contains(wanted) {
            let i = choose|i: int| 0 <= i < names.len() && names[i] == wanted;
            assert(info.categories@[i]@ == wanted);
        }
        if exists|i: int| 0 <= i < info.categories@.len() && (#[trigger] info.categories@[i])@ == wanted {
            let i = choose|i: int|
                0 <= i < info.categories@.len() && (#[trigger] info.categories@[i])@ == wanted;
            assert(names[i] == wanted);
        }
    }
}

/// Two filters one after the other let pass what one filter with the criteria of both does.
pub proof fn criteria_add_up(a: FilterView, b: FilterView, info: InfoView, installed: bool)
    requires
        a.source is None || b.source is None,
        a.category is None || b.category is None,
        a.content_rating is None || b.content_rating is None,
    ensures
        filter_passes(
            FilterView {
                source: if a.source is Some {
                    a.source
                } else {
                    b.source
                },
                category: if a.category is Some {
                    a.category
                } else {
                    b.category
                },
                content_rating: if a.content_rating is Some {
                    a.content_rating
                } else {
                    b.content_rating
                },
                verified_only: a.verified_only || b.verified_only,
                installed_only: a.installed_only || b.installed_only,
            },
            info,
            installed,
        ) <==> filter_passes(a, info, installed) && filter_passes(b, info, installed),
{
}

/// Each chip for the source is for one source, in the order all, Flatpak, Nix: it is active
/// exactly if that source is chosen, and pressing it chooses it and changes nothing else.
pub proof fn source_chips_choose_their_source(filter: SearchFilter, panel: FilterPanel)
    requires
        chip_views(panel.source@) == source_chips(filter@),
    ensures
        panel.source@.len() == 3,
        forall|i: int|
            0 <= i < 3 ==> ((#[trigger] panel.source@[i]).style == ChipStyle::Suggested
                <==> filter.source == chip_source(i)),
        forall|i: int|
            0 <= i < 3 ==> ((#[trigger] panel.source@[i]).on_press is None <==> filter.source
                == chip_source(i)),
        forall|i: int|
            0 <= i < 3 ==> ((#[trigger] panel.source@[i]).on_press matches Some(next) ==> next.source
                == chip_source(i) && next.content_rating == filter.content_rating
                && next.verified_only == filter.verified_only && next.installed_only
                == filter.installed_only && opt_text(next.category) == opt_text(filter.category)),
        panel.source@[0].label@ == "All"@,
        panel.source@[1].label@ == "Flatpak"@,
        panel.source@[2].label@ == "Nix"@,
{
    let views = chip_views(panel.source@);
    assert(views.len() == panel.source@.len());
    assert(views[0] == panel.source@[0]@ && views[1] == panel.source@[1]@ && views[2]
        == panel.source@[2]@);
    assert forall|i: int| 0 <= i < 3 implies (#[trigger] panel.source@[i])@ == views[i] && views[i]
        == source_chip(views[i].label, filter@, chip_source(i)) by {}
    assert forall|i: int| 0 <= i < 3 implies ((#[trigger] panel.source@[i]).on_press matches Some(
        next,
    ) ==> next.source == chip_source(i) && next.content_rating == filter.content_rating
        && next.verified_only == filter.verified_only && next.installed_only
        == filter.installed_only && opt_text(next.category) == opt_text(filter.category)) by {
        if let Some(next) = panel.source@[i].on_press {
            assert(panel.source@[i]@.on_press == Some(next@));
            assert(next@ == with_source(filter@, chip_source(i)));
        }
    }
}

/// The source that the chip `i` is for.
pub open spec fn chip_source(i: int) -> Option<FilterSource> {
    if i == 0 {
        None
    } else if i == 1 {
        Some(FilterSource::Flatpak)
    } else {
        Some(FilterSource::Nix)
    }
}

/// The chips for verified applications show whether the criterion is on, and exactly one of them
/// can be pressed: it turns the criterion over and changes nothing else.
pub proof fn verified_chips_turn_over(filter: SearchFilter, panel: FilterPanel, i: int)
    requires
        chip_views(panel.verified@) == verified_chips(filter@),
    ensures
        panel.verified@.len() == if filter.verified_only {
            2nat
        } else {
            1nat
        },
        panel.verified@[0].style == if filter.verified_only {
            ChipStyle::Suggested
        } else {
            ChipStyle::Standard
        },
        0 <= i < panel.verified@.len() ==> (panel.verified@[i].on_press is Some <==> i
            == panel.verified@.len() - 1),
        0 <= i < panel.verified@.len() ==> (panel.verified@[i].on_press matches Some(next)
            ==> next.verified_only != filter.verified_only && next.source == filter.source
            && next.content_rating == filter.content_rating && next.installed_only
            == filter.installed_only && opt_text(next.category) == opt_text(filter.category)),
        filter.verified_only ==> panel.verified@[1].style == ChipStyle::Destructive,
{
    let views = chip_views(panel.verified@);
    assert(views.len() == panel.verified@.len());
    assert(views[0] == panel.verified@[0]@);
    if filter.verified_only {
        assert(views[1] == panel.verified@[1]@);
    }
    if 0 <= i < panel.verified@.len() {
        assert(views[i] == panel.verified@[i]@);
        if let Some(next) = panel.verified@[i].on_press {
            assert(panel.verified@[i]@.on_press == Some(next@));
            assert(next@ == with_verified_only(filter@, !filter@.verified_only));
        }
    }
}

/// A filter is the one without criteria exactly if every criterion of it is off.
pub proof fn no_criterion_is_on(filter: SearchFilter)
    ensures
        filter@ == no_filter() <==> filter.source is None && filter.category is None
            && filter.content_rating is None && !filter.verified_only && !filter.installed_only,
{
}

} // verus!
