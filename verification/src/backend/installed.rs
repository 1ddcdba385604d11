//! Installed applications and their icons.

use crate::app_id::AppId;
use crate::app_info::{blank_info, AppIcon, AppInfo, IconView, InfoView, GENERIC_ICON};
use crate::backend::catalog::CatalogBackend;
use crate::command::{CommandLine, CommandView};
use crate::json::{
    array_items, bytes_json, items_or_none, parse_bytes, text_or_empty, trees, Json, JsonTree,
};
use crate::shared::share;
use crate::text::{
    any_same, from_utf8_lossy, lines, lossy_text, same, text_lines, texts, trim, trimmed,
};
use std::sync::Arc;
use vstd::hash_map::StringHashMap;
use vstd::hash_set::StringHashSet;
use vstd::prelude::*;

verus! {

/// The icon to show for an application.
#[derive(Clone, Debug, PartialEq, Eq)]
pub enum IconChoice {
    /// The picture in a file
    File(String),
    /// The icon of the icon theme with a name and a size
    Named(String, u16),
}

/// The mathematical content of an `IconChoice`.
pub enum ChoiceView {
    File(Seq<char>),
    Named(Seq<char>, u16),
}

impl View for IconChoice {
    type V = ChoiceView;

    open spec fn view(&self) -> ChoiceView {
        match *self {
            IconChoice::File(path) => ChoiceView::File(path@),
            IconChoice::Named(name, size) => ChoiceView::Named(name@, size),
        }
    }
}

/// What an icon gives to show where the files `files` exist: nothing for a picture that does not
/// exist, and nothing for the generic icon.
pub open spec fn usable_icon(icon: IconView, files: Seq<Seq<char>>) -> Option<ChoiceView> {
    match icon {
        IconView::Local(path, _, _, _) => if path.len() > 0 && files.contains(path) {
            Some(ChoiceView::File(path))
        } else {
            None
        },
        IconView::Stock(name) => if name != GENERIC_ICON@ {
            Some(ChoiceView::Named(name, 128))
        } else {
            None
        },
    }
}

/// The icon to show: the first of `icons` that gives one, or else the generic icon.
pub open spec fn chosen_icon(icons: Seq<IconView>, files: Seq<Seq<char>>) -> ChoiceView
    decreases icons.len(),
{
    if icons.len() == 0 {
        ChoiceView::Named(GENERIC_ICON@, 128)
    } else {
        match usable_icon(icons[0], files) {
            Some(choice) => choice,
            None => chosen_icon(icons.drop_first(), files),
        }
    }
}

/// An application that is installed.
#[derive(Debug)]
pub struct InstalledApp {
    pub id: AppId,
    pub info: Arc<AppInfo>,
    pub version: String,
}

/// The mathematical content of an `InstalledApp`.
pub struct InstalledView {
    pub id: Seq<char>,
    pub info: InfoView,
    pub version: Seq<char>,
}

impl View for InstalledApp {
    type V = InstalledView;

    open spec fn view(&self) -> InstalledView {
        InstalledView { id: self.id@, info: self.info@, version: self.version@ }
    }
}

/// The contents of installed applications.
pub open spec fn installed_views(apps: Seq<InstalledApp>) -> Seq<InstalledView> {
    apps.map_values(|app: InstalledApp| app@)
}

/// An application with what there is to show of it.
pub struct Package {
    pub id: AppId,
    pub icon: IconChoice,
    pub info: Arc<AppInfo>,
    pub version: String,
    pub extra: StringHashMap<String>,
}

/// What is known of an application from its catalog entry, or else only what `otherwise` says.
pub open spec fn known_info(
    entries: Map<Seq<char>, InfoView>,
    id: Seq<char>,
    otherwise: InfoView,
) -> InfoView {
    if entries.contains_key(id) {
        entries[id]
    } else {
        otherwise
    }
}

/// What is known of an application that is not in the catalog.
pub open spec fn bare_info(id: Seq<char>, source_name: Seq<char>, name: Seq<char>) -> InfoView {
    InfoView {
        source_id: id,
        source_name,
        name,
        icons: seq![IconView::Stock(GENERIC_ICON@)],
        ..blank_info()
    }
}

/// The application that an item of the list of managed applications describes.
pub open spec fn managed_app(entries: Map<Seq<char>, InfoView>, item: JsonTree) -> InstalledView {
    let id = text_or_empty(item, "source_id"@);
    InstalledView {
        id,
        info: known_info(
            entries,
            id,
            bare_info(id, text_or_empty(item, "source"@), text_or_empty(item, "display_name"@)),
        ),
        version: text_or_empty(item, "version"@),
    }
}

/// The application that a line of the list of system-wide Flatpak applications names.
pub open spec fn system_app(entries: Map<Seq<char>, InfoView>, line: Seq<char>) -> InstalledView {
    let id = trimmed(line);
    InstalledView {
        id,
        info: known_info(entries, id, bare_info(id, "flathub"@, Seq::empty())),
        version: Seq::empty(),
    }
}

/// Whether an application with the identifier is among `apps`.
pub open spec fn lists(apps: Seq<InstalledView>, id: Seq<char>) -> bool {
    exists|i: int| 0 <= i < apps.len() && (#[trigger] apps[i]).id == id
}

/// The applications with another one added, unless it has no identifier or is already there.
pub open spec fn with_app(apps: Seq<InstalledView>, app: InstalledView) -> Seq<InstalledView> {
    if app.id.len() == 0 || lists(apps, app.id) {
        apps
    } else {
        apps.push(app)
    }
}

/// The managed applications.
pub open spec fn managed_apps(entries: Map<Seq<char>, InfoView>, items: Seq<JsonTree>) -> Seq<
    InstalledView,
>
    decreases items.len(),
{
    if items.len() == 0 {
        Seq::empty()
    } else {
        with_app(managed_apps(entries, items.drop_last()), managed_app(entries, items.last()))
    }
}

/// The installed applications: the managed ones and the system-wide Flatpak applications.
pub open spec fn installed_apps(
    entries: Map<Seq<char>, InfoView>,
    items: Seq<JsonTree>,
    rows: Seq<Seq<char>>,
) -> Seq<InstalledView>
    decreases rows.len(),
{
    if rows.len() == 0 {
        managed_apps(entries, items)
    } else {
        with_app(
            installed_apps(entries, items, rows.drop_last()),
            system_app(entries, rows.last()),
        )
    }
}

/// The items of the list of managed applications that a command printed.
pub open spec fn listed_items(stdout: Option<Seq<u8>>) -> Seq<JsonTree> {
    match stdout {
        Some(bytes) => items_or_none(bytes_json(bytes)),
        None => Seq::empty(),
    }
}

/// The lines that a command printed.
pub open spec fn listed_lines(stdout: Option<Seq<u8>>) -> Seq<Seq<char>> {
    match stdout {
        Some(bytes) => text_lines(lossy_text(bytes)),
        None => Seq::empty(),
    }
}

/// The view of optional bytes.
pub open spec fn opt_bytes(bytes: Option<&[u8]>) -> Option<Seq<u8>> {
    match bytes {
        Some(b) => Some(b@),
        None => None,
    }
}

/// The command that lists the managed applications.
pub fn managed_list_command() -> (r: CommandLine)
    ensures
        r@ == (CommandView { program: "mirror-os"@, args: seq!["list"@, "--json"@] }),
{
    let mut args: Vec<String> = Vec::new();
    args.push("list".to_owned());
    args.push("--json".to_owned());
    let r = CommandLine { program: "mirror-os".to_owned(), args };
    assert(r@.args =~= seq!["list"@, "--json"@]);
    r
}

/// The command that lists the system-wide Flatpak applications.
pub fn system_list_command() -> (r: CommandLine)
    ensures
        r@ == (CommandView {
            program: "flatpak"@,
            args: seq!["list"@, "--system"@, "--app"@, "--columns=application"@],
        }),
{
    let mut args: Vec<String> = Vec::new();
    args.push("list".to_owned());
    args.push("--system".to_owned());
    args.push("--app".to_owned());
    args.push("--columns=application".to_owned());
    let r = CommandLine { program: "flatpak".to_owned(), args };
    assert(r@.args =~= seq!["list"@, "--system"@, "--app"@, "--columns=application"@]);
    r
}

/// What is known of an application that is not in the catalog.
fn make_bare_info(id: &str, source_name: &str, name: &str) -> (r: AppInfo)
    ensures
        r@ == bare_info(id@, source_name@, name@),
{
    let mut info = AppInfo::default();
    info.source_id = id.to_owned();
    info.source_name = source_name.to_owned();
    info.name = name.to_owned();
    info.icons.push(AppIcon::Stock(GENERIC_ICON.to_owned()));
    assert(info@.icons =~= seq![IconView::Stock(GENERIC_ICON@)]);
    assert(info@ =~= bare_info(id@, source_name@, name@));
    info
}

/// The identifiers of the applications.
spec fn app_ids(apps: Seq<InstalledView>) -> Set<Seq<char>> {
    Set::new(|id: Seq<char>| lists(apps, id))
}

/// Adding an application adds its identifier.
proof fn lemma_ids_of_pushed(apps: Seq<InstalledView>, app: InstalledView)
    ensures
        app_ids(apps.push(app)) == app_ids(apps).insert(app.id),
{
    let more = apps.push(app);
    assert forall|id: Seq<char>| app_ids(more).contains(id) <==> app_ids(apps).insert(
        app.id,
    ).contains(id) by {
        if lists(more, id) {
            let i = choose|i: int| 0 <= i < more.len() && (#[trigger] more[i]).id == id;
            if i < apps.len() {
                assert(apps[i].id == id);
            }
        }
        if lists(apps, id) {
            let i = choose|i: int| 0 <= i < apps.len() && (#[trigger] apps[i]).id == id;
            assert(more[i].id == id);
        }
        assert(more[apps.len() as int].id == app.id);
    }
    assert(app_ids(more) =~= app_ids(apps).insert(app.id));
}

impl CatalogBackend {
    /// The icon to show for an application, where `files` names the files that exist.
    pub fn resolve_icon(&self, info: &AppInfo, files: &Vec<String>) -> (r: Option<IconChoice>)
        ensures
            r is Some,
            r->0@ == chosen_icon(info@.icons, texts(files@)),
    {
        let ghost all = info@.icons;
        let mut i: usize = 0;
        assert(all.skip(0) =~= all);
        while i < info.icons.len()
            invariant
                i <= info.icons@.len(),
                all == info@.icons,
                chosen_icon(all.skip(i as int), texts(files@)) == chosen_icon(all, texts(files@)),
            decreases info.icons@.len() - i,
        {
            assert(all.skip(i as int)[0] == info.icons@[i as int]@);
            assert(all.skip(i as int).drop_first() =~= all.skip(i + 1));
            match &info.icons[i] {
                AppIcon::Local(path, _, _, _) => {
                    if !path.as_str().is_empty() && any_same(files, path.as_str()) {
                        return Some(IconChoice::File(path.clone()));
                    }
                },
                AppIcon::Stock(name) => {
                    if !same(name.as_str(), GENERIC_ICON) {
                        return Some(IconChoice::Named(name.clone(), 128));
                    }
                },
            }
            i = i + 1;
        }
        Some(IconChoice::Named(GENERIC_ICON.to_owned(), 128))
    }

    /// What is known of an application: its catalog entry, or else `otherwise`.
    fn info_or(&self, id: &AppId, otherwise: AppInfo) -> (r: Arc<AppInfo>)
        ensures
            r@ == known_info(self@, id@, otherwise@),
    {
        match self.info(id) {
            Some(info) => share(info),
            None => Arc::new(otherwise),
        }
    }

    /// The application that an item of the list of managed applications describes.
    fn read_managed_app(&self, item: &Json) -> (r: InstalledApp)
        ensures
            r@ == managed_app(self@, item@),
    {
        let source_id = item.text_or_empty("source_id");
        let source = item.text_or_empty("source");
        let display_name = item.text_or_empty("display_name");
        let id = AppId::new(source_id.as_str());
        let info = self.info_or(
            &id,
            make_bare_info(source_id.as_str(), source.as_str(), display_name.as_str()),
        );
        InstalledApp { id, info, version: item.text_or_empty("version") }
    }

    /// The application that a line of the list of system-wide Flatpak applications names.
    fn read_system_app(&self, line: &str) -> (r: InstalledApp)
        ensures
            r@ == system_app(self@, line@),
    {
        let app_id = trim(line);
        let id = AppId::new(app_id.as_str());
        let info = self.info_or(&id, make_bare_info(app_id.as_str(), "flathub", ""));
        proof {
            reveal_strlit("");
            assert(""@ =~= Seq::<char>::empty());
        }
        InstalledApp { id, info, version: String::new() }
    }

    /// The installed applications, given the items of the list of managed applications and the
    /// lines of the list of system-wide Flatpak applications.
    pub fn installed_from(&self, items: &Vec<Json>, rows: &Vec<String>) -> (r: Vec<InstalledApp>)
        ensures
            installed_views(r@) == installed_apps(self@, trees(items@), texts(rows@)),
    {
        let ghost all_items = trees(items@);
        let ghost all_rows = texts(rows@);
        let mut seen_ids = StringHashSet::new();
        let mut apps: Vec<InstalledApp> = Vec::new();
        let mut i: usize = 0;
        assert(installed_views(apps@) =~= managed_apps(self@, all_items.take(0)));
        assert(seen_ids@ =~= app_ids(installed_views(apps@)));
        while i < items.len()
            invariant
                i <= items@.len(),
                all_items == trees(items@),
                installed_views(apps@) == managed_apps(self@, all_items.take(i as int)),
                seen_ids@ == app_ids(installed_views(apps@)),
            decreases items@.len() - i,
        {
            let ghost before = installed_views(apps@);
            assert(all_items.take(i + 1).drop_last() =~= all_items.take(i as int));
            assert(all_items.take(i + 1).last() == items@[i as int]@);
            let app = self.read_managed_app(&items[i]);
            let ghost view = app@;
            if !app.id.raw().is_empty() && !seen_ids.contains(app.id.raw()) {
                proof {
                    lemma_ids_of_pushed(before, view);
                }
                seen_ids.insert(app.id.raw().to_owned());
                apps.push(app);
                assert(installed_views(apps@) =~= before.push(view));
            }
            i = i + 1;
        }
        assert(all_items.take(i as int) =~= all_items);
        let mut k: usize = 0;
        assert(all_rows.take(0) =~= Seq::<Seq<char>>::empty());
        while k < rows.len()
            invariant
                k <= rows@.len(),
                all_items == trees(items@),
                all_rows == texts(rows@),
                installed_views(apps@) == installed_apps(
                    self@,
                    all_items,
                    all_rows.take(k as int),
                ),
                seen_ids@ == app_ids(installed_views(apps@)),
            decreases rows@.len() - k,
        {
            let ghost before = installed_views(apps@);
            assert(all_rows.take(k + 1).drop_last() =~= all_rows.take(k as int));
            assert(all_rows.take(k + 1).last() == rows@[k as int]@);
            let app = self.read_system_app(rows[k].as_str());
            let ghost view = app@;
            if !app.id.raw().is_empty() && !seen_ids.contains(app.id.raw()) {
                proof {
                    lemma_ids_of_pushed(before, view);
                }
                seen_ids.insert(app.id.raw().to_owned());
                apps.push(app);
                assert(installed_views(apps@) =~= before.push(view));
            }
            k = k + 1;
        }
        assert(all_rows.take(k as int) =~= all_rows);
        apps
    }

    /// The installed applications, given what the two list commands printed; `None` stands for a
    /// command that could not be run or did not succeed.
    pub fn installed(&self, managed: Option<&[u8]>, system: Option<&[u8]>) -> (r: Vec<InstalledApp>)
        ensures
            installed_views(r@) == installed_apps(
                self@,
                listed_items(opt_bytes(managed)),
                listed_lines(opt_bytes(system)),
            ),
    {
        let items = match managed {
            Some(stdout) => array_items(parse_bytes(stdout)),
            None => {
                let none: Vec<Json> = Vec::new();
                assert(trees(none@) =~= Seq::<JsonTree>::empty());
                none
            },
        };
        let rows = match system {
            Some(stdout) => lines(from_utf8_lossy(stdout).as_str()),
            None => {
                let none: Vec<String> = Vec::new();
                assert(texts(none@) =~= Seq::<Seq<char>>::empty());
                none
            },
        };
        self.installed_from(&items, &rows)
    }

    /// What there is to show of an installed application, where `files` names the files that
    /// exist.
    pub fn package(&self, app: InstalledApp, files: &Vec<String>) -> (r: Package)
        ensures
            r.id@ == app.id@,
            r.icon@ == chosen_icon(app.info@.icons, texts(files@)),
            r.info@ == app.info@,
            r.version@ == app.version@,
            r.extra@ == Map::<Seq<char>, String>::empty(),
    {
        let icon = match self.resolve_icon(&app.info, files) {
            Some(icon) => icon,
            None => IconChoice::Named(GENERIC_ICON.to_owned(), 128),
        };
        Package {
            id: app.id,
            icon,
            info: app.info,
            version: app.version,
            extra: StringHashMap::new(),
        }
    }

    /// The packages with updates. The system is updated as a whole, so there are none.
    pub fn updates(&self) -> (r: Vec<Package>)
        ensures
            r@ == Seq::<Package>::empty(),
    {
        Vec::new()
    }

    /// The packages in a file. The catalog knows of none.
    pub fn file_packages(&self, _path: &str) -> (r: Vec<Package>)
        ensures
            r@ == Seq::<Package>::empty(),
    {
        Vec::new()
    }
}

/// Whether all applications have identifiers, and no two the same.
pub open spec fn ids_are_distinct(apps: Seq<InstalledView>) -> bool {
    &&& forall|i: int| 0 <= i < apps.len() ==> (#[trigger] apps[i]).id.len() > 0
    &&& forall|i: int, j: int|
        0 <= i < j < apps.len() ==> (#[trigger] apps[i]).id != (#[trigger] apps[j]).id
}

/// Among the managed applications no two have the same identifier.
proof fn lemma_managed_distinct(entries: Map<Seq<char>, InfoView>, items: Seq<JsonTree>)
    ensures
        ids_are_distinct(managed_apps(entries, items)),
    decreases items.len(),
{
    if items.len() > 0 {
        lemma_managed_distinct(entries, items.drop_last());
    }
}

/// Every installed application has an identifier, and none is listed twice, also if both lists
/// name it.
pub proof fn installed_apps_are_distinct(
    entries: Map<Seq<char>, InfoView>,
    items: Seq<JsonTree>,
    rows: Seq<Seq<char>>,
)
    ensures
        ids_are_distinct(installed_apps(entries, items, rows)),
    decreases rows.len(),
{
    if rows.len() == 0 {
        lemma_managed_distinct(entries, items);
    } else {
        installed_apps_are_distinct(entries, items, rows.drop_last());
    }
}

/// The managed applications come first, as they are: the system-wide ones are only added.
pub proof fn managed_apps_come_first(
    entries: Map<Seq<char>, InfoView>,
    items: Seq<JsonTree>,
    rows: Seq<Seq<char>>,
)
    ensures
        managed_apps(entries, items).is_prefix_of(installed_apps(entries, items, rows)),
    decreases rows.len(),
{
    if rows.len() > 0 {
        managed_apps_come_first(entries, items, rows.drop_last());
    }
}

/// Adding an application keeps those that are there.
proof fn lemma_with_app_keeps(apps: Seq<InstalledView>, app: InstalledView, id: Seq<char>)
    ensures
        lists(apps, id) ==> lists(with_app(apps, app), id),
        app.id.len() > 0 ==> lists(with_app(apps, app), app.id),
{
    if lists(apps, id) {
        let i = choose|i: int| 0 <= i < apps.len() && (#[trigger] apps[i]).id == id;
        assert(with_app(apps, app)[i].id == id);
    }
    if app.id.len() > 0 && !lists(apps, app.id) {
        assert(with_app(apps, app)[apps.len() as int].id == app.id);
    }
}

/// Every item with an identifier is among the managed applications.
proof fn lemma_managed_complete(entries: Map<Seq<char>, InfoView>, items: Seq<JsonTree>, i: int)
    requires
        0 <= i < items.len(),
        text_or_empty(items[i], "source_id"@).len() > 0,
    ensures
        lists(managed_apps(entries, items), text_or_empty(items[i], "source_id"@)),
    decreases items.len(),
{
    let id = text_or_empty(items[i], "source_id"@);
    let before = managed_apps(entries, items.drop_last());
    lemma_with_app_keeps(before, managed_app(entries, items.last()), id);
    if i < items.len() - 1 {
        assert(items.drop_last()[i] == items[i]);
        lemma_managed_complete(entries, items.drop_last(), i);
    }
}

/// Every item and every line with an identifier is among the installed applications.
pub proof fn installed_apps_are_complete(
    entries: Map<Seq<char>, InfoView>,
    items: Seq<JsonTree>,
    rows: Seq<Seq<char>>,
)
    ensures
        forall|i: int|
            #![trigger items[i]]
            0 <= i < items.len() && text_or_empty(items[i], "source_id"@).len() > 0 ==> lists(
                installed_apps(entries, items, rows),
                text_or_empty(items[i], "source_id"@),
            ),
        forall|i: int|
            #![trigger rows[i]]
            0 <= i < rows.len() && trimmed(rows[i]).len() > 0 ==> lists(
                installed_apps(entries, items, rows),
                trimmed(rows[i]),
            ),
    decreases rows.len(),
{
    if rows.len() == 0 {
        assert forall|i: int|
            #![trigger items[i]]
            0 <= i < items.len() && text_or_empty(items[i], "source_id"@).len() > 0 implies lists(
            installed_apps(entries, items, rows),
            text_or_empty(items[i], "source_id"@),
        ) by {
            lemma_managed_complete(entries, items, i);
        }
    } else {
        let fewer = rows.drop_last();
        let before = installed_apps(entries, items, fewer);
        let app = system_app(entries, rows.last());
        installed_apps_are_complete(entries, items, fewer);
        assert forall|i: int|
            #![trigger items[i]]
            0 <= i < items.len() && text_or_empty(items[i], "source_id"@).len() > 0 implies lists(
            installed_apps(entries, items, rows),
            text_or_empty(items[i], "source_id"@),
        ) by {
            lemma_with_app_keeps(before, app, text_or_empty(items[i], "source_id"@));
        }
        assert forall|i: int|
            #![trigger rows[i]]
            0 <= i < rows.len() && trimmed(rows[i]).len() > 0 implies lists(
            installed_apps(entries, items, rows),
            trimmed(rows[i]),
        ) by {
            lemma_with_app_keeps(before, app, trimmed(rows[i]));
            if i < rows.len() - 1 {
                assert(fewer[i] == rows[i]);
            }
        }
    }
}

/// A picture is shown only if its file exists.
pub proof fn shown_files_exist(icons: Seq<IconView>, files: Seq<Seq<char>>)
    ensures
        chosen_icon(icons, files) matches ChoiceView::File(path) ==> files.contains(path),
    decreases icons.len(),
{
    if icons.len() > 0 {
        shown_files_exist(icons.drop_first(), files);
    }
}

/// Whether an icon can be shown where the files `files` exist: a picture whose file exists, or an
/// icon of the theme other than the generic one.
pub open spec fn can_be_shown(icon: AppIcon, files: Seq<Seq<char>>) -> bool {
    match icon {
        AppIcon::Local(path, _, _, _) => path@.len() > 0 && files.contains(path@),
        AppIcon::Stock(name) => name@ != GENERIC_ICON@,
    }
}

/// The first icon that can be shown is chosen, wherever it stands in the list: a picture by its
/// file, and an icon of the theme by its name. The generic icon is chosen only if none can be.
pub proof fn first_icon_is_chosen(info: AppInfo, files: Seq<Seq<char>>, choice: IconChoice, i: int)
    requires
        choice@ == chosen_icon(info@.icons, files),
        0 <= i <= info.icons@.len(),
        forall|j: int| 0 <= j < i ==> !can_be_shown(#[trigger] info.icons@[j], files),
    ensures
        i < info.icons@.len() && can_be_shown(info.icons@[i], files) ==> match info.icons@[i] {
            AppIcon::Local(path, _, _, _) => choice matches IconChoice::File(file) && file@
                == path@,
            AppIcon::Stock(name) => choice matches IconChoice::Named(shown, size) && shown@ == name@
                && size == 128,
        },
        i == info.icons@.len() ==> (choice matches IconChoice::Named(shown, size) && shown@
            == GENERIC_ICON@ && size == 128),
{
    let icons = info@.icons;
    assert(icons.len() == info.icons@.len());
    assert forall|j: int| 0 <= j < i implies usable_icon(#[trigger] icons[j], files) is None by {
        assert(icons[j] == info.icons@[j]@);
        assert(!can_be_shown(info.icons@[j], files));
    }
    lemma_chosen_after(icons, files, i);
    if i < icons.len() {
        assert(icons.skip(i)[0] == info.icons@[i]@);
    }
}

/// Icons that cannot be shown make no difference.
proof fn lemma_chosen_after(icons: Seq<IconView>, files: Seq<Seq<char>>, i: int)
    requires
        0 <= i <= icons.len(),
        forall|j: int| 0 <= j < i ==> usable_icon(#[trigger] icons[j], files) is None,
    ensures
        chosen_icon(icons, files) == chosen_icon(icons.skip(i), files),
    decreases i,
{
    if i == 0 {
        assert(icons.skip(0) =~= icons);
    } else {
        let rest = icons.drop_first();
        assert forall|j: int| 0 <= j < i - 1 implies usable_icon(#[trigger] rest[j], files) is None by {
            assert(rest[j] == icons[j + 1]);
        }
        lemma_chosen_after(rest, files, i - 1);
        assert(rest.skip(i - 1) =~= icons.skip(i));
        assert(usable_icon(icons[0], files) is None);
    }
}

/// The list of managed applications grows at its end: more items change nothing for those before.
pub proof fn managed_apps_keep_their_order(
    entries: Map<Seq<char>, InfoView>,
    a: Seq<JsonTree>,
    b: Seq<JsonTree>,
)
    ensures
        managed_apps(entries, a).is_prefix_of(managed_apps(entries, a + b)),
    decreases b.len(),
{
    if b.len() == 0 {
        assert(a + b =~= a);
    } else {
        managed_apps_keep_their_order(entries, a, b.drop_last());
        assert((a + b).drop_last() =~= a + b.drop_last());
    }
}

/// The list of installed applications grows at its end: more lines change nothing for those before.
pub proof fn installed_apps_keep_their_order(
    entries: Map<Seq<char>, InfoView>,
    items: Seq<JsonTree>,
    a: Seq<Seq<char>>,
    b: Seq<Seq<char>>,
)
    ensures
        installed_apps(entries, items, a).is_prefix_of(installed_apps(entries, items, a + b)),
        installed_apps(entries, items, Seq::empty()) == managed_apps(entries, items),
    decreases b.len(),
{
    if b.len() == 0 {
        assert(a + b =~= a);
    } else {
        installed_apps_keep_their_order(entries, items, a, b.drop_last());
        assert((a + b).drop_last() =~= a + b.drop_last());
    }
}

/// Whether the item `i` is the first of the list with the identifier.
pub open spec fn first_item(items: Seq<JsonTree>, id: Seq<char>, i: int) -> bool {
    &&& 0 <= i < items.len()
    &&& text_or_empty(items[i], "source_id"@) == id
    &&& forall|j: int| 0 <= j < i ==> text_or_empty(#[trigger] items[j], "source_id"@) != id
}

/// Whether the line `i` is the first of the list that names the identifier.
pub open spec fn first_row(rows: Seq<Seq<char>>, id: Seq<char>, i: int) -> bool {
    &&& 0 <= i < rows.len()
    &&& trimmed(rows[i]) == id
    &&& forall|j: int| 0 <= j < i ==> trimmed(#[trigger] rows[j]) != id
}

/// Whether an item of the list has the identifier.
pub open spec fn some_item(items: Seq<JsonTree>, id: Seq<char>) -> bool {
    exists|i: int| 0 <= i < items.len() && text_or_empty(#[trigger] items[i], "source_id"@) == id
}

/// Every managed application is described by the first item with its identifier.
proof fn lemma_managed_from_first(entries: Map<Seq<char>, InfoView>, items: Seq<JsonTree>, k: int)
    requires
        0 <= k < managed_apps(entries, items).len(),
    ensures
        exists|i: int| #[trigger]
            first_item(items, managed_apps(entries, items)[k].id, i) && managed_apps(
                entries,
                items,
            )[k] == managed_app(entries, items[i]),
    decreases items.len(),
{
    let fewer = items.drop_last();
    let before = managed_apps(entries, fewer);
    let app = managed_apps(entries, items)[k];
    let n = items.len() - 1;
    if k < before.len() {
        lemma_managed_from_first(entries, fewer, k);
        let i = choose|i: int| #[trigger]
            first_item(fewer, before[k].id, i) && before[k] == managed_app(entries, fewer[i]);
        assert(items[i] == fewer[i]);
        assert forall|j: int| 0 <= j < i implies text_or_empty(#[trigger] items[j], "source_id"@)
            != app.id by {
            assert(items[j] == fewer[j]);
        }
        assert(first_item(items, app.id, i));
    } else {
        assert(app == managed_app(entries, items[n]));
        assert forall|j: int| 0 <= j < n implies text_or_empty(#[trigger] items[j], "source_id"@)
            != app.id by {
            if text_or_empty(items[j], "source_id"@) == app.id {
                assert(fewer[j] == items[j]);
                lemma_managed_complete(entries, fewer, j);
            }
        }
        assert(first_item(items, app.id, n));
    }
}

/// Every installed application is described by the first item with its identifier or, if there is
/// no such item, by the first line that names it.
pub proof fn installed_apps_come_from_the_lists(
    entries: Map<Seq<char>, InfoView>,
    items: Seq<JsonTree>,
    rows: Seq<Seq<char>>,
    k: int,
)
    requires
        0 <= k < installed_apps(entries, items, rows).len(),
    ensures
        (exists|i: int| #[trigger]
            first_item(items, installed_apps(entries, items, rows)[k].id, i) && installed_apps(
                entries,
                items,
                rows,
            )[k] == managed_app(entries, items[i])) || (!some_item(
            items,
            installed_apps(entries, items, rows)[k].id,
        ) && exists|i: int| #[trigger]
            first_row(rows, installed_apps(entries, items, rows)[k].id, i) && installed_apps(
                entries,
                items,
                rows,
            )[k] == system_app(entries, rows[i])),
    decreases rows.len(),
{
    let app = installed_apps(entries, items, rows)[k];
    if rows.len() == 0 {
        lemma_managed_from_first(entries, items, k);
    } else {
        let fewer = rows.drop_last();
        let before = installed_apps(entries, items, fewer);
        let n = rows.len() - 1;
        if k < before.len() {
            installed_apps_come_from_the_lists(entries, items, fewer, k);
            if !(exists|i: int| #[trigger]
                first_item(items, app.id, i) && app == managed_app(entries, items[i])) {
                let i = choose|i: int| #[trigger]
                    first_row(fewer, app.id, i) && app == system_app(entries, fewer[i]);
                assert(rows[i] == fewer[i]);
                assert forall|j: int| 0 <= j < i implies trimmed(#[trigger] rows[j]) != app.id by {
                    assert(rows[j] == fewer[j]);
                }
                assert(first_row(rows, app.id, i));
            }
        } else {
            assert(app == system_app(entries, rows[n]));
            installed_apps_are_complete(entries, items, fewer);
            assert(!lists(before, app.id));
            assert forall|j: int| 0 <= j < n implies trimmed(#[trigger] rows[j]) != app.id by {
                assert(fewer[j] == rows[j]);
            }
            assert(first_row(rows, app.id, n));
            if some_item(items, app.id) {
                let i = choose|i: int|
                    0 <= i < items.len() && text_or_empty(#[trigger] items[i], "source_id"@)
                        == app.id;
                assert(lists(before, app.id));
            }
        }
    }
}

/// What is shown of an application that an item describes: it is known by the item's identifier,
/// with the item's version, and with its catalog entry if there is one. Without an entry it has
/// the item's display name and source and the generic icon.
pub proof fn managed_apps_say_what_items_say(
    entries: Map<Seq<char>, InfoView>,
    item: JsonTree,
    r: InstalledApp,
)
    requires
        r@ == managed_app(entries, item),
    ensures
        r.id@ == text_or_empty(item, "source_id"@),
        r.version@ == text_or_empty(item, "version"@),
        entries.contains_key(r.id@) ==> r.info@ == entries[r.id@],
        !entries.contains_key(r.id@) ==> r.info@.name == text_or_empty(item, "display_name"@)
            && r.info@.source_name == text_or_empty(item, "source"@) && r.info@.source_id == r.id@,
        !entries.contains_key(r.id@) ==> only_names(r.info@),
{
}

/// What is shown of an application that a line names: it is known by the line without the white
/// space around it, with its catalog entry if there is one. Without an entry it is an application
/// of Flathub with the generic icon.
pub proof fn system_apps_say_what_lines_say(
    entries: Map<Seq<char>, InfoView>,
    line: Seq<char>,
    r: InstalledApp,
)
    requires
        r@ == system_app(entries, line),
    ensures
        r.id@ == trimmed(line),
        r.version@.len() == 0,
        entries.contains_key(r.id@) ==> r.info@ == entries[r.id@],
        !entries.contains_key(r.id@) ==> r.info@.source_id == r.id@ && r.info@.source_name
            == "flathub"@ && r.info@.name.len() == 0,
        !entries.contains_key(r.id@) ==> only_names(r.info@),
{
}

/// Whether nothing is known of an application beyond its names, so that it has the generic icon.
pub open spec fn only_names(info: InfoView) -> bool {
    &&& info.icons.len() == 1 && info.icons[0] == IconView::Stock(GENERIC_ICON@)
    &&& info.summary.len() == 0 && info.description.len() == 0 && info.developer_name.len() == 0
    &&& info.license_opt is None && info.origin_opt is None && !info.is_verified
    &&& info.pkgnames.len() == 0 && info.categories.len() == 0 && info.desktop_ids.len() == 0
    &&& info.flatpak_refs.len() == 0 && info.urls.len() == 0 && info.screenshots.len() == 0
    &&& info.releases.len() == 0 && info.monthly_downloads == 0 && info.content_rating.len() == 0
}

/// The lists are read whole: of the managed applications every item, and of the system-wide ones
/// every line. A list that could not be read gives nothing.
pub proof fn lists_are_read_whole(stdout: Seq<u8>, items: Seq<JsonTree>)
    ensures
        bytes_json(stdout) == Ok::<JsonTree, Seq<char>>(JsonTree::Array(items)) ==> listed_items(
            Some(stdout),
        ) == items,
        bytes_json(stdout) is Err ==> listed_items(Some(stdout)).len() == 0,
        listed_items(None).len() == 0,
        listed_lines(Some(stdout)) == text_lines(lossy_text(stdout)),
        listed_lines(None).len() == 0,
{
}

/// The views of installed applications are those of each one, in order.
pub proof fn views_of_installed_apps(apps: Seq<InstalledApp>)
    ensures
        installed_views(apps).len() == apps.len(),
        forall|i: int|
            0 <= i < apps.len() ==> (#[trigger] installed_views(apps)[i]).id == apps[i].id@
                && installed_views(apps)[i].info == apps[i].info@ && installed_views(apps)[i].version
                == apps[i].version@,
{
}

} // verus!
