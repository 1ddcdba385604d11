//! The catalog of Mirror OS: everything that is known of the applications from Flathub and
//! nixpkgs.

use crate::app_id::AppId;
use crate::app_info::{AppIcon, AppInfo, InfoView, GENERIC_ICON};
use crate::backend::desktop::{
    desktop_file_for, DesktopFileInfo, DesktopFiles, DesktopView, IconNames,
};
use crate::backend::infos::{
    build_flatpak_info, build_nix_info, flatpak_info_of_row, nix_info, nix_infos_say_what_rows_say,
    FlatpakRow, NixRow,
};
use crate::text::{opt_text, same, texts};
use std::path::PathBuf;
use std::sync::Arc;
use vstd::hash_map::StringHashMap;
use vstd::prelude::*;

verus! {

/// `std::path::PathBuf`, a path of the file system.
#[verifier::external_type_specification]
#[verifier::external_body]
pub struct ExPathBuf(std::path::PathBuf);

/// Infos on applications, by the text of their identifiers.
pub type CatalogInfos = StringHashMap<Arc<AppInfo>>;

/// The contents of infos.
pub open spec fn info_views(infos: Map<Seq<char>, Arc<AppInfo>>) -> Map<Seq<char>, InfoView> {
    infos.map_values(|info: Arc<AppInfo>| info@)
}

/// The catalog in memory.
pub struct CatalogBackend {
    /// Path to the catalog's database
    db_path: PathBuf,
    /// Base directory for media that are stored locally
    media_dir: PathBuf,
    /// What is known of each application
    pub infos: CatalogInfos,
}

impl View for CatalogBackend {
    type V = Map<Seq<char>, InfoView>;

    /// What is known of each application.
    closed spec fn view(&self) -> Map<Seq<char>, InfoView> {
        info_views(self.infos@)
    }
}

/// A row of the table that relates Flatpak applications and Nix packages.
#[derive(Clone, Debug)]
pub struct AppMapRow {
    pub flatpak_id: Option<String>,
    pub nix_attr: Option<String>,
}

/// The tables of the catalog's database and what is known of this machine. A table that could not
/// be read is the error's message; a row that could not be read is `None`.
pub struct CatalogTables {
    pub icons: IconNames,
    pub desktop_files: DesktopFiles,
    pub nix_packages: Result<Vec<Option<NixRow>>, String>,
    pub app_map: Result<Vec<Option<AppMapRow>>, String>,
    pub flatpak_apps: Result<Vec<Option<FlatpakRow>>, String>,
}

/// The stock icon of a package by its names: the package's, or else its attribute's, if the icon
/// themes have it, or else the generic icon.
pub open spec fn icon_by_name(row: NixRow, icons: Set<Seq<char>>) -> Seq<char> {
    if row.pname@.len() > 0 && icons.contains(row.pname@) {
        row.pname@
    } else if icons.contains(row.attr@) {
        row.attr@
    } else {
        GENERIC_ICON@
    }
}

/// The stock icon of a package: the one that its desktop file names, if the icon themes have it,
/// or else the one by the package's names.
pub open spec fn package_icon(
    row: NixRow,
    icons: Set<Seq<char>>,
    file: Option<DesktopView>,
) -> Seq<char> {
    match file {
        Some(f) => match f.icon_name {
            Some(name) => if icons.contains(name) {
                name
            } else {
                icon_by_name(row, icons)
            },
            None => icon_by_name(row, icons),
        },
        None => icon_by_name(row, icons),
    }
}

/// The desktop file of a package as a list.
pub open spec fn package_desktop_ids(file: Option<DesktopView>) -> Seq<Seq<char>> {
    match file {
        Some(f) => seq![f.desktop_stem],
        None => Seq::empty(),
    }
}

/// What is known of a Nix package with this desktop file on a machine with these icons.
pub open spec fn info_with_file(
    row: NixRow,
    icons: Set<Seq<char>>,
    file: Option<DesktopView>,
) -> InfoView {
    nix_info(row, package_icon(row, icons, file), package_desktop_ids(file))
}

/// What is known of a Nix package on a machine with these icons and desktop files.
pub open spec fn package_info(
    row: NixRow,
    icons: Set<Seq<char>>,
    files: Map<Seq<char>, DesktopView>,
) -> InfoView {
    info_with_file(row, icons, desktop_file_for(files, row.pname@, row.attr@))
}

/// The content of an optional desktop file.
pub open spec fn opt_file(file: Option<&DesktopFileInfo>) -> Option<DesktopView> {
    match file {
        Some(f) => Some(f@),
        None => None,
    }
}

/// What is known of the Nix packages. Of two rows for one attribute the later one counts.
pub open spec fn nix_entries(
    rows: Seq<Option<NixRow>>,
    icons: Set<Seq<char>>,
    files: Map<Seq<char>, DesktopView>,
) -> Map<Seq<char>, InfoView>
    decreases rows.len(),
{
    if rows.len() == 0 {
        Map::empty()
    } else {
        let before = nix_entries(rows.drop_last(), icons, files);
        match rows.last() {
            Some(row) => before.insert(row.attr@, package_info(row, icons, files)),
            None => before,
        }
    }
}

/// The Nix attribute of each Flatpak application that the rows relate to one. Of two rows for one
/// application the later one counts.
pub open spec fn nix_attrs(rows: Seq<Option<AppMapRow>>) -> Map<Seq<char>, Option<Seq<char>>>
    decreases rows.len(),
{
    if rows.len() == 0 {
        Map::empty()
    } else {
        let before = nix_attrs(rows.drop_last());
        match rows.last() {
            Some(row) => match row.flatpak_id {
                Some(id) => before.insert(id@, opt_text(row.nix_attr)),
                None => before,
            },
            None => before,
        }
    }
}

/// What is known of a Flatpak application. The attribute of the Nix package that it is related to
/// is among its package names.
pub open spec fn app_entry(
    row: FlatpakRow,
    attrs: Map<Seq<char>, Option<Seq<char>>>,
) -> InfoView {
    let info = flatpak_info_of_row(row);
    if attrs.contains_key(row.app_id@) && attrs[row.app_id@] is Some {
        InfoView { pkgnames: info.pkgnames.push(attrs[row.app_id@]->0), ..info }
    } else {
        info
    }
}

/// The entries with those of the Flatpak applications added. An application replaces an entry with
/// the same identifier.
pub open spec fn with_apps(
    entries: Map<Seq<char>, InfoView>,
    rows: Seq<Option<FlatpakRow>>,
    attrs: Map<Seq<char>, Option<Seq<char>>>,
) -> Map<Seq<char>, InfoView>
    decreases rows.len(),
{
    if rows.len() == 0 {
        entries
    } else {
        let before = with_apps(entries, rows.drop_last(), attrs);
        match rows.last() {
            Some(row) => before.insert(row.app_id@, app_entry(row, attrs)),
            None => before,
        }
    }
}

/// The Nix attributes that Flatpak applications are related to.
pub open spec fn duplicates(attrs: Map<Seq<char>, Option<Seq<char>>>) -> Set<Seq<char>> {
    Set::new(
        |attr: Seq<char>|
            exists|id: Seq<char>| #[trigger] attrs.contains_key(id) && attrs[id] == Some(attr),
    )
}

/// The catalog's entries: those of the Nix packages, without the packages that Flatpak applications
/// are related to, and those of the Flatpak applications.
pub open spec fn catalog_entries(
    icons: Set<Seq<char>>,
    files: Map<Seq<char>, DesktopView>,
    packages: Seq<Option<NixRow>>,
    app_map: Seq<Option<AppMapRow>>,
    apps: Seq<Option<FlatpakRow>>,
) -> Map<Seq<char>, InfoView> {
    let attrs = nix_attrs(app_map);
    with_apps(nix_entries(packages, icons, files).remove_keys(duplicates(attrs)), apps, attrs)
}

/// The first error in reading the tables.
pub open spec fn tables_error(tables: CatalogTables) -> Option<Seq<char>> {
    match tables.nix_packages {
        Err(message) => Some(message@),
        Ok(_) => match tables.app_map {
            Err(message) => Some(message@),
            Ok(_) => match tables.flatpak_apps {
                Err(message) => Some(message@),
                Ok(_) => None,
            },
        },
    }
}

/// The entries after loading the tables. If the Nix packages could not be read there are none; if
/// another table could not be read there are only those of the Nix packages.
pub open spec fn loaded_entries(tables: CatalogTables) -> Map<Seq<char>, InfoView> {
    match tables.nix_packages {
        Err(_) => Map::empty(),
        Ok(packages) => match (tables.app_map, tables.flatpak_apps) {
            (Ok(app_map), Ok(apps)) => catalog_entries(
                tables.icons@,
                tables.desktop_files@,
                packages@,
                app_map@,
                apps@,
            ),
            _ => nix_entries(packages@, tables.icons@, tables.desktop_files@),
        },
    }
}

/// The stock icon of a package by its names.
fn pick_icon_by_name(row: &NixRow, icons: &IconNames) -> (r: String)
    ensures
        r@ == icon_by_name(*row, icons@),
{
    if !row.pname.as_str().is_empty() && icons.contains(row.pname.as_str()) {
        row.pname.clone()
    } else if icons.contains(row.attr.as_str()) {
        row.attr.clone()
    } else {
        GENERIC_ICON.to_owned()
    }
}

/// What is known of a Nix package with this desktop file on a machine with these icons.
pub fn read_package(row: &NixRow, icons: &IconNames, file: Option<&DesktopFileInfo>) -> (r: AppInfo)
    ensures
        r@ == info_with_file(*row, icons@, opt_file(file)),
{
    let mut desktop_ids: Vec<String> = Vec::new();
    let icon_name = match file {
        Some(f) => {
            desktop_ids.push(f.desktop_stem.clone());
            match &f.icon_name {
                Some(name) => if icons.contains(name.as_str()) {
                    name.clone()
                } else {
                    pick_icon_by_name(row, icons)
                },
                None => pick_icon_by_name(row, icons),
            }
        },
        None => pick_icon_by_name(row, icons),
    };
    assert(texts(desktop_ids@) =~= package_desktop_ids(opt_file(file)));
    build_nix_info(row, icon_name.as_str(), desktop_ids)
}

/// The contents of the relation of Flatpak applications to Nix packages.
spec fn attr_views(attrs: Map<Seq<char>, Option<String>>) -> Map<Seq<char>, Option<Seq<char>>> {
    attrs.map_values(|attr: Option<String>| opt_text(attr))
}

/// The Nix attribute of each Flatpak application that the rows relate to one.
fn read_app_map(rows: &Vec<Option<AppMapRow>>) -> (r: StringHashMap<Option<String>>)
    ensures
        attr_views(r@) == nix_attrs(rows@),
{
    let mut attrs: StringHashMap<Option<String>> = StringHashMap::new();
    let mut i: usize = 0;
    assert(attr_views(attrs@) =~= nix_attrs(rows@.take(0)));
    while i < rows.len()
        invariant
            i <= rows@.len(),
            attr_views(attrs@) == nix_attrs(rows@.take(i as int)),
        decreases rows@.len() - i,
    {
        let ghost before = attr_views(attrs@);
        assert(rows@.take(i + 1).drop_last() =~= rows@.take(i as int));
        if let Some(row) = &rows[i] {
            if let Some(id) = &row.flatpak_id {
                let attr = match &row.nix_attr {
                    Some(attr) => Some(attr.clone()),
                    None => None,
                };
                attrs.insert(id.clone(), attr);
                assert(attr_views(attrs@) =~= before.insert(id@, opt_text(row.nix_attr)));
            }
        }
        i = i + 1;
    }
    assert(rows@.take(i as int) =~= rows@);
    attrs
}

/// The Nix attributes in the first `n` rows that are those of their Flatpak applications.
spec fn duplicates_in(
    rows: Seq<Option<AppMapRow>>,
    n: int,
    attrs: Map<Seq<char>, Option<Seq<char>>>,
) -> Set<Seq<char>> {
    Set::new(
        |attr: Seq<char>|
            exists|j: int|
                0 <= j < n && #[trigger] relates(rows[j], attr, attrs),
    )
}

/// Whether the row relates a Flatpak application to the Nix attribute that counts for it.
spec fn relates(
    row: Option<AppMapRow>,
    attr: Seq<char>,
    attrs: Map<Seq<char>, Option<Seq<char>>>,
) -> bool {
    match row {
        Some(r) => r.flatpak_id is Some && opt_text(r.nix_attr) == Some(attr) && attrs.contains_key(
            r.flatpak_id->0@,
        ) && attrs[r.flatpak_id->0@] == Some(attr),
        None => false,
    }
}

/// Each relation comes from a row.
proof fn lemma_attr_has_row(rows: Seq<Option<AppMapRow>>, id: Seq<char>)
    requires
        nix_attrs(rows).contains_key(id),
    ensures
        exists|j: int|
            0 <= j < rows.len() && (#[trigger] rows[j]) is Some && opt_text(rows[j]->0.flatpak_id)
                == Some(id) && opt_text(rows[j]->0.nix_attr) == nix_attrs(rows)[id],
    decreases rows.len(),
{
    let last = rows.len() - 1;
    if rows[last] is Some && opt_text(rows[last]->0.flatpak_id) == Some(id) {
        assert(rows.last() == rows[last]);
    } else {
        lemma_attr_has_row(rows.drop_last(), id);
        let j = choose|j: int|
            0 <= j < rows.drop_last().len() && (#[trigger] rows.drop_last()[j]) is Some && opt_text(
                rows.drop_last()[j]->0.flatpak_id,
            ) == Some(id) && opt_text(rows.drop_last()[j]->0.nix_attr) == nix_attrs(
                rows.drop_last(),
            )[id];
        assert(rows[j] == rows.drop_last()[j]);
    }
}

/// The rows hold all the attributes that Flatpak applications are related to.
proof fn lemma_rows_hold_duplicates(rows: Seq<Option<AppMapRow>>)
    ensures
        duplicates_in(rows, rows.len() as int, nix_attrs(rows)) == duplicates(nix_attrs(rows)),
{
    let attrs = nix_attrs(rows);
    assert forall|attr: Seq<char>| duplicates(attrs).contains(attr) implies duplicates_in(
        rows,
        rows.len() as int,
        attrs,
    ).contains(attr) by {
        let id = choose|id: Seq<char>|
            #[trigger] attrs.contains_key(id) && attrs[id] == Some(attr);
        lemma_attr_has_row(rows, id);
        let j = choose|j: int|
            0 <= j < rows.len() && (#[trigger] rows[j]) is Some && opt_text(rows[j]->0.flatpak_id)
                == Some(id) && opt_text(rows[j]->0.nix_attr) == attrs[id];
        assert(relates(rows[j], attr, attrs));
    }
    assert forall|attr: Seq<char>|
        duplicates_in(rows, rows.len() as int, attrs).contains(attr) implies duplicates(
        attrs,
    ).contains(attr) by {
        let j = choose|j: int| 0 <= j < rows.len() && #[trigger] relates(rows[j], attr, attrs);
        assert(attrs.contains_key(rows[j]->0.flatpak_id->0@));
    }
    assert(duplicates_in(rows, rows.len() as int, attrs) =~= duplicates(attrs));
}

impl CatalogBackend {
    /// The path to the catalog's database.
    pub closed spec fn db_path_spec(&self) -> PathBuf {
        self.db_path
    }

    /// The base directory for media that are stored locally.
    pub closed spec fn media_dir_spec(&self) -> PathBuf {
        self.media_dir
    }

    /// The catalog before anything was loaded.
    pub fn new(db_path: PathBuf, media_dir: PathBuf) -> (r: CatalogBackend)
        ensures
            r@ == Map::<Seq<char>, InfoView>::empty(),
            r.db_path_spec() == db_path,
            r.media_dir_spec() == media_dir,
    {
        let r = CatalogBackend { db_path, media_dir, infos: StringHashMap::new() };
        assert(r@ =~= Map::<Seq<char>, InfoView>::empty());
        r
    }

    /// The path to the catalog's database.
    pub fn db_path(&self) -> (r: &PathBuf)
        ensures
            *r == self.db_path_spec(),
    {
        &self.db_path
    }

    /// The base directory for media that are stored locally.
    pub fn media_dir(&self) -> (r: &PathBuf)
        ensures
            *r == self.media_dir_spec(),
    {
        &self.media_dir
    }

    /// What is known of each application.
    pub fn catalog_infos(&self) -> (r: Option<&CatalogInfos>)
        ensures
            r is Some,
            info_views(r->0@) == self@,
    {
        Some(&self.infos)
    }

    /// What is known of an application.
    pub fn info(&self, id: &AppId) -> (r: Option<&Arc<AppInfo>>)
        ensures
            match r {
                Some(info) => self@.contains_key(id@) && info@ == self@[id@],
                None => !self@.contains_key(id@),
            },
    {
        self.infos.get(id.raw())
    }

    /// Adds the Nix packages to an empty catalog.
    fn load_packages(
        &mut self,
        rows: &Vec<Option<NixRow>>,
        icons: &IconNames,
        files: &DesktopFiles,
    )
        requires
            old(self)@ == Map::<Seq<char>, InfoView>::empty(),
        ensures
            final(self)@ == nix_entries(rows@, icons@, files@),
            final(self).db_path_spec() == old(self).db_path_spec(),
            final(self).media_dir_spec() == old(self).media_dir_spec(),
    {
        let mut i: usize = 0;
        assert(self@ =~= nix_entries(rows@.take(0), icons@, files@));
        while i < rows.len()
            invariant
                i <= rows@.len(),
                self@ == nix_entries(rows@.take(i as int), icons@, files@),
                self.db_path_spec() == old(self).db_path_spec(),
                self.media_dir_spec() == old(self).media_dir_spec(),
            decreases rows@.len() - i,
        {
            let ghost before = self@;
            assert(rows@.take(i + 1).drop_last() =~= rows@.take(i as int));
            if let Some(row) = &rows[i] {
                let file = files.find(row.pname.as_str(), row.attr.as_str());
                let info = read_package(row, icons, file);
                self.infos.insert(row.attr.clone(), Arc::new(info));
                assert(self@ =~= before.insert(row.attr@, package_info(*row, icons@, files@)));
            }
            i = i + 1;
        }
        assert(rows@.take(i as int) =~= rows@);
    }

    /// Adds the Flatpak applications to the catalog.
    fn load_apps(&mut self, rows: &Vec<Option<FlatpakRow>>, attrs: &StringHashMap<Option<String>>)
        ensures
            final(self)@ == with_apps(old(self)@, rows@, attr_views(attrs@)),
            final(self).db_path_spec() == old(self).db_path_spec(),
            final(self).media_dir_spec() == old(self).media_dir_spec(),
    {
        let mut i: usize = 0;
        assert(self@ =~= with_apps(old(self)@, rows@.take(0), attr_views(attrs@)));
        while i < rows.len()
            invariant
                i <= rows@.len(),
                self@ == with_apps(old(self)@, rows@.take(i as int), attr_views(attrs@)),
                self.db_path_spec() == old(self).db_path_spec(),
                self.media_dir_spec() == old(self).media_dir_spec(),
            decreases rows@.len() - i,
        {
            let ghost before = self@;
            assert(rows@.take(i + 1).drop_last() =~= rows@.take(i as int));
            if let Some(row) = &rows[i] {
                let mut info = build_flatpak_info(row);
                let ghost built = info@;
                if let Some(Some(attr)) = attrs.get(row.app_id.as_str()) {
                    info.pkgnames.push(attr.clone());
                    assert(info@.pkgnames =~= built.pkgnames.push(attr@));
                }
                assert(info@ =~= app_entry(*row, attr_views(attrs@)));
                self.infos.insert(row.app_id.clone(), Arc::new(info));
                assert(self@ =~= before.insert(row.app_id@, app_entry(*row, attr_views(attrs@))));
            }
            i = i + 1;
        }
        assert(rows@.take(i as int) =~= rows@);
    }

    /// Removes the entries of the packages that Flatpak applications are related to.
    fn remove_duplicates(
        &mut self,
        rows: &Vec<Option<AppMapRow>>,
        attrs: &StringHashMap<Option<String>>,
    )
        requires
            attr_views(attrs@) == nix_attrs(rows@),
        ensures
            final(self)@ == old(self)@.remove_keys(duplicates(nix_attrs(rows@))),
            final(self).db_path_spec() == old(self).db_path_spec(),
            final(self).media_dir_spec() == old(self).media_dir_spec(),
    {
        let ghost all = nix_attrs(rows@);
        let mut i: usize = 0;
        assert(self@ =~= old(self)@.remove_keys(duplicates_in(rows@, 0, all)));
        while i < rows.len()
            invariant
                i <= rows@.len(),
                all == nix_attrs(rows@),
                attr_views(attrs@) == all,
                self@ == old(self)@.remove_keys(duplicates_in(rows@, i as int, all)),
                self.db_path_spec() == old(self).db_path_spec(),
                self.media_dir_spec() == old(self).media_dir_spec(),
            decreases rows@.len() - i,
        {
            let ghost before = self@;
            let ghost gone = duplicates_in(rows@, i as int, all);
            let ghost next = duplicates_in(rows@, i + 1, all);
            let mut removed = false;
            if let Some(row) = &rows[i] {
                if let Some(id) = &row.flatpak_id {
                    if let Some(attr) = &row.nix_attr {
                        if let Some(Some(current)) = attrs.get(id.as_str()) {
                            if same(current.as_str(), attr.as_str()) {
                                self.infos.remove(attr.as_str());
                                removed = true;
                                proof {
                                    assert(attr_views(attrs@).contains_key(id@));
                                    assert(relates(rows@[i as int], attr@, all));
                                    assert(next =~= gone.insert(attr@)) by {
                                        assert forall|a: Seq<char>|
                                            next.contains(a) implies gone.insert(attr@).contains(
                                            a,
                                        ) by {
                                            let j = choose|j: int|
                                                0 <= j < i + 1 && #[trigger] relates(
                                                    rows@[j],
                                                    a,
                                                    all,
                                                );
                                            assert(relates(rows@[j], a, all));
                                        }
                                    }
                                    assert(self@ =~= before.remove(attr@));
                                    assert(self@ =~= old(self)@.remove_keys(next));
                                }
                            }
                        }
                    }
                }
            }
            proof {
                if !removed {
                    assert forall|a: Seq<char>| next.contains(a) implies gone.contains(a) by {
                        let j = choose|j: int|
                            0 <= j < i + 1 && #[trigger] relates(rows@[j], a, all);
                        if j == i {
                            assert(attr_views(attrs@).contains_key(rows@[j]->0.flatpak_id->0@));
                        }
                    }
                    assert(next =~= gone);
                }
            }
            i = i + 1;
        }
        proof {
            lemma_rows_hold_duplicates(rows@);
        }
    }

    /// Replaces the catalog in memory by what the database holds, where `opened` gives the tables
    /// of the database or says why it could not be opened.
    pub fn load_caches(&mut self, opened: Result<CatalogTables, String>) -> (r: Result<(), String>)
        ensures
            match opened {
                Ok(tables) => final(self)@ == loaded_entries(tables) && match r {
                    Ok(_) => tables_error(tables) is None,
                    Err(message) => tables_error(tables) == Some(message@),
                },
                Err(message) => final(self)@ == old(self)@ && r == Err::<(), String>(message),
            },
            final(self).db_path_spec() == old(self).db_path_spec(),
            final(self).media_dir_spec() == old(self).media_dir_spec(),
    {
        let tables = match opened {
            Ok(tables) => tables,
            Err(message) => return Err(message),
        };
        self.infos.clear();
        assert(self@ =~= Map::<Seq<char>, InfoView>::empty());
        let packages = match tables.nix_packages {
            Ok(rows) => rows,
            Err(message) => return Err(message),
        };
        self.load_packages(&packages, &tables.icons, &tables.desktop_files);
        let app_map = match tables.app_map {
            Ok(rows) => rows,
            Err(message) => return Err(message),
        };
        let apps = match tables.flatpak_apps {
            Ok(rows) => rows,
            Err(message) => return Err(message),
        };
        let attrs = read_app_map(&app_map);
        self.remove_duplicates(&app_map, &attrs);
        self.load_apps(&apps, &attrs);
        Ok(())
    }
}

/// Whether a Flatpak application with the identifier is in a row that could be read.
pub open spec fn has_app(rows: Seq<Option<FlatpakRow>>, id: Seq<char>) -> bool {
    exists|i: int| 0 <= i < rows.len() && (#[trigger] rows[i]) is Some && rows[i]->0.app_id@ == id
}

/// Whether a Nix package with the attribute is in a row that could be read.
pub open spec fn has_package(rows: Seq<Option<NixRow>>, attr: Seq<char>) -> bool {
    exists|i: int| 0 <= i < rows.len() && (#[trigger] rows[i]) is Some && rows[i]->0.attr@ == attr
}

/// An entry comes from a Flatpak application if there is one with its identifier.
proof fn lemma_entry_with_apps(
    entries: Map<Seq<char>, InfoView>,
    rows: Seq<Option<FlatpakRow>>,
    attrs: Map<Seq<char>, Option<Seq<char>>>,
    id: Seq<char>,
)
    ensures
        has_app(rows, id) ==> with_apps(entries, rows, attrs).contains_key(id) && exists|i: int|
            0 <= i < rows.len() && (#[trigger] rows[i]) is Some && rows[i]->0.app_id@ == id
                && with_apps(entries, rows, attrs)[id] == app_entry(rows[i]->0, attrs),
        !has_app(rows, id) ==> (with_apps(entries, rows, attrs).contains_key(id)
            <==> entries.contains_key(id)),
        !has_app(rows, id) && entries.contains_key(id) ==> with_apps(entries, rows, attrs)[id]
            == entries[id],
    decreases rows.len(),
{
    if rows.len() > 0 {
        let fewer = rows.drop_last();
        let last = rows.len() - 1;
        lemma_entry_with_apps(entries, fewer, attrs, id);
        assert(rows[last] == rows.last());
        if rows[last] is Some && rows[last]->0.app_id@ == id {
            assert(has_app(rows, id));
        } else if has_app(rows, id) {
            let k = choose|k: int|
                0 <= k < rows.len() && (#[trigger] rows[k]) is Some && rows[k]->0.app_id@ == id;
            assert(fewer[k] == rows[k]);
            assert(has_app(fewer, id));
            let i = choose|i: int|
                0 <= i < fewer.len() && (#[trigger] fewer[i]) is Some && fewer[i]->0.app_id@ == id
                    && with_apps(entries, fewer, attrs)[id] == app_entry(fewer[i]->0, attrs);
            assert(rows[i] == fewer[i]);
        } else if has_app(fewer, id) {
            let k = choose|k: int|
                0 <= k < fewer.len() && (#[trigger] fewer[k]) is Some && fewer[k]->0.app_id@ == id;
            assert(rows[k] == fewer[k]);
        }
    }
}

/// The Nix packages' entries are those of the rows that could be read.
proof fn lemma_nix_entry(
    rows: Seq<Option<NixRow>>,
    icons: Set<Seq<char>>,
    files: Map<Seq<char>, DesktopView>,
    attr: Seq<char>,
)
    ensures
        nix_entries(rows, icons, files).contains_key(attr) <==> has_package(rows, attr),
        has_package(rows, attr) ==> nix_entries(rows, icons, files)[attr].source_id == "nixpkgs"@,
    decreases rows.len(),
{
    if rows.len() > 0 {
        let fewer = rows.drop_last();
        let last = rows.len() - 1;
        lemma_nix_entry(fewer, icons, files, attr);
        assert(rows[last] == rows.last());
        if rows[last] is Some && rows[last]->0.attr@ == attr {
            assert(has_package(rows, attr));
        } else {
            assert(has_package(rows, attr) ==> has_package(fewer, attr)) by {
                if has_package(rows, attr) {
                    let k = choose|k: int|
                        0 <= k < rows.len() && (#[trigger] rows[k]) is Some && rows[k]->0.attr@
                            == attr;
                    assert(fewer[k] == rows[k]);
                }
            }
            assert(has_package(fewer, attr) ==> has_package(rows, attr)) by {
                if has_package(fewer, attr) {
                    let k = choose|k: int|
                        0 <= k < fewer.len() && (#[trigger] fewer[k]) is Some && fewer[k]->0.attr@
                            == attr;
                    assert(rows[k] == fewer[k]);
                }
            }
        }
    }
}

/// The catalog lists each Flatpak application that could be read and each Nix package that could be
/// read and that no Flatpak application is related to; and it lists nothing else.
pub proof fn catalog_lists_all(
    icons: Set<Seq<char>>,
    files: Map<Seq<char>, DesktopView>,
    packages: Seq<Option<NixRow>>,
    app_map: Seq<Option<AppMapRow>>,
    apps: Seq<Option<FlatpakRow>>,
    id: Seq<char>,
)
    ensures
        catalog_entries(icons, files, packages, app_map, apps).contains_key(id) <==> has_app(apps, id)
            || (has_package(packages, id) && !duplicates(nix_attrs(app_map)).contains(id)),
{
    let attrs = nix_attrs(app_map);
    lemma_nix_entry(packages, icons, files, id);
    lemma_entry_with_apps(
        nix_entries(packages, icons, files).remove_keys(duplicates(attrs)),
        apps,
        attrs,
        id,
    );
}

/// A package that a Flatpak application is related to is not listed on its own.
pub proof fn related_packages_are_not_listed(
    icons: Set<Seq<char>>,
    files: Map<Seq<char>, DesktopView>,
    packages: Seq<Option<NixRow>>,
    app_map: Seq<Option<AppMapRow>>,
    apps: Seq<Option<FlatpakRow>>,
    id: Seq<char>,
    attr: Seq<char>,
)
    requires
        nix_attrs(app_map).contains_key(id),
        nix_attrs(app_map)[id] == Some(attr),
        !has_app(apps, attr),
    ensures
        !catalog_entries(icons, files, packages, app_map, apps).contains_key(attr),
{
    assert(duplicates(nix_attrs(app_map)).contains(attr));
    catalog_lists_all(icons, files, packages, app_map, apps, attr);
}

/// Flatpak wins: every Flatpak application that could be read is listed, with its own entry, also
/// if a package has the same identifier; and its package names are the attribute that it is
/// related to, if there is one.
pub proof fn flatpak_wins(
    icons: Set<Seq<char>>,
    files: Map<Seq<char>, DesktopView>,
    packages: Seq<Option<NixRow>>,
    app_map: Seq<Option<AppMapRow>>,
    apps: Seq<Option<FlatpakRow>>,
    id: Seq<char>,
)
    requires
        has_app(apps, id),
    ensures
        catalog_entries(icons, files, packages, app_map, apps).contains_key(id),
        catalog_entries(icons, files, packages, app_map, apps)[id].source_id == "flathub"@,
        catalog_entries(icons, files, packages, app_map, apps)[id].pkgnames == if nix_attrs(
            app_map,
        ).contains_key(id) && nix_attrs(app_map)[id] is Some {
            seq![nix_attrs(app_map)[id]->0]
        } else {
            Seq::empty()
        },
{
    let attrs = nix_attrs(app_map);
    let kept = nix_entries(packages, icons, files).remove_keys(duplicates(attrs));
    let entries = with_apps(kept, apps, attrs);
    lemma_entry_with_apps(kept, apps, attrs, id);
    let i = choose|i: int|
        0 <= i < apps.len() && (#[trigger] apps[i]) is Some && apps[i]->0.app_id@ == id
            && entries[id] == app_entry(apps[i]->0, attrs);
    if attrs.contains_key(id) && attrs[id] is Some {
        assert(Seq::<Seq<char>>::empty().push(attrs[id]->0) =~= seq![attrs[id]->0]);
    }
}

/// Every entry of the catalog comes from Flathub or from nixpkgs.
pub proof fn entries_come_from_two_sources(
    icons: Set<Seq<char>>,
    files: Map<Seq<char>, DesktopView>,
    packages: Seq<Option<NixRow>>,
    app_map: Seq<Option<AppMapRow>>,
    apps: Seq<Option<FlatpakRow>>,
    id: Seq<char>,
)
    requires
        catalog_entries(icons, files, packages, app_map, apps).contains_key(id),
    ensures
        catalog_entries(icons, files, packages, app_map, apps)[id].source_id == if has_app(apps, id) {
            "flathub"@
        } else {
            "nixpkgs"@
        },
{
    let attrs = nix_attrs(app_map);
    lemma_nix_entry(packages, icons, files, id);
    lemma_entry_with_apps(
        nix_entries(packages, icons, files).remove_keys(duplicates(attrs)),
        apps,
        attrs,
        id,
    );
}

/// Of several rows for one package the last one counts.
proof fn lemma_latest_package(
    rows: Seq<Option<NixRow>>,
    icons: Set<Seq<char>>,
    files: Map<Seq<char>, DesktopView>,
    i: int,
)
    requires
        0 <= i < rows.len(),
        rows[i] is Some,
        forall|j: int|
            i < j < rows.len() && (#[trigger] rows[j]) is Some ==> rows[j]->0.attr@
                != rows[i]->0.attr@,
    ensures
        nix_entries(rows, icons, files).contains_key(rows[i]->0.attr@),
        nix_entries(rows, icons, files)[rows[i]->0.attr@] == package_info(rows[i]->0, icons, files),
    decreases rows.len(),
{
    let last = rows.len() - 1;
    assert(rows.last() == rows[last]);
    if i < last {
        let fewer = rows.drop_last();
        assert(fewer[i] == rows[i]);
        assert forall|j: int| i < j < fewer.len() && (#[trigger] fewer[j]) is Some implies fewer[j]->0.attr@
            != fewer[i]->0.attr@ by {
            assert(fewer[j] == rows[j]);
        }
        lemma_latest_package(fewer, icons, files, i);
    }
}

/// Of several rows for one application the last one counts.
proof fn lemma_latest_app(
    entries: Map<Seq<char>, InfoView>,
    rows: Seq<Option<FlatpakRow>>,
    attrs: Map<Seq<char>, Option<Seq<char>>>,
    i: int,
)
    requires
        0 <= i < rows.len(),
        rows[i] is Some,
        forall|j: int|
            i < j < rows.len() && (#[trigger] rows[j]) is Some ==> rows[j]->0.app_id@
                != rows[i]->0.app_id@,
    ensures
        with_apps(entries, rows, attrs).contains_key(rows[i]->0.app_id@),
        with_apps(entries, rows, attrs)[rows[i]->0.app_id@] == app_entry(rows[i]->0, attrs),
    decreases rows.len(),
{
    let last = rows.len() - 1;
    assert(rows.last() == rows[last]);
    if i < last {
        let fewer = rows.drop_last();
        assert(fewer[i] == rows[i]);
        assert forall|j: int| i < j < fewer.len() && (#[trigger] fewer[j]) is Some implies fewer[j]->0.app_id@
            != fewer[i]->0.app_id@ by {
            assert(fewer[j] == rows[j]);
        }
        lemma_latest_app(entries, fewer, attrs, i);
    }
}

/// An application is related to the package that the last row for it names, if that row names one;
/// without a row for it, it is related to none.
pub proof fn relations_come_from_the_latest_rows(
    rows: Seq<Option<AppMapRow>>,
    id: Seq<char>,
    i: int,
)
    requires
        -1 <= i < rows.len(),
        i >= 0 ==> rows[i] is Some && opt_text(rows[i]->0.flatpak_id) == Some(id),
        forall|j: int|
            i < j < rows.len() && (#[trigger] rows[j]) is Some ==> opt_text(rows[j]->0.flatpak_id)
                != Some(id),
    ensures
        i >= 0 ==> nix_attrs(rows).contains_key(id) && nix_attrs(rows)[id] == opt_text(
            rows[i]->0.nix_attr,
        ),
        i < 0 ==> !nix_attrs(rows).contains_key(id),
    decreases rows.len(),
{
    if rows.len() > 0 {
        let last = rows.len() - 1;
        assert(rows.last() == rows[last]);
        if i < last {
            let fewer = rows.drop_last();
            assert(i >= 0 ==> fewer[i] == rows[i]);
            assert forall|j: int| i < j < fewer.len() && (#[trigger] fewer[j]) is Some implies opt_text(
                fewer[j]->0.flatpak_id,
            ) != Some(id) by {
                assert(fewer[j] == rows[j]);
            }
            relations_come_from_the_latest_rows(fewer, id, i);
        }
    }
}

/// A package is left out exactly for the sake of an application that is related to it.
pub proof fn packages_give_way_to_related_apps(
    attrs: Map<Seq<char>, Option<Seq<char>>>,
    attr: Seq<char>,
)
    ensures
        duplicates(attrs).contains(attr) <==> exists|id: Seq<char>|
            attrs.contains_key(id) && #[trigger] attrs[id] == Some(attr),
{
    if exists|id: Seq<char>| attrs.contains_key(id) && #[trigger] attrs[id] == Some(attr) {
        let id = choose|id: Seq<char>| attrs.contains_key(id) && #[trigger] attrs[id] == Some(attr);
        assert(attrs.contains_key(id));
    }
}

/// The catalog shows of a Flatpak application what the last row for it says, and of a Nix package
/// that it lists what the last row for it says.
pub proof fn catalog_shows_the_latest_rows(
    icons: Set<Seq<char>>,
    files: Map<Seq<char>, DesktopView>,
    packages: Seq<Option<NixRow>>,
    app_map: Seq<Option<AppMapRow>>,
    apps: Seq<Option<FlatpakRow>>,
    i: int,
)
    ensures
        0 <= i < apps.len() && apps[i] is Some && (forall|j: int|
            i < j < apps.len() && (#[trigger] apps[j]) is Some ==> apps[j]->0.app_id@
                != apps[i]->0.app_id@) ==> catalog_entries(
            icons,
            files,
            packages,
            app_map,
            apps,
        ).contains_key(apps[i]->0.app_id@) && (InfoView {
            pkgnames: Seq::empty(),
            ..catalog_entries(icons, files, packages, app_map, apps)[apps[i]->0.app_id@]
        }) == flatpak_info_of_row(apps[i]->0),
        0 <= i < packages.len() && packages[i] is Some && !has_app(apps, packages[i]->0.attr@)
            && !duplicates(nix_attrs(app_map)).contains(packages[i]->0.attr@) && (forall|j: int|
            i < j < packages.len() && (#[trigger] packages[j]) is Some ==> packages[j]->0.attr@
                != packages[i]->0.attr@) ==> catalog_entries(
            icons,
            files,
            packages,
            app_map,
            apps,
        ).contains_key(packages[i]->0.attr@) && catalog_entries(
            icons,
            files,
            packages,
            app_map,
            apps,
        )[packages[i]->0.attr@] == package_info(packages[i]->0, icons, files),
{
    let attrs = nix_attrs(app_map);
    let kept = nix_entries(packages, icons, files).remove_keys(duplicates(attrs));
    if 0 <= i < apps.len() && apps[i] is Some && forall|j: int|
        i < j < apps.len() && (#[trigger] apps[j]) is Some ==> apps[j]->0.app_id@
            != apps[i]->0.app_id@ {
        lemma_latest_app(kept, apps, attrs, i);
        let entry = app_entry(apps[i]->0, attrs);
        assert((InfoView { pkgnames: Seq::empty(), ..entry }) =~= flatpak_info_of_row(apps[i]->0));
    }
    if 0 <= i < packages.len() && packages[i] is Some && !has_app(apps, packages[i]->0.attr@)
        && !duplicates(attrs).contains(packages[i]->0.attr@) && forall|j: int|
        i < j < packages.len() && (#[trigger] packages[j]) is Some ==> packages[j]->0.attr@
            != packages[i]->0.attr@ {
        lemma_latest_package(packages, icons, files, i);
        lemma_entry_with_apps(kept, apps, attrs, packages[i]->0.attr@);
    }
}

/// The icon of a package is one of the icon themes or the generic one. The icon that the package's
/// desktop file names comes first, then one with the package's name, then one with its attribute;
/// the generic icon is used only if the themes have none of them.
pub proof fn package_icons_exist(row: NixRow, icons: Set<Seq<char>>, file: Option<DesktopView>)
    ensures
        icons.contains(package_icon(row, icons, file)) || package_icon(row, icons, file)
            == GENERIC_ICON@,
        file is Some && file->0.icon_name is Some && icons.contains(file->0.icon_name->0)
            ==> package_icon(row, icons, file) == file->0.icon_name->0,
        !(file is Some && file->0.icon_name is Some && icons.contains(file->0.icon_name->0))
            && row.pname@.len() > 0 && icons.contains(row.pname@) ==> package_icon(row, icons, file)
            == row.pname@,
        !(file is Some && file->0.icon_name is Some && icons.contains(file->0.icon_name->0)) && !(
        row.pname@.len() > 0 && icons.contains(row.pname@)) && icons.contains(row.attr@)
            ==> package_icon(row, icons, file) == row.attr@,
{
}

/// What is known of a package on a machine: it has the package's icon and opens with the package's
/// desktop file, if there is one; the rest is what its row says.
pub proof fn packages_open_with_their_desktop_file(
    row: NixRow,
    icons: Set<Seq<char>>,
    files: Map<Seq<char>, DesktopView>,
    r: AppInfo,
)
    requires
        r@ == package_info(row, icons, files),
    ensures
        desktop_file_for(files, row.pname@, row.attr@) matches Some(file) ==> r.desktop_ids@.len()
            == 1 && r.desktop_ids@[0]@ == file.desktop_stem,
        desktop_file_for(files, row.pname@, row.attr@) is None ==> r.desktop_ids@.len() == 0,
        r.icons@.len() == 1 && (r.icons@[0] matches AppIcon::Stock(name) && name@ == package_icon(
            row,
            icons,
            desktop_file_for(files, row.pname@, row.attr@),
        )),
        r.pkgnames@.len() == 1 && r.pkgnames@[0]@ == row.attr@,
        row.pname@.len() > 0 ==> r.name@ == row.pname@,
        r@ == nix_info(
            row,
            package_icon(row, icons, desktop_file_for(files, row.pname@, row.attr@)),
            r@.desktop_ids,
        ),
{
    let file = desktop_file_for(files, row.pname@, row.attr@);
    nix_infos_say_what_rows_say(
        row,
        package_icon(row, icons, file),
        package_desktop_ids(file),
        r,
    );
}

/// Loading fails exactly if a table could not be read, with the message of the first such table:
/// the packages, then the relations, then the applications. The entries are complete exactly if it
/// does not fail: without the packages there are none, and without one of the other tables there
/// are those of all packages.
pub proof fn failed_loads_keep_packages(tables: CatalogTables, id: Seq<char>)
    ensures
        tables_error(tables) is None <==> tables.nix_packages is Ok && tables.app_map is Ok
            && tables.flatpak_apps is Ok,
        tables.nix_packages matches Err(message) ==> tables_error(tables) == Some(message@)
            && loaded_entries(tables).dom() == Set::<Seq<char>>::empty(),
        tables.nix_packages matches Ok(packages) ==> tables_error(tables) is Some ==> (
        loaded_entries(tables).contains_key(id) <==> has_package(packages@, id)),
        tables.nix_packages is Ok ==> (tables.app_map matches Err(message) ==> tables_error(tables)
            == Some(message@)),
        tables.nix_packages is Ok && tables.app_map is Ok ==> (tables.flatpak_apps matches Err(
            message,
        ) ==> tables_error(tables) == Some(message@)),
        tables_error(tables) is None ==> (loaded_entries(tables).contains_key(id) <==> has_app(
            tables.flatpak_apps->Ok_0@,
            id,
        ) || (has_package(tables.nix_packages->Ok_0@, id) && !duplicates(
            nix_attrs(tables.app_map->Ok_0@),
        ).contains(id))),
{
    if tables.nix_packages is Ok {
        lemma_nix_entry(tables.nix_packages->Ok_0@, tables.icons@, tables.desktop_files@, id);
        if tables.app_map is Ok && tables.flatpak_apps is Ok {
            catalog_lists_all(
                tables.icons@,
                tables.desktop_files@,
                tables.nix_packages->Ok_0@,
                tables.app_map->Ok_0@,
                tables.flatpak_apps->Ok_0@,
                id,
            );
        }
    } else {
        assert(loaded_entries(tables).dom() =~= Set::<Seq<char>>::empty());
    }
}

/// The view of the infos holds each one under its identifier.
pub proof fn views_of_infos(infos: Map<Seq<char>, Arc<AppInfo>>, id: Seq<char>)
    ensures
        info_views(infos).contains_key(id) <==> infos.contains_key(id),
        infos.contains_key(id) ==> info_views(infos)[id] == infos[id]@,
{
}

} // verus!
