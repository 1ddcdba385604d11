//! Icons and desktop files on this machine.

use crate::command::opt_str;
use crate::text::{
    before_last, chars_of, has_prefix, last_copy_cuts, lines, lowercase, opt_text,
    patterns_part_texts, same, starts_with, text_lines, text_of, texts, to_lowercase, trim, trimmed,
    up_to_last,
};
use vstd::hash_map::StringHashMap;
use vstd::hash_set::StringHashSet;
use vstd::prelude::*;

verus! {

/// A directory to scan.
#[derive(Clone, Copy, Debug, Eq, PartialEq)]
pub enum ScanDir {
    /// A path below the user's home directory
    Home(&'static str),
    /// A path of the system
    System(&'static str),
}

/// The mathematical content of a `ScanDir`.
pub enum DirView {
    Home(Seq<char>),
    System(Seq<char>),
}

impl View for ScanDir {
    type V = DirView;

    open spec fn view(&self) -> DirView {
        match *self {
            ScanDir::Home(path) => DirView::Home(path@),
            ScanDir::System(path) => DirView::System(path@),
        }
    }
}

/// The contents of directories.
pub open spec fn dir_views(dirs: Seq<ScanDir>) -> Seq<DirView> {
    dirs.map_values(|dir: ScanDir| dir@)
}

/// The directories of icon themes. Each of their subdirectories holds the icons of one size.
pub open spec fn icon_theme_dirs(has_home: bool) -> Seq<DirView> {
    seq![DirView::System("/usr/share/icons/hicolor"@)] + if has_home {
        seq![
            DirView::Home(".nix-profile/share/icons/hicolor"@),
            DirView::Home(".local/share/icons/hicolor"@),
        ]
    } else {
        Seq::empty()
    }
}

/// The directories of desktop files, those with precedence first.
pub open spec fn desktop_file_dirs(has_home: bool) -> Seq<DirView> {
    (if has_home {
        seq![
            DirView::Home(".nix-profile/share/applications"@),
            DirView::Home(".local/share/applications"@),
        ]
    } else {
        Seq::empty()
    }) + seq![DirView::System("/usr/share/applications"@)]
}

/// The subdirectory of applications' icons in the directory of one size.
pub const ICON_SUBDIR: &'static str = "apps";

/// The directory of icons that belong to no theme.
pub const PIXMAPS_DIR: &'static str = "/usr/share/pixmaps";

/// The directories of icon themes, with or without those of a home directory.
pub fn icon_theme_roots(has_home: bool) -> (r: Vec<ScanDir>)
    ensures
        dir_views(r@) == icon_theme_dirs(has_home),
{
    let mut dirs: Vec<ScanDir> = Vec::new();
    dirs.push(ScanDir::System("/usr/share/icons/hicolor"));
    if has_home {
        dirs.push(ScanDir::Home(".nix-profile/share/icons/hicolor"));
        dirs.push(ScanDir::Home(".local/share/icons/hicolor"));
    }
    assert(dir_views(dirs@) =~= icon_theme_dirs(has_home));
    dirs
}

/// The directories of desktop files, with or without those of a home directory.
pub fn desktop_search_dirs(has_home: bool) -> (r: Vec<ScanDir>)
    ensures
        dir_views(r@) == desktop_file_dirs(has_home),
{
    let mut dirs: Vec<ScanDir> = Vec::new();
    if has_home {
        dirs.push(ScanDir::Home(".nix-profile/share/applications"));
        dirs.push(ScanDir::Home(".local/share/applications"));
    }
    dirs.push(ScanDir::System("/usr/share/applications"));
    assert(dir_views(dirs@) =~= desktop_file_dirs(has_home));
    dirs
}

/// The names of the icons in the icon themes.
pub struct IconNames {
    names: StringHashSet,
}

impl View for IconNames {
    type V = Set<Seq<char>>;

    closed spec fn view(&self) -> Set<Seq<char>> {
        self.names@
    }
}

/// The names of the icons in files: the names of the files without their last extension.
pub open spec fn icon_stems(file_names: Seq<Seq<char>>) -> Set<Seq<char>> {
    Set::new(
        |stem: Seq<char>|
            exists|i: int|
                0 <= i < file_names.len() && #[trigger] before_last(file_names[i], '.') == stem,
    )
}

/// The names of the icons in directories, each given by the names of its files.
pub open spec fn scanned_icons(dirs: Seq<Seq<Seq<char>>>) -> Set<Seq<char>> {
    Set::new(
        |stem: Seq<char>|
            exists|i: int| 0 <= i < dirs.len() && #[trigger] icon_stems(dirs[i]).contains(stem),
    )
}

/// The contents of lists of names.
pub open spec fn name_lists(dirs: Seq<Vec<String>>) -> Seq<Seq<Seq<char>>> {
    dirs.map_values(|names: Vec<String>| texts(names@))
}

impl IconNames {
    /// No icon names.
    pub fn new() -> (r: IconNames)
        ensures
            r@ == Set::<Seq<char>>::empty(),
    {
        IconNames { names: StringHashSet::new() }
    }

    /// Whether there is an icon with the name.
    pub fn contains(&self, name: &str) -> (r: bool)
        ensures
            r == self@.contains(name@),
    {
        self.names.contains(name)
    }

    /// Adds the names of the icons in the files of a directory.
    pub fn collect_icon_stems(&mut self, file_names: &Vec<String>)
        ensures
            final(self)@ == old(self)@.union(icon_stems(texts(file_names@))),
    {
        let ghost all = texts(file_names@);
        let mut i: usize = 0;
        assert(self@ =~= old(self)@.union(icon_stems(all.take(0))));
        while i < file_names.len()
            invariant
                i <= file_names@.len(),
                all == texts(file_names@),
                self@ == old(self)@.union(icon_stems(all.take(i as int))),
            decreases file_names@.len() - i,
        {
            let ghost before = self@;
            let stem = up_to_last(file_names[i].as_str(), '.');
            let ghost added = stem@;
            self.names.insert(stem);
            proof {
                let now = all.take(i + 1);
                let earlier = all.take(i as int);
                assert(now[i as int] == file_names@[i as int]@);
                assert(before_last(now[i as int], '.') == added);
                assert forall|s: Seq<char>| icon_stems(now).contains(s) <==> (icon_stems(
                    earlier,
                ).contains(s) || s == added) by {
                    if icon_stems(now).contains(s) {
                        let k = choose|k: int|
                            0 <= k < now.len() && #[trigger] before_last(now[k], '.') == s;
                        if k < i {
                            assert(earlier[k] == now[k]);
                        }
                    }
                    if icon_stems(earlier).contains(s) {
                        let k = choose|k: int|
                            0 <= k < earlier.len() && #[trigger] before_last(earlier[k], '.') == s;
                        assert(now[k] == earlier[k]);
                    }
                }
                assert(self@ =~= old(self)@.union(icon_stems(now)));
            }
            i = i + 1;
        }
        assert(all.take(i as int) =~= all);
    }
}

/// The names of the icons in the directories that were found, each given by the names of its
/// files.
pub fn scan_available_icon_names(dirs: &Vec<Vec<String>>) -> (r: IconNames)
    ensures
        r@ == scanned_icons(name_lists(dirs@)),
{
    let ghost all = name_lists(dirs@);
    let mut names = IconNames::new();
    let mut i: usize = 0;
    assert(names@ =~= scanned_icons(all.take(0)));
    while i < dirs.len()
        invariant
            i <= dirs@.len(),
            all == name_lists(dirs@),
            names@ == scanned_icons(all.take(i as int)),
        decreases dirs@.len() - i,
    {
        let ghost before = names@;
        names.collect_icon_stems(&dirs[i]);
        proof {
            let earlier = all.take(i as int);
            let now = all.take(i + 1);
            assert(now[i as int] == texts(dirs@[i as int]@));
            assert forall|s: Seq<char>| scanned_icons(now).contains(s) <==> (scanned_icons(
                earlier,
            ).contains(s) || icon_stems(now[i as int]).contains(s)) by {
                if scanned_icons(now).contains(s) {
                    let k = choose|k: int|
                        0 <= k < now.len() && #[trigger] icon_stems(now[k]).contains(s);
                    if k < i {
                        assert(earlier[k] == now[k]);
                    }
                }
                if scanned_icons(earlier).contains(s) {
                    let k = choose|k: int|
                        0 <= k < earlier.len() && #[trigger] icon_stems(earlier[k]).contains(s);
                    assert(now[k] == earlier[k]);
                }
            }
            assert(names@ =~= scanned_icons(now));
        }
        i = i + 1;
    }
    assert(all.take(i as int) =~= all);
    names
}

/// The name of the desktop file without its extension `desktop`; `None` if it has another
/// extension, none, or nothing before it.
pub open spec fn stem_of_desktop_file(file_name: Seq<char>) -> Option<Seq<char>> {
    let n = file_name.len() - 8;
    if n > 0 && file_name.skip(n) == ".desktop"@ {
        Some(file_name.take(n))
    } else {
        None
    }
}

/// The name of a desktop file without its extension; `None` if the file is no desktop file.
pub fn desktop_stem(file_name: &str) -> (r: Option<String>)
    ensures
        opt_text(r) == stem_of_desktop_file(file_name@),
{
    let cs = chars_of(file_name);
    if cs.len() <= 8 {
        return None;
    }
    let n: usize = cs.len() - 8;
    let extension = text_of(&cs, n, cs.len());
    assert(extension@ =~= file_name@.skip(n as int));
    if same(extension.as_str(), ".desktop") {
        assert(cs@.subrange(0, n as int) =~= file_name@.take(n as int));
        Some(text_of(&cs, 0, n))
    } else {
        None
    }
}

/// Whether a line starts the section of the application itself.
pub open spec fn is_entry_header(line: Seq<char>) -> bool {
    trimmed(line) == "[Desktop Entry]"@
}

/// Whether a line starts another section.
pub open spec fn is_other_header(line: Seq<char>) -> bool {
    has_prefix(trimmed(line), "["@) && !is_entry_header(line)
}

/// The icon that a line names, if it names one.
pub open spec fn icon_value(line: Seq<char>) -> Option<Seq<char>> {
    let t = trimmed(line);
    if has_prefix(t, "Icon="@) && trimmed(t.skip(5)).len() > 0 {
        Some(trimmed(t.skip(5)))
    } else {
        None
    }
}

/// Whether the line `k` belongs to the section of the application itself: the section has started
/// before it, and no other section has started since.
pub open spec fn in_entry(lines: Seq<Seq<char>>, k: int) -> bool {
    &&& exists|h: int| 0 <= h < k && is_entry_header(#[trigger] lines[h])
    &&& forall|h: int, m: int|
        0 <= h < m < k && is_entry_header(#[trigger] lines[h]) ==> !is_other_header(
            #[trigger] lines[m],
        )
}

/// Whether the line `k` names the application's icon.
pub open spec fn names_icon(lines: Seq<Seq<char>>, k: int) -> bool {
    &&& 0 <= k < lines.len()
    &&& in_entry(lines, k)
    &&& icon_value(lines[k]) is Some
}

/// Whether the line `k` is the first that names the application's icon.
pub open spec fn first_names_icon(lines: Seq<Seq<char>>, k: int) -> bool {
    &&& names_icon(lines, k)
    &&& forall|j: int| 0 <= j < k ==> !names_icon(lines, j)
}

/// The icon that the lines of a desktop file name first.
pub open spec fn icon_in_lines(lines: Seq<Seq<char>>) -> Option<Seq<char>> {
    if exists|k: int| first_names_icon(lines, k) {
        icon_value(lines[choose|k: int| first_names_icon(lines, k)])
    } else {
        None
    }
}

/// The icon that a desktop file names.
pub open spec fn declared_icon(content: Seq<char>) -> Option<Seq<char>> {
    icon_in_lines(text_lines(content))
}

/// The icon of a desktop file is the value of the first line that names one.
proof fn lemma_icon_found(lines: Seq<Seq<char>>, k: int)
    requires
        first_names_icon(lines, k),
    ensures
        icon_in_lines(lines) == icon_value(lines[k]),
{
    let j = choose|j: int| first_names_icon(lines, j);
    assert(first_names_icon(lines, j));
    assert(j == k);
}

/// The icon that a line names, if it names one. The line is `t` without the white space at its
/// ends.
fn icon_of_line(t: &str) -> (r: Option<String>)
    ensures
        opt_text(r) == if has_prefix(t@, "Icon="@) && trimmed(t@.skip(5)).len() > 0 {
            Some(trimmed(t@.skip(5)))
        } else {
            None
        },
{
    if !starts_with(t, "Icon=") {
        return None;
    }
    proof {
        reveal_strlit("Icon=");
    }
    let cs = chars_of(t);
    assert(cs@.subrange(5, cs@.len() as int) =~= t@.skip(5));
    let value = text_of(&cs, 5, cs.len());
    let icon = trim(value.as_str());
    if icon.as_str().is_empty() {
        None
    } else {
        Some(icon)
    }
}

/// The icon that a desktop file names.
pub fn desktop_icon_field(content: &str) -> (r: Option<String>)
    ensures
        opt_text(r) == declared_icon(content@),
{
    let rows = lines(content);
    let ghost all = text_lines(content@);
    let mut entered = false;
    let mut i: usize = 0;
    proof {
        reveal_strlit("Icon=");
        reveal_strlit("[");
    }
    while i < rows.len()
        invariant
            i <= rows@.len(),
            texts(rows@) == all,
            all == text_lines(content@),
            all.len() == rows@.len(),
            entered == exists|h: int| 0 <= h < i && is_entry_header(#[trigger] all[h]),
            forall|h: int, m: int|
                0 <= h < m < i && is_entry_header(#[trigger] all[h]) ==> !is_other_header(
                    #[trigger] all[m],
                ),
            forall|j: int| 0 <= j < i ==> !names_icon(all, j),
            "["@.len() == 1,
            "["@[0] == '[',
            "Icon="@.len() == 5,
            "Icon="@[0] == 'I',
        decreases rows@.len() - i,
    {
        assert(texts(rows@)[i as int] == rows@[i as int]@);
        let line = trim(rows[i].as_str());
        if same(line.as_str(), "[Desktop Entry]") {
            proof {
                reveal_strlit("[Desktop Entry]");
                assert(icon_value(all[i as int]) is None) by {
                    if has_prefix(line@, "Icon="@) {
                        assert(line@.subrange(0, 5)[0] == 'I');
                        assert(line@[0] == '[');
                    }
                }
                assert(is_entry_header(all[i as int]));
            }
            entered = true;
        } else if entered {
            if starts_with(line.as_str(), "[") {
                proof {
                    let h = choose|h: int| 0 <= h < i && is_entry_header(#[trigger] all[h]);
                    assert(is_other_header(all[i as int]));
                    assert(icon_value(all[i as int]) is None) by {
                        assert(line@.subrange(0, 1)[0] == '[');
                        if has_prefix(line@, "Icon="@) {
                            assert(line@.subrange(0, 5)[0] == 'I');
                        }
                    }
                    assert forall|k: int| !names_icon(all, k) by {
                        if k > i && names_icon(all, k) {
                            assert(is_entry_header(all[h]) && is_other_header(all[i as int]));
                        }
                    }
                }
                return None;
            }
            let icon = icon_of_line(line.as_str());
            if icon.is_some() {
                proof {
                    assert(in_entry(all, i as int));
                    assert(first_names_icon(all, i as int));
                    lemma_icon_found(all, i as int);
                }
                return icon;
            }
        }
        i = i + 1;
    }
    None
}

/// What is known of a desktop file.
pub struct DesktopFileInfo {
    /// The file's name without its extension
    pub desktop_stem: String,
    /// The icon that the file names
    pub icon_name: Option<String>,
}

/// The mathematical content of a `DesktopFileInfo`.
pub struct DesktopView {
    pub desktop_stem: Seq<char>,
    pub icon_name: Option<Seq<char>>,
}

impl View for DesktopFileInfo {
    type V = DesktopView;

    open spec fn view(&self) -> DesktopView {
        DesktopView { desktop_stem: self.desktop_stem@, icon_name: opt_text(self.icon_name) }
    }
}

/// The desktop files on this machine, by the lowercase of their names without extension.
pub struct DesktopFiles {
    files: StringHashMap<DesktopFileInfo>,
}

impl View for DesktopFiles {
    type V = Map<Seq<char>, DesktopView>;

    closed spec fn view(&self) -> Map<Seq<char>, DesktopView> {
        self.files@.map_values(|file: DesktopFileInfo| file@)
    }
}

/// The icon that the content of a desktop file names, if it could be read.
pub open spec fn icon_of_content(content: Option<Seq<char>>) -> Option<Seq<char>> {
    match content {
        Some(text) => declared_icon(text),
        None => None,
    }
}

/// The desktop files after a file was found. A file that is no desktop file, and one whose name was
/// found before, change nothing.
pub open spec fn with_file(
    files: Map<Seq<char>, DesktopView>,
    file_name: Seq<char>,
    icon_name: Option<Seq<char>>,
) -> Map<Seq<char>, DesktopView> {
    match stem_of_desktop_file(file_name) {
        Some(stem) => with_entry(
            files,
            lowercase(stem),
            DesktopView { desktop_stem: stem, icon_name },
        ),
        None => files,
    }
}

/// The desktop files with another one added under a key, unless the key is taken.
pub open spec fn with_entry(
    files: Map<Seq<char>, DesktopView>,
    key: Seq<char>,
    file: DesktopView,
) -> Map<Seq<char>, DesktopView> {
    if files.contains_key(key) {
        files
    } else {
        files.insert(key, file)
    }
}

/// A file that was found in a directory of desktop files.
pub struct FoundFile {
    /// The file's name
    pub name: String,
    /// What the file holds, if it could be read
    pub content: Option<String>,
}

/// The mathematical content of a `FoundFile`.
pub struct FoundView {
    pub name: Seq<char>,
    pub content: Option<Seq<char>>,
}

impl View for FoundFile {
    type V = FoundView;

    open spec fn view(&self) -> FoundView {
        FoundView { name: self.name@, content: opt_text(self.content) }
    }
}

/// The contents of files that were found.
pub open spec fn found_views(found: Seq<FoundFile>) -> Seq<FoundView> {
    found.map_values(|file: FoundFile| file@)
}

/// The desktop files among the files that were found, in the order in which they were.
pub open spec fn scanned_files(found: Seq<FoundView>) -> Map<Seq<char>, DesktopView>
    decreases found.len(),
{
    if found.len() == 0 {
        Map::empty()
    } else {
        with_file(
            scanned_files(found.drop_last()),
            found.last().name,
            icon_of_content(found.last().content),
        )
    }
}

/// The desktop file under the first key, or else the one under the second.
pub open spec fn entry_under(
    files: Map<Seq<char>, DesktopView>,
    first: Seq<char>,
    second: Seq<char>,
) -> Option<DesktopView> {
    if files.contains_key(first) {
        Some(files[first])
    } else if files.contains_key(second) {
        Some(files[second])
    } else {
        None
    }
}

/// The desktop file for a package: the one with the name of the package, or else the one with the
/// name of its attribute, in any case.
pub open spec fn desktop_file_for(
    files: Map<Seq<char>, DesktopView>,
    pname: Seq<char>,
    attr: Seq<char>,
) -> Option<DesktopView> {
    entry_under(files, lowercase(pname), lowercase(attr))
}

impl DesktopFiles {
    /// No desktop files.
    pub fn new() -> (r: DesktopFiles)
        ensures
            r@ == Map::<Seq<char>, DesktopView>::empty(),
    {
        let r = DesktopFiles { files: StringHashMap::new() };
        assert(r@ =~= Map::<Seq<char>, DesktopView>::empty());
        r
    }

    /// Adds a file that was found, with its content if it could be read.
    pub fn add_file(&mut self, file_name: &str, content: Option<&str>)
        ensures
            final(self)@ == with_file(old(self)@, file_name@, icon_of_content(opt_str(content))),
    {
        if let Some(stem) = desktop_stem(file_name) {
            let icon_name = match content {
                Some(text) => desktop_icon_field(text),
                None => None,
            };
            let key = to_lowercase(stem.as_str());
            self.add_entry(key, DesktopFileInfo { desktop_stem: stem, icon_name });
        }
    }

    /// Adds a desktop file under a key, unless the key is taken.
    pub fn add_entry(&mut self, key: String, file: DesktopFileInfo)
        ensures
            final(self)@ == with_entry(old(self)@, key@, file@),
    {
        if !self.files.contains_key(key.as_str()) {
            let ghost key_view = key@;
            let ghost file_view = file@;
            self.files.insert(key, file);
            assert(self@ =~= old(self)@.insert(key_view, file_view));
        }
    }

    /// The desktop file for a package.
    pub fn find(&self, pname: &str, attr: &str) -> (r: Option<&DesktopFileInfo>)
        ensures
            match r {
                Some(file) => desktop_file_for(self@, pname@, attr@) == Some(file@),
                None => desktop_file_for(self@, pname@, attr@) is None,
            },
    {
        self.find_entry(to_lowercase(pname).as_str(), to_lowercase(attr).as_str())
    }

    /// The desktop file under the first key, or else the one under the second.
    pub fn find_entry(&self, first: &str, second: &str) -> (r: Option<&DesktopFileInfo>)
        ensures
            match r {
                Some(file) => entry_under(self@, first@, second@) == Some(file@),
                None => entry_under(self@, first@, second@) is None,
            },
    {
        match self.files.get(first) {
            Some(file) => Some(file),
            None => self.files.get(second),
        }
    }
}

/// The desktop files among the files that were found, those with precedence first.
pub fn scan_nix_desktop_files(found: &Vec<FoundFile>) -> (r: DesktopFiles)
    ensures
        r@ == scanned_files(found_views(found@)),
{
    let ghost all = found_views(found@);
    let mut files = DesktopFiles::new();
    let mut i: usize = 0;
    while i < found.len()
        invariant
            i <= found@.len(),
            all == found_views(found@),
            files@ == scanned_files(all.take(i as int)),
        decreases found@.len() - i,
    {
        let content = match &found[i].content {
            Some(text) => Some(text.as_str()),
            None => None,
        };
        files.add_file(found[i].name.as_str(), content);
        assert(all.take(i + 1).drop_last() =~= all.take(i as int));
        assert(all.take(i + 1).last() == found@[i as int]@);
        i = i + 1;
    }
    assert(all.take(i as int) =~= all);
    files
}

/// The first desktop file of a name stays: files that are found later never replace it.
pub proof fn first_file_wins(
    files: Map<Seq<char>, DesktopView>,
    file_name: Seq<char>,
    icon_name: Option<Seq<char>>,
    key: Seq<char>,
)
    requires
        files.contains_key(key),
    ensures
        with_file(files, file_name, icon_name).contains_key(key),
        with_file(files, file_name, icon_name)[key] == files[key],
{
}

/// The key under which a file that was found is known, if it is a desktop file.
pub open spec fn key_of_found(file: FoundView) -> Option<Seq<char>> {
    match stem_of_desktop_file(file.name) {
        Some(stem) => Some(lowercase(stem)),
        None => None,
    }
}

/// What is known of a desktop file that was found.
pub open spec fn entry_of_found(file: FoundView) -> DesktopView
    recommends
        key_of_found(file) is Some,
{
    DesktopView {
        desktop_stem: stem_of_desktop_file(file.name)->0,
        icon_name: icon_of_content(file.content),
    }
}

/// Whether the file `i` is the earliest of those found that is known under the key.
pub open spec fn first_under_key(found: Seq<FoundView>, key: Seq<char>, i: int) -> bool {
    &&& 0 <= i < found.len()
    &&& key_of_found(found[i]) == Some(key)
    &&& forall|j: int| 0 <= j < i ==> key_of_found(#[trigger] found[j]) != Some(key)
}

/// A scan has exactly the keys of the desktop files that were found, and under each key the
/// earliest file with that key.
pub proof fn scan_keeps_earliest_files(found: Seq<FoundView>, key: Seq<char>)
    ensures
        scanned_files(found).contains_key(key) <==> exists|i: int|
            0 <= i < found.len() && key_of_found(#[trigger] found[i]) == Some(key),
        scanned_files(found).contains_key(key) <==> exists|i: int| first_under_key(found, key, i),
        forall|i: int| #[trigger]
            first_under_key(found, key, i) ==> scanned_files(found)[key] == entry_of_found(found[i]),
    decreases found.len(),
{
    if found.len() > 0 {
        let n = found.len() - 1;
        let earlier = found.drop_last();
        scan_keeps_earliest_files(earlier, key);
        assert forall|i: int| 0 <= i < n implies first_under_key(earlier, key, i)
            == #[trigger] first_under_key(found, key, i) by {
            assert(forall|j: int| 0 <= j < n ==> #[trigger] found[j] == earlier[j]);
        }
        if scanned_files(earlier).contains_key(key) {
            let i = choose|i: int| first_under_key(earlier, key, i);
            assert(first_under_key(found, key, i));
            assert(key_of_found(found[i]) == Some(key));
        } else {
            assert(forall|j: int| 0 <= j < n ==> #[trigger] found[j] == earlier[j]);
            if key_of_found(found[n]) == Some(key) {
                assert(first_under_key(found, key, n));
            }
        }
    }
}

/// Files that were found earlier take precedence: scanning them and then others gives what each
/// scan gives, with those of the earlier scan where both have a key.
pub proof fn earlier_directories_win(first: Seq<FoundView>, second: Seq<FoundView>)
    ensures
        scanned_files(first + second) == scanned_files(second).union_prefer_right(
            scanned_files(first),
        ),
    decreases second.len(),
{
    if second.len() == 0 {
        assert(first + second =~= first);
    } else {
        earlier_directories_win(first, second.drop_last());
        assert((first + second).drop_last() =~= first + second.drop_last());
    }
    assert(scanned_files(first + second) =~= scanned_files(second).union_prefer_right(
        scanned_files(first),
    ));
}

/// An icon goes by the name of its file without the last extension, and by no other; a name
/// without an extension stays as it is.
pub proof fn icons_go_by_their_stems(stem: Seq<char>, extension: Seq<char>)
    requires
        !extension.contains('.'),
    ensures
        icon_stems(seq![stem.push('.') + extension]) == set![stem],
        icon_stems(seq![extension]) == set![extension],
{
    last_copy_cuts(stem, '.', extension);
    let one = seq![stem.push('.') + extension];
    assert(before_last(one[0], '.') == stem);
    assert(icon_stems(one) =~= set![stem]);
    let plain = seq![extension];
    assert(before_last(plain[0], '.') == extension);
    assert(icon_stems(plain) =~= set![extension]);
}

/// The icons of two lists of files, and of two lists of directories, are those of the one and those
/// of the other; without files there are none.
pub proof fn icons_add_up(
    a: Seq<Seq<char>>,
    b: Seq<Seq<char>>,
    dirs: Seq<Seq<Seq<char>>>,
    more: Seq<Seq<Seq<char>>>,
)
    ensures
        icon_stems(a + b) == icon_stems(a).union(icon_stems(b)),
        icon_stems(Seq::empty()) == Set::<Seq<char>>::empty(),
        scanned_icons(dirs + more) == scanned_icons(dirs).union(scanned_icons(more)),
        scanned_icons(seq![a]) == icon_stems(a),
        scanned_icons(Seq::empty()) == Set::<Seq<char>>::empty(),
{
    let both = a + b;
    assert forall|s: Seq<char>| icon_stems(both).contains(s) <==> icon_stems(a).union(
        icon_stems(b),
    ).contains(s) by {
        if icon_stems(both).contains(s) {
            let i = choose|i: int| 0 <= i < both.len() && #[trigger] before_last(both[i], '.') == s;
            if i < a.len() {
                assert(before_last(a[i], '.') == s);
            } else {
                assert(before_last(b[i - a.len()], '.') == s);
            }
        }
        if icon_stems(a).contains(s) {
            let i = choose|i: int| 0 <= i < a.len() && #[trigger] before_last(a[i], '.') == s;
            assert(before_last(both[i], '.') == s);
        }
        if icon_stems(b).contains(s) {
            let i = choose|i: int| 0 <= i < b.len() && #[trigger] before_last(b[i], '.') == s;
            assert(before_last(both[a.len() + i], '.') == s);
        }
    }
    assert(icon_stems(both) =~= icon_stems(a).union(icon_stems(b)));
    assert(icon_stems(Seq::empty()) =~= Set::<Seq<char>>::empty());
    let all = dirs + more;
    assert forall|s: Seq<char>| scanned_icons(all).contains(s) <==> scanned_icons(dirs).union(
        scanned_icons(more),
    ).contains(s) by {
        if scanned_icons(all).contains(s) {
            let i = choose|i: int| 0 <= i < all.len() && #[trigger] icon_stems(all[i]).contains(s);
            if i < dirs.len() {
                assert(icon_stems(dirs[i]).contains(s));
            } else {
                assert(icon_stems(more[i - dirs.len()]).contains(s));
            }
        }
        if scanned_icons(dirs).contains(s) {
            let i = choose|i: int| 0 <= i < dirs.len() && #[trigger] icon_stems(dirs[i]).contains(s);
            assert(icon_stems(all[i]).contains(s));
        }
        if scanned_icons(more).contains(s) {
            let i = choose|i: int| 0 <= i < more.len() && #[trigger] icon_stems(more[i]).contains(s);
            assert(icon_stems(all[dirs.len() + i]).contains(s));
        }
    }
    assert(scanned_icons(all) =~= scanned_icons(dirs).union(scanned_icons(more)));
    assert(icon_stems(seq![a][0]) == icon_stems(a));
    assert(scanned_icons(seq![a]) =~= icon_stems(a));
    assert(scanned_icons(Seq::empty()) =~= Set::<Seq<char>>::empty());
}

/// A desktop file is a file with the extension `desktop` and something before it, and goes by
/// what stands before the extension.
pub proof fn desktop_files_go_by_their_stems(name: Seq<char>, stem: Seq<char>)
    ensures
        stem_of_desktop_file(name) == Some(stem) <==> stem.len() > 0 && name == stem
            + ".desktop"@,
{
    reveal_strlit(".desktop");
    let n = name.len() - 8;
    if stem.len() > 0 && name == stem + ".desktop"@ {
        assert(name.skip(n) =~= ".desktop"@);
        assert(name.take(n) =~= stem);
    }
    if stem_of_desktop_file(name) == Some(stem) {
        assert(name =~= name.take(n) + name.skip(n));
    }
}

/// The icon of a desktop file is the value of the first line of its own section that has one. It
/// does not matter what stands before that section, nor what stands behind the line.
pub proof fn icons_stand_in_the_entry(
    before: Seq<Seq<char>>,
    header: Seq<char>,
    between: Seq<Seq<char>>,
    line: Seq<char>,
    after: Seq<Seq<char>>,
    value: Seq<char>,
)
    requires
        forall|i: int| 0 <= i < before.len() ==> trimmed(#[trigger] before[i]) != "[Desktop Entry]"@,
        trimmed(header) == "[Desktop Entry]"@,
        forall|i: int|
            0 <= i < between.len() ==> !has_prefix(trimmed(#[trigger] between[i]), "["@)
                && !has_prefix(trimmed(between[i]), "Icon="@),
        trimmed(line) == "Icon="@ + value,
        trimmed(value).len() > 0,
    ensures
        icon_in_lines(before.push(header) + between.push(line) + after) == Some(trimmed(value)),
{
    reveal_strlit("Icon=");
    reveal_strlit("[");
    let all = before.push(header) + between.push(line) + after;
    let h = before.len() as int;
    let k = h + 1 + between.len();
    assert(all[h] == header);
    assert(all[k] == line);
    patterns_part_texts(Seq::empty(), "Icon="@, value);
    assert(("Icon="@ + value).skip(5) =~= value);
    assert(icon_value(line) == Some(trimmed(value)));
    assert forall|i: int| 0 <= i < h implies !is_entry_header(#[trigger] all[i]) by {
        assert(all[i] == before[i]);
    }
    assert forall|i: int| h < i < k implies !is_other_header(#[trigger] all[i]) && !is_entry_header(
        all[i],
    ) && icon_value(all[i]) is None by {
        assert(all[i] == between[i - h - 1]);
        reveal_strlit("[Desktop Entry]");
        if is_entry_header(all[i]) {
            assert(trimmed(all[i]).subrange(0, 1) =~= "["@);
        }
    }
    assert(is_entry_header(all[h]));
    assert(in_entry(all, k));
    assert forall|j: int| 0 <= j < k implies !names_icon(all, j) by {
        if j <= h && names_icon(all, j) {
            let m = choose|m: int| 0 <= m < j && is_entry_header(#[trigger] all[m]);
            assert(all[m] == before[m]);
        }
    }
    assert(first_names_icon(all, k));
    lemma_icon_found(all, k);
}

/// A desktop file has no icon if no line of it names one, if it has no section of its own, or if
/// another section begins before its own section names one.
pub proof fn icons_of_other_sections_do_not_count(
    before: Seq<Seq<char>>,
    header: Seq<char>,
    between: Seq<Seq<char>>,
    other: Seq<char>,
    after: Seq<Seq<char>>,
)
    requires
        forall|i: int| 0 <= i < before.len() ==> trimmed(#[trigger] before[i]) != "[Desktop Entry]"@,
        trimmed(header) == "[Desktop Entry]"@,
        forall|i: int|
            0 <= i < between.len() ==> !has_prefix(trimmed(#[trigger] between[i]), "["@)
                && !has_prefix(trimmed(between[i]), "Icon="@),
        has_prefix(trimmed(other), "["@),
        trimmed(other) != "[Desktop Entry]"@,
    ensures
        icon_in_lines(before) is None,
        icon_in_lines(before.push(header) + between) is None,
        icon_in_lines(before.push(header) + between.push(other) + after) is None,
{
    reveal_strlit("Icon=");
    reveal_strlit("[");
    reveal_strlit("[Desktop Entry]");
    let h = before.len() as int;
    assert forall|k: int| !first_names_icon(before, k) by {
        if names_icon(before, k) {
            let m = choose|m: int| 0 <= m < k && is_entry_header(#[trigger] before[m]);
            assert(false);
        }
    }
    let short = before.push(header) + between;
    let all = before.push(header) + between.push(other) + after;
    let o = h + 1 + between.len();
    assert(all[o] == other && all[h] == header && short[h] == header);
    assert(is_entry_header(all[h]) && is_other_header(all[o]));
    assert(icon_value(header) is None) by {
        assert(trimmed(header)[0] == '[');
        if has_prefix(trimmed(header), "Icon="@) {
            assert(trimmed(header).subrange(0, 5)[0] == 'I');
        }
    }
    assert(icon_value(other) is None) by {
        assert(trimmed(other).subrange(0, 1)[0] == '[');
        if has_prefix(trimmed(other), "Icon="@) {
            assert(trimmed(other).subrange(0, 5)[0] == 'I');
        }
    }
    assert forall|k: int| !first_names_icon(short, k) by {
        if names_icon(short, k) {
            let m = choose|m: int| 0 <= m < k && is_entry_header(#[trigger] short[m]);
            if k <= h {
                assert(short[m] == before[m]);
            } else {
                assert(short[k] == between[k - h - 1]);
            }
        }
    }
    assert forall|k: int| !first_names_icon(all, k) by {
        if names_icon(all, k) {
            let m = choose|m: int| 0 <= m < k && is_entry_header(#[trigger] all[m]);
            if k <= h {
                assert(all[m] == before[m]);
            } else if k < o {
                assert(all[k] == between[k - h - 1]);
            }
        }
    }
}

/// A package's desktop file is the one that goes by the package's name, in any case, and only
/// without such a file the one that goes by its attribute.
pub proof fn package_names_come_first(
    files: Map<Seq<char>, DesktopView>,
    pname: Seq<char>,
    attr: Seq<char>,
)
    ensures
        files.contains_key(lowercase(pname)) ==> desktop_file_for(files, pname, attr) == Some(
            files[lowercase(pname)],
        ),
        !files.contains_key(lowercase(pname)) && files.contains_key(lowercase(attr))
            ==> desktop_file_for(files, pname, attr) == Some(files[lowercase(attr)]),
        desktop_file_for(files, pname, attr) is None <==> !files.contains_key(lowercase(pname))
            && !files.contains_key(lowercase(attr)),
{
}

/// The directories of the home directory are scanned only where there is one; those of desktop
/// files come before the system's, which is always scanned.
pub proof fn home_directories_have_precedence(i: int, has_home: bool)
    ensures
        0 <= i < desktop_file_dirs(has_home).len() ==> (desktop_file_dirs(has_home)[i] is Home
            <==> has_home && i < desktop_file_dirs(has_home).len() - 1),
        0 <= i < icon_theme_dirs(has_home).len() ==> (icon_theme_dirs(has_home)[i] is Home
            <==> has_home && i > 0),
        desktop_file_dirs(has_home).last() == DirView::System("/usr/share/applications"@),
        icon_theme_dirs(has_home)[0] == DirView::System("/usr/share/icons/hicolor"@),
        desktop_file_dirs(false).len() == 1 && icon_theme_dirs(false).len() == 1,
        desktop_file_dirs(true).len() == 3 && icon_theme_dirs(true).len() == 3,
        desktop_file_dirs(true)[0] == DirView::Home(".nix-profile/share/applications"@),
{
}

/// The view of a file is its name and its content, and that of a desktop file its stem and icon.
pub proof fn views_of_files(found: Seq<FoundFile>, file: DesktopFileInfo, i: int)
    ensures
        found_views(found).len() == found.len(),
        0 <= i < found.len() ==> found_views(found)[i].name == found[i].name@ && found_views(
            found,
        )[i].content == opt_text(found[i].content),
        file@.desktop_stem == file.desktop_stem@ && file@.icon_name == opt_text(file.icon_name),
{
}

/// What is known of a desktop file that was found is its name without the extension and the icon
/// that its content names; a file that could not be read names none.
pub proof fn found_files_say_their_icon(file: FoundView)
    requires
        key_of_found(file) is Some,
    ensures
        entry_of_found(file).desktop_stem.len() > 0,
        entry_of_found(file).desktop_stem + ".desktop"@ == file.name,
        key_of_found(file) == Some(lowercase(entry_of_found(file).desktop_stem)),
        file.content matches Some(text) ==> entry_of_found(file).icon_name == icon_in_lines(
            text_lines(text),
        ),
        file.content is None ==> entry_of_found(file).icon_name is None,
{
    desktop_files_go_by_their_stems(file.name, entry_of_found(file).desktop_stem);
}

} // verus!
