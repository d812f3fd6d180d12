//! Where the installed applications come from: the directories that hold
//! desktop entries, and the application that one desktop entry describes.

use crate::app::{App, AppView};
use crate::outside::{ini_get, ini_has_section, load_ini, parsed_ini, section_value};
use crate::processes::{Icon, GENERIC_PROCESS_ICON};
use crate::text::{
    chars_of, ends_with, optional_str, optional_text, split_at_char, split_on, str_ends_with,
    string_of,
};
use vstd::prelude::*;
use vstd::string::StringExecFns;

verus! {

/// Why a desktop entry gave no application.
#[derive(Debug, Clone, Copy, PartialEq, Eq, Hash, Structural)]
pub enum DescriptorParseError {
    /// The file is no well-formed list of sections and keys.
    Malformed,
    /// The file has no `Desktop Entry` section.
    NoDesktopEntry,
    /// The name of the file has no stem to take the id from.
    NoFileStem,
    /// The description of the application states no id.
    NoId,
}

/// The section of a desktop file that describes the application.
pub const DESKTOP_ENTRY: &'static str = "Desktop Entry";

/// The key of the name of the application.
pub const NAME_KEY: &'static str = "Name";

/// The key of the description of the application.
pub const COMMENT_KEY: &'static str = "Comment";

/// The key of the name of the icon of the application.
pub const ICON_KEY: &'static str = "Icon";

/// The extension of a desktop file, which is no part of the id.
pub const DESKTOP_EXTENSION: &'static str = ".desktop";

/// What the `Desktop Entry` section of a desktop file states.
#[derive(Debug)]
pub struct DesktopEntry {
    pub name: Option<String>,
    pub comment: Option<String>,
    pub icon: Option<String>,
}

/// What a `DesktopEntry` holds, with its texts as sequences of characters.
pub struct DesktopEntryView {
    pub name: Option<Seq<char>>,
    pub comment: Option<Seq<char>>,
    pub icon: Option<Seq<char>>,
}

impl View for DesktopEntry {
    type V = DesktopEntryView;

    open spec fn view(&self) -> DesktopEntryView {
        DesktopEntryView {
            name: optional_text(self.name),
            comment: optional_text(self.comment),
            icon: optional_text(self.icon),
        }
    }
}

/// The entry behind an optional value.
pub open spec fn entry_view(o: Option<DesktopEntry>) -> Option<DesktopEntryView> {
    match o {
        Some(entry) => Some(entry@),
        None => None,
    }
}

/// What the desktop environment tells of an installed application.
#[derive(Debug)]
pub struct AppInfo {
    /// The id, which may end in `.desktop`.
    pub id: Option<String>,
    pub display_name: String,
    pub description: Option<String>,
    pub icon: Option<Icon>,
}

/// The application that a desktop file describes, from the stem of its file
/// name and its `Desktop Entry` section, where it has them: the stem is the
/// id, and the name where the section states none; the icon is the generic
/// one where the section states none.
pub open spec fn entry_app(file_stem: Option<Seq<char>>, entry: Option<DesktopEntryView>) -> Result<
    AppView,
    DescriptorParseError,
> {
    match entry {
        None => Err(DescriptorParseError::NoDesktopEntry),
        Some(entry) => match file_stem {
            None => Err(DescriptorParseError::NoFileStem),
            Some(id) => Ok(
                AppView {
                    processes: Seq::empty(),
                    display_name: match entry.name {
                        Some(name) => name,
                        None => id,
                    },
                    description: entry.comment,
                    icon: match entry.icon {
                        Some(icon) => icon,
                        None => GENERIC_PROCESS_ICON@,
                    },
                    id,
                },
            ),
        },
    }
}

/// What the `Desktop Entry` section of a document states, where the
/// document has such a section.
pub open spec fn entry_in(sections: Map<Seq<char>, Map<Seq<char>, Seq<char>>>) -> Option<
    DesktopEntryView,
> {
    if sections.contains_key(DESKTOP_ENTRY@) {
        Some(
            DesktopEntryView {
                name: section_value(sections, DESKTOP_ENTRY@, NAME_KEY@),
                comment: section_value(sections, DESKTOP_ENTRY@, COMMENT_KEY@),
                icon: section_value(sections, DESKTOP_ENTRY@, ICON_KEY@),
            },
        )
    } else {
        None
    }
}

/// The application that the text of a desktop file describes.
pub open spec fn desktop_file_app(file_stem: Option<Seq<char>>, contents: Seq<char>) -> Result<
    AppView,
    DescriptorParseError,
> {
    match parsed_ini(contents) {
        None => Err(DescriptorParseError::Malformed),
        Some(sections) => entry_app(file_stem, entry_in(sections)),
    }
}

/// An id without the extension of a desktop file.
pub open spec fn sanitized_id(id: Seq<char>) -> Seq<char> {
    if ends_with(id, DESKTOP_EXTENSION@) {
        id.subrange(0, id.len() - DESKTOP_EXTENSION@.len())
    } else {
        id
    }
}

/// The application that a description by the desktop environment stands for.
pub open spec fn info_app(
    id: Option<Seq<char>>,
    display_name: Seq<char>,
    description: Option<Seq<char>>,
    icon: Option<Seq<char>>,
) -> Result<AppView, DescriptorParseError> {
    match id {
        None => Err(DescriptorParseError::NoId),
        Some(id) => Ok(
            AppView {
                processes: Seq::empty(),
                display_name,
                description,
                icon: match icon {
                    Some(icon) => icon,
                    None => GENERIC_PROCESS_ICON@,
                },
                id: sanitized_id(id),
            },
        ),
    }
}

/// The application of a result, by its view.
pub open spec fn app_view(r: Result<App, DescriptorParseError>) -> Result<
    AppView,
    DescriptorParseError,
> {
    match r {
        Ok(app) => Ok(app@),
        Err(e) => Err(e),
    }
}

/// The icon behind an optional value, by its name.
pub open spec fn icon_view(o: Option<Icon>) -> Option<Seq<char>> {
    match o {
        Some(icon) => Some(icon@),
        None => None,
    }
}

impl App {
    /// An id without the extension of a desktop file.
    pub fn sanitize_appid(id: &str) -> (r: String)
        ensures
            r@ == sanitized_id(id@),
    {
        if str_ends_with(id, DESKTOP_EXTENSION) {
            let chars = chars_of(id);
            let extension = chars_of(DESKTOP_EXTENSION);
            string_of(&chars, 0, chars.len() - extension.len())
        } else {
            String::from_str(id)
        }
    }

    /// The application that a desktop file describes, from the stem of its
    /// file name and what its `Desktop Entry` section states.
    pub fn from_desktop_entry(file_stem: Option<&str>, entry: Option<DesktopEntry>) -> (r: Result<
        App,
        DescriptorParseError,
    >)
        ensures
            app_view(r) == entry_app(optional_str(file_stem), entry_view(entry)),
    {
        let entry = match entry {
            Some(entry) => entry,
            None => {
                return Err(DescriptorParseError::NoDesktopEntry);
            },
        };
        let id = match file_stem {
            Some(stem) => String::from_str(stem),
            None => {
                return Err(DescriptorParseError::NoFileStem);
            },
        };
        let display_name = match entry.name {
            Some(name) => name,
            None => id.clone(),
        };
        let icon = match entry.icon {
            Some(name) => Icon { name },
            None => Icon::generic_process(),
        };
        Ok(App::new(id, display_name, entry.comment, icon))
    }

    /// The application that the text of a desktop file describes;
    /// `file_stem` is the name of the file without its extension, if it has
    /// one.
    pub fn from_desktop_file(file_stem: Option<&str>, contents: &str) -> (r: Result<
        App,
        DescriptorParseError,
    >)
        ensures
            app_view(r) == desktop_file_app(optional_str(file_stem), contents@),
    {
        let ini = match load_ini(contents) {
            Ok(ini) => ini,
            Err(_) => {
                return Err(DescriptorParseError::Malformed);
            },
        };
        let entry = if ini_has_section(&ini, DESKTOP_ENTRY) {
            Some(
                DesktopEntry {
                    name: ini_get(&ini, DESKTOP_ENTRY, NAME_KEY),
                    comment: ini_get(&ini, DESKTOP_ENTRY, COMMENT_KEY),
                    icon: ini_get(&ini, DESKTOP_ENTRY, ICON_KEY),
                },
            )
        } else {
            None
        };
        App::from_desktop_entry(file_stem, entry)
    }

    /// The application that a description by the desktop environment stands
    /// for: its id without the extension of a desktop file, and the generic
    /// icon where it has none.
    pub fn from_app_info(app_info: &AppInfo) -> (r: Result<App, DescriptorParseError>)
        ensures
            app_view(r) == info_app(
                optional_text(app_info.id),
                app_info.display_name@,
                optional_text(app_info.description),
                icon_view(app_info.icon),
            ),
    {
        match &app_info.id {
            Some(id) => {
                let icon = match &app_info.icon {
                    Some(icon) => icon.clone(),
                    None => Icon::generic_process(),
                };
                let description = match &app_info.description {
                    Some(text) => Some(text.clone()),
                    None => None,
                };
                Ok(
                    App::new(
                        App::sanitize_appid(id.as_str()),
                        app_info.display_name.clone(),
                        description,
                        icon,
                    ),
                )
            },
            None => Err(DescriptorParseError::NoId),
        }
    }
}

/// A desktop file as it was read: the name of the file without its
/// extension, if it has one, and the text of the file.
#[derive(Debug)]
pub struct DesktopFile {
    pub file_stem: Option<String>,
    pub contents: String,
}

/// What a `DesktopFile` holds, with its texts as sequences of characters.
pub struct DesktopFileView {
    pub file_stem: Option<Seq<char>>,
    pub contents: Seq<char>,
}

impl View for DesktopFile {
    type V = DesktopFileView;

    open spec fn view(&self) -> DesktopFileView {
        DesktopFileView { file_stem: optional_text(self.file_stem), contents: self.contents@ }
    }
}

impl DeepView for DesktopFile {
    type V = DesktopFileView;

    open spec fn deep_view(&self) -> DesktopFileView {
        self@
    }
}

/// The applications that a run of desktop files describes, in the order of
/// the files; a file that describes none is passed over.
pub open spec fn apps_in(files: Seq<DesktopFileView>) -> Seq<AppView>
    decreases files.len(),
{
    if files.len() == 0 {
        Seq::empty()
    } else {
        match desktop_file_app(files.last().file_stem, files.last().contents) {
            Ok(app) => apps_in(files.drop_last()).push(app),
            Err(_) => apps_in(files.drop_last()),
        }
    }
}

impl App {
    /// The installed applications: one for each of the desktop files that
    /// describes one, in the order of the files. A file that does not parse,
    /// has no `Desktop Entry` section or no stem is passed over.
    pub fn all(files: &Vec<DesktopFile>) -> (apps: Vec<App>)
        ensures
            apps.deep_view() == apps_in(files.deep_view()),
    {
        let mut apps: Vec<App> = Vec::new();
        let mut i: usize = 0;
        assert(files.deep_view().take(0) =~= Seq::<DesktopFileView>::empty());
        assert(apps.deep_view() =~= Seq::<AppView>::empty());
        while i < files.len()
            invariant
                i <= files.len(),
                apps.deep_view() == apps_in(files.deep_view().take(i as int)),
            decreases files.len() - i,
        {
            let file = &files[i];
            let ghost seen = files.deep_view().take(i + 1);
            let ghost before = apps.deep_view();
            assert(seen.drop_last() =~= files.deep_view().take(i as int));
            assert(seen.last() == file@);
            let stem = match &file.file_stem {
                Some(text) => Some(text.as_str()),
                None => None,
            };
            match App::from_desktop_file(stem, file.contents.as_str()) {
                Ok(app) => {
                    apps.push(app);
                    assert(apps.deep_view() =~= before.push(app@));
                },
                Err(_) => {},
            }
            i = i + 1;
        }
        assert(files.deep_view().take(i as int) =~= files.deep_view());
        apps
    }
}

/// The home directory that is assumed where the environment names none.
pub const DEFAULT_HOME: &'static str = "/";

/// The directory of the system that holds data where the environment names none.
pub const SYSTEM_DATA_DIR: &'static str = "/usr/share";

/// Where the data of a user lies, below the home directory.
pub const USER_DATA_SUFFIX: &'static str = "/.local/share";

/// The home directory: `home`, or `/` where there is none.
pub open spec fn home_or_root(home: Option<Seq<char>>) -> Seq<char> {
    match home {
        Some(path) => path,
        None => DEFAULT_HOME@,
    }
}

/// The directories that are searched for desktop entries: the parts of
/// `xdg_data_dirs` between colons, or `/usr/share` and the data directory of
/// the user where there is no such list; then the data directory of the user.
pub open spec fn search_path(xdg_data_dirs: Option<Seq<char>>, home: Option<Seq<char>>) -> Seq<
    Seq<char>,
> {
    let user = home_or_root(home) + USER_DATA_SUFFIX@;
    let listed = match xdg_data_dirs {
        Some(list) => list,
        None => SYSTEM_DATA_DIR@ + seq![':'] + user,
    };
    split_on(listed, ':').push(user)
}

/// The directories that are searched for desktop entries, from what the
/// environment holds under `XDG_DATA_DIRS` and `HOME`.
pub fn data_dirs(xdg_data_dirs: Option<&str>, home: Option<&str>) -> (dirs: Vec<String>)
    ensures
        dirs.deep_view() == search_path(optional_str(xdg_data_dirs), optional_str(home)),
{
    let home = match home {
        Some(path) => path,
        None => DEFAULT_HOME,
    };
    let user = String::from_str(home).concat(USER_DATA_SUFFIX);
    let mut dirs = match xdg_data_dirs {
        Some(list) => split_at_char(list, ':'),
        None => {
            let fallback = String::from_str(SYSTEM_DATA_DIR).concat(":").concat(user.as_str());
            proof {
                reveal_strlit(":");
                assert(":"@ =~= seq![':']);
            }
            split_at_char(fallback.as_str(), ':')
        },
    };
    let ghost before = dirs.deep_view();
    let copy = user.clone();
    dirs.push(copy);
    assert(dirs.deep_view() =~= before.push(user@));
    dirs
}

} // verus!
