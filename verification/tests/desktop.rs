use resources::app::App;
use resources::desktop::{data_dirs, AppInfo, DescriptorParseError, DesktopEntry, DesktopFile};
use resources::processes::Icon;

const EDITOR: &str = "[Desktop Entry]\nName=Text Editor\nComment=Edit text files\nIcon=org.gnome.TextEditor\nExec=gnome-text-editor %U\n";

#[test]
fn a_desktop_file_describes_an_app() {
    let app = App::from_desktop_file(Some("org.gnome.TextEditor"), EDITOR).unwrap();
    assert_eq!(app.id, "org.gnome.TextEditor");
    assert_eq!(app.display_name, "Text Editor");
    assert_eq!(app.description, Some("Edit text files".to_string()));
    assert_eq!(app.icon.name, "org.gnome.TextEditor");
    assert!(app.members().is_empty());
}

#[test]
fn what_the_entry_does_not_state_falls_back() {
    let app = App::from_desktop_file(Some("plain"), "[Desktop Entry]\nExec=plain\n").unwrap();
    assert_eq!(app.id, "plain");
    assert_eq!(app.display_name, "plain");
    assert_eq!(app.description, None);
    assert_eq!(app.icon.name, "generic-process");
}

#[test]
fn a_file_without_the_section_is_no_app() {
    assert_eq!(
        App::from_desktop_file(Some("x"), "[Other]\nName=X\n").unwrap_err(),
        DescriptorParseError::NoDesktopEntry
    );
    assert_eq!(
        App::from_desktop_file(Some("x"), "").unwrap_err(),
        DescriptorParseError::NoDesktopEntry
    );
}

#[test]
fn a_file_that_does_not_parse_is_malformed() {
    assert_eq!(
        App::from_desktop_file(Some("x"), "[Desktop Entry\nName=X\n").unwrap_err(),
        DescriptorParseError::Malformed
    );
}

#[test]
fn a_file_without_a_stem_is_no_app() {
    assert_eq!(
        App::from_desktop_file(None, EDITOR).unwrap_err(),
        DescriptorParseError::NoFileStem
    );
    assert_eq!(
        App::from_desktop_file(None, "[Other]\n").unwrap_err(),
        DescriptorParseError::NoDesktopEntry
    );
}

#[test]
fn from_desktop_entry_is_exact() {
    let entry = DesktopEntry { name: None, comment: Some("c".to_string()), icon: None };
    let app = App::from_desktop_entry(Some("id"), Some(entry)).unwrap();
    assert_eq!(app.display_name, "id");
    assert_eq!(app.description, Some("c".to_string()));
    assert_eq!(app.icon.name, "generic-process");
    assert_eq!(App::from_desktop_entry(Some("id"), None).unwrap_err(), DescriptorParseError::NoDesktopEntry);
}

#[test]
fn sanitize_appid_drops_the_extension() {
    assert_eq!(App::sanitize_appid("org.gnome.Editor.desktop"), "org.gnome.Editor");
    assert_eq!(App::sanitize_appid("org.gnome.Editor"), "org.gnome.Editor");
    assert_eq!(App::sanitize_appid(".desktop"), "");
    assert_eq!(App::sanitize_appid("a.desktop.desktop"), "a.desktop");
    assert_eq!(App::sanitize_appid("desktop"), "desktop");
}

#[test]
fn app_info_describes_an_app() {
    let info = AppInfo {
        id: Some("firefox.desktop".to_string()),
        display_name: "Firefox".to_string(),
        description: Some("Browse the web".to_string()),
        icon: Some(Icon::themed("firefox")),
    };
    let app = App::from_app_info(&info).unwrap();
    assert_eq!(app.id, "firefox");
    assert_eq!(app.display_name, "Firefox");
    assert_eq!(app.description, Some("Browse the web".to_string()));
    assert_eq!(app.icon.name, "firefox");

    let bare = AppInfo { id: Some("x".to_string()), display_name: "X".to_string(), description: None, icon: None };
    assert_eq!(App::from_app_info(&bare).unwrap().icon.name, "generic-process");

    let nameless = AppInfo { id: None, display_name: "X".to_string(), description: None, icon: None };
    assert_eq!(App::from_app_info(&nameless).unwrap_err(), DescriptorParseError::NoId);
}

#[test]
fn data_dirs_follow_the_environment() {
    assert_eq!(
        data_dirs(Some("/a:/b"), Some("/home/me")),
        vec!["/a", "/b", "/home/me/.local/share"]
    );
    assert_eq!(
        data_dirs(None, Some("/home/me")),
        vec!["/usr/share", "/home/me/.local/share", "/home/me/.local/share"]
    );
    assert_eq!(data_dirs(None, None), vec!["/usr/share", "//.local/share", "//.local/share"]);
    assert_eq!(data_dirs(Some(""), None), vec!["", "//.local/share"]);
}

#[test]
fn all_passes_over_what_describes_no_app() {
    let files = vec![
        DesktopFile { file_stem: Some("editor".to_string()), contents: EDITOR.to_string() },
        DesktopFile { file_stem: Some("broken".to_string()), contents: "[Desktop Entry".to_string() },
        DesktopFile { file_stem: Some("other".to_string()), contents: "[Other]\n".to_string() },
        DesktopFile { file_stem: None, contents: EDITOR.to_string() },
        DesktopFile { file_stem: Some("second".to_string()), contents: "[Desktop Entry]\nName=Second\n".to_string() },
    ];
    let apps = App::all(&files);
    assert_eq!(apps.len(), 2);
    assert_eq!(apps[0].id, "editor");
    assert_eq!(apps[1].id, "second");
    assert_eq!(apps[1].display_name, "Second");
}
