use butterfly::config::{CfgEntryFile, CfgEntryStruct, Config};
use butterfly::display::{color_of_level, sgr, Color, ColorMode, Display};

fn names(list: &[&str]) -> Vec<String> {
    list.iter().map(|s| String::from(*s)).collect()
}

#[test]
fn new_config_is_empty() {
    let config = Config::new();
    assert!(config.files().is_empty());
    assert!(config.get_structs().is_empty());
}

#[test]
fn first_free_log_name() {
    assert_eq!(CfgEntryFile::new(&names(&[])).unwrap().undo_file_name(), "undo-0");
    assert_eq!(CfgEntryFile::new(&names(&["undo-0"])).unwrap().undo_file_name(), "undo-1");
    assert_eq!(
        CfgEntryFile::new(&names(&["undo-1", "undo-0", "undo-3", "config.json"])).unwrap().undo_file_name(),
        "undo-2"
    );
    assert_eq!(CfgEntryFile::new(&names(&["undo-1", "undo-00"])).unwrap().undo_file_name(), "undo-0");
    let many: Vec<String> = (0..12).map(|i| format!("undo-{}", i)).collect();
    assert_eq!(CfgEntryFile::new(&many).unwrap().undo_file_name(), "undo-12");
    assert_eq!(CfgEntryFile::named(String::from("x")).undo_file_name(), "x");
}

#[test]
fn undo_filename_is_remembered() {
    let mut config = Config::new();
    let taken = names(&["undo-0"]);
    let a = String::from("/tmp/a");
    let b = String::from("/tmp/b");
    assert_eq!(config.get_undo_filename(&a, &taken), Ok((String::from("undo-1"), true)));
    assert_eq!(config.files().len(), 1);
    // remembered: the names that are taken no longer matter
    assert_eq!(config.get_undo_filename(&a, &names(&["undo-0", "undo-1"])), Ok((String::from("undo-1"), false)));
    assert_eq!(config.files().len(), 1);
    assert_eq!(config.get_undo_filename(&b, &names(&["undo-0", "undo-1"])), Ok((String::from("undo-2"), true)));
    assert_eq!(config.files().len(), 2);
    assert_eq!(config.files()[0].0, "/tmp/a");
    assert_eq!(config.files()[1].1.undo_file_name(), "undo-2");
}

#[test]
fn config_from_parts() {
    let files = vec![(String::from("f"), CfgEntryFile::named(String::from("undo-7")))];
    let structs = vec![CfgEntryStruct { path: String::from("/s/elf") }];
    let mut config = Config::from_parts(files, structs);
    assert_eq!(config.get_structs()[0].path, "/s/elf");
    assert_eq!(config.get_undo_filename(&String::from("f"), &Vec::new()), Ok((String::from("undo-7"), false)));
}

#[test]
fn header_colors_by_level() {
    assert_eq!(color_of_level(0), Color::StructH0);
    assert_eq!(color_of_level(1), Color::StructH1);
    assert_eq!(color_of_level(2), Color::StructH2);
    assert_eq!(color_of_level(3), Color::StructH3P);
    assert_eq!(color_of_level(255), Color::StructH3P);
}

#[test]
fn rendition_of_each_role() {
    let of = |colors: &[Color]| {
        let mut mode = ColorMode::none();
        for c in colors {
            mode.set(*c);
        }
        sgr(mode)
    };
    assert_eq!(of(&[]), "\x1b[0m");
    assert_eq!(of(&[Color::ActiveLine]), "\x1b[0;40m");
    assert_eq!(of(&[Color::ActiveChar]), "\x1b[0;7m");
    assert_eq!(of(&[Color::ErrorInfo]), "\x1b[0;1;31m");
    assert_eq!(of(&[Color::AddressColumn]), "\x1b[0;36m");
    assert_eq!(of(&[Color::StatusModeRead]), "\x1b[0;1;32m");
    assert_eq!(of(&[Color::StatusModeModify]), "\x1b[0;1;31m");
    assert_eq!(of(&[Color::StatusModeReplace]), "\x1b[0;1;4;31m");
    assert_eq!(of(&[Color::StatusLoc]), "\x1b[0;36m");
    assert_eq!(of(&[Color::StructH0]), "\x1b[0;1;34m");
    assert_eq!(of(&[Color::StructH1]), "\x1b[0;34m");
    assert_eq!(of(&[Color::StructH2]), "\x1b[0m");
    assert_eq!(of(&[Color::StructH3P]), "\x1b[0m");
    assert_eq!(of(&[Color::Highlight]), "\x1b[0;1;4m");
    assert_eq!(of(&[Color::ActiveLine, Color::AddressColumn]), "\x1b[0;36;40m");
    assert_eq!(of(&[Color::ActiveLine, Color::ActiveChar, Color::ErrorInfo]), "\x1b[0;31;40;7m");
    assert_eq!(of(&[Color::ErrorInfo, Color::AddressColumn]), "\x1b[0;1;36m");
}

#[test]
fn color_mode_switches() {
    let mut mode = ColorMode::none();
    assert!(!mode.contains(Color::Highlight));
    mode.set(Color::Highlight);
    assert!(mode.contains(Color::Highlight));
    assert!(!mode.contains(Color::ActiveLine));
    mode.unset(Color::Highlight);
    assert_eq!(mode, ColorMode::none());
}

#[test]
fn display_colors_nest() {
    let mut display = Display::new(25);
    assert_eq!(display.color_on(Color::ActiveLine), "\x1b[0;40m");
    assert_eq!(display.color_on_ref(&Color::AddressColumn), "\x1b[0;36;40m");
    assert_eq!(display.color_off_ref(&Color::AddressColumn), "\x1b[0;40m");
    assert_eq!(display.color_off(Color::ActiveLine), "\x1b[0m");
    assert_eq!(display.set_cursor_pos(0, 0), "\x1b[1;1H");
    assert_eq!(display.set_cursor_pos(19, 4), "\x1b[5;20H");
    assert_eq!(display.set_cursor_pos(u32::MAX, 9), "\x1b[10;4294967296H");
}

#[test]
fn height_change_is_taken_over_in_two_steps() {
    let mut display = Display::new(25);
    assert_eq!(display.h(25), 25);
    assert!(!display.need_redraw());
    // the terminal changes: the old height stays until the change is seen
    assert_eq!(display.h(40), 25);
    assert_eq!(display.h(40), 25);
    assert!(display.need_redraw());
    assert_eq!(display.h(40), 40);
    assert!(!display.need_redraw());
    assert_eq!(display.h(40), 40);
    // a change that is undone before it is seen
    assert_eq!(display.h(30), 40);
    assert_eq!(display.h(40), 40);
    assert!(display.need_redraw());
    assert_eq!(display.h(40), 40);
    assert!(display.need_redraw());
    assert_eq!(display.h(50), 50);
    assert!(!display.need_redraw());
}
