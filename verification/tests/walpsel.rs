use walpsel::Settings;
use walpsel::SettingsError;
use walpsel::WallpaperEngine;
use walpsel::WallpaperError;
use walpsel::WalpselApp;

#[test]
fn load_returns_both_configured_values() {
    let doc = "command: my-tool set ${FILE_PATH}\nwallpapers_folder_path: /tmp/walls\n";
    let s = Settings::load(doc, "/home/u").unwrap();
    assert_eq!(s.command, "my-tool set ${FILE_PATH}");
    assert_eq!(s.wallpapers_folder_path, "/tmp/walls");
}

#[test]
fn load_missing_command_falls_back_to_default() {
    let doc = "wallpapers_folder_path: /tmp/walls\n";
    let s = Settings::load(doc, "/home/u").unwrap();
    assert_eq!(s.command, "swww img ${FILE_PATH}");
    assert_eq!(s.wallpapers_folder_path, "/tmp/walls");
}

#[test]
fn load_missing_folder_falls_back_to_home_default() {
    let doc = "command: feh --bg-fill ${FILE_PATH}\n";
    let s = Settings::load(doc, "/home/u").unwrap();
    assert_eq!(s.command, "feh --bg-fill ${FILE_PATH}");
    assert_eq!(s.wallpapers_folder_path, "/home/u/Pictures/");
}

#[test]
fn load_non_string_values_fall_back_independently() {
    let doc = "command: [1, 2]\nwallpapers_folder_path: /tmp/walls\n";
    let s = Settings::load(doc, "/home/u").unwrap();
    assert_eq!(s.command, "swww img ${FILE_PATH}");
    assert_eq!(s.wallpapers_folder_path, "/tmp/walls");
}

#[test]
fn load_malformed_document_is_a_parse_error() {
    let doc = "command: [1, 2\n";
    let r = Settings::load(doc, "/home/u");
    assert!(matches!(r, Err(SettingsError::ParseError)));
}

#[test]
fn load_of_empty_text_falls_back_to_defaults() {
    let s = Settings::load("", "/home/u").unwrap();
    assert_eq!(s.command, "swww img ${FILE_PATH}");
    assert_eq!(s.wallpapers_folder_path, "/home/u/Pictures/");
}

#[test]
fn default_settings_need_no_file() {
    let s = Settings::default_in("/home/u");
    assert_eq!(s.command, "swww img ${FILE_PATH}");
    assert_eq!(s.wallpapers_folder_path, "/home/u/Pictures/");
}

#[test]
fn template_placeholder_becomes_own_argument() {
    let engine = WallpaperEngine::new("swww img ${FILE_PATH}");
    let args = engine.build_command("/home/u/a.png").unwrap();
    assert_eq!(args, vec!["swww", "img", "/home/u/a.png"]);
}

#[test]
fn template_placeholder_embeds_inside_token() {
    let engine = WallpaperEngine::new("cmd file://${FILE_PATH}");
    let args = engine.build_command("/x.jpg").unwrap();
    assert_eq!(args, vec!["cmd", "file:///x.jpg"]);
}

#[test]
fn template_without_placeholder_is_passed_through() {
    let engine = WallpaperEngine::new("  notify-send   done ");
    let args = engine.build_command("/x.jpg").unwrap();
    assert_eq!(args, vec!["notify-send", "done"]);
}

#[test]
fn template_splits_on_unicode_whitespace() {
    let engine = WallpaperEngine::new("swww\u{00A0}img\u{2003}${FILE_PATH}");
    let args = engine.build_command("/x.jpg").unwrap();
    assert_eq!(args, vec!["swww", "img", "/x.jpg"]);
}

#[test]
fn only_first_placeholder_occurrence_is_replaced() {
    let engine = WallpaperEngine::new("cmd ${FILE_PATH}${FILE_PATH}");
    let args = engine.build_command("/x.jpg").unwrap();
    assert_eq!(args, vec!["cmd", "/x.jpg${FILE_PATH}"]);
}

#[test]
fn empty_template_is_a_spawn_error() {
    let engine = WallpaperEngine::new("");
    let r = engine.build_command("/x.jpg");
    assert!(matches!(r, Err(WallpaperError::SpawnError)));

    let engine = WallpaperEngine::new("   \t  ");
    let r = engine.build_command("/x.jpg");
    assert!(matches!(r, Err(WallpaperError::SpawnError)));
}

#[test]
fn failed_command_reports_its_command_line() {
    let args = vec!["swww".to_string(), "img".to_string(), "/x.jpg".to_string()];
    let r = WallpaperEngine::command_outcome(&args, false);
    match r {
        Err(WallpaperError::ExecutionError(cmd)) => assert_eq!(cmd, "swww img /x.jpg"),
        _ => panic!("expected an execution error"),
    }
}

#[test]
fn successful_command_is_ok() {
    let args = vec!["true".to_string()];
    assert!(WallpaperEngine::command_outcome(&args, true).is_ok());
}

#[test]
fn error_messages_name_the_failure() {
    let spawn = WallpaperError::SpawnError;
    assert_eq!(spawn.message(), "could not spawn command");
    let exec = WallpaperError::ExecutionError("a b".to_string());
    assert_eq!(exec.message(), "command failed: a b");
}

#[test]
fn scan_keeps_images_of_any_case_and_drops_the_rest() {
    let entries = vec![
        "/w/a.JPG".to_string(),
        "/w/b.txt".to_string(),
        "/w/c.png".to_string(),
    ];
    let images = WalpselApp::filter_images(&entries);
    assert_eq!(images, vec!["/w/a.JPG", "/w/c.png"]);
}

#[test]
fn scan_of_empty_listing_is_empty() {
    let entries: Vec<String> = Vec::new();
    let images = WalpselApp::filter_images(&entries);
    assert!(images.is_empty());
}

#[test]
fn image_extensions_are_matched_case_insensitively() {
    assert!(WalpselApp::is_image_type("/w/photo.jpeg"));
    assert!(WalpselApp::is_image_type("/w/photo.BMP"));
    assert!(WalpselApp::is_image_type("/w/photo.Gif"));
    assert!(WalpselApp::is_image_type("a.jpg"));
    assert!(!WalpselApp::is_image_type("/w/archive.tar"));
    assert!(!WalpselApp::is_image_type("/w/noextension"));
    assert!(!WalpselApp::is_image_type("/w/.png"));
    assert!(!WalpselApp::is_image_type("/w.d/plain"));
}

#[test]
fn trailing_path_separators_are_ignored() {
    assert!(WalpselApp::is_image_type("/w/x.png/"));
    assert!(WalpselApp::is_image_type("x.JPG//"));
    assert!(!WalpselApp::is_image_type("/w/dir/"));
    assert!(!WalpselApp::is_image_type("///"));
}

#[test]
fn picker_keeps_folder_and_engine() {
    let engine = WallpaperEngine::new("swww img ${FILE_PATH}");
    let app = WalpselApp::new("/w", engine);
    assert_eq!(app.path, "/w");
}

#[test]
fn grid_has_at_least_one_column() {
    assert_eq!(WalpselApp::grid_columns(0), 1);
    assert_eq!(WalpselApp::grid_columns(299), 1);
    assert_eq!(WalpselApp::grid_columns(300), 1);
    assert_eq!(WalpselApp::grid_columns(600), 2);
    assert_eq!(WalpselApp::grid_columns(950), 3);
}
