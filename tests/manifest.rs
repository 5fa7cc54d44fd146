use steamtools::catalog::{AppData, Game};
use steamtools::manifest::{install_path, manifest_install_name};

const ACF: &str = "\"AppState\"\n{\n\t\"appid\"\t\t\"220\"\n\t\"universe\"\t\t\"1\"\n\t\"name\"\t\t\"Half-Life 2\"\n\t\"StateFlags\"\t\t\"4\"\n\t\"installdir\"\t\t\"Half-Life 2\"\n}\n";

#[test]
fn name_line_gives_the_directory() {
    assert_eq!(manifest_install_name(ACF), Some("Half-Life 2".to_string()));
}

#[test]
fn last_name_line_wins_and_blanks_are_trimmed() {
    let text = "\"name\" \"First\"\r\n   \"name\"   \"Ünïcødé Game\"  \r\n\"other\" \"x\"";
    assert_eq!(manifest_install_name(text), Some("Ünïcødé Game".to_string()));
    assert_eq!(manifest_install_name("\"name\"\t\"\""), Some(String::new()));
}

#[test]
fn no_name_line_gives_nothing() {
    assert_eq!(manifest_install_name(""), None);
    assert_eq!(manifest_install_name("\"names\"\t\"x\"\n\"name\"\tunquoted\n\"name\"\t\""), None);
    assert_eq!(manifest_install_name("\"installdir\"\t\t\"Half-Life 2\""), None);
}

#[test]
fn install_path_joins_under_common() {
    assert_eq!(install_path("C:\\Steam", "Half-Life 2"), "C:\\Steam\\steamapps\\common\\Half-Life 2");
}

#[test]
fn scanned_game_is_installed_where_a_path_was_found() {
    let d = AppData { name: "HL2".to_string(), ..AppData::empty() };
    let g = Game::scanned(220, d.clone(), Some("C:\\x".to_string()));
    assert!(g.installed);
    assert_eq!(g.path, "C:\\x");
    assert_eq!(g.details, d);
    let h = Game::scanned(221, AppData::empty(), None);
    assert!(!h.installed && h.path.is_empty() && h.appid == 221);
}
