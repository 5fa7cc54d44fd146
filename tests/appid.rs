use steamtools::appid::{manifest_appid, parse_appid, unlock_script_appid, ResolveError};
use steamtools::catalog::{AppData, Game, GameMap};

#[test]
fn appid_text_is_parsed_like_u32() {
    assert_eq!(parse_appid("440"), Some(440));
    assert_eq!(parse_appid("+7"), Some(7));
    assert_eq!(parse_appid("007"), Some(7));
    assert_eq!(parse_appid("4294967295"), Some(u32::MAX));
    for bad in ["", "+", "4294967296", "99999999999", "12a", "-1", " 1", "١٢", "++1"] {
        assert_eq!(parse_appid(bad), None, "{:?}", bad);
        assert_eq!(parse_appid(bad), bad.parse::<u32>().ok(), "{:?}", bad);
    }
}

#[test]
fn ids_from_file_names() {
    assert_eq!(manifest_appid("appmanifest_440.acf"), Some(440));
    assert_eq!(manifest_appid("appmanifest_.acf"), None);
    assert_eq!(manifest_appid("appmanifest_12x.acf"), None);
    assert_eq!(manifest_appid("appmanifest_440.txt"), None);
    assert_eq!(manifest_appid("libraryfolders.vdf"), None);
    assert_eq!(unlock_script_appid("1091500.lua"), Some(1091500));
    assert_eq!(unlock_script_appid(".lua"), None);
    assert_eq!(unlock_script_appid("game.lua"), None);
}

fn game(appid: u32, path: &str) -> Game {
    Game { appid, details: AppData::empty(), installed: !path.is_empty(), path: path.to_string() }
}

#[test]
fn install_path_by_typed_id() {
    let map = GameMap(vec![game(10, "C:\\Steam\\steamapps\\common\\Ten"), game(20, "")]);
    assert_eq!(map.install_path_of("10").unwrap(), "C:\\Steam\\steamapps\\common\\Ten");
    assert_eq!(map.install_path_of("20").unwrap(), "");
    assert_eq!(map.install_path_of("30"), Err(ResolveError::NotInCatalog));
    assert_eq!(map.install_path_of("ten"), Err(ResolveError::NotNumeric));
}
