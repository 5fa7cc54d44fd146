use steamtools::catalog::{AppData, Game, GameDetails, GameMap};
use steamtools::codec::{read_string, write_string, FormatError};

fn game(appid: u32, installed: bool, name: &str, path: &str, reqs: &[(&str, &str)]) -> Game {
    Game {
        appid,
        details: AppData {
            app_type: "game".to_string(),
            name: name.to_string(),
            is_free: !installed,
            header_image: format!("https://cdn.example/{}.jpg", appid),
            pc_requirements: reqs.iter().map(|(k, v)| (k.to_string(), v.to_string())).collect(),
        },
        installed,
        path: path.to_string(),
    }
}

#[test]
fn write_read() {
    let g = Game::default();
    let games = vec![Game { appid: 1, ..g }];
    let bytes = GameMap::write_to(&games).unwrap();
    let back = GameMap::read_from(&bytes).unwrap();
    assert_eq!(back.0, games);
}

#[test]
fn exact_bytes_of_one_entry() {
    let g = Game {
        appid: 7,
        details: AppData {
            app_type: "game".to_string(),
            name: "Ab".to_string(),
            is_free: false,
            header_image: String::new(),
            pc_requirements: vec![("os".to_string(), "é".to_string())],
        },
        installed: true,
        path: "C:".to_string(),
    };
    let bytes = GameMap::write_to(&[g]).unwrap();
    let expected: Vec<u8> = vec![
        1, 0, 0, 0, // entry count
        7, 0, 0, 0, // appid
        1, // installed
        4, 0, 0, 0, b'g', b'a', b'm', b'e', // type
        2, 0, 0, 0, b'A', b'b', // name
        0, 0, 0, 0, // header image
        0, // is free
        2, 0, 0, 0, b'C', b':', // path
        1, 0, 0, 0, // requirement count
        2, 0, 0, 0, b'o', b's', // key
        2, 0, 0, 0, 0xC3, 0xA9, // value
    ];
    assert_eq!(bytes, expected);
}

#[test]
fn empty_catalog_is_four_zero_bytes() {
    let bytes = GameMap::write_to(&[]).unwrap();
    assert_eq!(bytes, vec![0, 0, 0, 0]);
    assert_eq!(GameMap::read_from(&bytes).unwrap().0, Vec::<Game>::new());
}

#[test]
fn round_trip_keeps_multibyte_and_empty_strings() {
    let games = vec![
        game(10, true, "Ωmega ゲーム 🎮", "D:\\Games\\Ωmega", &[("OS", "Windows 10 – 64 bit"), ("", "")]),
        game(20, false, "", "", &[]),
        game(u32::MAX, true, "last", "/home/u/.steam", &[("Memory", "8 GB RAM")]),
    ];
    let bytes = GameMap::write_to(&games).unwrap();
    let back = GameMap::read_from(&bytes).unwrap();
    assert_eq!(back.0, games);
}

#[test]
fn truncated_file_fails_at_every_cut() {
    let games = vec![game(3, true, "Ünïcode", "p", &[("k", "v")]), game(4, false, "x", "", &[])];
    let bytes = GameMap::write_to(&games).unwrap();
    for k in 0..bytes.len() {
        assert_eq!(GameMap::read_from(&bytes[..k]), Err(FormatError::UnexpectedEnd), "cut at {}", k);
    }
}

#[test]
fn invalid_utf8_is_rejected() {
    let mut bytes = GameMap::write_to(&[game(5, true, "ab", "", &[])]).unwrap();
    // The name's two bytes come after count, appid, flag and the type string.
    let name_at = 4 + 4 + 1 + (4 + 4) + 4;
    assert_eq!(&bytes[name_at..name_at + 2], b"ab");
    bytes[name_at] = 0xFF;
    assert_eq!(GameMap::read_from(&bytes), Err(FormatError::InvalidUtf8));
}

#[test]
fn count_larger_than_entries_fails() {
    let mut bytes = GameMap::write_to(&[game(5, true, "a", "", &[])]).unwrap();
    bytes[0] = 2;
    assert_eq!(GameMap::read_from(&bytes), Err(FormatError::UnexpectedEnd));
}

#[test]
fn bytes_after_the_last_entry_are_not_read() {
    let games = vec![game(8, false, "n", "", &[])];
    let mut bytes = GameMap::write_to(&games).unwrap();
    bytes.extend_from_slice(&[9, 9, 9]);
    assert_eq!(GameMap::read_from(&bytes).unwrap().0, games);
}

#[test]
fn any_nonzero_flag_reads_as_true() {
    let mut bytes = GameMap::write_to(&[game(9, true, "", "", &[])]).unwrap();
    assert_eq!(bytes[8], 1);
    bytes[8] = 0x7F;
    assert!(GameMap::read_from(&bytes).unwrap().0[0].installed);
}

#[test]
fn write_string_prefixes_the_byte_length() {
    let mut out = vec![0xAA];
    write_string(&mut out, "hé").unwrap();
    assert_eq!(out, vec![0xAA, 3, 0, 0, 0, b'h', 0xC3, 0xA9]);
}

#[test]
fn read_string_decodes_and_moves_past() {
    let b = vec![9, 3, 0, 0, 0, b'h', 0xC3, 0xA9, 1];
    let (s, p) = read_string(&b, 1).unwrap();
    assert_eq!(s, "hé");
    assert_eq!(p, 8);
    assert_eq!(read_string(&b, 6), Err(FormatError::UnexpectedEnd));
    assert_eq!(read_string(&[1, 0, 0, 0, 0xC3], 0), Err(FormatError::InvalidUtf8));
    assert_eq!(read_string(&[5, 0, 0, 0, b'a'], 0), Err(FormatError::UnexpectedEnd));
}

#[test]
fn lookup_by_appid_takes_the_latest_record() {
    let map = GameMap(vec![game(1, true, "first", "a", &[]), game(2, false, "two", "", &[]), game(1, true, "again", "b", &[])]);
    assert_eq!(map.get(1).unwrap().details.name, "again");
    assert_eq!(map.get(2).unwrap().path, "");
    assert!(map.get(3).is_none());
    assert_eq!(map.len(), 3);
}

#[test]
fn new_game_is_empty() {
    let g = Game::new();
    assert_eq!(g.appid, 0);
    assert!(!g.installed);
    assert!(g.path.is_empty());
    assert!(g.details.name.is_empty() && g.details.pc_requirements.is_empty() && !g.details.is_free);
}

#[test]
fn details_fall_back_to_empty_metadata() {
    let d = game(1, true, "x", "", &[]).details;
    assert_eq!(GameDetails::new(true, Some(d.clone())).into_app_data(), d);
    let none = GameDetails::new(false, None);
    assert!(!none.is_success());
    assert_eq!(none.into_app_data(), AppData::empty());
}
