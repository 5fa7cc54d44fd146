use steamtools::runner::{Plugin, Plugins};
use steamtools::stack::{BufferFull, StackBuffer};
use steamtools::steam::{HostOs, Steam};

#[test]
fn stack_buffer_collects_text() {
    let mut sb = StackBuffer::<16>::new();
    assert_eq!(sb.as_str(), "");
    sb.write_str("abc/").unwrap();
    sb.write_str("ü").unwrap();
    assert_eq!(sb.as_str(), "abc/ü");
    assert_eq!(sb.write_str("0123456789a"), Err(BufferFull));
    assert_eq!(sb.as_str(), "abc/ü");
    sb.write_str("0123456789").unwrap();
    assert_eq!(sb.as_str(), "abc/ü0123456789");
    sb.clear();
    assert_eq!(sb.as_str(), "");
    assert_eq!(sb.buf, [0u8; 16]);
}

fn plugin(name: &str) -> Plugin {
    Plugin { code: "print(1)".to_string(), name_buffer: name.to_string(), name: name.to_string() }
}

#[test]
fn selected_plugin_is_edited_in_place() {
    let mut p = Plugins::new();
    assert_eq!(p.get(), None);
    assert!(p.get_selected().is_none());
    p.list.push(plugin("a"));
    p.list.push(plugin("b"));
    p.selected_plugin = Some(1);
    assert_eq!(p.get(), Some(1));
    p.get_selected().unwrap().name_buffer = "renamed".to_string();
    assert_eq!(p.list[1].name_buffer, "renamed");
    assert_eq!(p.list[0], plugin("a"));
}

#[test]
fn steam_path_given_or_usual() {
    let s = Steam::new(Some("/opt/steam".to_string()), HostOs::Linux);
    assert_eq!(s.path, "/opt/steam");
    assert!(s.mod_id.is_empty() && s.cfg.is_empty() && !s.melon_loader);
    assert_eq!(Steam::new(None, HostOs::Windows).path, "C:\\Program Files (x86)\\Steam");
    assert_eq!(Steam::new(None, HostOs::MacOs).path, "~/Library/Application Support/Steam");
    assert_eq!(Steam::new(None, HostOs::Linux).path, "~/.local/share/Steam");
    assert_eq!(Steam::new(None, HostOs::Other).path, "");
}
