//! How plugin data is laid out as command arguments.

use netdox::model::{PluginData, StringContentType};

/// The arguments of a command, each as text.
fn args(cmd: &redis::Cmd) -> Vec<String> {
    cmd.args_iter()
        .map(|arg| match arg {
            redis::Arg::Simple(bytes) => String::from_utf8(bytes.to_vec()).unwrap(),
            redis::Arg::Cursor => panic!("no command of this library holds a cursor"),
        })
        .collect()
}

/// What `data` appends to an empty command.
fn encoded(data: &PluginData) -> Vec<String> {
    let mut cmd = redis::Cmd::new();
    data.add_as_args(&mut cmd);
    args(&cmd)
}

fn texts(items: &[&str]) -> Vec<String> {
    items.iter().map(|item| item.to_string()).collect()
}

/// What a decoder on the store's side recovers.
#[derive(Debug, PartialEq)]
enum Decoded {
    Hash(String, Vec<(String, String)>),
    List(String, Vec<(String, String, String)>),
    Text(String, String, String),
    Table(String, usize, Vec<Vec<String>>),
}

/// Rebuilds a datum from its arguments the way the store does: by tag, and
/// for tables by the declared number of columns.
fn decode(args: &[String]) -> Option<Decoded> {
    let tag = args.first()?;
    let title = args.get(1)?.clone();
    let body = &args[2..];
    match tag.as_str() {
        "hash" if body.len() % 2 == 0 => Some(Decoded::Hash(
            title,
            body.chunks(2).map(|pair| (pair[0].clone(), pair[1].clone())).collect(),
        )),
        "list" if body.len() % 3 == 0 => Some(Decoded::List(
            title,
            body.chunks(3).map(|item| (item[0].clone(), item[1].clone(), item[2].clone())).collect(),
        )),
        "string" if body.len() == 2 => Some(Decoded::Text(title, body[0].clone(), body[1].clone())),
        "table" if !body.is_empty() => {
            let columns: usize = body[0].parse().ok()?;
            let cells = &body[1..];
            if columns == 0 {
                return if cells.is_empty() { Some(Decoded::Table(title, 0, vec![])) } else { None };
            }
            if cells.len() % columns != 0 {
                return None;
            }
            Some(Decoded::Table(title, columns, cells.chunks(columns).map(|row| row.to_vec()).collect()))
        }
        _ => None,
    }
}

#[test]
fn hash_is_tag_title_then_pairs_in_order() {
    let data = PluginData::Hash { title: "Owner", items: vec![("team", "net"), ("site", "ams")] };
    assert_eq!(encoded(&data), texts(&["hash", "Owner", "team", "net", "site", "ams"]));
}

#[test]
fn hash_without_items_is_tag_and_title() {
    let data = PluginData::Hash { title: "Empty", items: vec![] };
    assert_eq!(encoded(&data), texts(&["hash", "Empty"]));
}

#[test]
fn list_is_tag_title_then_triples_in_order() {
    let data = PluginData::List {
        title: "Ports",
        items: vec![("http", "tcp", "80"), ("dns", "udp", "53")],
    };
    assert_eq!(encoded(&data), texts(&["list", "Ports", "http", "tcp", "80", "dns", "udp", "53"]));
}

#[test]
fn string_is_tag_title_content_type_content() {
    let html = PluginData::String { title: "Note", content_type: StringContentType::HTML, content: "<b>x</b>" };
    assert_eq!(encoded(&html), texts(&["string", "Note", "html", "<b>x</b>"]));
    let markdown =
        PluginData::String { title: "Note", content_type: StringContentType::Markdown, content: "*x*" };
    assert_eq!(encoded(&markdown), texts(&["string", "Note", "markdown", "*x*"]));
    let plain = PluginData::String { title: "Note", content_type: StringContentType::Plain, content: "x" };
    assert_eq!(encoded(&plain), texts(&["string", "Note", "plain", "x"]));
}

#[test]
fn table_is_tag_title_columns_then_cells_row_by_row() {
    let data = PluginData::Table {
        title: "Routes",
        num_columns: 3,
        rows: vec![vec!["a", "b", "c"], vec!["d", "e", "f"]],
    };
    assert_eq!(encoded(&data), texts(&["table", "Routes", "3", "a", "b", "c", "d", "e", "f"]));
}

#[test]
fn table_column_count_is_written_in_decimal() {
    let data = PluginData::Table { title: "Wide", num_columns: 120, rows: vec![] };
    assert_eq!(encoded(&data), texts(&["table", "Wide", "120"]));
}

#[test]
fn table_rows_are_not_held_against_the_column_count() {
    let data = PluginData::Table { title: "Ragged", num_columns: 2, rows: vec![vec!["a"], vec!["b", "c", "d"]] };
    assert_eq!(encoded(&data), texts(&["table", "Ragged", "2", "a", "b", "c", "d"]));
}

#[test]
fn arguments_are_appended_after_what_the_command_holds() {
    let mut cmd = redis::cmd("FCALL");
    cmd.arg("f").arg(0);
    let data = PluginData::List { title: "t", items: vec![("a", "b", "c")] };
    data.add_as_args(&mut cmd);
    assert_eq!(args(&cmd), texts(&["FCALL", "f", "0", "list", "t", "a", "b", "c"]));
}

#[test]
fn text_is_sent_as_utf8() {
    let data = PluginData::String { title: "Grüße", content_type: StringContentType::Plain, content: "日本" };
    let mut cmd = redis::Cmd::new();
    data.add_as_args(&mut cmd);
    let raw: Vec<Vec<u8>> = cmd
        .args_iter()
        .map(|arg| match arg {
            redis::Arg::Simple(bytes) => bytes.to_vec(),
            redis::Arg::Cursor => panic!("no command of this library holds a cursor"),
        })
        .collect();
    assert_eq!(raw[1], "Grüße".as_bytes().to_vec());
    assert_eq!(raw[3], vec![0xe6, 0x97, 0xa5, 0xe6, 0x9c, 0xac]);
}

#[test]
fn hash_survives_the_round_trip() {
    let data = PluginData::Hash { title: "Owner", items: vec![("team", "net"), ("site", "ams")] };
    assert_eq!(
        decode(&encoded(&data)),
        Some(Decoded::Hash(
            "Owner".to_string(),
            vec![("team".to_string(), "net".to_string()), ("site".to_string(), "ams".to_string())],
        ))
    );
}

#[test]
fn list_survives_the_round_trip() {
    let data = PluginData::List { title: "Ports", items: vec![("http", "tcp", "80"), ("dns", "udp", "53")] };
    assert_eq!(
        decode(&encoded(&data)),
        Some(Decoded::List(
            "Ports".to_string(),
            vec![
                ("http".to_string(), "tcp".to_string(), "80".to_string()),
                ("dns".to_string(), "udp".to_string(), "53".to_string()),
            ],
        ))
    );
}

#[test]
fn string_survives_the_round_trip() {
    let data = PluginData::String { title: "Note", content_type: StringContentType::Markdown, content: "# hi" };
    assert_eq!(
        decode(&encoded(&data)),
        Some(Decoded::Text("Note".to_string(), "markdown".to_string(), "# hi".to_string()))
    );
}

#[test]
fn table_survives_the_round_trip() {
    let data = PluginData::Table { title: "Routes", num_columns: 2, rows: vec![vec!["a", "b"], vec!["c", "d"]] };
    assert_eq!(
        decode(&encoded(&data)),
        Some(Decoded::Table("Routes".to_string(), 2, vec![texts(&["a", "b"]), texts(&["c", "d"])]))
    );
}

#[test]
fn ragged_table_does_not_survive_the_round_trip() {
    let data = PluginData::Table { title: "Ragged", num_columns: 2, rows: vec![vec!["a"], vec!["b", "c", "d"]] };
    assert_eq!(
        decode(&encoded(&data)),
        Some(Decoded::Table("Ragged".to_string(), 2, vec![texts(&["a", "b"]), texts(&["c", "d"])]))
    );
}

#[test]
fn content_type_tags() {
    assert_eq!(StringContentType::HTML.tag(), "html");
    assert_eq!(StringContentType::Markdown.tag(), "markdown");
    assert_eq!(StringContentType::Plain.tag(), "plain");
}

#[test]
fn tables_are_rectangular_when_every_row_has_the_columns() {
    let fits = PluginData::Table { title: "t", num_columns: 2, rows: vec![vec!["a", "b"], vec!["c", "d"]] };
    assert!(fits.is_rectangular());
    let short = PluginData::Table { title: "t", num_columns: 2, rows: vec![vec!["a", "b"], vec!["c"]] };
    assert!(!short.is_rectangular());
    let long = PluginData::Table { title: "t", num_columns: 1, rows: vec![vec!["a", "b"]] };
    assert!(!long.is_rectangular());
    let empty = PluginData::Table { title: "t", num_columns: 0, rows: vec![] };
    assert!(empty.is_rectangular());
    let hollow = PluginData::Table { title: "t", num_columns: 0, rows: vec![vec![]] };
    assert!(!hollow.is_rectangular());
    let no_rows = PluginData::Table { title: "t", num_columns: 3, rows: vec![] };
    assert!(no_rows.is_rectangular());
}

#[test]
fn other_data_are_always_rectangular() {
    assert!(PluginData::Hash { title: "t", items: vec![("k", "v")] }.is_rectangular());
    assert!(PluginData::List { title: "t", items: vec![] }.is_rectangular());
    let text = PluginData::String { title: "t", content_type: StringContentType::Plain, content: "" };
    assert!(text.is_rectangular());
}
