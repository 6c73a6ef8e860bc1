//! Connection details, errors, and the helpers for texts, sets and maps.

use netdox::error::FCallError;
use netdox::keys::{join2, join3};
use netdox::merge::{contains, dedup, extend_entries, put_entry};
use netdox::model::RedisArgs;
use netdox::text::decimal_string;

/// The arguments of a command, each as text.
fn args(cmd: &redis::Cmd) -> Vec<String> {
    cmd.args_iter()
        .map(|arg| match arg {
            redis::Arg::Simple(bytes) => String::from_utf8(bytes.to_vec()).unwrap(),
            redis::Arg::Cursor => panic!("no command of this library holds a cursor"),
        })
        .collect()
}

fn texts(items: &[&str]) -> Vec<String> {
    items.iter().map(|item| item.to_string()).collect()
}

fn pairs(items: &[(&str, &str)]) -> Vec<(String, String)> {
    items.iter().map(|(k, v)| (k.to_string(), v.to_string())).collect()
}

fn details(host: &str, username: Option<&str>, password: Option<&str>) -> RedisArgs {
    RedisArgs {
        host: host.to_string(),
        port: 6379,
        db: 2,
        username: username.map(|u| u.to_string()),
        password: password.map(|p| p.to_string()),
    }
}

#[test]
fn url_is_scheme_host_port_db() {
    assert_eq!(details("localhost", None, None).url(), "redis://localhost:6379/2");
    let other = RedisArgs { host: "10.0.0.7".to_string(), port: 0, db: 15, username: None, password: None };
    assert_eq!(other.url(), "redis://10.0.0.7:0/15");
}

#[test]
fn client_is_made_of_a_good_url() {
    match details("localhost", None, None).to_client() {
        Ok(client) => {
            let info = client.get_connection_info();
            assert_eq!(info.addr.to_string(), "localhost:6379");
            assert_eq!(info.redis.db, 2);
        }
        Err(e) => panic!("refused: {}", e.message()),
    }
}

#[test]
fn client_is_refused_for_a_bad_url() {
    match details("not a host", None, None).to_client() {
        Ok(_) => panic!("a host with spaces was taken"),
        Err(e) => assert!(matches!(e, FCallError::Redis(_))),
    }
}

#[test]
fn auth_command_is_there_with_a_username() {
    let cmd = details("localhost", Some("admin"), Some("secret")).auth_command();
    match cmd {
        Some(cmd) => assert_eq!(args(&cmd), texts(&["AUTH", "admin", "secret"])),
        None => panic!("no command to log in with"),
    }
}

#[test]
fn auth_command_is_absent_without_a_username() {
    assert!(details("localhost", None, None).auth_command().is_none());
    assert!(details("localhost", None, Some("secret")).auth_command().is_none());
}

#[test]
fn wrong_args_in_words() {
    let error = FCallError::WrongArgs { function: "netdox_create_dns", problem: "half a record" };
    assert_eq!(error.message(), "function call to netdox_create_dns had the wrong arguments: half a record");
}

#[test]
fn logic_error_in_words() {
    let error = FCallError::Logic("zero names");
    assert_eq!(error.message(), "there is a logical error in the code: zero names");
}

#[test]
fn redis_error_in_words() {
    let inner = redis::RedisError::from((redis::ErrorKind::IoError, "connection lost"));
    let wording = inner.to_string();
    let error = FCallError::from(inner);
    assert!(matches!(error, FCallError::Redis(_)));
    assert_eq!(error.message(), format!("function call failed on redis: {}", wording));
}

#[test]
fn decimal_of_small_and_large_numbers() {
    assert_eq!(decimal_string(0), "0");
    assert_eq!(decimal_string(7), "7");
    assert_eq!(decimal_string(10), "10");
    assert_eq!(decimal_string(109), "109");
    assert_eq!(decimal_string(1234567890), "1234567890");
    assert_eq!(decimal_string(usize::MAX), usize::MAX.to_string());
}

#[test]
fn keys_are_joined_by_semicolons() {
    assert_eq!(join2("proc_nodes", "web-1"), "proc_nodes;web-1");
    assert_eq!(join3("meta", "dns", "[net]a.example"), "meta;dns;[net]a.example");
    assert_eq!(join3("proc_nodes", "", "plugins"), "proc_nodes;;plugins");
}

#[test]
fn dedup_keeps_the_first_of_each() {
    assert_eq!(dedup(texts(&["b", "a", "b", "c", "a"])), texts(&["b", "a", "c"]));
    assert_eq!(dedup(vec![]), Vec::<String>::new());
    assert_eq!(dedup(texts(&["x", "x", "x"])), texts(&["x"]));
}

#[test]
fn contains_finds_equal_texts() {
    let items = texts(&["a", "b"]);
    assert!(contains(&items, &"b".to_string()));
    assert!(!contains(&items, &"c".to_string()));
    assert!(!contains(&vec![], &"a".to_string()));
}

#[test]
fn put_entry_replaces_in_place_or_appends() {
    let mut entries = pairs(&[("a", "1"), ("b", "2")]);
    put_entry(&mut entries, "a".to_string(), "3".to_string());
    assert_eq!(entries, pairs(&[("a", "3"), ("b", "2")]));
    put_entry(&mut entries, "c".to_string(), "4".to_string());
    assert_eq!(entries, pairs(&[("a", "3"), ("b", "2"), ("c", "4")]));
}

#[test]
fn extend_entries_lets_the_incoming_win() {
    let mut entries = pairs(&[("owner", "team-b"), ("env", "prod")]);
    extend_entries(&mut entries, &pairs(&[("region", "eu"), ("owner", "team-a")]));
    assert_eq!(entries, pairs(&[("owner", "team-a"), ("env", "prod"), ("region", "eu")]));
}
