//! The reads, run against a store held in memory.

use netdox::error::FCallError;
use netdox::get::{
    get_default_network, get_dns_metadata, get_dns_names, get_node, get_node_metadata, get_nodes,
    qualify_dns_names,
};
use netdox::model::Node;
use netdox::store::{run, Answer, Query, Reading, Step};
use std::cell::RefCell;
use std::collections::HashMap;

/// A store in memory. It records the keys and commands it was asked for.
struct Store {
    network: String,
    texts: HashMap<String, String>,
    sets: HashMap<String, Vec<String>>,
    hashes: HashMap<String, Vec<(String, String)>>,
    /// What qualifying answers instead of one name for each name, if set.
    qualified: Option<Vec<String>>,
    asked: Vec<String>,
}

impl Store {
    fn new() -> Store {
        Store {
            network: "[net]".to_string(),
            texts: HashMap::new(),
            sets: HashMap::new(),
            hashes: HashMap::new(),
            qualified: None,
            asked: Vec::new(),
        }
    }

    fn text(mut self, key: &str, value: &str) -> Store {
        self.texts.insert(key.to_string(), value.to_string());
        self
    }

    fn set(mut self, key: &str, members: &[&str]) -> Store {
        self.sets.insert(key.to_string(), members.iter().map(|m| m.to_string()).collect());
        self
    }

    fn hash(mut self, key: &str, fields: &[(&str, &str)]) -> Store {
        self.hashes.insert(key.to_string(), fields.iter().map(|(k, v)| (k.to_string(), v.to_string())).collect());
        self
    }

    fn node(self, link_id: &str, name: &str, raw_ids: &[&str]) -> Store {
        self.text(&format!("proc_nodes;{}", link_id), name)
            .set(&format!("proc_nodes;{};alt_names", link_id), &[])
            .set(&format!("proc_nodes;{};dns_names", link_id), &[])
            .set(&format!("proc_nodes;{};raw_ids", link_id), raw_ids)
            .set(&format!("proc_nodes;{};plugins", link_id), &[])
    }

    fn answer(&mut self, query: &Query) -> Result<Answer, redis::RedisError> {
        match query {
            Query::Get(key) => {
                self.asked.push(format!("GET {}", key));
                match self.texts.get(key) {
                    Some(text) => Ok(Answer::Text(text.clone())),
                    None => Err(redis::RedisError::from((redis::ErrorKind::TypeError, "nil where a text was asked for"))),
                }
            }
            Query::Members(key) => {
                self.asked.push(format!("SMEMBERS {}", key));
                Ok(Answer::List(self.sets.get(key).cloned().unwrap_or_default()))
            }
            Query::Fields(key) => {
                self.asked.push(format!("HGETALL {}", key));
                Ok(Answer::Pairs(self.hashes.get(key).cloned().unwrap_or_default()))
            }
            Query::Call(cmd) => {
                let args: Vec<String> = cmd
                    .args_iter()
                    .map(|arg| match arg {
                        redis::Arg::Simple(bytes) => String::from_utf8(bytes.to_vec()).unwrap(),
                        redis::Arg::Cursor => panic!("no command of this library holds a cursor"),
                    })
                    .collect();
                self.asked.push(args.join(" "));
                assert_eq!(args[0], "FCALL");
                assert_eq!(args[1], "netdox_qualify_dns_names");
                assert_eq!(args[2], (args.len() - 3).to_string());
                match &self.qualified {
                    Some(names) => Ok(Answer::List(names.clone())),
                    None => Ok(Answer::List(args[3..].iter().map(|name| format!("{}{}", self.network, name)).collect())),
                }
            }
        }
    }
}

/// Runs a read to its end against `store`.
fn run_on<R: Reading>(store: &RefCell<Store>, read: R) -> Result<R::Output, FCallError> {
    run(read, |query| store.borrow_mut().answer(&query))
}

/// What `store` was asked for so far.
fn asked(store: &RefCell<Store>) -> Vec<String> {
    store.borrow().asked.clone()
}

fn texts(items: &[&str]) -> Vec<String> {
    items.iter().map(|item| item.to_string()).collect()
}

fn pairs(items: &[(&str, &str)]) -> Vec<(String, String)> {
    items.iter().map(|(k, v)| (k.to_string(), v.to_string())).collect()
}

fn as_map(entries: &[(String, String)]) -> HashMap<String, String> {
    entries.iter().cloned().collect()
}

#[test]
fn default_network_is_the_text_at_its_key() {
    let store = RefCell::new(Store::new().text("default_network", "[net]"));
    assert_eq!(run_on(&store, get_default_network()).unwrap(), "[net]");
    assert_eq!(asked(&store), texts(&["GET default_network"]));
}

#[test]
fn default_network_missing_is_a_store_error() {
    let store = RefCell::new(Store::new());
    assert!(matches!(run_on(&store, get_default_network()), Err(FCallError::Redis(_))));
}

#[test]
fn qualify_sends_count_then_names() {
    let store = RefCell::new(Store::new());
    let qualified = run_on(&store, qualify_dns_names(texts(&["host1", "host2"]))).unwrap();
    assert_eq!(qualified, texts(&["[net]host1", "[net]host2"]));
    assert_eq!(asked(&store), texts(&["FCALL netdox_qualify_dns_names 2 host1 host2"]));
}

#[test]
fn qualify_nothing_sends_a_count_of_zero() {
    let store = RefCell::new(Store::new());
    assert_eq!(run_on(&store, qualify_dns_names(vec![])).unwrap(), Vec::<String>::new());
    assert_eq!(asked(&store), texts(&["FCALL netdox_qualify_dns_names 0"]));
}

#[test]
fn qualify_returns_the_answer_as_it_comes() {
    let store = RefCell::new(Store::new());
    store.borrow_mut().qualified = Some(texts(&["[net]only"]));
    let qualified = run_on(&store, qualify_dns_names(texts(&["a", "b"]))).unwrap();
    assert_eq!(qualified, texts(&["[net]only"]));
}

#[test]
fn dns_names_are_a_set() {
    let store = RefCell::new(Store::new().set("dns", &["[net]a", "[net]b", "[net]a", "[net]c", "[net]b"]));
    assert_eq!(run_on(&store, get_dns_names()).unwrap(), texts(&["[net]a", "[net]b", "[net]c"]));
    assert_eq!(asked(&store), texts(&["SMEMBERS dns"]));
}

#[test]
fn node_is_read_part_by_part() {
    let store = RefCell::new(Store::new()
        .text("proc_nodes;web-1", "web")
        .set("proc_nodes;web-1;alt_names", &["www", "web01"])
        .set("proc_nodes;web-1;dns_names", &["[net]a.example", "[net]b.example"])
        .set("proc_nodes;web-1;raw_ids", &["r1", "r2"])
        .set("proc_nodes;web-1;plugins", &["inventory"]));
    let node = run_on(&store, get_node("web-1")).unwrap();
    assert_eq!(node.name, "web");
    assert_eq!(node.link_id, "web-1");
    assert_eq!(node.alt_names, texts(&["www", "web01"]));
    assert_eq!(node.dns_names, texts(&["[net]a.example", "[net]b.example"]));
    assert_eq!(node.raw_ids, texts(&["r1", "r2"]));
    assert_eq!(node.plugins, texts(&["inventory"]));
    assert_eq!(
        asked(&store),
        texts(&[
            "GET proc_nodes;web-1",
            "SMEMBERS proc_nodes;web-1;alt_names",
            "SMEMBERS proc_nodes;web-1;dns_names",
            "SMEMBERS proc_nodes;web-1;raw_ids",
            "SMEMBERS proc_nodes;web-1;plugins",
        ])
    );
}

#[test]
fn node_sets_hold_nothing_twice() {
    let store = RefCell::new(Store::new()
        .text("proc_nodes;n", "n")
        .set("proc_nodes;n;alt_names", &["a", "a"])
        .set("proc_nodes;n;dns_names", &["d", "e", "d"])
        .set("proc_nodes;n;raw_ids", &["r", "r", "r"])
        .set("proc_nodes;n;plugins", &["p", "q", "q", "p"]));
    let node = run_on(&store, get_node("n")).unwrap();
    assert_eq!(node.alt_names, texts(&["a"]));
    assert_eq!(node.dns_names, texts(&["d", "e"]));
    assert_eq!(node.raw_ids, texts(&["r"]));
    assert_eq!(node.plugins, texts(&["p", "q"]));
}

#[test]
fn node_that_is_missing_is_a_store_error_after_one_query() {
    let store = RefCell::new(Store::new());
    assert!(matches!(run_on(&store, get_node("nope")), Err(FCallError::Redis(_))));
    assert_eq!(asked(&store), texts(&["GET proc_nodes;nope"]));
}

#[test]
fn answer_of_another_kind_is_a_logic_error() {
    let read = get_node("web-1");
    match read.step(Ok(Answer::List(vec![]))) {
        Step::Done(Err(FCallError::Logic(reason))) => {
            assert_eq!(reason, "The store answered with another kind of value than was asked for.")
        }
        _ => panic!("a list was taken for a name"),
    }
    let read = get_dns_names();
    assert!(matches!(read.step(Ok(Answer::Text("x".to_string()))), Step::Done(Err(FCallError::Logic(_)))));
    let read = get_node_metadata(&Node {
        name: "n".to_string(),
        link_id: "n".to_string(),
        alt_names: vec![],
        dns_names: vec![],
        raw_ids: vec![],
        plugins: vec![],
    });
    assert!(matches!(read.step(Ok(Answer::List(vec![]))), Step::Done(Err(FCallError::Logic(_)))));
}

#[test]
fn nodes_are_one_for_each_link_id() {
    let store = RefCell::new(Store::new()
        .set("proc_nodes", &["web-1", "db-1", "web-1"])
        .node("web-1", "web", &["r1"])
        .node("db-1", "db", &["r2", "r3"]));
    let nodes = run_on(&store, get_nodes()).unwrap();
    assert_eq!(nodes.len(), 2);
    assert_eq!(nodes[0].link_id, "web-1");
    assert_eq!(nodes[0].name, "web");
    assert_eq!(nodes[0].raw_ids, texts(&["r1"]));
    assert_eq!(nodes[1].link_id, "db-1");
    assert_eq!(nodes[1].name, "db");
    assert_eq!(nodes[1].raw_ids, texts(&["r2", "r3"]));
    assert_eq!(asked(&store).len(), 11);
    assert_eq!(asked(&store)[0], "SMEMBERS proc_nodes");
    assert_eq!(asked(&store)[1], "GET proc_nodes;web-1");
    assert_eq!(asked(&store)[6], "GET proc_nodes;db-1");
}

#[test]
fn no_link_ids_no_nodes() {
    let store = RefCell::new(Store::new());
    assert_eq!(run_on(&store, get_nodes()).unwrap().len(), 0);
    assert_eq!(asked(&store), texts(&["SMEMBERS proc_nodes"]));
}

#[test]
fn first_node_that_fails_ends_the_read() {
    let store = RefCell::new(Store::new().set("proc_nodes", &["web-1", "gone", "db-1"]).node("web-1", "web", &[]).node(
        "db-1",
        "db",
        &[],
    ));
    assert!(matches!(run_on(&store, get_nodes()), Err(FCallError::Redis(_))));
    assert_eq!(asked(&store).len(), 7);
    assert_eq!(asked(&store)[6], "GET proc_nodes;gone");
}

#[test]
fn dns_metadata_is_read_under_the_qualified_name() {
    let store = RefCell::new(Store::new().hash("meta;dns;[net]host1", &[("env", "prod")]));
    let direct = run_on(&store, qualify_dns_names(texts(&["host1"]))).unwrap();
    assert_eq!(direct, texts(&["[net]host1"]));
    let metadata = run_on(&store, get_dns_metadata("host1")).unwrap();
    assert_eq!(metadata, pairs(&[("env", "prod")]));
    assert_eq!(
        asked(&store),
        texts(&[
            "FCALL netdox_qualify_dns_names 1 host1",
            "FCALL netdox_qualify_dns_names 1 host1",
            &format!("HGETALL meta;dns;{}", direct[0]),
        ])
    );
}

#[test]
fn dns_metadata_of_a_name_qualified_into_nothing_is_a_logic_error() {
    let store = RefCell::new(Store::new());
    store.borrow_mut().qualified = Some(vec![]);
    match run_on(&store, get_dns_metadata("host1")) {
        Err(FCallError::Logic(reason)) => assert_eq!(reason, "Tried to qualify one DNS name but got zero back."),
        _ => panic!("metadata was read without a qualified name"),
    }
    assert_eq!(asked(&store), texts(&["FCALL netdox_qualify_dns_names 1 host1"]));
}

#[test]
fn dns_metadata_of_a_name_qualified_into_two_is_a_logic_error() {
    let store = RefCell::new(Store::new().hash("meta;dns;[net]host1", &[("k", "v")]));
    store.borrow_mut().qualified = Some(texts(&["[net]host1", "[net]host2"]));
    match run_on(&store, get_dns_metadata("host1")) {
        Err(FCallError::Logic(reason)) => {
            assert_eq!(reason, "Tried to qualify one DNS name but got more than one back.")
        }
        _ => panic!("a name was picked from among two"),
    }
    assert_eq!(asked(&store), texts(&["FCALL netdox_qualify_dns_names 1 host1"]));
}

#[test]
fn qualify_counts_many_names_in_decimal() {
    let names: Vec<String> = (0..12).map(|i| format!("host{}", i)).collect();
    let mut expected = texts(&["FCALL", "netdox_qualify_dns_names", "12"]);
    expected.extend(names.iter().cloned());
    match qualify_dns_names(names).query() {
        Query::Call(cmd) => {
            let sent: Vec<String> = cmd
                .args_iter()
                .map(|arg| match arg {
                    redis::Arg::Simple(bytes) => String::from_utf8(bytes.to_vec()).unwrap(),
                    redis::Arg::Cursor => panic!("no command of this library holds a cursor"),
                })
                .collect();
            assert_eq!(sent, expected);
        }
        _ => panic!("qualifying is not a call"),
    }
}

#[test]
fn dns_metadata_counts_the_later_of_two_fields() {
    let read = get_dns_metadata("host1");
    let read = match read.step(Ok(Answer::List(texts(&["[net]host1"])))) {
        Step::Ask(read) => {
            assert!(matches!(read.query(), Query::Fields(key) if key == "meta;dns;[net]host1"));
            read
        }
        Step::Done(_) => panic!("the metadata was not asked for"),
    };
    match read.step(Ok(Answer::Pairs(pairs(&[("a", "1"), ("b", "2"), ("a", "3")])))) {
        Step::Done(Ok(metadata)) => assert_eq!(metadata, pairs(&[("a", "3"), ("b", "2")])),
        _ => panic!("the read did not end"),
    }
}

#[test]
fn node_metadata_own_value_wins() {
    let store = RefCell::new(Store::new()
        .node("web-1", "web", &["r1", "r2"])
        .hash("meta;nodes;r1", &[("owner", "team-b"), ("env", "prod")])
        .hash("meta;nodes;r2", &[("region", "eu")])
        .hash("meta;proc_nodes;web-1", &[("owner", "team-a")]));
    let node = run_on(&store, get_node("web-1")).unwrap();
    store.borrow_mut().asked.clear();
    let metadata = run_on(&store, get_node_metadata(&node)).unwrap();
    let map = as_map(&metadata);
    assert_eq!(metadata.len(), 3);
    assert_eq!(map.len(), 3);
    assert_eq!(map["env"], "prod");
    assert_eq!(map["region"], "eu");
    assert_eq!(map["owner"], "team-a");
    assert_eq!(
        asked(&store),
        texts(&["HGETALL meta;nodes;r1", "HGETALL meta;nodes;r2", "HGETALL meta;proc_nodes;web-1"])
    );
}

#[test]
fn node_metadata_later_raw_node_wins_over_earlier() {
    let store = RefCell::new(Store::new()
        .hash("meta;nodes;r1", &[("k", "one"), ("a", "1")])
        .hash("meta;nodes;r2", &[("k", "two"), ("b", "2")]));
    let node = Node {
        name: "web".to_string(),
        link_id: "web-1".to_string(),
        alt_names: vec![],
        dns_names: vec![],
        raw_ids: texts(&["r1", "r2"]),
        plugins: vec![],
    };
    let metadata = run_on(&store, get_node_metadata(&node)).unwrap();
    assert_eq!(metadata, pairs(&[("k", "two"), ("a", "1"), ("b", "2")]));
}

#[test]
fn node_metadata_without_raw_nodes_is_the_own() {
    let store = RefCell::new(Store::new().hash("meta;proc_nodes;web-1", &[("owner", "team-a")]));
    let node = Node {
        name: "web".to_string(),
        link_id: "web-1".to_string(),
        alt_names: vec![],
        dns_names: vec![],
        raw_ids: vec![],
        plugins: vec![],
    };
    assert_eq!(run_on(&store, get_node_metadata(&node)).unwrap(), pairs(&[("owner", "team-a")]));
    assert_eq!(asked(&store), texts(&["HGETALL meta;proc_nodes;web-1"]));
}

#[test]
fn store_error_ends_a_read_at_once() {
    let node = Node {
        name: "web".to_string(),
        link_id: "web-1".to_string(),
        alt_names: vec![],
        dns_names: vec![],
        raw_ids: texts(&["r1", "r2"]),
        plugins: vec![],
    };
    let read = get_node_metadata(&node);
    assert!(matches!(read.query(), Query::Fields(key) if key == "meta;nodes;r1"));
    let failure = redis::RedisError::from((redis::ErrorKind::IoError, "connection lost"));
    match read.step(Err(failure)) {
        Step::Done(Err(FCallError::Redis(e))) => assert_eq!(e.kind(), redis::ErrorKind::IoError),
        _ => panic!("the failure was not passed on"),
    }
}

#[test]
fn node_metadata_reads_a_raw_node_once() {
    let store = RefCell::new(Store::new().hash("meta;nodes;r1", &[("k", "one")]).hash("meta;nodes;r2", &[("k", "two")]));
    let node = Node {
        name: "web".to_string(),
        link_id: "web-1".to_string(),
        alt_names: vec![],
        dns_names: vec![],
        raw_ids: texts(&["r1", "r2", "r1"]),
        plugins: vec![],
    };
    assert_eq!(run_on(&store, get_node_metadata(&node)).unwrap(), pairs(&[("k", "two")]));
    assert_eq!(
        asked(&store),
        texts(&["HGETALL meta;nodes;r1", "HGETALL meta;nodes;r2", "HGETALL meta;proc_nodes;web-1"])
    );
}

#[test]
fn first_queries_name_the_keys() {
    assert!(matches!(get_default_network().query(), Query::Get(key) if key == "default_network"));
    assert!(matches!(get_dns_names().query(), Query::Members(key) if key == "dns"));
    assert!(matches!(get_nodes().query(), Query::Members(key) if key == "proc_nodes"));
    assert!(matches!(get_node("web-1").query(), Query::Get(key) if key == "proc_nodes;web-1"));
    assert!(matches!(get_dns_metadata("host1").query(), Query::Call(_)));
}
