//! The read side: the default network, DNS names, processed nodes and
//! metadata.
//!
//! Each operation starts a [`Reading`]: a read that asks its queries one by
//! one. What the operation returns is stated against a [`Store`] by the
//! function named after it with `_in` at its end.

use crate::command::{cmd_args, fcall, fcall_head, utf8_all};
use crate::error::{ErrorView, FCallError, FCallResult};
use crate::keys::{
    ALT_NAMES, DEFAULT_NETWORK_KEY, DNS_KEY, DNS_NAMES, META_KEY, NODES_KEY, PLUGINS,
    PROC_NODES_KEY, RAW_IDS, dns_metadata_key, join2, join3, node_key, node_set_key,
    proc_node_metadata_key, raw_node_metadata_key,
};
use crate::merge::{
    Entries, as_map, dedup, distinct, extend, extend_entries, keys, lemma_distinct,
    lemma_distinct_of_distinct, lemma_extend, lemma_extend_empty,
};
use crate::model::{Node, NodeView};
use crate::store::{
    Query, QueryView, Reading, Reply, ReplyView, Step, Store, Turn, expect_list, expect_map,
    expect_pairs, expect_set, expect_text, list_of, map_of, outcome, pairs_of, reply_view,
    set_of, text_of,
};
use crate::text::{Text, Texts};
use vstd::prelude::*;

verus! {

/// The store's function that qualifies DNS names.
pub const QUALIFY_DNS_NAME_FN: &'static str = "netdox_qualify_dns_names";

/// The reason given when the store qualifies one name into none.
pub const NO_QUALIFIED_NAME: &'static str = "Tried to qualify one DNS name but got zero back.";

/// The reason given when the store qualifies one name into several.
pub const MANY_QUALIFIED_NAMES: &'static str =
    "Tried to qualify one DNS name but got more than one back.";

/// The text that `store` holds at `key`.
pub open spec fn text_in(store: Store, key: Text) -> Result<Text, ErrorView> {
    text_of(store(QueryView::Get(key)))
}

/// The set that `store` holds at `key`, in the order of its answer.
pub open spec fn set_in(store: Store, key: Text) -> Result<Texts, ErrorView> {
    set_of(store(QueryView::Members(key)))
}

/// The hash that `store` holds at `key`, in the order of its answer.
pub open spec fn map_in(store: Store, key: Text) -> Result<Entries, ErrorView> {
    map_of(store(QueryView::Fields(key)))
}

// The default network

/// The default network that `store` holds.
pub open spec fn default_network_in(store: Store) -> Result<Text, ErrorView> {
    text_in(store, DEFAULT_NETWORK_KEY@)
}

/// The read of the default network.
pub struct DefaultNetworkRead {}

impl Reading for DefaultNetworkRead {
    type Output = String;

    open spec fn pending(&self) -> QueryView {
        QueryView::Get(DEFAULT_NETWORK_KEY@)
    }

    open spec fn turn(&self, reply: ReplyView) -> Turn<Text> {
        Turn::Done(text_of(reply))
    }

    open spec fn result_on(&self, store: Store) -> Result<Text, ErrorView> {
        default_network_in(store)
    }

    open spec fn remaining(&self) -> Option<nat> {
        Some(1)
    }

    fn query(&self) -> (query: Query) {
        Query::Get(String::from_str(DEFAULT_NETWORK_KEY))
    }

    fn step(self, reply: Reply) -> (next: Step<Self, String>) {
        Step::Done(expect_text(reply))
    }
}

/// Fetch the default network namespace.
pub fn get_default_network() -> (read: DefaultNetworkRead)
    ensures
        forall|store: Store| #[trigger] read.result_on(store) == default_network_in(store),
{
    DefaultNetworkRead {  }
}

// Qualified DNS names

/// The arguments of the command that qualifies `names`: a call of the
/// store's function with the names as its keys, so the number of names comes
/// right before the names, which go unchanged and in the caller's order.
pub open spec fn qualify_args(names: Texts) -> Texts {
    fcall_head(QUALIFY_DNS_NAME_FN@, names)
}

/// The query that qualifies `names`.
pub open spec fn qualify_query(names: Texts) -> QueryView {
    QueryView::Call(utf8_all(qualify_args(names)))
}

/// The names that `store` qualifies `names` into.
pub open spec fn qualified_in(store: Store, names: Texts) -> Result<Texts, ErrorView> {
    list_of(store(qualify_query(names)))
}

/// Builds the command that qualifies `names`.
pub fn qualify_command(names: &Vec<String>) -> (cmd: redis::Cmd)
    ensures
        cmd_args(cmd) == utf8_all(qualify_args(names.deep_view())),
{
    let mut keys: Vec<&str> = Vec::new();
    let mut i: usize = 0;
    while i < names.len()
        invariant
            i <= names.len(),
            keys.deep_view() =~= names.deep_view().take(i as int),
        decreases names.len() - i,
    {
        let ghost before = keys.deep_view();
        keys.push(names[i].as_str());
        assert(keys.deep_view() =~= before.push(names[i as int]@));
        i += 1;
    }
    assert(names.deep_view().take(i as int) =~= names.deep_view());
    fcall(QUALIFY_DNS_NAME_FN, &keys)
}

/// The read that qualifies a list of DNS names.
pub struct QualifyRead {
    pub names: Vec<String>,
}

impl Reading for QualifyRead {
    type Output = Vec<String>;

    open spec fn pending(&self) -> QueryView {
        qualify_query(self.names.deep_view())
    }

    open spec fn turn(&self, reply: ReplyView) -> Turn<Texts> {
        Turn::Done(list_of(reply))
    }

    open spec fn result_on(&self, store: Store) -> Result<Texts, ErrorView> {
        qualified_in(store, self.names.deep_view())
    }

    open spec fn remaining(&self) -> Option<nat> {
        Some(1)
    }

    fn query(&self) -> (query: Query) {
        Query::Call(qualify_command(&self.names))
    }

    fn step(self, reply: Reply) -> (next: Step<Self, Vec<String>>) {
        Step::Done(expect_list(reply))
    }
}

/// Prepend the default network qualifier to a list of DNS names.
///
/// The store answers with one qualified name for each name, in the same
/// order; this is taken on trust, and the answer is returned as it comes.
pub fn qualify_dns_names(names: Vec<String>) -> (read: QualifyRead)
    ensures
        read.names == names,
        forall|store: Store| #[trigger]
            read.result_on(store) == qualified_in(store, names.deep_view()),
{
    QualifyRead { names }
}

// All DNS names

/// The DNS names that `store` holds.
pub open spec fn dns_names_in(store: Store) -> Result<Texts, ErrorView> {
    set_in(store, DNS_KEY@)
}

/// The read of all DNS names.
pub struct DnsNamesRead {}

impl Reading for DnsNamesRead {
    type Output = Vec<String>;

    open spec fn pending(&self) -> QueryView {
        QueryView::Members(DNS_KEY@)
    }

    open spec fn turn(&self, reply: ReplyView) -> Turn<Texts> {
        Turn::Done(set_of(reply))
    }

    open spec fn result_on(&self, store: Store) -> Result<Texts, ErrorView> {
        dns_names_in(store)
    }

    open spec fn remaining(&self) -> Option<nat> {
        Some(1)
    }

    fn query(&self) -> (query: Query) {
        Query::Members(String::from_str(DNS_KEY))
    }

    fn step(self, reply: Reply) -> (next: Step<Self, Vec<String>>) {
        Step::Done(expect_set(reply))
    }
}

/// Fetch all the DNS names from the datastore.
pub fn get_dns_names() -> (read: DnsNamesRead)
    ensures
        forall|store: Store| #[trigger] read.result_on(store) == dns_names_in(store),
{
    DnsNamesRead {  }
}

// One processed node

/// The processed node that `store` holds under `link_id`: its name, and the
/// four sets, each read on its own. What cannot be read first fails the
/// whole.
pub open spec fn node_in(store: Store, link_id: Text) -> Result<NodeView, ErrorView> {
    match text_in(store, node_key(link_id)) {
        Err(e) => Err(e),
        Ok(name) => match set_in(store, node_set_key(link_id, ALT_NAMES@)) {
            Err(e) => Err(e),
            Ok(alt_names) => match set_in(store, node_set_key(link_id, DNS_NAMES@)) {
                Err(e) => Err(e),
                Ok(dns_names) => match set_in(store, node_set_key(link_id, RAW_IDS@)) {
                    Err(e) => Err(e),
                    Ok(raw_ids) => match set_in(store, node_set_key(link_id, PLUGINS@)) {
                        Err(e) => Err(e),
                        Ok(plugins) => Ok(
                            NodeView { name, link_id, alt_names, dns_names, raw_ids, plugins },
                        ),
                    },
                },
            },
        },
    }
}

/// The parts of a processed node that are read one by one, in this order.
#[derive(Debug, Clone, Copy, PartialEq, Eq, Structural)]
pub enum Part {
    Name,
    AltNames,
    DnsNames,
    RawIds,
    Plugins,
}

impl Part {
    /// The query that asks for this part of the node `link_id`.
    pub open spec fn query_of(self, link_id: Text) -> QueryView {
        match self {
            Part::Name => QueryView::Get(node_key(link_id)),
            Part::AltNames => QueryView::Members(node_set_key(link_id, ALT_NAMES@)),
            Part::DnsNames => QueryView::Members(node_set_key(link_id, DNS_NAMES@)),
            Part::RawIds => QueryView::Members(node_set_key(link_id, RAW_IDS@)),
            Part::Plugins => QueryView::Members(node_set_key(link_id, PLUGINS@)),
        }
    }

    /// The part that is read after this one.
    pub open spec fn following(self) -> Option<Part> {
        match self {
            Part::Name => Some(Part::AltNames),
            Part::AltNames => Some(Part::DnsNames),
            Part::DnsNames => Some(Part::RawIds),
            Part::RawIds => Some(Part::Plugins),
            Part::Plugins => None,
        }
    }

    /// How many parts are to be read from this one on.
    pub open spec fn remaining(self) -> nat {
        match self {
            Part::Name => 5,
            Part::AltNames => 4,
            Part::DnsNames => 3,
            Part::RawIds => 2,
            Part::Plugins => 1,
        }
    }

    /// `node` with this part as `reply` gives it.
    pub open spec fn filled(self, node: NodeView, reply: ReplyView) -> Result<NodeView, ErrorView> {
        match self {
            Part::Name => match text_of(reply) {
                Err(e) => Err(e),
                Ok(name) => Ok(NodeView { name, ..node }),
            },
            Part::AltNames => match set_of(reply) {
                Err(e) => Err(e),
                Ok(alt_names) => Ok(NodeView { alt_names, ..node }),
            },
            Part::DnsNames => match set_of(reply) {
                Err(e) => Err(e),
                Ok(dns_names) => Ok(NodeView { dns_names, ..node }),
            },
            Part::RawIds => match set_of(reply) {
                Err(e) => Err(e),
                Ok(raw_ids) => Ok(NodeView { raw_ids, ..node }),
            },
            Part::Plugins => match set_of(reply) {
                Err(e) => Err(e),
                Ok(plugins) => Ok(NodeView { plugins, ..node }),
            },
        }
    }

    /// The query that asks for this part of the node `link_id`.
    pub fn query(self, link_id: &str) -> (query: Query)
        ensures
            query@ == self.query_of(link_id@),
    {
        match self {
            Part::Name => Query::Get(join2(PROC_NODES_KEY, link_id)),
            Part::AltNames => Query::Members(join3(PROC_NODES_KEY, link_id, ALT_NAMES)),
            Part::DnsNames => Query::Members(join3(PROC_NODES_KEY, link_id, DNS_NAMES)),
            Part::RawIds => Query::Members(join3(PROC_NODES_KEY, link_id, RAW_IDS)),
            Part::Plugins => Query::Members(join3(PROC_NODES_KEY, link_id, PLUGINS)),
        }
    }

    /// The part that is read after this one.
    pub fn next(self) -> (next: Option<Part>)
        ensures
            next == self.following(),
    {
        match self {
            Part::Name => Some(Part::AltNames),
            Part::AltNames => Some(Part::DnsNames),
            Part::DnsNames => Some(Part::RawIds),
            Part::RawIds => Some(Part::Plugins),
            Part::Plugins => None,
        }
    }

    /// Puts what `reply` gives into this part of `node`.
    pub fn fill(self, node: Node, reply: Reply) -> (result: FCallResult<Node>)
        ensures
            outcome(result) == self.filled(node.deep_view(), reply_view(reply)),
    {
        let mut node = node;
        match self {
            Part::Name => match expect_text(reply) {
                Err(e) => Err(e),
                Ok(name) => {
                    node.name = name;
                    Ok(node)
                },
            },
            Part::AltNames => match expect_set(reply) {
                Err(e) => Err(e),
                Ok(alt_names) => {
                    node.alt_names = alt_names;
                    Ok(node)
                },
            },
            Part::DnsNames => match expect_set(reply) {
                Err(e) => Err(e),
                Ok(dns_names) => {
                    node.dns_names = dns_names;
                    Ok(node)
                },
            },
            Part::RawIds => match expect_set(reply) {
                Err(e) => Err(e),
                Ok(raw_ids) => {
                    node.raw_ids = raw_ids;
                    Ok(node)
                },
            },
            Part::Plugins => match expect_set(reply) {
                Err(e) => Err(e),
                Ok(plugins) => {
                    node.plugins = plugins;
                    Ok(node)
                },
            },
        }
    }
}

/// `node` with the parts from `part` on read from `store`, one after another.
pub open spec fn completed(store: Store, node: NodeView, part: Part) -> Result<NodeView, ErrorView>
    decreases part.remaining(),
{
    match part.filled(node, store(part.query_of(node.link_id))) {
        Err(e) => Err(e),
        Ok(node) => match part.following() {
            Some(next) => completed(store, node, next),
            None => Ok(node),
        },
    }
}

/// A node of which only the link identifier is known.
pub open spec fn blank(link_id: Text) -> NodeView {
    NodeView {
        name: seq![],
        link_id,
        alt_names: seq![],
        dns_names: seq![],
        raw_ids: seq![],
        plugins: seq![],
    }
}

/// Reading all five parts into a blank node is reading the node.
pub proof fn lemma_completed_blank(store: Store, link_id: Text)
    ensures
        completed(store, blank(link_id), Part::Name) == node_in(store, link_id),
{
    reveal_with_fuel(completed, 6);
}

/// The read of one processed node: `node` holds the parts read so far, and
/// `awaits` is the part whose reply is waited for.
pub struct NodeRead {
    pub node: Node,
    pub awaits: Part,
}

impl Reading for NodeRead {
    type Output = Node;

    open spec fn pending(&self) -> QueryView {
        self.awaits.query_of(self.node.link_id@)
    }

    open spec fn turn(&self, reply: ReplyView) -> Turn<NodeView> {
        match self.awaits.filled(self.node.deep_view(), reply) {
            Err(e) => Turn::Done(Err(e)),
            Ok(node) => match self.awaits.following() {
                Some(next) => Turn::Ask(next.query_of(node.link_id)),
                None => Turn::Done(Ok(node)),
            },
        }
    }

    open spec fn result_on(&self, store: Store) -> Result<NodeView, ErrorView> {
        completed(store, self.node.deep_view(), self.awaits)
    }

    open spec fn remaining(&self) -> Option<nat> {
        Some(self.awaits.remaining())
    }

    fn query(&self) -> (query: Query) {
        self.awaits.query(self.node.link_id.as_str())
    }

    fn step(self, reply: Reply) -> (next: Step<Self, Node>) {
        match self.awaits.fill(self.node, reply) {
            Err(e) => Step::Done(Err(e)),
            Ok(node) => match self.awaits.next() {
                Some(next) => Step::Ask(NodeRead { node, awaits: next }),
                None => Step::Done(Ok(node)),
            },
        }
    }
}

/// Fetch a processed node using its link ID.
///
/// A node that the store does not hold is a failure of the store, as any
/// other missing key is.
pub fn get_node(link_id: &str) -> (read: NodeRead)
    ensures
        read.node.deep_view() == blank(link_id@),
        read.awaits == Part::Name,
        forall|store: Store| #[trigger] read.result_on(store) == node_in(store, link_id@),
{
    let node = Node {
        name: String::new(),
        link_id: String::from_str(link_id),
        alt_names: Vec::new(),
        dns_names: Vec::new(),
        raw_ids: Vec::new(),
        plugins: Vec::new(),
    };
    proof {
        assert(node.deep_view() =~= blank(link_id@)) by {
            assert(node.alt_names.deep_view() =~= seq![]);
            assert(node.dns_names.deep_view() =~= seq![]);
            assert(node.raw_ids.deep_view() =~= seq![]);
            assert(node.plugins.deep_view() =~= seq![]);
        }
        assert forall|store: Store|
            completed(store, blank(link_id@), Part::Name) == node_in(store, link_id@) by {
            lemma_completed_blank(store, link_id@);
        }
    }
    NodeRead { node, awaits: Part::Name }
}

// All processed nodes

/// The nodes that `store` holds under `link_ids`, in that order. The first
/// node that cannot be read fails the whole.
pub open spec fn each_node_in(store: Store, link_ids: Texts) -> Result<Seq<NodeView>, ErrorView>
    decreases link_ids.len(),
{
    if link_ids.len() == 0 {
        Ok(seq![])
    } else {
        match node_in(store, link_ids[0]) {
            Err(e) => Err(e),
            Ok(node) => match each_node_in(store, link_ids.drop_first()) {
                Err(e) => Err(e),
                Ok(more) => Ok(seq![node] + more),
            },
        }
    }
}

/// All processed nodes that `store` holds: one for each link identifier in
/// the set of processed nodes, in the order of that set.
pub open spec fn nodes_in(store: Store) -> Result<Seq<NodeView>, ErrorView> {
    match set_in(store, PROC_NODES_KEY@) {
        Err(e) => Err(e),
        Ok(link_ids) => each_node_in(store, link_ids),
    }
}

/// The items of `items` from index `from` on; none where there is no such
/// index.
pub open spec fn after(items: Texts, from: int) -> Texts {
    if 0 <= from <= items.len() {
        items.skip(from)
    } else {
        seq![]
    }
}

/// The read of all processed nodes: first the set of link identifiers, then
/// node after node.
pub enum NodesRead {
    /// Waits for the set of link identifiers.
    LinkIds,
    /// Reads the node `current`; `nodes` are read already, and the link
    /// identifiers in `link_ids` from index `next` on are still to be read.
    Nodes { nodes: Vec<Node>, current: NodeRead, link_ids: Vec<String>, next: usize },
}

impl Reading for NodesRead {
    type Output = Vec<Node>;

    open spec fn pending(&self) -> QueryView {
        match self {
            NodesRead::LinkIds => QueryView::Members(PROC_NODES_KEY@),
            NodesRead::Nodes { current, .. } => current.pending(),
        }
    }

    open spec fn turn(&self, reply: ReplyView) -> Turn<Seq<NodeView>> {
        match self {
            NodesRead::LinkIds => match set_of(reply) {
                Err(e) => Turn::Done(Err(e)),
                Ok(link_ids) => if link_ids.len() == 0 {
                    Turn::Done(Ok(seq![]))
                } else {
                    Turn::Ask(QueryView::Get(node_key(link_ids[0])))
                },
            },
            NodesRead::Nodes { nodes, current, link_ids, next } => match current.turn(reply) {
                Turn::Ask(query) => Turn::Ask(query),
                Turn::Done(Err(e)) => Turn::Done(Err(e)),
                Turn::Done(Ok(node)) => if *next < link_ids.len() {
                    Turn::Ask(QueryView::Get(node_key(link_ids[*next as int]@)))
                } else {
                    Turn::Done(Ok(nodes.deep_view().push(node)))
                },
            },
        }
    }

    open spec fn result_on(&self, store: Store) -> Result<Seq<NodeView>, ErrorView> {
        match self {
            NodesRead::LinkIds => nodes_in(store),
            NodesRead::Nodes { nodes, current, link_ids, next } => match current.result_on(store) {
                Err(e) => Err(e),
                Ok(node) => match each_node_in(store, after(link_ids.deep_view(), *next as int)) {
                    Err(e) => Err(e),
                    Ok(more) => Ok(nodes.deep_view().push(node) + more),
                },
            },
        }
    }

    open spec fn remaining(&self) -> Option<nat> {
        match self {
            NodesRead::LinkIds => None,
            NodesRead::Nodes { current, link_ids, next, .. } => Some(
                current.awaits.remaining() + 5 * after(link_ids.deep_view(), *next as int).len(),
            ),
        }
    }

    fn query(&self) -> (query: Query) {
        match self {
            NodesRead::LinkIds => Query::Members(String::from_str(PROC_NODES_KEY)),
            NodesRead::Nodes { current, .. } => current.query(),
        }
    }

    fn step(self, reply: Reply) -> (next: Step<Self, Vec<Node>>) {
        match self {
            NodesRead::LinkIds => match expect_set(reply) {
                Err(e) => Step::Done(Err(e)),
                Ok(link_ids) => {
                    let nodes: Vec<Node> = Vec::new();
                    assert(nodes.deep_view() =~= seq![]);
                    if link_ids.len() == 0 {
                        Step::Done(Ok(nodes))
                    } else {
                        let current = get_node(link_ids[0].as_str());
                        let ghost ids = link_ids.deep_view();
                        let state = NodesRead::Nodes { nodes, current, link_ids, next: 1 };
                        proof {
                            assert(after(ids, 1) =~= ids.drop_first());
                            assert forall|store: Store| #[trigger]
                                store(self.pending()) == reply_view(reply) implies state.result_on(
                                store,
                            ) == self.result_on(store) by {
                                assert(current.result_on(store) == node_in(store, ids[0]));
                                match node_in(store, ids[0]) {
                                    Err(e) => {},
                                    Ok(node) => match each_node_in(store, ids.drop_first()) {
                                        Err(e) => {},
                                        Ok(more) => {
                                            assert(seq![].push(node) + more =~= seq![node] + more);
                                        },
                                    },
                                }
                            }
                        }
                        Step::Ask(state)
                    }
                },
            },
            NodesRead::Nodes { nodes, current, link_ids, next } => {
                let ghost done = nodes.deep_view();
                let ghost ids = link_ids.deep_view();
                let ghost rest = after(ids, next as int);
                match current.step(reply) {
                    Step::Ask(current_next) => {
                        let state = NodesRead::Nodes {
                            nodes,
                            current: current_next,
                            link_ids,
                            next,
                        };
                        Step::Ask(state)
                    },
                    Step::Done(Err(e)) => Step::Done(Err(e)),
                    Step::Done(Ok(node)) => {
                        let mut nodes = nodes;
                        let ghost read = node.deep_view();
                        nodes.push(node);
                        assert(nodes.deep_view() =~= done.push(read));
                        if next < link_ids.len() {
                            let following = get_node(link_ids[next].as_str());
                            let state = NodesRead::Nodes {
                                nodes,
                                current: following,
                                link_ids,
                                next: next + 1,
                            };
                            proof {
                                let later = after(ids, next + 1);
                                assert(rest.drop_first() =~= later);
                                assert(rest[0] == ids[next as int]);
                                assert forall|store: Store| #[trigger]
                                    store(self.pending()) == reply_view(
                                        reply,
                                    ) implies state.result_on(store) == self.result_on(store) by {
                                    assert(current.result_on(store) == Ok::<NodeView, ErrorView>(
                                        read,
                                    ));
                                    assert(following.result_on(store) == node_in(
                                        store,
                                        ids[next as int],
                                    ));
                                    match node_in(store, ids[next as int]) {
                                        Err(e) => {},
                                        Ok(node) => match each_node_in(store, later) {
                                            Err(e) => {},
                                            Ok(more) => {
                                                assert(done.push(read).push(node) + more
                                                    =~= done.push(read) + (seq![node] + more));
                                            },
                                        },
                                    }
                                }
                            }
                            Step::Ask(state)
                        } else {
                            proof {
                                assert(rest =~= seq![]);
                                assert forall|store: Store| #[trigger]
                                    store(self.pending()) == reply_view(reply) implies Ok::<
                                    Seq<NodeView>,
                                    ErrorView,
                                >(nodes.deep_view()) == self.result_on(store) by {
                                    assert(current.result_on(store) == Ok::<NodeView, ErrorView>(
                                        read,
                                    ));
                                    assert(done.push(read) + seq![] =~= done.push(read));
                                }
                            }
                            Step::Done(Ok(nodes))
                        }
                    },
                }
            },
        }
    }
}

/// Fetch all the nodes from the datastore.
///
/// The nodes are read one after another, not at one instant: a writer that
/// changes the store meanwhile can be seen in part.
pub fn get_nodes() -> (read: NodesRead)
    ensures
        read is LinkIds,
        forall|store: Store| #[trigger] read.result_on(store) == nodes_in(store),
{
    NodesRead::LinkIds
}

// The metadata of a DNS name

/// The one name that qualifying one name gave. An answer of any other length
/// breaks what the store promises, and is a logic error: no name is picked
/// from among several.
pub open spec fn only_name(qualified: Texts) -> Result<Text, ErrorView> {
    if qualified.len() == 0 {
        Err(ErrorView::Logic(NO_QUALIFIED_NAME@))
    } else if qualified.len() == 1 {
        Ok(qualified[0])
    } else {
        Err(ErrorView::Logic(MANY_QUALIFIED_NAMES@))
    }
}

/// The metadata that `store` holds for the DNS name `name`: the name is
/// qualified first, and the metadata is the hash under its qualified form.
/// The store has to qualify the one name into exactly one.
pub open spec fn dns_metadata_in(store: Store, name: Text) -> Result<Entries, ErrorView> {
    match qualified_in(store, seq![name]) {
        Err(e) => Err(e),
        Ok(qualified) => match only_name(qualified) {
            Err(e) => Err(e),
            Ok(qualified_name) => map_in(store, dns_metadata_key(qualified_name)),
        },
    }
}

/// The read of the metadata of a DNS name.
pub enum DnsMetadataRead {
    /// Waits for the qualified form of `name`.
    Qualified { name: String },
    /// Waits for the hash at `key`.
    Metadata { key: String },
}

impl Reading for DnsMetadataRead {
    type Output = Vec<(String, String)>;

    open spec fn pending(&self) -> QueryView {
        match self {
            DnsMetadataRead::Qualified { name } => qualify_query(seq![name@]),
            DnsMetadataRead::Metadata { key } => QueryView::Fields(key@),
        }
    }

    open spec fn turn(&self, reply: ReplyView) -> Turn<Entries> {
        match self {
            DnsMetadataRead::Qualified { .. } => match list_of(reply) {
                Err(e) => Turn::Done(Err(e)),
                Ok(qualified) => match only_name(qualified) {
                    Err(e) => Turn::Done(Err(e)),
                    Ok(qualified_name) => Turn::Ask(
                        QueryView::Fields(dns_metadata_key(qualified_name)),
                    ),
                },
            },
            DnsMetadataRead::Metadata { .. } => Turn::Done(map_of(reply)),
        }
    }

    open spec fn result_on(&self, store: Store) -> Result<Entries, ErrorView> {
        match self {
            DnsMetadataRead::Qualified { name } => dns_metadata_in(store, name@),
            DnsMetadataRead::Metadata { key } => map_in(store, key@),
        }
    }

    open spec fn remaining(&self) -> Option<nat> {
        match self {
            DnsMetadataRead::Qualified { .. } => Some(2),
            DnsMetadataRead::Metadata { .. } => Some(1),
        }
    }

    fn query(&self) -> (query: Query) {
        match self {
            DnsMetadataRead::Qualified { name } => {
                let mut names: Vec<String> = Vec::new();
                names.push(name.clone());
                assert(names.deep_view() =~= seq![name@]);
                Query::Call(qualify_command(&names))
            },
            DnsMetadataRead::Metadata { key } => Query::Fields(key.clone()),
        }
    }

    fn step(self, reply: Reply) -> (next: Step<Self, Vec<(String, String)>>) {
        match self {
            DnsMetadataRead::Qualified { name } => match expect_list(reply) {
                Err(e) => Step::Done(Err(e)),
                Ok(qualified) => {
                    if qualified.len() == 0 {
                        Step::Done(Err(FCallError::Logic(NO_QUALIFIED_NAME)))
                    } else if qualified.len() == 1 {
                        let key = join3(META_KEY, DNS_KEY, qualified[0].as_str());
                        Step::Ask(DnsMetadataRead::Metadata { key })
                    } else {
                        Step::Done(Err(FCallError::Logic(MANY_QUALIFIED_NAMES)))
                    }
                },
            },
            DnsMetadataRead::Metadata { key } => Step::Done(expect_map(reply)),
        }
    }
}

/// Fetch the metadata for a DNS name.
///
/// The name is qualified as [`qualify_dns_names`] would qualify it alone, and
/// the answer has to be one name: none, or more than one, is a logic error.
pub fn get_dns_metadata(name: &str) -> (read: DnsMetadataRead)
    ensures
        read matches DnsMetadataRead::Qualified { name: asked } && asked@ == name@,
        forall|store: Store| #[trigger] read.result_on(store) == dns_metadata_in(store, name@),
{
    DnsMetadataRead::Qualified { name: String::from_str(name) }
}

// The metadata of a processed node

/// The metadata gathered from `store` for a processed node, given what was
/// `found` so far: to it come the hashes of the raw nodes `raw_ids`, in that
/// order, and last the hash of the processed node `link_id` itself. Of two
/// values for one key the later one counts.
pub open spec fn metadata_from(
    store: Store,
    raw_ids: Texts,
    link_id: Text,
    found: Entries,
) -> Result<Entries, ErrorView>
    decreases raw_ids.len(),
{
    if raw_ids.len() == 0 {
        match pairs_of(store(QueryView::Fields(proc_node_metadata_key(link_id)))) {
            Err(e) => Err(e),
            Ok(pairs) => Ok(extend(found, pairs)),
        }
    } else {
        match pairs_of(store(QueryView::Fields(raw_node_metadata_key(raw_ids[0])))) {
            Err(e) => Err(e),
            Ok(pairs) => metadata_from(
                store,
                raw_ids.drop_first(),
                link_id,
                extend(found, pairs),
            ),
        }
    }
}

/// The metadata that `store` holds for the processed node `node`: that of
/// its raw nodes, each read once, overlaid by its own.
pub open spec fn node_metadata_in(store: Store, node: NodeView) -> Result<Entries, ErrorView> {
    metadata_from(store, distinct(node.raw_ids), node.link_id, seq![])
}

/// The query for the metadata that is read at index `at`: that of the raw
/// node at that index, or past the raw nodes the processed node's own.
pub open spec fn metadata_query(raw_ids: Texts, link_id: Text, at: int) -> QueryView {
    if 0 <= at < raw_ids.len() {
        QueryView::Fields(raw_node_metadata_key(raw_ids[at]))
    } else {
        QueryView::Fields(proc_node_metadata_key(link_id))
    }
}

/// The read of the metadata of a processed node: `found` is what the raw
/// nodes before index `next` gave.
pub struct NodeMetadataRead {
    pub link_id: String,
    pub raw_ids: Vec<String>,
    pub next: usize,
    pub found: Vec<(String, String)>,
}

impl Reading for NodeMetadataRead {
    type Output = Vec<(String, String)>;

    open spec fn pending(&self) -> QueryView {
        metadata_query(self.raw_ids.deep_view(), self.link_id@, self.next as int)
    }

    open spec fn turn(&self, reply: ReplyView) -> Turn<Entries> {
        match pairs_of(reply) {
            Err(e) => Turn::Done(Err(e)),
            Ok(pairs) => if self.next < self.raw_ids.len() {
                Turn::Ask(metadata_query(self.raw_ids.deep_view(), self.link_id@, self.next + 1))
            } else {
                Turn::Done(Ok(extend(self.found.deep_view(), pairs)))
            },
        }
    }

    open spec fn result_on(&self, store: Store) -> Result<Entries, ErrorView> {
        metadata_from(
            store,
            after(self.raw_ids.deep_view(), self.next as int),
            self.link_id@,
            self.found.deep_view(),
        )
    }

    open spec fn remaining(&self) -> Option<nat> {
        Some(after(self.raw_ids.deep_view(), self.next as int).len() + 1)
    }

    fn query(&self) -> (query: Query) {
        if self.next < self.raw_ids.len() {
            Query::Fields(join3(META_KEY, NODES_KEY, self.raw_ids[self.next].as_str()))
        } else {
            Query::Fields(join3(META_KEY, PROC_NODES_KEY, self.link_id.as_str()))
        }
    }

    fn step(self, reply: Reply) -> (next: Step<Self, Vec<(String, String)>>) {
        let ghost rest = after(self.raw_ids.deep_view(), self.next as int);
        match expect_pairs(reply) {
            Err(e) => Step::Done(Err(e)),
            Ok(pairs) => {
                let mut state = self;
                extend_entries(&mut state.found, &pairs);
                if state.next < state.raw_ids.len() {
                    proof {
                        assert(rest[0] == state.raw_ids[state.next as int]@);
                        assert(rest.drop_first() =~= after(
                            state.raw_ids.deep_view(),
                            state.next + 1,
                        ));
                    }
                    state.next = state.next + 1;
                    Step::Ask(state)
                } else {
                    assert(rest =~= seq![]);
                    Step::Done(Ok(state.found))
                }
            },
        }
    }
}

/// A copy of `items`.
pub fn clone_all(items: &Vec<String>) -> (copy: Vec<String>)
    ensures
        copy.deep_view() == items.deep_view(),
{
    let mut copy: Vec<String> = Vec::new();
    let mut i: usize = 0;
    while i < items.len()
        invariant
            i <= items.len(),
            copy.deep_view() =~= items.deep_view().take(i as int),
        decreases items.len() - i,
    {
        let ghost before = copy.deep_view();
        copy.push(items[i].clone());
        assert(copy.deep_view() =~= before.push(items[i as int]@));
        i += 1;
    }
    assert(items.deep_view().take(i as int) =~= items.deep_view());
    copy
}

/// Fetch the metadata for a node.
///
/// The metadata of the node's raw nodes is merged in the order of `raw_ids`,
/// then overlaid by the node's own: where two of them set one key, the later
/// one wins, and the node's own wins over all. A raw node is read once,
/// however often `raw_ids` names it.
pub fn get_node_metadata(node: &Node) -> (read: NodeMetadataRead)
    ensures
        read.link_id@ == node.link_id@,
        read.raw_ids.deep_view() == distinct(node.raw_ids.deep_view()),
        read.next == 0,
        read.found.deep_view() == Seq::<(Text, Text)>::empty(),
        forall|store: Store| #[trigger]
            read.result_on(store) == node_metadata_in(store, node.deep_view()),
{
    let found: Vec<(String, String)> = Vec::new();
    assert(found.deep_view() =~= seq![]);
    let read = NodeMetadataRead {
        link_id: node.link_id.clone(),
        raw_ids: dedup(clone_all(&node.raw_ids)),
        next: 0,
        found,
    };
    assert(after(read.raw_ids.deep_view(), 0) =~= distinct(node.deep_view().raw_ids));
    read
}

// What the reads give

/// A set read from a store holds nothing twice, and holds exactly what the
/// store answered. Where the answer holds nothing twice, the set is the
/// answer.
pub proof fn lemma_set_in(store: Store, key: Text)
    ensures
        set_in(store, key) matches Ok(set) ==> {
            &&& set.no_duplicates()
            &&& list_of(store(QueryView::Members(key))) matches Ok(items) && {
                &&& set.to_set() == items.to_set()
                &&& items.no_duplicates() ==> set == items
            }
        },
{
    if let Ok(items) = list_of(store(QueryView::Members(key))) {
        lemma_distinct(items);
        if items.no_duplicates() {
            lemma_distinct_of_distinct(items);
        }
        let set = distinct(items);
        assert forall|text: Text| set.to_set().contains(text) <==> items.to_set().contains(
            text,
        ) by {
            if set.contains(text) {
                let j = choose|j: int| 0 <= j < set.len() && set[j] == text;
                assert(items.contains(set[j]));
            }
            if items.contains(text) {
                let i = choose|i: int| 0 <= i < items.len() && items[i] == text;
                assert(set.contains(items[i]));
            }
        }
        assert(set.to_set() =~= items.to_set());
    }
}

/// A hash read from a store repeats no key, and says of each key what the
/// store's answer said of it last. Where the answer repeats no key, the hash
/// is the answer.
pub proof fn lemma_map_in(store: Store, key: Text)
    ensures
        map_in(store, key) matches Ok(map) ==> {
            &&& keys(map).no_duplicates()
            &&& pairs_of(store(QueryView::Fields(key))) matches Ok(pairs) && {
                &&& as_map(map) == as_map(pairs)
                &&& keys(pairs).no_duplicates() ==> map == pairs
            }
        },
{
    if let Ok(pairs) = pairs_of(store(QueryView::Fields(key))) {
        lemma_extend(seq![], pairs);
        assert(Map::<Text, Text>::empty().union_prefer_right(as_map(pairs)) =~= as_map(
            pairs,
        ));
        if keys(pairs).no_duplicates() {
            lemma_extend_empty(pairs);
        }
    }
}

/// A node read from a store bears the link identifier it was asked by, and
/// its four collections are sets.
pub proof fn lemma_node_in(store: Store, link_id: Text)
    ensures
        node_in(store, link_id) matches Ok(node) ==> node.link_id == link_id && node.wf(),
{
    lemma_set_in(store, node_set_key(link_id, ALT_NAMES@));
    lemma_set_in(store, node_set_key(link_id, DNS_NAMES@));
    lemma_set_in(store, node_set_key(link_id, RAW_IDS@));
    lemma_set_in(store, node_set_key(link_id, PLUGINS@));
}

/// Reading a list of nodes gives one node for each link identifier, in the
/// same order, each being what a read of that node alone gives.
pub proof fn lemma_each_node_in(store: Store, link_ids: Texts)
    ensures
        each_node_in(store, link_ids) matches Ok(nodes) ==> {
            &&& nodes.len() == link_ids.len()
            &&& forall|i: int|
                0 <= i < nodes.len() ==> node_in(store, link_ids[i]) == Ok::<NodeView, ErrorView>(
                    #[trigger] nodes[i],
                )
            &&& forall|i: int| 0 <= i < nodes.len() ==> (#[trigger] nodes[i]).link_id == link_ids[i]
        },
    decreases link_ids.len(),
{
    if link_ids.len() > 0 {
        if let Ok(nodes) = each_node_in(store, link_ids) {
            let rest = link_ids.drop_first();
            lemma_each_node_in(store, rest);
            lemma_node_in(store, link_ids[0]);
            let more = each_node_in(store, rest)->Ok_0;
            assert forall|i: int| 0 <= i < nodes.len() implies node_in(store, link_ids[i])
                == Ok::<NodeView, ErrorView>(#[trigger] nodes[i]) && nodes[i].link_id
                == link_ids[i] by {
                if i > 0 {
                    assert(nodes[i] == more[i - 1]);
                    assert(link_ids[i] == rest[i - 1]);
                }
            }
        }
    }
}

/// Reading all nodes gives exactly one node for each link identifier in the
/// store's set of processed nodes: as many nodes as the set has members, no
/// link identifier twice, and each node as a read of it alone gives it, with
/// its sets read each on its own.
pub proof fn lemma_nodes_in(store: Store)
    ensures
        nodes_in(store) matches Ok(nodes) ==> set_in(store, PROC_NODES_KEY@) matches Ok(
            link_ids,
        ) && {
            &&& list_of(store(QueryView::Members(PROC_NODES_KEY@))) matches Ok(answer)
                && link_ids.to_set() == answer.to_set()
            &&& link_ids.no_duplicates()
            &&& nodes.len() == link_ids.len()
            &&& forall|i: int|
                0 <= i < nodes.len() ==> node_in(store, link_ids[i]) == Ok::<NodeView, ErrorView>(
                    #[trigger] nodes[i],
                )
            &&& forall|i: int| 0 <= i < nodes.len() ==> (#[trigger] nodes[i]).link_id == link_ids[i]
        },
{
    if let Ok(link_ids) = set_in(store, PROC_NODES_KEY@) {
        lemma_set_in(store, PROC_NODES_KEY@);
        lemma_each_node_in(store, link_ids);
    }
}

/// The metadata of a DNS name is read under the name's qualified form: the
/// one name that qualifying it alone gives. Where that gives no name, or more
/// than one, the read fails with a logic error and no hash is read.
pub proof fn lemma_dns_metadata_in(store: Store, name: Text)
    ensures
        match qualified_in(store, seq![name]) {
            Ok(qualified) => if qualified.len() == 1 {
                dns_metadata_in(store, name) == map_in(store, dns_metadata_key(qualified[0]))
            } else {
                dns_metadata_in(store, name) matches Err(e) && e is Logic
            },
            Err(e) => dns_metadata_in(store, name) == Err::<Entries, ErrorView>(e),
        },
{
}

/// The hash that `store` holds at `key` as a map; empty where it cannot be
/// read.
pub open spec fn hash_in(store: Store, key: Text) -> Map<Text, Text> {
    match pairs_of(store(QueryView::Fields(key))) {
        Ok(pairs) => as_map(pairs),
        Err(_) => Map::empty(),
    }
}

/// `base` overlaid by the metadata of the raw nodes `raw_ids`, one after
/// another.
pub open spec fn overlaid(store: Store, raw_ids: Texts, base: Map<Text, Text>) -> Map<Text, Text>
    decreases raw_ids.len(),
{
    if raw_ids.len() == 0 {
        base
    } else {
        overlaid(
            store,
            raw_ids.drop_first(),
            base.union_prefer_right(hash_in(store, raw_node_metadata_key(raw_ids[0]))),
        )
    }
}

/// Overlaying loses no key: what the base or any of the raw nodes sets is
/// set in the result.
pub proof fn lemma_overlaid_keys(
    store: Store,
    raw_ids: Texts,
    base: Map<Text, Text>,
)
    ensures
        forall|key: Text| #[trigger]
            base.dom().contains(key) ==> overlaid(store, raw_ids, base).dom().contains(key),
        forall|i: int, key: Text|
            0 <= i < raw_ids.len() && #[trigger] hash_in(
                store,
                raw_node_metadata_key(raw_ids[i]),
            ).dom().contains(key) ==> overlaid(store, raw_ids, base).dom().contains(key),
    decreases raw_ids.len(),
{
    if raw_ids.len() > 0 {
        let rest = raw_ids.drop_first();
        let first = hash_in(store, raw_node_metadata_key(raw_ids[0]));
        let next = base.union_prefer_right(first);
        lemma_overlaid_keys(store, rest, next);
        assert forall|key: Text| #[trigger] base.dom().contains(key) implies overlaid(
            store,
            raw_ids,
            base,
        ).dom().contains(key) by {
            assert(next.dom().contains(key));
        }
        assert forall|i: int, key: Text|
            0 <= i < raw_ids.len() && #[trigger] hash_in(
                store,
                raw_node_metadata_key(raw_ids[i]),
            ).dom().contains(key) implies overlaid(store, raw_ids, base).dom().contains(key) by {
            if i == 0 {
                assert(next.dom().contains(key));
            } else {
                assert(rest[i - 1] == raw_ids[i]);
            }
        }
    }
}

/// What gathering metadata gives, as maps: what was found, overlaid by the
/// raw nodes' metadata in order, overlaid by the processed node's own. No key
/// is repeated.
pub proof fn lemma_metadata_from(
    store: Store,
    raw_ids: Texts,
    link_id: Text,
    found: Entries,
)
    requires
        keys(found).no_duplicates(),
    ensures
        metadata_from(store, raw_ids, link_id, found) matches Ok(metadata) ==> {
            &&& keys(metadata).no_duplicates()
            &&& as_map(metadata) == overlaid(store, raw_ids, as_map(found)).union_prefer_right(
                hash_in(store, proc_node_metadata_key(link_id)),
            )
        },
    decreases raw_ids.len(),
{
    if raw_ids.len() == 0 {
        if let Ok(pairs) = pairs_of(store(QueryView::Fields(proc_node_metadata_key(link_id)))) {
            lemma_extend(found, pairs);
        }
    } else {
        if let Ok(pairs) = pairs_of(store(QueryView::Fields(raw_node_metadata_key(raw_ids[0])))) {
            lemma_extend(found, pairs);
            lemma_metadata_from(store, raw_ids.drop_first(), link_id, extend(found, pairs));
        }
    }
}

/// The metadata of a processed node is the union of its raw nodes' metadata
/// and its own, and its own wins: no key is repeated; every key that the
/// node's own metadata sets has the value set there; and every key that a raw
/// node sets is set. The raw nodes of a node whose `raw_ids` are a set are
/// read in the order of `raw_ids`.
pub proof fn lemma_node_metadata_in(store: Store, node: NodeView)
    ensures
        node.raw_ids.no_duplicates() ==> node_metadata_in(store, node) == metadata_from(
            store,
            node.raw_ids,
            node.link_id,
            seq![],
        ),
        node_metadata_in(store, node) matches Ok(metadata) ==> {
            let own = hash_in(store, proc_node_metadata_key(node.link_id));
            &&& keys(metadata).no_duplicates()
            &&& as_map(metadata) == overlaid(
                store,
                distinct(node.raw_ids),
                Map::empty(),
            ).union_prefer_right(own)
            &&& forall|key: Text| #[trigger]
                own.dom().contains(key) ==> as_map(metadata).dom().contains(key) && as_map(
                    metadata,
                )[key] == own[key]
            &&& forall|i: int, key: Text|
                0 <= i < node.raw_ids.len() && #[trigger] hash_in(
                    store,
                    raw_node_metadata_key(node.raw_ids[i]),
                ).dom().contains(key) ==> as_map(metadata).dom().contains(key)
        },
{
    let raw_ids = distinct(node.raw_ids);
    if node.raw_ids.no_duplicates() {
        lemma_distinct_of_distinct(node.raw_ids);
    }
    lemma_metadata_from(store, raw_ids, node.link_id, seq![]);
    lemma_overlaid_keys(store, raw_ids, Map::empty());
    lemma_distinct(node.raw_ids);
    if let Ok(metadata) = node_metadata_in(store, node) {
        assert forall|i: int, key: Text|
            0 <= i < node.raw_ids.len() && #[trigger] hash_in(
                store,
                raw_node_metadata_key(node.raw_ids[i]),
            ).dom().contains(key) implies as_map(metadata).dom().contains(key) by {
            assert(raw_ids.contains(node.raw_ids[i]));
            let j = choose|j: int| 0 <= j < raw_ids.len() && raw_ids[j] == node.raw_ids[i];
            assert(hash_in(store, raw_node_metadata_key(raw_ids[j])).dom().contains(key));
        }
    }
}

} // verus!
