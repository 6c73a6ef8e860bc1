//! The names under which the store keeps the graph.
//!
//! Every key is a list of segments joined by [`SEPARATOR`]: a namespace or
//! two, then an identifier, then for the sets of a processed node the name of
//! the set.

use crate::text::Text;
use vstd::prelude::*;

verus! {

/// What joins the segments of a key.
pub const SEPARATOR: &'static str = ";";

/// The namespace of metadata.
pub const META_KEY: &'static str = "meta";

/// The namespace of DNS names, and the key of the set of all of them.
pub const DNS_KEY: &'static str = "dns";

/// The namespace of raw nodes.
pub const NODES_KEY: &'static str = "nodes";

/// The namespace of processed nodes, and the key of the set of their link
/// identifiers.
pub const PROC_NODES_KEY: &'static str = "proc_nodes";

/// The key that holds the name of the default network.
pub const DEFAULT_NETWORK_KEY: &'static str = "default_network";

/// The last segment of the key of a processed node's alternative names.
pub const ALT_NAMES: &'static str = "alt_names";

/// The last segment of the key of a processed node's DNS names.
pub const DNS_NAMES: &'static str = "dns_names";

/// The last segment of the key of a processed node's raw node identifiers.
pub const RAW_IDS: &'static str = "raw_ids";

/// The last segment of the key of a processed node's plugins.
pub const PLUGINS: &'static str = "plugins";

/// Two segments joined.
pub open spec fn joined2(first: Text, second: Text) -> Text {
    first + SEPARATOR@ + second
}

/// Three segments joined.
pub open spec fn joined3(first: Text, second: Text, third: Text) -> Text {
    first + SEPARATOR@ + second + SEPARATOR@ + third
}

/// The key of a processed node's display name.
pub open spec fn node_key(link_id: Text) -> Text {
    joined2(PROC_NODES_KEY@, link_id)
}

/// The key of one of a processed node's sets.
pub open spec fn node_set_key(link_id: Text, set: Text) -> Text {
    joined3(PROC_NODES_KEY@, link_id, set)
}

/// The key of the metadata of a qualified DNS name.
pub open spec fn dns_metadata_key(qualified_name: Text) -> Text {
    joined3(META_KEY@, DNS_KEY@, qualified_name)
}

/// The key of the metadata of a raw node.
pub open spec fn raw_node_metadata_key(raw_id: Text) -> Text {
    joined3(META_KEY@, NODES_KEY@, raw_id)
}

/// The key of a processed node's own metadata.
pub open spec fn proc_node_metadata_key(link_id: Text) -> Text {
    joined3(META_KEY@, PROC_NODES_KEY@, link_id)
}

/// Joins two segments.
pub fn join2(first: &str, second: &str) -> (key: String)
    ensures
        key@ == joined2(first@, second@),
{
    let mut key = String::from_str(first);
    key.append(SEPARATOR);
    key.append(second);
    key
}

/// Joins three segments.
pub fn join3(first: &str, second: &str, third: &str) -> (key: String)
    ensures
        key@ == joined3(first@, second@, third@),
{
    let mut key = join2(first, second);
    key.append(SEPARATOR);
    key.append(third);
    key
}

} // verus!
