//! The write side: every write is one call of a server-side function.
//!
//! Each operation builds the command of its call and leaves sending it to
//! whoever holds the connection. The store runs a function as a whole, so a
//! write either happens or fails; what the function then does with its
//! arguments is the store's business.

use crate::command::{
    arg_bool, arg_pairs, arg_str, arg_usize, bool_text, cmd_args, fcall, fcall_head, fcall_one,
    flat, lemma_utf8_all_concat, lemma_utf8_all_push, pair_rows, utf8_all,
};
use crate::error::{ErrorView, FCallError, FCallResult};
use crate::model::PluginData;
use crate::text::{Text, Texts, decimal_text};
use vstd::prelude::*;

verus! {

/// The function that creates a DNS name.
pub const CREATE_DNS_FN: &'static str = "netdox_create_dns";

/// The function that creates a raw node.
pub const CREATE_NODE_FN: &'static str = "netdox_create_node";

/// The function that creates a report.
pub const CREATE_REPORT_FN: &'static str = "netdox_create_report";

/// The function that attaches plugin data to a DNS name.
pub const CREATE_DNS_PDATA_FN: &'static str = "netdox_create_dns_plugin_data";

/// The function that attaches plugin data to a raw node.
pub const CREATE_NODE_PDATA_FN: &'static str = "netdox_create_node_plugin_data";

/// The function that attaches plugin data to a processed node.
pub const CREATE_PROC_NODE_PDATA_FN: &'static str = "netdox_create_proc_node_plugin_data";

/// The function that fills one slot of a report.
pub const CREATE_REPORT_DATA_FN: &'static str = "netdox_create_report_data";

/// The function that attaches metadata to a DNS name.
pub const CREATE_DNS_METADATA_FN: &'static str = "netdox_create_dns_metadata";

/// The function that attaches metadata to a raw node.
pub const CREATE_NODE_METADATA_FN: &'static str = "netdox_create_node_metadata";

/// The function that attaches metadata to a processed node.
pub const CREATE_PROC_NODE_METADATA_FN: &'static str = "netdox_create_proc_node_metadata";

/// What is wrong with a record of which only the type or only the value is
/// given.
pub const HALF_RECORD: &'static str =
    "record type and value must both be provided or neiher provided.";

/// A text that may be absent, as plain data.
pub open spec fn text_view(text: Option<&str>) -> Option<Text> {
    match text {
        Some(text) => Some(text@),
        None => None,
    }
}

/// The arguments of a call: the head with the keys, then what the function
/// takes besides.
pub open spec fn call(function: Text, keys: Texts, rest: Texts) -> Texts {
    fcall_head(function, keys) + rest
}

/// The record of a DNS name as arguments: type and value, or nothing.
pub open spec fn record(rtype: Option<Text>, value: Option<Text>) -> Texts {
    match (rtype, value) {
        (Some(rtype), Some(value)) => seq![rtype, value],
        _ => seq![],
    }
}

/// A link identifier as arguments: itself, or nothing.
pub open spec fn optional(text: Option<Text>) -> Texts {
    match text {
        Some(text) => seq![text],
        None => seq![],
    }
}

/// Create a DNS name and optionally attach a record.
///
/// The record's type and value come together or not at all; one without the
/// other is refused.
pub fn put_dns(plugin: &str, name: &str, rtype: Option<&str>, value: Option<&str>) -> (result:
    FCallResult<redis::Cmd>)
    ensures
        match result {
            Ok(cmd) => {
                &&& rtype is Some <==> value is Some
                &&& cmd_args(cmd) == utf8_all(
                    call(
                        CREATE_DNS_FN@,
                        seq![name@],
                        seq![plugin@] + record(text_view(rtype), text_view(value)),
                    ),
                )
            },
            Err(e) => {
                &&& !(rtype is Some <==> value is Some)
                &&& e@ == (ErrorView::WrongArgs {
                    function: CREATE_DNS_FN@,
                    problem: HALF_RECORD@,
                })
            },
        },
{
    let mut cmd = fcall_one(CREATE_DNS_FN, name);
    arg_str(&mut cmd, plugin);
    let ghost head = fcall_head(CREATE_DNS_FN@, seq![name@]);
    proof {
        lemma_utf8_all_push(head, plugin@);
    }
    match (rtype, value) {
        (Some(rtype), Some(value)) => {
            arg_str(&mut cmd, rtype);
            arg_str(&mut cmd, value);
            proof {
                lemma_utf8_all_push(head.push(plugin@), rtype@);
                lemma_utf8_all_push(head.push(plugin@).push(rtype@), value@);
                assert(head.push(plugin@).push(rtype@).push(value@) =~= head + (seq![plugin@]
                    + seq![rtype@, value@]));
            }
            Ok(cmd)
        },
        (None, None) => {
            assert(head.push(plugin@) =~= head + (seq![plugin@] + seq![]));
            Ok(cmd)
        },
        _ => Err(FCallError::WrongArgs { function: CREATE_DNS_FN, problem: HALF_RECORD }),
    }
}

/// Attach plugin data to a DNS name.
pub fn put_dns_plugin_data<'a>(
    plugin: &str,
    name: &str,
    pdata_id: &str,
    data: PluginData<'a>,
) -> (cmd: redis::Cmd)
    ensures
        cmd_args(cmd) == utf8_all(
            call(CREATE_DNS_PDATA_FN@, seq![name@], seq![plugin@, pdata_id@] + data@.fields()),
        ),
{
    let mut cmd = fcall_one(CREATE_DNS_PDATA_FN, name);
    arg_str(&mut cmd, plugin);
    arg_str(&mut cmd, pdata_id);
    data.add_as_args(&mut cmd);
    proof {
        let head = fcall_head(CREATE_DNS_PDATA_FN@, seq![name@]);
        lemma_utf8_all_push(head, plugin@);
        lemma_utf8_all_push(head.push(plugin@), pdata_id@);
        lemma_utf8_all_concat(head.push(plugin@).push(pdata_id@), data@.fields());
        assert(head.push(plugin@).push(pdata_id@) + data@.fields() =~= head + (seq![
            plugin@,
            pdata_id@,
        ] + data@.fields()));
    }
    cmd
}

/// Attach metadata to a DNS name.
pub fn put_dns_metadata(plugin: &str, name: &str, metadata: &Vec<(&str, &str)>) -> (cmd:
    redis::Cmd)
    ensures
        cmd_args(cmd) == utf8_all(
            call(
                CREATE_DNS_METADATA_FN@,
                seq![name@],
                seq![plugin@] + flat(pair_rows(metadata.deep_view())),
            ),
        ),
{
    let mut cmd = fcall_one(CREATE_DNS_METADATA_FN, name);
    arg_str(&mut cmd, plugin);
    arg_pairs(&mut cmd, metadata);
    proof {
        let head = fcall_head(CREATE_DNS_METADATA_FN@, seq![name@]);
        let pairs = flat(pair_rows(metadata.deep_view()));
        lemma_utf8_all_push(head, plugin@);
        lemma_utf8_all_concat(head.push(plugin@), pairs);
        assert(head.push(plugin@) + pairs =~= head + (seq![plugin@] + pairs));
    }
    cmd
}

/// Create a node.
pub fn put_node(
    plugin: &str,
    name: &str,
    dns_names: Vec<&str>,
    exclusive: bool,
    link_id: Option<&str>,
) -> (cmd: redis::Cmd)
    ensures
        cmd_args(cmd) == utf8_all(
            call(
                CREATE_NODE_FN@,
                dns_names.deep_view(),
                seq![plugin@, name@, bool_text(exclusive)] + optional(text_view(link_id)),
            ),
        ),
{
    let mut cmd = fcall(CREATE_NODE_FN, &dns_names);
    arg_str(&mut cmd, plugin);
    arg_str(&mut cmd, name);
    arg_bool(&mut cmd, exclusive);
    let ghost head = fcall_head(CREATE_NODE_FN@, dns_names.deep_view());
    let ghost fixed = head.push(plugin@).push(name@).push(bool_text(exclusive));
    proof {
        lemma_utf8_all_push(head, plugin@);
        lemma_utf8_all_push(head.push(plugin@), name@);
        lemma_utf8_all_push(head.push(plugin@).push(name@), bool_text(exclusive));
    }
    match link_id {
        Some(link_id) => {
            arg_str(&mut cmd, link_id);
            proof {
                lemma_utf8_all_push(fixed, link_id@);
                assert(fixed.push(link_id@) =~= head + (seq![
                    plugin@,
                    name@,
                    bool_text(exclusive),
                ] + seq![link_id@]));
            }
        },
        None => {
            assert(fixed =~= head + (seq![plugin@, name@, bool_text(exclusive)] + seq![]));
        },
    }
    cmd
}

/// Attach plugin data to a node.
pub fn put_node_plugin_data<'a>(
    plugin: &str,
    dns_names: Vec<&str>,
    pdata_id: &str,
    data: PluginData<'a>,
) -> (cmd: redis::Cmd)
    ensures
        cmd_args(cmd) == utf8_all(
            call(
                CREATE_NODE_PDATA_FN@,
                dns_names.deep_view(),
                seq![plugin@, pdata_id@] + data@.fields(),
            ),
        ),
{
    let mut cmd = fcall(CREATE_NODE_PDATA_FN, &dns_names);
    arg_str(&mut cmd, plugin);
    arg_str(&mut cmd, pdata_id);
    data.add_as_args(&mut cmd);
    proof {
        let head = fcall_head(CREATE_NODE_PDATA_FN@, dns_names.deep_view());
        lemma_utf8_all_push(head, plugin@);
        lemma_utf8_all_push(head.push(plugin@), pdata_id@);
        lemma_utf8_all_concat(head.push(plugin@).push(pdata_id@), data@.fields());
        assert(head.push(plugin@).push(pdata_id@) + data@.fields() =~= head + (seq![
            plugin@,
            pdata_id@,
        ] + data@.fields()));
    }
    cmd
}

/// Attach plugin data to a processed node by link ID.
pub fn put_proc_node_plugin_data<'a>(
    plugin: &str,
    link_id: &str,
    pdata_id: &str,
    data: PluginData<'a>,
) -> (cmd: redis::Cmd)
    ensures
        cmd_args(cmd) == utf8_all(
            call(
                CREATE_PROC_NODE_PDATA_FN@,
                seq![link_id@],
                seq![plugin@, pdata_id@] + data@.fields(),
            ),
        ),
{
    let mut cmd = fcall_one(CREATE_PROC_NODE_PDATA_FN, link_id);
    arg_str(&mut cmd, plugin);
    arg_str(&mut cmd, pdata_id);
    data.add_as_args(&mut cmd);
    proof {
        let head = fcall_head(CREATE_PROC_NODE_PDATA_FN@, seq![link_id@]);
        lemma_utf8_all_push(head, plugin@);
        lemma_utf8_all_push(head.push(plugin@), pdata_id@);
        lemma_utf8_all_concat(head.push(plugin@).push(pdata_id@), data@.fields());
        assert(head.push(plugin@).push(pdata_id@) + data@.fields() =~= head + (seq![
            plugin@,
            pdata_id@,
        ] + data@.fields()));
    }
    cmd
}

/// Attach metadata to a node.
pub fn put_node_metadata(plugin: &str, dns_names: Vec<&str>, metadata: &Vec<(&str, &str)>) -> (cmd:
    redis::Cmd)
    ensures
        cmd_args(cmd) == utf8_all(
            call(
                CREATE_NODE_METADATA_FN@,
                dns_names.deep_view(),
                seq![plugin@] + flat(pair_rows(metadata.deep_view())),
            ),
        ),
{
    let mut cmd = fcall(CREATE_NODE_METADATA_FN, &dns_names);
    arg_str(&mut cmd, plugin);
    arg_pairs(&mut cmd, metadata);
    proof {
        let head = fcall_head(CREATE_NODE_METADATA_FN@, dns_names.deep_view());
        let pairs = flat(pair_rows(metadata.deep_view()));
        lemma_utf8_all_push(head, plugin@);
        lemma_utf8_all_concat(head.push(plugin@), pairs);
        assert(head.push(plugin@) + pairs =~= head + (seq![plugin@] + pairs));
    }
    cmd
}

/// Attach metadata to a processed node by link ID.
pub fn put_proc_node_metadata(plugin: &str, link_id: &str, metadata: &Vec<(&str, &str)>) -> (cmd:
    redis::Cmd)
    ensures
        cmd_args(cmd) == utf8_all(
            call(
                CREATE_PROC_NODE_METADATA_FN@,
                seq![link_id@],
                seq![plugin@] + flat(pair_rows(metadata.deep_view())),
            ),
        ),
{
    let mut cmd = fcall_one(CREATE_PROC_NODE_METADATA_FN, link_id);
    arg_str(&mut cmd, plugin);
    arg_pairs(&mut cmd, metadata);
    proof {
        let head = fcall_head(CREATE_PROC_NODE_METADATA_FN@, seq![link_id@]);
        let pairs = flat(pair_rows(metadata.deep_view()));
        lemma_utf8_all_push(head, plugin@);
        lemma_utf8_all_concat(head.push(plugin@), pairs);
        assert(head.push(plugin@) + pairs =~= head + (seq![plugin@] + pairs));
    }
    cmd
}

/// Create a report of `length` slots.
pub fn put_report(plugin: &str, report_id: &str, title: &str, length: usize) -> (cmd: redis::Cmd)
    ensures
        cmd_args(cmd) == utf8_all(
            call(
                CREATE_REPORT_FN@,
                seq![report_id@],
                seq![plugin@, title@, decimal_text(length as nat)],
            ),
        ),
{
    let mut cmd = fcall_one(CREATE_REPORT_FN, report_id);
    arg_str(&mut cmd, plugin);
    arg_str(&mut cmd, title);
    arg_usize(&mut cmd, length);
    proof {
        let head = fcall_head(CREATE_REPORT_FN@, seq![report_id@]);
        let count = decimal_text(length as nat);
        lemma_utf8_all_push(head, plugin@);
        lemma_utf8_all_push(head.push(plugin@), title@);
        lemma_utf8_all_push(head.push(plugin@).push(title@), count);
        assert(head.push(plugin@).push(title@).push(count) =~= head + seq![plugin@, title@, count]);
    }
    cmd
}

/// Attach data to a report, at the slot `index`.
pub fn put_report_data<'a>(
    plugin: &str,
    report_id: &str,
    index: usize,
    data: PluginData<'a>,
) -> (cmd: redis::Cmd)
    ensures
        cmd_args(cmd) == utf8_all(
            call(
                CREATE_REPORT_DATA_FN@,
                seq![report_id@],
                seq![plugin@, decimal_text(index as nat)] + data@.fields(),
            ),
        ),
{
    let mut cmd = fcall_one(CREATE_REPORT_DATA_FN, report_id);
    arg_str(&mut cmd, plugin);
    arg_usize(&mut cmd, index);
    data.add_as_args(&mut cmd);
    proof {
        let head = fcall_head(CREATE_REPORT_DATA_FN@, seq![report_id@]);
        let slot = decimal_text(index as nat);
        lemma_utf8_all_push(head, plugin@);
        lemma_utf8_all_push(head.push(plugin@), slot);
        lemma_utf8_all_concat(head.push(plugin@).push(slot), data@.fields());
        assert(head.push(plugin@).push(slot) + data@.fields() =~= head + (seq![plugin@, slot]
            + data@.fields()));
    }
    cmd
}

} // verus!
