//! The entities of the document graph.

use crate::command::{
    arg_pairs, arg_rows, arg_str, arg_triples, arg_usize, cmd_args, flat, lemma_utf8_all_concat,
    lemma_utf8_all_push, new_command, pair_rows, triple_rows, utf8_all,
};
use crate::error::{FCallError, FCallResult};
use crate::merge::Entries;
use crate::text::{Text, Texts, decimal_string, decimal_text};
use vstd::prelude::*;

verus! {

/// The content types a string datum can be tagged as.
#[derive(Debug, Clone, Copy, PartialEq, Eq, Structural)]
pub enum StringContentType {
    HTML,
    Markdown,
    Plain,
}

impl StringContentType {
    /// The word the store knows this content type by.
    pub open spec fn tag_text(self) -> Text {
        match self {
            StringContentType::HTML => "html"@,
            StringContentType::Markdown => "markdown"@,
            StringContentType::Plain => "plain"@,
        }
    }

    /// The word the store knows this content type by.
    pub fn tag(&self) -> (tag: &'static str)
        ensures
            tag@ == self.tag_text(),
    {
        match self {
            StringContentType::HTML => "html",
            StringContentType::Markdown => "markdown",
            StringContentType::Plain => "plain",
        }
    }
}

/// A datum that a plugin attaches to a DNS name, a node or a report, to be
/// rendered for a reader.
///
/// The items of a `Hash` are kept in the order given; no key should occur
/// twice. The rows of a `Table` should each have `num_columns` cells; this is
/// not checked here.
#[derive(Debug)]
#[allow(inconsistent_fields)]
pub enum PluginData<'a> {
    Hash { title: &'a str, items: Vec<(&'a str, &'a str)> },
    List { title: &'a str, items: Vec<(&'a str, &'a str, &'a str)> },
    String { title: &'a str, content_type: StringContentType, content: &'a str },
    Table { title: &'a str, num_columns: usize, rows: Vec<Vec<&'a str>> },
}

/// A plugin datum as plain mathematical data.
#[allow(inconsistent_fields)]
pub enum PluginDataView {
    Hash { title: Text, items: Entries },
    List { title: Text, items: Seq<(Text, Text, Text)> },
    String { title: Text, content_type: StringContentType, content: Text },
    Table { title: Text, num_columns: nat, rows: Seq<Texts> },
}

/// The tag of a hash.
pub const TAG_HASH: &'static str = "hash";

/// The tag of a list.
pub const TAG_LIST: &'static str = "list";

/// The tag of a string.
pub const TAG_STRING: &'static str = "string";

/// The tag of a table.
pub const TAG_TABLE: &'static str = "table";

impl PluginDataView {
    /// The word that tells the variant.
    pub open spec fn tag(self) -> Text {
        match self {
            PluginDataView::Hash { .. } => TAG_HASH@,
            PluginDataView::List { .. } => TAG_LIST@,
            PluginDataView::String { .. } => TAG_STRING@,
            PluginDataView::Table { .. } => TAG_TABLE@,
        }
    }

    /// The title, common to all variants.
    pub open spec fn title(self) -> Text {
        match self {
            PluginDataView::Hash { title, .. } => title,
            PluginDataView::List { title, .. } => title,
            PluginDataView::String { title, .. } => title,
            PluginDataView::Table { title, .. } => title,
        }
    }

    /// What follows tag and title: the variant's own fields, flattened.
    pub open spec fn body(self) -> Texts {
        match self {
            PluginDataView::Hash { items, .. } => flat(pair_rows(items)),
            PluginDataView::List { items, .. } => flat(triple_rows(items)),
            PluginDataView::String { content_type, content, .. } => seq![
                content_type.tag_text(),
                content,
            ],
            PluginDataView::Table { num_columns, rows, .. } => seq![decimal_text(num_columns)]
                + flat(rows),
        }
    }

    /// The arguments this datum is sent as: the tag, the title, then the body.
    pub open spec fn fields(self) -> Texts {
        seq![self.tag(), self.title()] + self.body()
    }

    /// Whether the rows can be told apart again once flattened: every row of a
    /// table has `num_columns` cells, and a table of no columns has no rows.
    /// Always true of the other variants.
    pub open spec fn is_rectangular(self) -> bool {
        match self {
            PluginDataView::Table { num_columns, rows, .. } => {
                &&& forall|r: int| 0 <= r < rows.len() ==> (#[trigger] rows[r]).len() == num_columns
                &&& num_columns == 0 ==> rows.len() == 0
            },
            _ => true,
        }
    }
}

impl<'a> View for PluginData<'a> {
    type V = PluginDataView;

    open spec fn view(&self) -> PluginDataView {
        match *self {
            PluginData::Hash { title, items } => PluginDataView::Hash {
                title: title@,
                items: items.deep_view(),
            },
            PluginData::List { title, items } => PluginDataView::List {
                title: title@,
                items: items.deep_view(),
            },
            PluginData::String { title, content_type, content } => PluginDataView::String {
                title: title@,
                content_type,
                content: content@,
            },
            PluginData::Table { title, num_columns, rows } => PluginDataView::Table {
                title: title@,
                num_columns: num_columns as nat,
                rows: rows.deep_view(),
            },
        }
    }
}

impl<'a> PluginData<'a> {
    /// Whether whoever reads the arguments of this datum can tell its rows
    /// apart: whether every row of a table has `num_columns` cells, and a
    /// table of no columns has no rows. Nothing checks this when the datum is
    /// sent; a caller that wants it checked asks here first.
    pub fn is_rectangular(&self) -> (fits: bool)
        ensures
            fits == self@.is_rectangular(),
    {
        match self {
            PluginData::Table { title, num_columns, rows } => {
                if *num_columns == 0 {
                    return rows.len() == 0;
                }
                let ghost cells = rows.deep_view();
                assert(self@ == (PluginDataView::Table {
                    title: title@,
                    num_columns: *num_columns as nat,
                    rows: cells,
                }));
                let mut r: usize = 0;
                while r < rows.len()
                    invariant
                        r <= rows.len(),
                        *num_columns != 0,
                        cells == rows.deep_view(),
                        self@ == (PluginDataView::Table {
                            title: title@,
                            num_columns: *num_columns as nat,
                            rows: cells,
                        }),
                        forall|i: int| 0 <= i < r ==> (#[trigger] cells[i]).len() == *num_columns,
                    decreases rows.len() - r,
                {
                    if rows[r].len() != *num_columns {
                        assert(self@->rows[r as int].len() != self@->num_columns);
                        return false;
                    }
                    r += 1;
                }
                true
            },
            _ => true,
        }
    }

    /// Appends to `cmd` the arguments that a server-side function needs to
    /// store this datum: the tag of the variant, the title, then the
    /// variant's own fields in order. Rows are appended cell by cell; their
    /// lengths are not held against `num_columns`.
    pub fn add_as_args(&'a self, cmd: &mut redis::Cmd)
        ensures
            cmd_args(*final(cmd)) == cmd_args(*old(cmd)) + utf8_all(self@.fields()),
    {
        let ghost before = cmd_args(*cmd);
        let ghost head = seq![self@.tag(), self@.title()];
        match self {
            PluginData::Hash { title, items } => {
                arg_str(cmd, TAG_HASH);
                arg_str(cmd, title);
                arg_pairs(cmd, items);
            },
            PluginData::List { title, items } => {
                arg_str(cmd, TAG_LIST);
                arg_str(cmd, title);
                arg_triples(cmd, items);
            },
            PluginData::String { title, content_type, content } => {
                arg_str(cmd, TAG_STRING);
                arg_str(cmd, title);
                arg_str(cmd, content_type.tag());
                arg_str(cmd, content);
                proof {
                    lemma_utf8_all_push(seq![], content_type.tag_text());
                    lemma_utf8_all_push(seq![content_type.tag_text()], content@);
                    assert(self@.body() =~= seq![].push(content_type.tag_text()).push(content@));
                }
            },
            PluginData::Table { title, num_columns, rows } => {
                arg_str(cmd, TAG_TABLE);
                arg_str(cmd, title);
                arg_usize(cmd, *num_columns);
                arg_rows(cmd, rows);
                proof {
                    let count = seq![decimal_text(*num_columns as nat)];
                    lemma_utf8_all_push(seq![], count[0]);
                    assert(seq![].push(count[0]) =~= count);
                    lemma_utf8_all_concat(count, flat(rows.deep_view()));
                }
            },
        }
        proof {
            lemma_utf8_all_push(seq![], self@.tag());
            lemma_utf8_all_push(seq![self@.tag()], self@.title());
            assert(seq![].push(self@.tag()).push(self@.title()) =~= head);
            lemma_utf8_all_concat(head, self@.body());
            assert(cmd_args(*cmd) =~= before + (utf8_all(head) + utf8_all(self@.body())));
        }
    }
}

/// `redis::Client`, the description of a server from which connections are
/// made. Opaque: it is handed on as it comes.
#[verifier::external_type_specification]
#[verifier::external_body]
pub struct ExClient(redis::Client);

/// Whether `redis::Client::open` takes the URL `url`: whether it makes a
/// client of it rather than refuse it.
pub uninterp spec fn accepts_url(url: Text) -> bool;

/// `redis::Client::open` with a URL: checks the URL and makes a client of it,
/// without connecting. Which URLs it takes is left to [`accepts_url`].
#[verifier::external_body]
fn open_client(url: String) -> (result: Result<redis::Client, redis::RedisError>)
    ensures
        result is Ok <==> accepts_url(url@),
{
    redis::Client::open(url)
}

/// The scheme that the URL of a server starts with.
pub const URL_SCHEME: &'static str = "redis://";

/// The name of the command that logs in.
pub const AUTH: &'static str = "AUTH";

/// Where the store is and how to log in to it.
#[derive(Debug)]
pub struct RedisArgs {
    /// Hostname of the server.
    pub host: String,
    /// Port of the server.
    pub port: usize,
    /// Logical database to use.
    pub db: usize,
    /// Username to authenticate with, if any.
    pub username: Option<String>,
    /// Password to authenticate with, if any.
    pub password: Option<String>,
}

impl RedisArgs {
    /// The URL of the server and database: `redis://host:port/db`.
    pub open spec fn url_text(&self) -> Text {
        URL_SCHEME@ + self.host@ + ":"@ + decimal_text(self.port as nat) + "/"@ + decimal_text(
            self.db as nat,
        )
    }

    /// The URL of the server and database.
    pub fn url(&self) -> (url: String)
        ensures
            url@ == self.url_text(),
    {
        let mut url = String::from_str(URL_SCHEME);
        url.append(self.host.as_str());
        url.append(":");
        url.append(decimal_string(self.port).as_str());
        url.append("/");
        url.append(decimal_string(self.db).as_str());
        url
    }

    /// A client for the server and database of these details. No connection
    /// is made; a URL that the client refuses is the only way to fail.
    pub fn to_client(&self) -> (result: FCallResult<redis::Client>)
        ensures
            result is Ok <==> accepts_url(self.url_text()),
            result matches Err(e) ==> e is Redis,
    {
        match open_client(self.url()) {
            Ok(client) => Ok(client),
            Err(e) => Err(FCallError::from(e)),
        }
    }

    /// The command that logs in with these details, where a username is
    /// given. A username takes a password.
    pub fn auth_command(&self) -> (auth: Option<redis::Cmd>)
        requires
            self.username is Some ==> self.password is Some,
        ensures
            match auth {
                Some(cmd) => self.username is Some && cmd_args(cmd) == utf8_all(
                    seq![AUTH@, self.username->0@, self.password->0@],
                ),
                None => self.username is None,
            },
    {
        match (&self.username, &self.password) {
            (Some(username), Some(password)) => {
                let mut cmd = new_command(AUTH);
                arg_str(&mut cmd, username.as_str());
                arg_str(&mut cmd, password.as_str());
                proof {
                    lemma_utf8_all_push(seq![], AUTH@);
                    lemma_utf8_all_push(seq![AUTH@], username@);
                    lemma_utf8_all_push(seq![AUTH@, username@], password@);
                    assert(seq![].push(AUTH@).push(username@).push(password@) =~= seq![
                        AUTH@,
                        username@,
                        password@,
                    ]);
                    assert(utf8_all(seq![]) =~= seq![]);
                }
                Some(cmd)
            },
            _ => None,
        }
    }
}

/// A processed node: the reconciled entity that one link identifier stands
/// for.
///
/// The four collections are sets: in a node read from the store no text
/// occurs twice in any of them, and they keep the order of the store's
/// answer.
#[derive(Debug)]
pub struct Node {
    /// The name to display.
    pub name: String,
    /// The link identifier, the node's key.
    pub link_id: String,
    /// Other names that raw nodes gave this node.
    pub alt_names: Vec<String>,
    /// The qualified DNS names this node stands for.
    pub dns_names: Vec<String>,
    /// The identifiers of the raw nodes merged into this node.
    pub raw_ids: Vec<String>,
    /// The plugins that contributed to this node.
    pub plugins: Vec<String>,
}

/// A node as plain mathematical data.
pub struct NodeView {
    pub name: Text,
    pub link_id: Text,
    pub alt_names: Texts,
    pub dns_names: Texts,
    pub raw_ids: Texts,
    pub plugins: Texts,
}

impl NodeView {
    /// Whether the four collections are sets: none holds a text twice.
    pub open spec fn wf(self) -> bool {
        &&& self.alt_names.no_duplicates()
        &&& self.dns_names.no_duplicates()
        &&& self.raw_ids.no_duplicates()
        &&& self.plugins.no_duplicates()
    }
}

impl DeepView for Node {
    type V = NodeView;

    open spec fn deep_view(&self) -> NodeView {
        NodeView {
            name: self.name@,
            link_id: self.link_id@,
            alt_names: self.alt_names.deep_view(),
            dns_names: self.dns_names.deep_view(),
            raw_ids: self.raw_ids.deep_view(),
            plugins: self.plugins.deep_view(),
        }
    }
}

impl View for Node {
    type V = NodeView;

    open spec fn view(&self) -> NodeView {
        self.deep_view()
    }
}

} // verus!
