//! Reading a plugin datum back from the arguments it was sent as.
//!
//! The store's side has to rebuild each datum from a flat list of arguments.
//! This module states how that is done and proves that nothing is lost on the
//! way: decoding what [`PluginData::add_as_args`](crate::model::PluginData)
//! appends gives the datum back.

use crate::command::{flat, pair_rows, triple_rows, utf8_all};
use crate::merge::Entries;
use crate::model::{PluginDataView, StringContentType, TAG_HASH, TAG_LIST, TAG_STRING, TAG_TABLE};
use crate::text::{Text, Texts, lemma_parse_decimal_text, parse_decimal};
use vstd::prelude::*;
use vstd::utf8::{decode_utf8, encode_utf8_decode_utf8, encode_utf8_valid_utf8, valid_utf8};

verus! {

/// `cells` cut into rows of `width` cells each. Cells that do not fill a row
/// are dropped from the front; callers check the count first.
pub open spec fn chunks(cells: Texts, width: nat) -> Seq<Texts>
    decreases cells.len(),
{
    if width == 0 || cells.len() < width {
        seq![]
    } else {
        chunks(cells.take(cells.len() - width), width).push(cells.skip(cells.len() - width))
    }
}

/// Rows of two cells as key-value pairs.
pub open spec fn pairs_of(rows: Seq<Texts>) -> Entries {
    rows.map_values(|row: Texts| (row[0], row[1]))
}

/// Rows of three cells as triples.
pub open spec fn triples_of(rows: Seq<Texts>) -> Seq<(Text, Text, Text)> {
    rows.map_values(|row: Texts| (row[0], row[1], row[2]))
}

/// The content type that `tag` names.
pub open spec fn content_type_of(tag: Text) -> Option<StringContentType> {
    if tag == StringContentType::HTML.tag_text() {
        Some(StringContentType::HTML)
    } else if tag == StringContentType::Markdown.tag_text() {
        Some(StringContentType::Markdown)
    } else if tag == StringContentType::Plain.tag_text() {
        Some(StringContentType::Plain)
    } else {
        None
    }
}

/// The table that a column count and a list of cells stand for.
pub open spec fn table_of(title: Text, num_columns: nat, cells: Texts) -> Option<PluginDataView> {
    if num_columns == 0 {
        if cells.len() == 0 {
            Some(PluginDataView::Table { title, num_columns, rows: seq![] })
        } else {
            None
        }
    } else if cells.len() % num_columns == 0 {
        Some(PluginDataView::Table { title, num_columns, rows: chunks(cells, num_columns) })
    } else {
        None
    }
}

/// The datum that a list of text arguments stands for, if it stands for one.
pub open spec fn decode_fields(fields: Texts) -> Option<PluginDataView> {
    if fields.len() < 2 {
        None
    } else {
        let tag = fields[0];
        let title = fields[1];
        let body = fields.skip(2);
        if tag == TAG_HASH@ {
            if body.len() % 2 == 0 {
                Some(PluginDataView::Hash { title, items: pairs_of(chunks(body, 2)) })
            } else {
                None
            }
        } else if tag == TAG_LIST@ {
            if body.len() % 3 == 0 {
                Some(PluginDataView::List { title, items: triples_of(chunks(body, 3)) })
            } else {
                None
            }
        } else if tag == TAG_STRING@ {
            if body.len() == 2 {
                match content_type_of(body[0]) {
                    Some(content_type) => Some(
                        PluginDataView::String { title, content_type, content: body[1] },
                    ),
                    None => None,
                }
            } else {
                None
            }
        } else if tag == TAG_TABLE@ {
            if body.len() >= 1 {
                match parse_decimal(body[0]) {
                    Some(num_columns) => table_of(title, num_columns, body.skip(1)),
                    None => None,
                }
            } else {
                None
            }
        } else {
            None
        }
    }
}

/// The datum that a list of raw arguments stands for: every argument must be
/// valid UTF-8, and the texts must decode.
pub open spec fn decode(args: Seq<Seq<u8>>) -> Option<PluginDataView> {
    if forall|i: int| 0 <= i < args.len() ==> valid_utf8(#[trigger] args[i]) {
        decode_fields(args.map_values(|arg: Seq<u8>| decode_utf8(arg)))
    } else {
        None
    }
}

/// Rows of one width, flattened, have as many cells as rows times width.
pub proof fn lemma_flat_len(rows: Seq<Texts>, width: nat)
    requires
        forall|r: int| 0 <= r < rows.len() ==> (#[trigger] rows[r]).len() == width,
    ensures
        flat(rows).len() == rows.len() * width,
    decreases rows.len(),
{
    if rows.len() > 0 {
        lemma_flat_len(rows.drop_last(), width);
        assert(rows.len() * width == (rows.len() - 1) * width + width) by (nonlinear_arith);
    } else {
        assert(rows.len() * width == 0) by (nonlinear_arith)
            requires
                rows.len() == 0,
        ;
    }
}

/// Cutting flattened rows of one width gives the rows back.
pub proof fn lemma_chunks_flat(rows: Seq<Texts>, width: nat)
    requires
        width > 0,
        forall|r: int| 0 <= r < rows.len() ==> (#[trigger] rows[r]).len() == width,
    ensures
        chunks(flat(rows), width) == rows,
    decreases rows.len(),
{
    if rows.len() > 0 {
        let front = rows.drop_last();
        let cells = flat(rows);
        lemma_chunks_flat(front, width);
        assert(cells.take(cells.len() - width) =~= flat(front));
        assert(cells.skip(cells.len() - width) =~= rows.last());
        assert(chunks(cells, width) =~= rows);
    }
}

/// The four variant tags are pairwise different.
pub proof fn lemma_tags_differ()
    ensures
        TAG_HASH@ != TAG_LIST@,
        TAG_HASH@ != TAG_STRING@,
        TAG_HASH@ != TAG_TABLE@,
        TAG_LIST@ != TAG_STRING@,
        TAG_LIST@ != TAG_TABLE@,
        TAG_STRING@ != TAG_TABLE@,
{
    reveal_strlit("hash");
    reveal_strlit("list");
    reveal_strlit("string");
    reveal_strlit("table");
    assert(TAG_HASH@.len() == 4 && TAG_LIST@.len() == 4);
    assert(TAG_STRING@.len() == 6 && TAG_TABLE@.len() == 5);
    assert(TAG_HASH@[0] != TAG_LIST@[0]);
}

/// A content type's tag names that content type and no other.
pub proof fn lemma_content_type_round_trip(content_type: StringContentType)
    ensures
        content_type_of(content_type.tag_text()) == Some(content_type),
{
    reveal_strlit("html");
    reveal_strlit("markdown");
    reveal_strlit("plain");
    assert("html"@.len() == 4 && "markdown"@.len() == 8 && "plain"@.len() == 5);
}

/// Texts survive the way to bytes and back.
pub proof fn lemma_texts_round_trip(texts: Texts)
    ensures
        forall|i: int| 0 <= i < texts.len() ==> valid_utf8(#[trigger] utf8_all(texts)[i]),
        utf8_all(texts).map_values(|arg: Seq<u8>| decode_utf8(arg)) == texts,
{
    let args = utf8_all(texts);
    assert forall|i: int| 0 <= i < texts.len() implies valid_utf8(#[trigger] args[i])
        && decode_utf8(args[i]) == texts[i] by {
        encode_utf8_valid_utf8(texts[i]);
        encode_utf8_decode_utf8(texts[i]);
    }
    assert(args.map_values(|arg: Seq<u8>| decode_utf8(arg)) =~= texts);
}

/// Decoding the texts a datum is sent as gives the datum back, provided its
/// rows can be told apart.
pub proof fn lemma_decode_fields_round_trip(data: PluginDataView)
    requires
        data.is_rectangular(),
    ensures
        decode_fields(data.fields()) == Some(data),
{
    lemma_tags_differ();
    let fields = data.fields();
    assert(fields.skip(2) =~= data.body());
    match data {
        PluginDataView::Hash { title, items } => {
            let rows = pair_rows(items);
            lemma_flat_len(rows, 2);
            lemma_chunks_flat(rows, 2);
            assert(pairs_of(rows) =~= items);
        },
        PluginDataView::List { title, items } => {
            let rows = triple_rows(items);
            lemma_flat_len(rows, 3);
            lemma_chunks_flat(rows, 3);
            assert(triples_of(rows) =~= items);
        },
        PluginDataView::String { title, content_type, content } => {
            lemma_content_type_round_trip(content_type);
        },
        PluginDataView::Table { title, num_columns, rows } => {
            lemma_parse_decimal_text(num_columns);
            assert(data.body().skip(1) =~= flat(rows));
            if num_columns == 0 {
                assert(rows =~= seq![]);
            } else {
                lemma_flat_len(rows, num_columns);
                lemma_chunks_flat(rows, num_columns);
                assert((rows.len() * num_columns) % num_columns == 0) by (nonlinear_arith)
                    requires
                        num_columns > 0,
                ;
            }
        },
    }
}

/// The round trip: decoding the arguments a datum is sent as gives the datum
/// back, with its title, its content and the order of its parts. It holds of
/// every hash, list and string, and of every table whose rows can be told
/// apart.
pub proof fn lemma_decode_round_trip(data: PluginDataView)
    requires
        data.is_rectangular(),
    ensures
        decode(utf8_all(data.fields())) == Some(data),
{
    lemma_texts_round_trip(data.fields());
    lemma_decode_fields_round_trip(data);
}

/// Two data are sent under the same tag exactly when they are of the same
/// variant, and the tag is the first argument sent.
pub proof fn lemma_tag_tells_variant(a: PluginDataView, b: PluginDataView)
    ensures
        a.fields()[0] == a.tag(),
        b.fields()[0] == b.tag(),
        a.tag() == b.tag() <==> {
            ||| a is Hash && b is Hash
            ||| a is List && b is List
            ||| a is String && b is String
            ||| a is Table && b is Table
        },
{
    lemma_tags_differ();
}

} // verus!
