//! Building Redis commands, and what the arguments of a built command are.
//!
//! A command is an ordered list of byte-string arguments, the first being the
//! command's name. Everything this library sends is text or a number, so the
//! contracts speak of arguments as texts and turn them into bytes with
//! [`utf8_all`].

use crate::merge::Entries;
use crate::text::{Text, Texts, decimal_text};
use vstd::prelude::*;
use vstd::utf8::encode_utf8;

verus! {

/// `redis::Cmd`, a command under construction. Opaque: its arguments are
/// spoken of through [`cmd_args`].
#[verifier::external_type_specification]
#[verifier::external_body]
pub struct ExCmd(redis::Cmd);

/// The arguments a command holds, in the order they were appended, each as its
/// raw bytes: what `redis::Cmd::args_iter` walks through. The first one is the
/// command's name.
pub uninterp spec fn cmd_args(cmd: redis::Cmd) -> Seq<Seq<u8>>;

/// The bytes a text argument is sent as.
pub open spec fn utf8(text: Text) -> Seq<u8> {
    encode_utf8(text)
}

/// The bytes a list of text arguments is sent as, argument by argument.
pub open spec fn utf8_all(texts: Texts) -> Seq<Seq<u8>> {
    texts.map_values(|text: Text| utf8(text))
}

/// The argument a boolean is sent as.
pub open spec fn bool_text(flag: bool) -> Text {
    if flag {
        "1"@
    } else {
        "0"@
    }
}

/// `redis::cmd`: a fresh command whose only argument is its name.
#[verifier::external_body]
pub(crate) fn new_command(name: &str) -> (cmd: redis::Cmd)
    ensures
        cmd_args(cmd) == seq![utf8(name@)],
{
    redis::cmd(name)
}

/// `redis::Cmd::arg` with a string: appends one argument, the string's UTF-8
/// bytes.
#[verifier::external_body]
pub(crate) fn arg_str(cmd: &mut redis::Cmd, arg: &str)
    ensures
        cmd_args(*final(cmd)) == cmd_args(*old(cmd)).push(utf8(arg@)),
{
    cmd.arg(arg);
}

/// `redis::Cmd::arg` with a `usize`: appends one argument, the number written
/// in decimal.
#[verifier::external_body]
pub(crate) fn arg_usize(cmd: &mut redis::Cmd, arg: usize)
    ensures
        cmd_args(*final(cmd)) == cmd_args(*old(cmd)).push(utf8(decimal_text(arg as nat))),
{
    cmd.arg(arg);
}

/// `redis::Cmd::arg` with a `bool`: appends one argument, `1` for true and `0`
/// for false.
#[verifier::external_body]
pub(crate) fn arg_bool(cmd: &mut redis::Cmd, arg: bool)
    ensures
        cmd_args(*final(cmd)) == cmd_args(*old(cmd)).push(utf8(bool_text(arg))),
{
    cmd.arg(arg);
}

/// Turning texts into bytes commutes with appending one.
pub proof fn lemma_utf8_all_push(texts: Texts, text: Text)
    ensures
        utf8_all(texts.push(text)) == utf8_all(texts).push(utf8(text)),
{
    assert(utf8_all(texts.push(text)) =~= utf8_all(texts).push(utf8(text)));
}

/// Turning texts into bytes commutes with concatenation.
pub proof fn lemma_utf8_all_concat(left: Texts, right: Texts)
    ensures
        utf8_all(left + right) == utf8_all(left) + utf8_all(right),
{
    assert(utf8_all(left + right) =~= utf8_all(left) + utf8_all(right));
}

/// Appends every text of `items` as an argument of its own, in order.
pub fn arg_all(cmd: &mut redis::Cmd, items: &Vec<&str>)
    ensures
        cmd_args(*final(cmd)) == cmd_args(*old(cmd)) + utf8_all(items.deep_view()),
{
    let mut i: usize = 0;
    while i < items.len()
        invariant
            i <= items.len(),
            cmd_args(*cmd) == cmd_args(*old(cmd)) + utf8_all(items.deep_view().take(i as int)),
        decreases items.len() - i,
    {
        arg_str(cmd, items[i]);
        proof {
            let texts = items.deep_view();
            assert(texts.take(i + 1) =~= texts.take(i as int).push(items[i as int]@));
            lemma_utf8_all_push(texts.take(i as int), items[i as int]@);
        }
        i += 1;
    }
    assert(items.deep_view().take(i as int) =~= items.deep_view());
}

/// All cells of `rows`, row after row.
pub open spec fn flat(rows: Seq<Texts>) -> Texts
    decreases rows.len(),
{
    if rows.len() == 0 {
        seq![]
    } else {
        flat(rows.drop_last()) + rows.last()
    }
}

/// Each key-value pair as a row of two cells.
pub open spec fn pair_rows(items: Entries) -> Seq<Texts> {
    items.map_values(|item: (Text, Text)| seq![item.0, item.1])
}

/// Each triple as a row of three cells.
pub open spec fn triple_rows(items: Seq<(Text, Text, Text)>) -> Seq<Texts> {
    items.map_values(|item: (Text, Text, Text)| seq![item.0, item.1, item.2])
}

/// Taking one more row adds that row's cells at the end.
pub proof fn lemma_flat_take(rows: Seq<Texts>, n: int)
    requires
        0 <= n < rows.len(),
    ensures
        flat(rows.take(n + 1)) == flat(rows.take(n)) + rows[n],
{
    assert(rows.take(n + 1).drop_last() =~= rows.take(n));
}

/// Appends every pair of `items` as two arguments, key then value, in order.
pub fn arg_pairs(cmd: &mut redis::Cmd, items: &Vec<(&str, &str)>)
    ensures
        cmd_args(*final(cmd)) == cmd_args(*old(cmd)) + utf8_all(flat(pair_rows(items.deep_view()))),
{
    let ghost before = cmd_args(*cmd);
    let ghost rows = pair_rows(items.deep_view());
    assert(before + utf8_all(flat(rows.take(0))) =~= before);
    let mut i: usize = 0;
    while i < items.len()
        invariant
            i <= items.len(),
            rows == pair_rows(items.deep_view()),
            rows.len() == items.len(),
            cmd_args(*cmd) == before + utf8_all(flat(rows.take(i as int))),
        decreases items.len() - i,
    {
        let ghost sent = flat(rows.take(i as int));
        let (key, value) = items[i];
        arg_str(cmd, key);
        arg_str(cmd, value);
        proof {
            lemma_flat_take(rows, i as int);
            lemma_utf8_all_push(sent, key@);
            lemma_utf8_all_push(sent.push(key@), value@);
            assert(rows[i as int] =~= seq![key@, value@]);
            assert(flat(rows.take(i + 1)) =~= sent.push(key@).push(value@));
            assert(cmd_args(*cmd) =~= before + utf8_all(flat(rows.take(i + 1))));
        }
        i += 1;
    }
    assert(rows.take(i as int) =~= rows);
}

/// Appends every triple of `items` as three arguments, in order.
pub fn arg_triples(cmd: &mut redis::Cmd, items: &Vec<(&str, &str, &str)>)
    ensures
        cmd_args(*final(cmd)) == cmd_args(*old(cmd)) + utf8_all(
            flat(triple_rows(items.deep_view())),
        ),
{
    let ghost before = cmd_args(*cmd);
    let ghost rows = triple_rows(items.deep_view());
    assert(before + utf8_all(flat(rows.take(0))) =~= before);
    let mut i: usize = 0;
    while i < items.len()
        invariant
            i <= items.len(),
            rows == triple_rows(items.deep_view()),
            rows.len() == items.len(),
            cmd_args(*cmd) == before + utf8_all(flat(rows.take(i as int))),
        decreases items.len() - i,
    {
        let ghost sent = flat(rows.take(i as int));
        let (first, second, third) = items[i];
        arg_str(cmd, first);
        arg_str(cmd, second);
        arg_str(cmd, third);
        proof {
            lemma_flat_take(rows, i as int);
            lemma_utf8_all_push(sent, first@);
            lemma_utf8_all_push(sent.push(first@), second@);
            lemma_utf8_all_push(sent.push(first@).push(second@), third@);
            assert(rows[i as int] =~= seq![first@, second@, third@]);
            assert(flat(rows.take(i + 1)) =~= sent.push(first@).push(second@).push(third@));
            assert(cmd_args(*cmd) =~= before + utf8_all(flat(rows.take(i + 1))));
        }
        i += 1;
    }
    assert(rows.take(i as int) =~= rows);
}

/// Appends every cell of `rows` as an argument of its own, row after row.
pub fn arg_rows(cmd: &mut redis::Cmd, rows: &Vec<Vec<&str>>)
    ensures
        cmd_args(*final(cmd)) == cmd_args(*old(cmd)) + utf8_all(flat(rows.deep_view())),
{
    let ghost before = cmd_args(*cmd);
    let ghost cells = rows.deep_view();
    assert(before + utf8_all(flat(cells.take(0))) =~= before);
    let mut r: usize = 0;
    while r < rows.len()
        invariant
            r <= rows.len(),
            cells == rows.deep_view(),
            cmd_args(*cmd) == before + utf8_all(flat(cells.take(r as int))),
        decreases rows.len() - r,
    {
        let ghost sent = flat(cells.take(r as int));
        arg_all(cmd, &rows[r]);
        proof {
            lemma_flat_take(cells, r as int);
            lemma_utf8_all_concat(sent, cells[r as int]);
            assert(cmd_args(*cmd) =~= before + utf8_all(flat(cells.take(r + 1))));
        }
        r += 1;
    }
    assert(cells.take(r as int) =~= cells);
}

/// The name of the command that invokes a server-side function.
pub const FCALL: &'static str = "FCALL";

/// The leading arguments of a function call: the command's name, the
/// function's name, the number of keys, then the keys themselves.
pub open spec fn fcall_head(function: Text, keys: Texts) -> Texts {
    seq![FCALL@, function, decimal_text(keys.len())] + keys
}

/// Starts a call of the server-side function `function` on `keys`.
pub fn fcall(function: &str, keys: &Vec<&str>) -> (cmd: redis::Cmd)
    ensures
        cmd_args(cmd) == utf8_all(fcall_head(function@, keys.deep_view())),
{
    let mut cmd = new_command(FCALL);
    arg_str(&mut cmd, function);
    arg_usize(&mut cmd, keys.len());
    arg_all(&mut cmd, keys);
    proof {
        let head = seq![FCALL@, function@, decimal_text(keys.len() as nat)];
        assert(utf8_all(head) =~= seq![
            utf8(FCALL@),
            utf8(function@),
            utf8(decimal_text(keys.len() as nat)),
        ]);
        lemma_utf8_all_concat(head, keys.deep_view());
        assert(keys.deep_view().len() == keys.len());
    }
    cmd
}

/// Starts a call of the server-side function `function` on the one key `key`.
pub fn fcall_one(function: &str, key: &str) -> (cmd: redis::Cmd)
    ensures
        cmd_args(cmd) == utf8_all(fcall_head(function@, seq![key@])),
{
    let mut cmd = new_command(FCALL);
    arg_str(&mut cmd, function);
    arg_usize(&mut cmd, 1);
    arg_str(&mut cmd, key);
    proof {
        assert(utf8_all(fcall_head(function@, seq![key@])) =~= seq![
            utf8(FCALL@),
            utf8(function@),
            utf8(decimal_text(1)),
            utf8(key@),
        ]);
    }
    cmd
}

} // verus!
