//! The SQL that opens a parquetdir in DuckDB.
//!
//! Every `<TABLE>.parquet` of the directory becomes a view `nsight.<TABLE>`.
use crate::order::{
    char_codes, keys_of, numbers, positions, sort_order, sort_order_of, ListKey, SortKey,
};
use crate::paths::{strip_suffix, text_of, without_suffix};
use crate::text::{
    decimal, replace_char, replaced, str_chars, strings, u64_text,
};
use vstd::prelude::*;
use vstd::string::StringExecFns;

verus! {

/// The identifier in double quotes.
pub open spec fn quoted(identifier: Seq<char>) -> Seq<char> {
    "\""@ + replaced(identifier, '"', "\"\""@) + "\""@
}

/// The identifier in double quotes, with those in it doubled.
pub fn quote_sql_identifier(identifier: &str) -> (text: String)
    ensures
        text@ == quoted(identifier@),
{
    let mut text = "\"".to_owned();
    text.append(replace_char(identifier, '"', "\"\"").as_str());
    text.append("\"");
    text
}

proof fn doubling_keeps_apart(a: Seq<char>, b: Seq<char>, c: char)
    requires
        replaced(a, c, seq![c, c]) == replaced(b, c, seq![c, c]),
    ensures
        a == b,
    decreases a.len() + b.len(),
{
    let x = replaced(a, c, seq![c, c]);
    let y = replaced(b, c, seq![c, c]);
    if a.len() == 0 || b.len() == 0 {
        doubling_ends(a, c);
        doubling_ends(b, c);
        assert(a =~= b);
    } else {
        doubling_ends(a, c);
        doubling_ends(b, c);
        let p = a.drop_last();
        let q = b.drop_last();
        let rest_a = replaced(p, c, seq![c, c]);
        let rest_b = replaced(q, c, seq![c, c]);
        assert(x.last() == a.last());
        assert(y.last() == b.last());
        if a.last() == c {
            assert(rest_a =~= x.take(x.len() - 2));
            assert(rest_b =~= y.take(y.len() - 2));
        } else {
            assert(rest_a =~= x.take(x.len() - 1));
            assert(rest_b =~= y.take(y.len() - 1));
        }
        doubling_keeps_apart(p, q, c);
        assert(a =~= p.push(a.last()));
        assert(b =~= q.push(b.last()));
    }
}

/// How a text with doubled characters ends.
proof fn doubling_ends(s: Seq<char>, c: char)
    ensures
        s.len() == 0 <==> replaced(s, c, seq![c, c]).len() == 0,
        s.len() > 0 ==> replaced(s, c, seq![c, c]) == replaced(s.drop_last(), c, seq![c, c]) + if s.last()
            == c {
            seq![c, c]
        } else {
            seq![s.last()]
        },
{
}

/// Different tables have different views: quoting keeps names apart.
pub proof fn quoting_keeps_names_apart(a: Seq<char>, b: Seq<char>)
    requires
        quoted(a) == quoted(b),
    ensures
        a == b,
{
    reveal_strlit("\"");
    reveal_strlit("\"\"");
    assert("\"\""@ =~= seq!['"', '"']);
    let x = quoted(a);
    let y = quoted(b);
    assert(x.subrange(1, x.len() - 1) =~= replaced(a, '"', "\"\""@));
    assert(y.subrange(1, y.len() - 1) =~= replaced(b, '"', "\"\""@));
    doubling_keeps_apart(a, b, '"');
}

/// The text as it stands in a SQL literal.
pub open spec fn literal(text: Seq<char>) -> Seq<char> {
    replaced(text, '\'', "''"@)
}

/// The text as it stands in a SQL literal: its quotes are doubled.
pub fn sql_literal(text: &str) -> (escaped: String)
    ensures
        escaped@ == literal(text@),
{
    replace_char(text, '\'', "''")
}

/// SQL that makes `view` show the rows of the parquet file.
pub open spec fn view_text(view: Seq<char>, path: Seq<char>) -> Seq<char> {
    "CREATE OR REPLACE VIEW nsight."@ + view
        + " AS SELECT (file_row_number + 1) AS rowid, * FROM read_parquet('"@ + literal(path)
        + "', file_row_number = true)"@
}

/// SQL that makes `view` show the rows of the parquet file.
///
/// `file_row_number` gives every row a deterministic identifier in its table;
/// one is added so that identifiers start at 1.
pub fn view_sql(view: &str, path: &str) -> (text: String)
    ensures
        text@ == view_text(view@, path@),
{
    let mut text = "CREATE OR REPLACE VIEW nsight.".to_owned();
    text.append(view);
    text.append(" AS SELECT (file_row_number + 1) AS rowid, * FROM read_parquet('");
    text.append(sql_literal(path).as_str());
    text.append("', file_row_number = true)");
    text
}

/// SQL that makes the view of the table over its parquet file.
pub fn parquet_view_sql(table: &str, path: &str) -> (text: String)
    ensures
        text@ == view_text(quoted(table@), path@),
{
    view_sql(quote_sql_identifier(table).as_str(), path)
}

/// SQL that sets the number of DuckDB's worker threads.
pub fn threads_sql(threads: usize) -> (text: String)
    ensures
        text@ == "PRAGMA threads="@ + decimal(threads as int),
{
    let mut text = "PRAGMA threads=".to_owned();
    text.append(u64_text(threads as u64).as_str());
    text
}

/// SQL that sets the most memory that DuckDB takes.
pub fn memory_limit_sql(bytes: u64) -> (text: String)
    ensures
        text@ == "SET memory_limit = '"@ + decimal(bytes as int) + "B'"@,
{
    let mut text = "SET memory_limit = '".to_owned();
    text.append(u64_text(bytes).as_str());
    text.append("B'");
    text
}

/// SQL for the first and the last time of a table.
pub open spec fn span_text(min_expr: Seq<char>, max_expr: Seq<char>, table: Seq<char>) -> Seq<char> {
    "SELECT MIN("@
        + min_expr
        + "), MAX("@
        + max_expr
        + ") FROM nsight.\""@
        + table
        + "\""@
}

/// SQL for the first and the last time of a table.
pub fn span_sql(min_expr: &str, max_expr: &str, table: &str) -> (text: String)
    ensures
        text@ == span_text(min_expr@, max_expr@, table@),
{
    let mut text = "SELECT MIN(".to_owned();
    text.append(min_expr);
    text.append("), MAX(");
    text.append(max_expr);
    text.append(") FROM nsight.\"");
    text.append(table);
    text.append("\"");
    text
}

/// SQL for the first and the last time of an event table.
pub fn event_span_sql(table: &str) -> (text: String)
    ensures
        text@ == span_text("start"@, "COALESCE(\"end\", start)"@, table@),
{
    span_sql("start", "COALESCE(\"end\", start)", table)
}

/// SQL for the number of rows of a table.
pub fn count_sql(table: &str) -> (text: String)
    ensures
        text@ == "SELECT COUNT(*) FROM nsight."@ + quoted(table@),
{
    let mut text = "SELECT COUNT(*) FROM nsight.".to_owned();
    text.append(quote_sql_identifier(table).as_str());
    text
}

/// One table of a parquetdir.
#[derive(Debug, Clone)]
pub struct TableFile {
    /// Name of the file.
    pub file: String,
    /// Name of the table: that of the file without its extension.
    pub table: String,
}

/// The table that a file of this name holds: none where it is no parquet file.
pub open spec fn table_in(file: Seq<char>) -> Option<Seq<char>> {
    match without_suffix(file, ".parquet"@) {
        Some(stem) => if stem.len() > 0 {
            Some(stem)
        } else {
            None
        },
        None => None,
    }
}

/// The files among the first `n` that hold tables.
pub open spec fn table_names(files: Seq<Seq<char>>, n: nat) -> Seq<Seq<char>>
    decreases n,
{
    if n == 0 {
        seq![]
    } else {
        let before = table_names(files, (n - 1) as nat);
        if table_in(files[n - 1]) is Some {
            before.push(files[n - 1])
        } else {
            before
        }
    }
}

/// Sort keys by name.
pub open spec fn file_keys(files: Seq<Seq<char>>) -> Seq<Seq<int>> {
    files.map_values(|f: Seq<char>| char_codes(f))
}

/// The files that hold tables, by name.
pub open spec fn table_listing(files: Seq<Seq<char>>) -> Seq<Seq<char>> {
    let kept = table_names(files, files.len());
    sort_order_of(file_keys(kept)).map_values(|i: int| kept[i])
}

/// A key that orders text by code points.
pub fn text_key(text: &str) -> (key: ListKey)
    ensures
        key.sort_key() == char_codes(text@),
{
    let chars = str_chars(text);
    let mut parts: Vec<i128> = Vec::new();
    let mut i: usize = 0;
    while i < chars.len()
        invariant
            i <= chars.len(),
            chars@ == text@,
            parts.len() == i,
            forall|x: int| 0 <= x < i ==> #[trigger] parts@[x] == chars@[x] as int,
        decreases chars.len() - i,
    {
        parts.push(code(chars[i]));
        i = i + 1;
    }
    let key = ListKey { parts };
    assert(numbers(key.parts@) =~= char_codes(text@));
    key
}

fn code(c: char) -> (n: i128)
    ensures
        n == c as int,
{
    c as u32 as i128
}

/// The table that a file of this name holds.
fn table_of(file: &str) -> (table: Option<String>)
    ensures
        text_of(table) == table_in(file@),
{
    match strip_suffix(file, ".parquet") {
        Some(stem) => if stem.as_str().is_empty() {
            None
        } else {
            Some(stem)
        },
        None => None,
    }
}

/// The tables among the files of a parquetdir, by file name.
pub fn table_files(files: &Vec<String>) -> (tables: Vec<TableFile>)
    ensures
        tables@.len() == table_listing(strings(files@)).len(),
        forall|i: int|
            #![trigger tables@[i]]
            0 <= i < tables@.len() ==> tables@[i].file@ == table_listing(
                strings(files@),
            )[i] && table_in(tables@[i].file@) == Some(tables@[i].table@),
{
    let ghost names = strings(files@);
    let mut kept: Vec<TableFile> = Vec::new();
    let mut keys: Vec<ListKey> = Vec::new();
    let mut i: usize = 0;
    while i < files.len()
        invariant
            i <= files.len(),
            names == strings(files@),
            kept.len() == keys.len(),
            kept.len() == table_names(names, i as nat).len(),
            forall|x: int|
                #![trigger kept@[x]]
                0 <= x < kept.len() ==> kept@[x].file@ == table_names(names, i as nat)[x]
                    && table_in(kept@[x].file@) == Some(kept@[x].table@),
            forall|x: int|
                0 <= x < keys.len() ==> (#[trigger] keys@[x]).sort_key() == char_codes(
                    table_names(names, i as nat)[x],
                ),
        decreases files.len() - i,
    {
        let file = files[i].as_str();
        assert(names[i as int] == file@);
        if let Some(table) = table_of(file) {
            keys.push(text_key(file));
            kept.push(TableFile { file: file.to_owned(), table });
        }
        i = i + 1;
    }
    let ghost all = table_names(names, names.len());
    assert(keys_of(keys@) =~= file_keys(all));
    let order = sort_order(keys.as_slice());
    let ghost listed = table_listing(names);
    assert forall|x: int| 0 <= x < order.len() implies 0 <= #[trigger] order@[x] < all.len() by {
        assert(0 <= positions(order@)[x] < all.len());
    }
    let mut tables: Vec<TableFile> = Vec::new();
    let mut j: usize = 0;
    while j < order.len()
        invariant
            j <= order.len(),
            tables.len() == j,
            all == table_names(names, names.len()),
            positions(order@) == sort_order_of(file_keys(all)),
            listed == table_listing(names),
            listed.len() == order.len(),
            kept.len() == all.len(),
            forall|x: int| 0 <= x < order.len() ==> 0 <= #[trigger] order@[x] < all.len(),
            forall|x: int|
                #![trigger kept@[x]]
                0 <= x < kept.len() ==> kept@[x].file@ == all[x] && table_in(kept@[x].file@)
                    == Some(kept@[x].table@),
            forall|x: int|
                #![trigger tables@[x]]
                0 <= x < tables@.len() ==> tables@[x].file@ == listed[x] && table_in(
                    tables@[x].file@,
                ) == Some(tables@[x].table@),
        decreases order.len() - j,
    {
        assert(positions(order@)[j as int] == order@[j as int]);
        let from = &kept[order[j]];
        tables.push(TableFile { file: from.file.clone(), table: from.table.clone() });
        j = j + 1;
    }
    tables
}

} // verus!
