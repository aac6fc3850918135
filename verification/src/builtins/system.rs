//! `showt`: a table of a list of dictionaries or of a dictionary of lists, laid out in
//! aligned columns.

use vstd::prelude::*;
use crate::collate::{sort_texts, text_order, texts_of};
use crate::error::{WqError, WqErrorType, WqResult};
use crate::lexer::utf8_len;
use crate::lexspec::{utf8_size, utf8_width};
use crate::text::{append_chars, chars_eq, chars_of, string_from_chars, trim_end_chars, trim_end_v};
use crate::value::{Value, Val, display_v};

verus! {

/// The UTF-8 size of cell `j` of a row (0 where the row has none).
pub open spec fn cell_size(row: Seq<Seq<char>>, j: int) -> nat {
    if 0 <= j < row.len() {
        utf8_size(row[j])
    } else {
        0
    }
}

/// The width of column `j` over the first `k` rows: the largest UTF-8 size of its cells.
pub open spec fn col_width(table: Seq<Seq<Seq<char>>>, j: int, k: int) -> nat
    decreases k,
{
    if k <= 0 || k > table.len() {
        0
    } else {
        let w = col_width(table, j, k - 1);
        let c = cell_size(table[k - 1], j);
        if c > w {
            c
        } else {
            w
        }
    }
}

/// A cell padded with spaces to a width counted in characters.
pub open spec fn padded(cell: Seq<char>, w: nat) -> Seq<char> {
    if cell.len() < w {
        cell + Seq::new((w - cell.len()) as nat, |i: int| ' ')
    } else {
        cell
    }
}

/// The first `j` cells of a row, each padded to the width of its column, joined by spaces.
pub open spec fn row_join(row: Seq<Seq<char>>, table: Seq<Seq<Seq<char>>>, j: int) -> Seq<char>
    decreases j,
{
    if j <= 0 || j > row.len() {
        Seq::empty()
    } else if j == 1 {
        padded(row[0], col_width(table, 0, table.len() as int))
    } else {
        row_join(row, table, j - 1) + seq![' '] + padded(row[j - 1], col_width(table, j - 1, table.len() as int))
    }
}

/// The line of a row: its padded cells joined by spaces, without trailing whitespace.
pub open spec fn row_line(row: Seq<Seq<char>>, table: Seq<Seq<Seq<char>>>) -> Seq<char> {
    trim_end_v(row_join(row, table, row.len() as int))
}

/// The rows of a table: the header row where there is one, then the data rows.
pub open spec fn table_of(headers: Seq<Seq<char>>, rows: Seq<Seq<Seq<char>>>) -> Seq<Seq<Seq<char>>> {
    if headers.len() > 0 {
        seq![headers] + rows
    } else {
        rows
    }
}

/// The lines of a table, one per row.
pub open spec fn table_lines_v(headers: Seq<Seq<char>>, rows: Seq<Seq<Seq<char>>>) -> Seq<Seq<char>> {
    let t = table_of(headers, rows);
    Seq::new(t.len(), |i: int| row_line(t[i], t))
}

/// The UTF-8 size of some characters.
pub fn size_of(v: &Vec<char>) -> (r: u128)
    ensures
        r == utf8_size(v@),
{
    let mut total: u128 = 0;
    let mut i: usize = 0;
    while i < v.len()
        invariant
            i <= v.len(),
            total == utf8_size(v@.take(i as int)),
            total <= 4 * i,
        decreases v.len() - i,
    {
        assert(v@.take(i + 1).drop_last() =~= v@.take(i as int));
        total = total + utf8_len(v[i]) as u128;
        i += 1;
    }
    assert(v@.take(v@.len() as int) =~= v@);
    total
}

/// The rows of a table as a sequence of sequences of texts.
pub open spec fn rows_of(t: Seq<Vec<Vec<char>>>) -> Seq<Seq<Seq<char>>> {
    t.map_values(|r: Vec<Vec<char>>| texts_of(r@))
}

/// The widths of the first `n` columns of a table.
fn col_widths(table: &Vec<Vec<Vec<char>>>, n: usize) -> (r: Vec<u128>)
    ensures
        r@.len() == n,
        forall|j: int| 0 <= j < n ==> #[trigger] r@[j] == col_width(rows_of(table@), j, table@.len() as int),
{
    let ghost t = rows_of(table@);
    let mut widths: Vec<u128> = Vec::new();
    let mut j: usize = 0;
    while j < n
        invariant
            t == rows_of(table@),
            j <= n,
            widths@.len() == j,
            forall|q: int| 0 <= q < j ==> #[trigger] widths@[q] == col_width(t, q, table@.len() as int),
        decreases n - j,
    {
        let mut w: u128 = 0;
        let mut k: usize = 0;
        while k < table.len()
            invariant
                t == rows_of(table@),
                k <= table@.len(),
                w == col_width(t, j as int, k as int),
            decreases table.len() - k,
        {
            assert(t[k as int] == texts_of(table@[k as int]@));
            if j < table[k].len() {
                assert(t[k as int][j as int] == table@[k as int]@[j as int]@);
                let c = size_of(&table[k][j]);
                if c > w {
                    w = c;
                }
            }
            k += 1;
        }
        widths.push(w);
        j += 1;
    }
    widths
}

/// A cell padded with spaces to a width.
pub fn pad_cell(out: &mut Vec<char>, cell: &Vec<char>, w: u128)
    ensures
        final(out)@ == old(out)@ + padded(cell@, w as nat),
{
    append_chars(out, cell);
    let n = cell.len() as u128;
    if n < w {
        let ghost base = old(out)@ + cell@;
        let mut k: u128 = n;
        while k < w
            invariant
                n <= k <= w,
                n == cell@.len(),
                out@ == base + Seq::new((k - n) as nat, |i: int| ' '),
            decreases w - k,
        {
            out.push(' ');
            assert(Seq::new((k + 1 - n) as nat, |i: int| ' ') =~= Seq::new((k - n) as nat, |i: int| ' ').push(' '));
            k += 1;
        }
        assert(out@ =~= old(out)@ + padded(cell@, w as nat));
    } else {
        assert(out@ =~= old(out)@ + padded(cell@, w as nat));
    }
}

/// The line of one row of a table.
fn row_text(row: &Vec<Vec<char>>, table: &Vec<Vec<Vec<char>>>, widths: &Vec<u128>) -> (r: Vec<char>)
    requires
        row@.len() <= widths@.len(),
        forall|j: int| 0 <= j < widths@.len() ==> #[trigger] widths@[j] == col_width(rows_of(table@), j, table@.len() as int),
    ensures
        r@ == row_line(texts_of(row@), rows_of(table@)),
{
    let ghost t = rows_of(table@);
    let ghost cells = texts_of(row@);
    let mut out: Vec<char> = Vec::new();
    let mut j: usize = 0;
    while j < row.len()
        invariant
            t == rows_of(table@),
            cells == texts_of(row@),
            row@.len() <= widths@.len(),
            forall|q: int| 0 <= q < widths@.len() ==> #[trigger] widths@[q] == col_width(t, q, table@.len() as int),
            j <= row@.len(),
            out@ == row_join(cells, t, j as int),
        decreases row.len() - j,
    {
        assert(cells[j as int] == row@[j as int]@);
        assert(widths@[j as int] == col_width(t, j as int, table@.len() as int));
        if j > 0 {
            out.push(' ');
        }
        pad_cell(&mut out, &row[j], widths[j]);
        j += 1;
    }
    trim_end_chars(&out)
}

/// Lays a table out: one line per row, each cell padded to the width of its column.
fn table_lines(headers: Vec<Vec<char>>, rows: Vec<Vec<Vec<char>>>) -> (r: Vec<Vec<char>>)
    requires
        forall|i: int| 0 <= i < rows@.len() ==> (#[trigger] rows@[i])@.len() == headers@.len(),
    ensures
        texts_of(r@) == table_lines_v(texts_of(headers@), rows_of(rows@)),
{
    let n = headers.len();
    let ghost hv = texts_of(headers@);
    let ghost rv = rows_of(rows@);
    let mut table: Vec<Vec<Vec<char>>> = Vec::new();
    if n > 0 {
        table.push(headers);
    }
    let mut rows = rows;
    table.append(&mut rows);
    assert(rows_of(table@) =~= table_of(hv, rv));
    assert(forall|i: int| 0 <= i < table@.len() ==> (#[trigger] table@[i])@.len() == n);
    let widths = col_widths(&table, n);
    let ghost t = rows_of(table@);
    let mut out: Vec<Vec<char>> = Vec::new();
    let mut i: usize = 0;
    while i < table.len()
        invariant
            t == rows_of(table@),
            widths@.len() == n,
            forall|q: int| 0 <= q < table@.len() ==> (#[trigger] table@[q])@.len() == n,
            forall|j: int| 0 <= j < n ==> #[trigger] widths@[j] == col_width(t, j, table@.len() as int),
            i <= table@.len(),
            out@.len() == i,
            forall|q: int| 0 <= q < i ==> (#[trigger] out@[q])@ == row_line(t[q], t),
        decreases table.len() - i,
    {
        assert(t[i as int] == texts_of(table@[i as int]@));
        let line = row_text(&table[i], &table, &widths);
        out.push(line);
        i += 1;
    }
    assert(texts_of(out@) =~= table_lines_v(hv, rv));
    out
}

/// The entries of a dictionary, with their keys as character sequences.
pub open spec fn entries_v(es: Seq<(String, Value)>) -> Seq<(Seq<char>, Val)> {
    Seq::new(es.len(), |i: int| (es[i].0@, es[i].1@))
}

proof fn lemma_dict_view(es: Vec<(String, Value)>)
    ensures
        Value::Dict(es)@ == Val::Dict(entries_v(es@)),
{
    assert(Value::Dict(es)@->Dict_0 =~= entries_v(es@));
}

/// An integer model.
pub open spec fn int_val(n: i64) -> Val {
    Val::Int(n)
}

/// The elements of a list (those of an integer list as integers); none for another value.
pub open spec fn list_items_v(v: Val) -> Option<Seq<Val>> {
    match v {
        Val::List(items) => Some(items),
        Val::IntList(ns) => Some(Seq::new(ns.len(), |i: int| int_val(ns[i]))),
        _ => None,
    }
}

/// A value as a column: a list as its elements, anything else as a column of one.
pub open spec fn column_v(v: Val) -> Seq<Val> {
    match list_items_v(v) {
        Some(items) => items,
        None => seq![v],
    }
}

/// The keys of `es[..k]` that are not among `acc`, added after it in order of first
/// appearance.
pub open spec fn keys_in(es: Seq<(Seq<char>, Val)>, acc: Seq<Seq<char>>, k: int) -> Seq<Seq<char>>
    decreases k,
{
    if k <= 0 || k > es.len() {
        acc
    } else {
        let a = keys_in(es, acc, k - 1);
        if a.contains(es[k - 1].0) {
            a
        } else {
            a.push(es[k - 1].0)
        }
    }
}

/// The value of the first entry from `es[i]` on with a key.
pub open spec fn lookup_from(es: Seq<(Seq<char>, Val)>, key: Seq<char>, i: int) -> Option<Val>
    decreases es.len() - i,
{
    if i < 0 || i >= es.len() {
        None
    } else if es[i].0 == key {
        Some(es[i].1)
    } else {
        lookup_from(es, key, i + 1)
    }
}

/// The entries of a dictionary model (none for another value).
pub open spec fn dict_entries(v: Val) -> Seq<(Seq<char>, Val)> {
    match v {
        Val::Dict(es) => es,
        _ => Seq::empty(),
    }
}

/// The cell of row `i` under a key of a dictionary of columns: the text of element `i` of
/// the key's column, empty where the column is shorter.
pub open spec fn column_cell(es: Seq<(Seq<char>, Val)>, key: Seq<char>, i: int) -> Seq<char> {
    match lookup_from(es, key, 0) {
        Some(v) => if i < column_v(v).len() {
            display_v(column_v(v)[i])
        } else {
            Seq::empty()
        },
        None => Seq::empty(),
    }
}

/// The longest of the columns under `hs[..k]`.
pub open spec fn max_column(es: Seq<(Seq<char>, Val)>, hs: Seq<Seq<char>>, k: int) -> nat
    decreases k,
{
    if k <= 0 || k > hs.len() {
        0
    } else {
        let m = max_column(es, hs, k - 1);
        let c = match lookup_from(es, hs[k - 1], 0) {
            Some(v) => column_v(v).len(),
            None => 0,
        };
        if c > m {
            c
        } else {
            m
        }
    }
}

/// The sorted keys of a dictionary.
pub open spec fn dict_headers(es: Seq<(Seq<char>, Val)>) -> Seq<Seq<char>> {
    keys_in(es, Seq::empty(), es.len() as int).sort_by(text_order())
}

/// The rows of a dictionary of columns: as many as its longest column has elements.
pub open spec fn dict_rows(es: Seq<(Seq<char>, Val)>) -> Seq<Seq<Seq<char>>> {
    let hs = dict_headers(es);
    Seq::new(max_column(es, hs, hs.len() as int), |i: int| Seq::new(hs.len(), |j: int| column_cell(es, hs[j], i)))
}

/// The keys found in the dictionaries `rows[..k]`, in order of first appearance.
pub open spec fn all_keys(rows: Seq<Val>, k: int) -> Seq<Seq<char>>
    decreases k,
{
    if k <= 0 || k > rows.len() {
        Seq::empty()
    } else {
        let es = dict_entries(rows[k - 1]);
        keys_in(es, all_keys(rows, k - 1), es.len() as int)
    }
}

/// The sorted keys of a list of dictionaries.
pub open spec fn list_headers(rows: Seq<Val>) -> Seq<Seq<char>> {
    all_keys(rows, rows.len() as int).sort_by(text_order())
}

/// The cell of a dictionary under a key: the text of its value, empty where it has none.
pub open spec fn entry_cell(es: Seq<(Seq<char>, Val)>, key: Seq<char>) -> Seq<char> {
    match lookup_from(es, key, 0) {
        Some(v) => display_v(v),
        None => Seq::empty(),
    }
}

/// The rows of a list of dictionaries: one per dictionary.
pub open spec fn list_rows(rows: Seq<Val>) -> Seq<Seq<Seq<char>>> {
    let hs = list_headers(rows);
    Seq::new(rows.len(), |i: int| Seq::new(hs.len(), |j: int| entry_cell(dict_entries(rows[i]), hs[j])))
}

/// Whether every element is a dictionary.
pub open spec fn all_dicts(items: Seq<Val>) -> bool {
    forall|i: int| 0 <= i < items.len() ==> #[trigger] items[i] is Dict
}

/// Whether some texts are in a collection of texts.
fn contains_text(acc: &Vec<Vec<char>>, key: &Vec<char>) -> (r: bool)
    ensures
        r == texts_of(acc@).contains(key@),
{
    let mut i: usize = 0;
    while i < acc.len()
        invariant
            i <= acc@.len(),
            forall|q: int| 0 <= q < i ==> texts_of(acc@)[q] != key@,
        decreases acc.len() - i,
    {
        if chars_eq(&acc[i], key) {
            assert(texts_of(acc@)[i as int] == key@);
            return true;
        }
        i += 1;
    }
    false
}

/// Adds the keys of a dictionary that are not yet among `acc`, in order.
fn add_keys(es: &Vec<(String, Value)>, acc: &mut Vec<Vec<char>>)
    ensures
        texts_of(final(acc)@) == keys_in(entries_v(es@), texts_of(old(acc)@), es@.len() as int),
{
    let ghost ev = entries_v(es@);
    let ghost start = texts_of(acc@);
    let mut k: usize = 0;
    while k < es.len()
        invariant
            ev == entries_v(es@),
            k <= es@.len(),
            texts_of(acc@) == keys_in(ev, start, k as int),
        decreases es.len() - k,
    {
        let key = chars_of(es[k].0.as_str());
        assert(ev[k as int].0 == key@);
        if !contains_text(acc, &key) {
            let ghost before = texts_of(acc@);
            acc.push(key);
            assert(texts_of(acc@) =~= before.push(ev[k as int].0));
        }
        k += 1;
    }
}

/// The index of the first entry with a key.
fn lookup_entry(es: &Vec<(String, Value)>, key: &Vec<char>) -> (r: Option<usize>)
    ensures
        match lookup_from(entries_v(es@), key@, 0) {
            Some(v) => r matches Some(i) && i < es@.len() && es@[i as int].1@ == v,
            None => r is None,
        },
{
    let ghost ev = entries_v(es@);
    let mut i: usize = 0;
    while i < es.len()
        invariant
            ev == entries_v(es@),
            i <= es@.len(),
            lookup_from(ev, key@, 0) == lookup_from(ev, key@, i as int),
        decreases es.len() - i,
    {
        let k = chars_of(es[i].0.as_str());
        assert(ev[i as int] == (es@[i as int].0@, es@[i as int].1@));
        if chars_eq(&k, key) {
            return Some(i);
        }
        i += 1;
    }
    None
}

/// The number of elements of a value taken as a column.
fn column_len(v: &Value) -> (r: usize)
    ensures
        r == column_v(v@).len(),
{
    match v {
        Value::List(items) => {
            proof {
                crate::value::lemma_list_view(*items);
            }
            items.len()
        },
        Value::IntList(ns) => ns.len(),
        _ => 1,
    }
}

/// The text of element `i` of a value taken as a column (empty past its end).
fn column_text(v: &Value, i: usize) -> (r: Vec<char>)
    ensures
        r@ == (if i < column_v(v@).len() { display_v(column_v(v@)[i as int]) } else { Seq::empty() }),
{
    match v {
        Value::List(items) => {
            proof {
                crate::value::lemma_list_view(*items);
            }
            if i < items.len() {
                assert(crate::value::vals(items@)[i as int] == items@[i as int]@);
                items[i].display_chars()
            } else {
                Vec::new()
            }
        },
        Value::IntList(ns) => {
            if i < ns.len() {
                let x = Value::Int(ns[i]);
                assert(x@ == int_val(ns@[i as int]));
                x.display_chars()
            } else {
                Vec::new()
            }
        },
        _ => {
            if i == 0 {
                v.display_chars()
            } else {
                Vec::new()
            }
        },
    }
}

/// The cells of a dictionary of columns.
fn dict_table(es: &Vec<(String, Value)>) -> (r: (Vec<Vec<char>>, Vec<Vec<Vec<char>>>))
    ensures
        texts_of(r.0@) == dict_headers(entries_v(es@)),
        rows_of(r.1@) == dict_rows(entries_v(es@)),
        forall|i: int| 0 <= i < r.1@.len() ==> (#[trigger] r.1@[i])@.len() == r.0@.len(),
{
    let ghost ev = entries_v(es@);
    let mut keys: Vec<Vec<char>> = Vec::new();
    assert(texts_of(keys@) =~= Seq::<Seq<char>>::empty());
    add_keys(es, &mut keys);
    let ghost kv = texts_of(keys@);
    assert(kv == keys_in(ev, Seq::empty(), ev.len() as int));
    let headers = sort_texts(keys);
    let ghost hs = texts_of(headers@);
    assert(hs == dict_headers(ev));
    let mut cols: Vec<Option<usize>> = Vec::new();
    let mut nrows: usize = 0;
    let mut j: usize = 0;
    while j < headers.len()
        invariant
            ev == entries_v(es@),
            hs == texts_of(headers@),
            j <= headers@.len(),
            cols@.len() == j,
            nrows == max_column(ev, hs, j as int),
            forall|q: int| 0 <= q < j ==> match lookup_from(ev, hs[q], 0) {
                Some(v) => (#[trigger] cols@[q]) matches Some(x) && x < es@.len() && es@[x as int].1@ == v,
                None => cols@[q] is None,
            },
        decreases headers.len() - j,
    {
        assert(hs[j as int] == headers@[j as int]@);
        let c = lookup_entry(es, &headers[j]);
        let len = match c {
            Some(x) => column_len(&es[x].1),
            None => 0,
        };
        if len > nrows {
            nrows = len;
        }
        cols.push(c);
        j += 1;
    }
    let mut rows: Vec<Vec<Vec<char>>> = Vec::new();
    let mut i: usize = 0;
    while i < nrows
        invariant
            ev == entries_v(es@),
            hs == texts_of(headers@),
            cols@.len() == headers@.len(),
            nrows == max_column(ev, hs, hs.len() as int),
            forall|q: int| 0 <= q < hs.len() ==> match lookup_from(ev, hs[q], 0) {
                Some(v) => (#[trigger] cols@[q]) matches Some(x) && x < es@.len() && es@[x as int].1@ == v,
                None => cols@[q] is None,
            },
            i <= nrows,
            rows@.len() == i,
            forall|p: int| 0 <= p < i ==> (#[trigger] rows@[p])@.len() == headers@.len(),
            forall|p: int| 0 <= p < i ==> texts_of((#[trigger] rows@[p])@) == Seq::new(hs.len(), |q: int| column_cell(ev, hs[q], p)),
        decreases nrows - i,
    {
        let mut row: Vec<Vec<char>> = Vec::new();
        let mut q: usize = 0;
        while q < headers.len()
            invariant
                ev == entries_v(es@),
                hs == texts_of(headers@),
                cols@.len() == headers@.len(),
                forall|z: int| 0 <= z < hs.len() ==> match lookup_from(ev, hs[z], 0) {
                    Some(v) => (#[trigger] cols@[z]) matches Some(x) && x < es@.len() && es@[x as int].1@ == v,
                    None => cols@[z] is None,
                },
                q <= headers@.len(),
                row@.len() == q,
                forall|z: int| 0 <= z < q ==> (#[trigger] row@[z])@ == column_cell(ev, hs[z], i as int),
            decreases headers.len() - q,
        {
            let cell = match cols[q] {
                Some(x) => column_text(&es[x].1, i),
                None => Vec::new(),
            };
            row.push(cell);
            q += 1;
        }
        assert(texts_of(row@) =~= Seq::new(hs.len(), |z: int| column_cell(ev, hs[z], i as int)));
        rows.push(row);
        i += 1;
    }
    assert(rows_of(rows@) =~= dict_rows(ev));
    (headers, rows)
}

/// The cells of a list of dictionaries.
fn list_table(items: &Vec<Value>) -> (r: (Vec<Vec<char>>, Vec<Vec<Vec<char>>>))
    requires
        all_dicts(crate::value::vals(items@)),
    ensures
        texts_of(r.0@) == list_headers(crate::value::vals(items@)),
        rows_of(r.1@) == list_rows(crate::value::vals(items@)),
        forall|i: int| 0 <= i < r.1@.len() ==> (#[trigger] r.1@[i])@.len() == r.0@.len(),
{
    let ghost iv = crate::value::vals(items@);
    let mut keys: Vec<Vec<char>> = Vec::new();
    assert(texts_of(keys@) =~= Seq::<Seq<char>>::empty());
    let mut k: usize = 0;
    while k < items.len()
        invariant
            iv == crate::value::vals(items@),
            all_dicts(iv),
            k <= items@.len(),
            texts_of(keys@) == all_keys(iv, k as int),
        decreases items.len() - k,
    {
        assert(iv[k as int] == items@[k as int]@);
        match &items[k] {
            Value::Dict(es) => {
                proof {
                    lemma_dict_view(*es);
                }
                add_keys(es, &mut keys);
            },
            _ => {
                assert(iv[k as int] is Dict);
            },
        }
        k += 1;
    }
    let ghost kv = texts_of(keys@);
    let headers = sort_texts(keys);
    let ghost hs = texts_of(headers@);
    assert(hs == list_headers(iv));
    let mut rows: Vec<Vec<Vec<char>>> = Vec::new();
    let mut i: usize = 0;
    while i < items.len()
        invariant
            iv == crate::value::vals(items@),
            all_dicts(iv),
            hs == texts_of(headers@),
            i <= items@.len(),
            rows@.len() == i,
            forall|p: int| 0 <= p < i ==> (#[trigger] rows@[p])@.len() == headers@.len(),
            forall|p: int| 0 <= p < i ==> texts_of((#[trigger] rows@[p])@) == Seq::new(
                hs.len(),
                |q: int| entry_cell(dict_entries(iv[p]), hs[q]),
            ),
        decreases items.len() - i,
    {
        assert(iv[i as int] == items@[i as int]@);
        assert(iv[i as int] is Dict);
        let es = match &items[i] {
            Value::Dict(es) => es,
            _ => {
                proof {
                    assert(false);
                }
                return (headers, rows);
            },
        };
        proof {
            lemma_dict_view(*es);
        }
        let ghost ev = entries_v(es@);
        let mut row: Vec<Vec<char>> = Vec::new();
        let mut q: usize = 0;
        while q < headers.len()
            invariant
                hs == texts_of(headers@),
                ev == entries_v(es@),
                q <= headers@.len(),
                row@.len() == q,
                forall|z: int| 0 <= z < q ==> (#[trigger] row@[z])@ == entry_cell(ev, hs[z]),
            decreases headers.len() - q,
        {
            assert(hs[q as int] == headers@[q as int]@);
            let cell = match lookup_entry(es, &headers[q]) {
                Some(x) => es[x].1.display_chars(),
                None => Vec::new(),
            };
            row.push(cell);
            q += 1;
        }
        assert(texts_of(row@) =~= Seq::new(hs.len(), |z: int| entry_cell(dict_entries(iv[i as int]), hs[z])));
        rows.push(row);
        i += 1;
    }
    assert(rows_of(rows@) =~= list_rows(iv));
    (headers, rows)
}

/// The message for a value that is not a table.
pub open spec fn not_a_table_msg() -> Seq<char> {
    "failed parsing table, expected a list of dicts, a dict of lists, or a dict of dicts"@
}

/// What `showt[x]` gives: the lines of the table of a dictionary, whose values are its
/// columns (a value that is not a list is a column of one), or of a list of dictionaries,
/// each a row; the columns are the keys in the order of code points.
pub open spec fn show_table_ok(args: Seq<Value>, r: WqResult<Vec<String>>) -> bool {
    if args.len() != 1 {
        r matches Err(e) && e.kind == WqErrorType::Arity && e.msg@ == "showt expects 1 argument"@
    } else {
        match args[0]@ {
            Val::Dict(es) => r matches Ok(ls) && ls@.map_values(|l: String| l@) == table_lines_v(
                dict_headers(es),
                dict_rows(es),
            ),
            Val::List(items) => if all_dicts(items) {
                r matches Ok(ls) && ls@.map_values(|l: String| l@) == table_lines_v(list_headers(items), list_rows(items))
            } else {
                r matches Err(e) && e.kind == WqErrorType::Runtime && e.msg@ == not_a_table_msg()
            },
            _ => r matches Err(e) && e.kind == WqErrorType::Runtime && e.msg@ == not_a_table_msg(),
        }
    }
}

/// `showt[x]`: the lines of a table, for the caller to print.
pub fn show_table(args: &[Value]) -> (r: WqResult<Vec<String>>)
    ensures
        show_table_ok(args@, r),
{
    if args.len() != 1 {
        return Err(WqError::new(WqErrorType::Arity).msg("showt expects 1 argument"));
    }
    let (headers, rows) = match &args[0] {
        Value::Dict(es) => {
            proof {
                lemma_dict_view(*es);
            }
            dict_table(es)
        },
        Value::List(items) => {
            proof {
                crate::value::lemma_list_view(*items);
            }
            let mut k: usize = 0;
            while k < items.len()
                invariant
                    args@.len() == 1,
                    args@[0]@ == Val::List(crate::value::vals(items@)),
                    k <= items@.len(),
                    forall|q: int| 0 <= q < k ==> (#[trigger] crate::value::vals(items@)[q]) is Dict,
                decreases items.len() - k,
            {
                assert(crate::value::vals(items@)[k as int] == items@[k as int]@);
                match &items[k] {
                    Value::Dict(_) => {},
                    _ => {
                        assert(!(crate::value::vals(items@)[k as int] is Dict));
                        assert(!all_dicts(crate::value::vals(items@)));
                        return Err(WqError::new(WqErrorType::Runtime).msg(
                            "failed parsing table, expected a list of dicts, a dict of lists, or a dict of dicts",
                        ));
                    },
                }
                k += 1;
            }
            list_table(items)
        },
        _ => {
            return Err(WqError::new(WqErrorType::Runtime).msg(
                "failed parsing table, expected a list of dicts, a dict of lists, or a dict of dicts",
            ));
        },
    };
    let lines = table_lines(headers, rows);
    let mut out: Vec<String> = Vec::new();
    let mut i: usize = 0;
    while i < lines.len()
        invariant
            i <= lines@.len(),
            out@.len() == i,
            forall|q: int| 0 <= q < i ==> (#[trigger] out@[q])@ == lines@[q]@,
        decreases lines.len() - i,
    {
        out.push(string_from_chars(lines[i].as_slice()));
        i += 1;
    }
    assert(out@.map_values(|l: String| l@) =~= texts_of(lines@));
    Ok(out)
}

} // verus!
