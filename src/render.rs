//! Rendering of a query response as indented JSON, as the extracted result
//! array, or as an aligned text table.
use vstd::prelude::*;
use crate::json::{Json, json_text, json_pretty, parsed_json, compact_text, pretty_text, parse_json};

verus! {

/// The output formats a result can be rendered in.
#[derive(Debug, Clone, Copy, PartialEq, Eq, Structural)]
pub enum Format {
    Raw,
    JSON,
    CSV,
    Table,
}

/// Why a response could not be rendered.
#[derive(Debug, Clone, Copy, PartialEq, Eq, Structural)]
pub enum RenderError {
    /// The response is not JSON, or not a result envelope.
    MalformedResponse,
    /// The format has no renderer.
    UnsupportedFormat,
}

impl Format {
    /// Picks the format from the selector flags: JSON before CSV before raw;
    /// a table when none is set.
    pub fn from_flags(json: bool, csv: bool, raw: bool) -> (r: Format)
        ensures
            r == (if json {
                Format::JSON
            } else if csv {
                Format::CSV
            } else if raw {
                Format::Raw
            } else {
                Format::Table
            }),
    {
        if json {
            Format::JSON
        } else if csv {
            Format::CSV
        } else if raw {
            Format::Raw
        } else {
            Format::Table
        }
    }
}

/// The diagnostic line written for an array element that is neither a
/// string nor an object.
pub const UNEXPECTED: &'static str = "Unexpected type in result!\n";

/// `s` without one surrounding pair of double quotes, where it has one.
pub open spec fn strip_quotes(s: Seq<char>) -> Seq<char> {
    if s.len() >= 2 && s[0] == '"' && s[s.len() - 1] == '"' {
        s.subrange(1, s.len() - 1)
    } else {
        s
    }
}

/// The text shown in a table cell for a value.
pub open spec fn cell_of(v: Json) -> Seq<char> {
    strip_quotes(json_text(v))
}

pub open spec fn keys_of(members: Seq<(String, Json)>) -> Seq<Seq<char>> {
    members.map_values(|m: (String, Json)| m.0@)
}

pub open spec fn cells_of(members: Seq<(String, Json)>) -> Seq<Seq<char>> {
    members.map_values(|m: (String, Json)| cell_of(m.1))
}

/// The rows of the table built from `items`: the key names of the first
/// object, then the cells of every object, in order.
pub open spec fn table_grid(items: Seq<Json>) -> Seq<Seq<Seq<char>>>
    decreases items.len(),
{
    if items.len() == 0 {
        seq![]
    } else {
        let g = table_grid(items.drop_last());
        match items.last() {
            Json::Object(m) => if g.len() == 0 {
                seq![keys_of(m@), cells_of(m@)]
            } else {
                g.push(cells_of(m@))
            },
            _ => g,
        }
    }
}

/// What an element writes in the first pass, before any table row.
pub open spec fn notice(v: Json) -> Seq<char> {
    match v {
        Json::Str(s) => s@ + seq!['\n'],
        Json::Object(_) => seq![],
        _ => UNEXPECTED@,
    }
}

pub open spec fn notices(items: Seq<Json>) -> Seq<char>
    decreases items.len(),
{
    if items.len() == 0 {
        seq![]
    } else {
        notices(items.drop_last()) + notice(items.last())
    }
}

/// The widest cell of column `j` over all rows of `grid`.
pub open spec fn column_width(grid: Seq<Seq<Seq<char>>>, j: int) -> nat
    decreases grid.len(),
{
    if grid.len() == 0 {
        0
    } else {
        let w = column_width(grid.drop_last(), j);
        let row = grid.last();
        if 0 <= j < row.len() && row[j].len() > w {
            row[j].len()
        } else {
            w
        }
    }
}

/// One width per header column.
pub open spec fn widths_of(grid: Seq<Seq<Seq<char>>>) -> Seq<nat> {
    if grid.len() == 0 {
        seq![]
    } else {
        Seq::new(grid[0].len(), |j: int| column_width(grid, j))
    }
}

pub open spec fn spaces(n: nat) -> Seq<char> {
    Seq::new(n, |i: int| ' ')
}

/// A cell left-aligned to width `w`, followed by one separating space.
pub open spec fn padded(cell: Seq<char>, w: nat) -> Seq<char> {
    cell + spaces(if w > cell.len() { (w - cell.len()) as nat } else { 0 }) + seq![' ']
}

/// The first `k` cells of a row, each padded to its column's width.
pub open spec fn row_cells(row: Seq<Seq<char>>, widths: Seq<nat>, k: int) -> Seq<char>
    decreases k,
{
    if k <= 0 {
        seq![]
    } else {
        row_cells(row, widths, k - 1) + padded(row[k - 1], widths[k - 1])
    }
}

pub open spec fn min(a: int, b: int) -> int {
    if a < b { a } else { b }
}

/// A row as printed: the cells that have a column, then a line break.
pub open spec fn row_line(row: Seq<Seq<char>>, widths: Seq<nat>) -> Seq<char> {
    row_cells(row, widths, min(row.len() as int, widths.len() as int)) + seq!['\n']
}

/// The first `k` rows of `grid` as printed.
pub open spec fn grid_lines(grid: Seq<Seq<Seq<char>>>, widths: Seq<nat>, k: int) -> Seq<char>
    decreases k,
{
    if k <= 0 {
        seq![]
    } else {
        grid_lines(grid, widths, k - 1) + row_line(grid[k - 1], widths)
    }
}

/// The whole table output for the elements of a result array.
pub open spec fn table_text(items: Seq<Json>) -> Seq<char> {
    let g = table_grid(items);
    notices(items) + grid_lines(g, widths_of(g), g.len() as int)
}

/// Removes one surrounding pair of double quotes, where there is one.
pub fn strip_quotes_text(s: &str) -> (r: String)
    ensures
        r@ == strip_quotes(s@),
{
    let n = s.unicode_len();
    if n >= 2 && s.get_char(0) == '"' && s.get_char(n - 1) == '"' {
        String::from_str(s.substring_char(1, n - 1))
    } else {
        String::from_str(s)
    }
}

/// The text of a table cell: the value's JSON text without its quotes.
pub fn cell_text(v: &Json) -> (r: String)
    ensures
        r@ == cell_of(*v),
{
    let t = compact_text(v);
    strip_quotes_text(t.as_str())
}

fn header_row(members: &Vec<(String, Json)>) -> (r: Vec<String>)
    ensures
        r.deep_view() == keys_of(members@),
{
    let mut row: Vec<String> = Vec::new();
    let mut k: usize = 0;
    while k < members.len()
        invariant
            k <= members.len(),
            row.deep_view() =~= keys_of(members@.take(k as int)),
        decreases members.len() - k,
    {
        row.push(members[k].0.clone());
        k += 1;
        assert(keys_of(members@.take(k as int)) =~= keys_of(members@.take(k - 1)).push(members@[k - 1].0@));
    }
    assert(members@.take(k as int) =~= members@);
    row
}

fn cell_row(members: &Vec<(String, Json)>) -> (r: Vec<String>)
    ensures
        r.deep_view() == cells_of(members@),
{
    let mut row: Vec<String> = Vec::new();
    let mut k: usize = 0;
    while k < members.len()
        invariant
            k <= members.len(),
            row.deep_view() =~= cells_of(members@.take(k as int)),
        decreases members.len() - k,
    {
        row.push(cell_text(&members[k].1));
        k += 1;
        assert(cells_of(members@.take(k as int)) =~= cells_of(members@.take(k - 1)).push(cell_of(members@[k - 1].1)));
    }
    assert(members@.take(k as int) =~= members@);
    row
}


proof fn lemma_grid_step(items: Seq<Json>, i: int)
    requires
        0 <= i < items.len(),
    ensures
        items.take(i + 1).drop_last() == items.take(i),
        items.take(i + 1).last() == items[i],
        table_grid(items.take(i + 1)) == ({
            let g = table_grid(items.take(i));
            match items[i] {
                Json::Object(m) => if g.len() == 0 {
                    seq![keys_of(m@), cells_of(m@)]
                } else {
                    g.push(cells_of(m@))
                },
                _ => g,
            }
        }),
        notices(items.take(i + 1)) == notices(items.take(i)) + notice(items[i]),
{
    assert(items.take(i + 1).drop_last() =~= items.take(i));
}

proof fn lemma_width_step(g: Seq<Seq<Seq<char>>>, row: Seq<Seq<char>>, j: int)
    ensures
        column_width(g.push(row), j) == (if 0 <= j < row.len() && row[j].len() > column_width(g, j) {
            row[j].len()
        } else {
            column_width(g, j)
        }),
{
    assert(g.push(row).drop_last() =~= g);
}

/// Widens each column to fit the cells of `row`.
fn widen(widths: &mut Vec<usize>, row: &Vec<String>, Ghost(g): Ghost<Seq<Seq<Seq<char>>>>)
    requires
        forall|j: int| 0 <= j < old(widths)@.len() ==> old(widths)@[j] == column_width(g, j),
    ensures
        final(widths)@.len() == old(widths)@.len(),
        forall|j: int| 0 <= j < final(widths)@.len()
            ==> final(widths)@[j] == column_width(g.push(row.deep_view()), j),
{
    let ghost rv = row.deep_view();
    let mut j: usize = 0;
    while j < widths.len()
        invariant
            j <= widths@.len(),
            widths@.len() == old(widths)@.len(),
            rv == row.deep_view(),
            forall|k: int| 0 <= k < j ==> widths@[k] == column_width(g.push(rv), k),
            forall|k: int| j <= k < widths@.len() ==> widths@[k] == column_width(g, k),
        decreases widths@.len() - j,
    {
        proof {
            lemma_width_step(g, rv, j as int);
        }
        if j < row.len() {
            let n = row[j].unicode_len();
            if n > widths[j] {
                widths.set(j, n);
            }
        }
        j += 1;
    }
}

/// The first pass over a result array: the text written for strings and
/// unexpected elements, the table's rows, and each column's width.
fn measure(items: &Vec<Json>) -> (r: (String, Vec<Vec<String>>, Vec<usize>))
    ensures
        r.0@ == notices(items@),
        r.1.deep_view() == table_grid(items@),
        r.2@.len() == widths_of(table_grid(items@)).len(),
        forall|j: int| 0 <= j < r.2@.len() ==> r.2@[j] as nat == widths_of(table_grid(items@))[j],
{
    let mut out = String::new();
    let mut grid: Vec<Vec<String>> = Vec::new();
    let mut widths: Vec<usize> = Vec::new();
    let mut i: usize = 0;
    while i < items.len()
        invariant
            i <= items.len(),
            out@ == notices(items@.take(i as int)),
            grid.deep_view() == table_grid(items@.take(i as int)),
            grid@.len() == 0 ==> widths@.len() == 0,
            grid@.len() > 0 ==> widths@.len() == grid.deep_view()[0].len(),
            forall|j: int| 0 <= j < widths@.len()
                ==> widths@[j] == column_width(grid.deep_view(), j),
        decreases items.len() - i,
    {
        proof {
            lemma_grid_step(items@, i as int);
            reveal_strlit("Unexpected type in result!\n");
            reveal_strlit("\n");
        }
        match &items[i] {
            Json::Str(s) => {
                out.append(s.as_str());
                out.append("\n");
            },
            Json::Object(m) => {
                if grid.len() == 0 {
                    let header = header_row(m);
                    let ghost g0 = grid.deep_view();
                    let mut k: usize = 0;
                    while k < header.len()
                        invariant
                            k <= header@.len(),
                            widths@.len() == k,
                            forall|j: int| 0 <= j < k ==> widths@[j] == header.deep_view()[j].len(),
                        decreases header@.len() - k,
                    {
                        let n = header[k].unicode_len();
                        widths.push(n);
                        k += 1;
                    }
                    grid.push(header);
                    proof {
                        assert forall|j: int| 0 <= j < widths@.len() implies widths@[j]
                            == column_width(grid.deep_view(), j) by {
                            lemma_width_step(g0, header.deep_view(), j);
                            assert(g0.push(header.deep_view()) =~= grid.deep_view());
                        }
                    }
                }
                let row = cell_row(m);
                let ghost g1 = grid.deep_view();
                widen(&mut widths, &row, Ghost(g1));
                grid.push(row);
                assert(grid.deep_view() =~= g1.push(row.deep_view()));
            },
            _ => {
                out.append(UNEXPECTED);
            },
        }
        i += 1;
    }
    assert(items@.take(i as int) =~= items@);
    (out, grid, widths)
}


/// Appends a cell left-aligned to width `w` and one separating space.
fn push_padded(out: &mut String, cell: &String, w: usize)
    ensures
        final(out)@ == old(out)@ + padded(cell@, w as nat),
{
    proof {
        reveal_strlit(" ");
    }
    let ghost start = out@;
    out.append(cell.as_str());
    let n = cell.unicode_len();
    let mut k: usize = n;
    while k < w
        invariant
            n == cell@.len(),
            n <= k,
            k <= w || k == n,
            out@ == start + cell@ + spaces((k - n) as nat),
        decreases w - k,
    {
        proof {
            reveal_strlit(" ");
        }
        let ghost before = out@;
        out.append(" ");
        k += 1;
        assert(spaces((k - n) as nat) =~= spaces((k - 1 - n) as nat).push(' '));
        assert(out@ =~= before + seq![' ']);
        assert(out@ =~= start + cell@ + spaces((k - n) as nat));
    }
    let ghost before = out@;
    out.append(" ");
    assert(spaces((k - n) as nat) =~= spaces(if w > n { (w - n) as nat } else { 0 }));
    assert(out@ =~= before + seq![' ']);
}

/// The second pass: every row, each cell padded to its column's width.
fn print_grid(out: &mut String, grid: &Vec<Vec<String>>, widths: &Vec<usize>, Ghost(ws): Ghost<Seq<nat>>)
    requires
        ws.len() == widths@.len(),
        forall|j: int| 0 <= j < ws.len() ==> ws[j] == widths@[j] as nat,
    ensures
        final(out)@ == old(out)@ + grid_lines(grid.deep_view(), ws, grid@.len() as int),
{
    let ghost start = out@;
    let ghost gv = grid.deep_view();
    let mut r: usize = 0;
    while r < grid.len()
        invariant
            r <= grid@.len(),
            gv == grid.deep_view(),
            ws.len() == widths@.len(),
            forall|j: int| 0 <= j < ws.len() ==> ws[j] == widths@[j] as nat,
            out@ == start + grid_lines(gv, ws, r as int),
        decreases grid@.len() - r,
    {
        let row = &grid[r];
        let ghost line_start = out@;
        let m = if row.len() < widths.len() { row.len() } else { widths.len() };
        let mut j: usize = 0;
        while j < m
            invariant
                r < grid@.len(),
                gv == grid.deep_view(),
                j <= m,
                m == min(row@.len() as int, widths@.len() as int),
                row.deep_view() == gv[r as int],
                ws.len() == widths@.len(),
                forall|k: int| 0 <= k < ws.len() ==> ws[k] == widths@[k] as nat,
                out@ == line_start + row_cells(gv[r as int], ws, j as int),
            decreases m - j,
        {
            push_padded(out, &row[j], widths[j]);
            j += 1;
            assert(out@ =~= line_start + row_cells(gv[r as int], ws, j as int));
        }
        proof {
            reveal_strlit("\n");
        }
        let ghost before = out@;
        out.append("\n");
        assert(out@ =~= before + seq!['\n']);
        r += 1;
        assert(out@ =~= start + grid_lines(gv, ws, r as int));
    }
}

/// Renders the elements of a result array as a table, after the lines
/// written for plain strings and unexpected elements.
pub fn render_table(items: &Vec<Json>) -> (r: String)
    ensures
        r@ == table_text(items@),
{
    let (mut out, grid, widths) = measure(items);
    let ghost ws = widths_of(table_grid(items@));
    proof {
        assert(ws.len() == widths@.len());
    }
    print_grid(&mut out, &grid, &widths, Ghost(ws));
    out
}


/// The value of the first member named `key`.
pub open spec fn lookup(members: Seq<(String, Json)>, key: Seq<char>) -> Option<Json>
    decreases members.len(),
{
    if members.len() == 0 {
        None
    } else if members[0].0@ == key {
        Some(members[0].1)
    } else {
        lookup(members.subrange(1, members.len() as int), key)
    }
}

/// The result array of an envelope `{"results": [{"<name>": [...]}, ...]}`:
/// the value of the first member of the first result, when it is an array.
pub open spec fn envelope_array(doc: Json) -> Option<Json> {
    match doc {
        Json::Object(top) => match lookup(top@, "results"@) {
            Some(Json::Array(results)) => if results@.len() > 0 {
                match results@[0] {
                    Json::Object(props) => if props@.len() > 0 {
                        match props@[0].1 {
                            Json::Array(_) => Some(props@[0].1),
                            _ => None,
                        }
                    } else {
                        None
                    },
                    _ => None,
                }
            } else {
                None
            },
            _ => None,
        },
        _ => None,
    }
}

/// What rendering a parsed response (`None`: not JSON) in a format yields.
pub open spec fn rendered(parsed: Option<Json>, format: Format) -> Result<Seq<char>, RenderError> {
    match format {
        Format::CSV => Err(RenderError::UnsupportedFormat),
        Format::Raw => match parsed {
            Some(doc) => Ok(json_pretty(doc)),
            None => Err(RenderError::MalformedResponse),
        },
        _ => match parsed {
            Some(doc) => match envelope_array(doc) {
                Some(Json::Array(items)) => if format == Format::JSON {
                    Ok(json_pretty(Json::Array(items)) + seq!['\n'])
                } else {
                    Ok(table_text(items@))
                },
                _ => Err(RenderError::MalformedResponse),
            },
            None => Err(RenderError::MalformedResponse),
        },
    }
}

/// Finds the first member named `key`.
pub fn find_member<'a>(members: &'a Vec<(String, Json)>, key: &String) -> (r: Option<&'a Json>)
    ensures
        match r {
            Some(v) => lookup(members@, key@) == Some(*v),
            None => lookup(members@, key@).is_none(),
        },
{
    let mut i: usize = 0;
    assert(members@.subrange(0, members@.len() as int) =~= members@);
    while i < members.len()
        invariant
            i <= members@.len(),
            lookup(members@, key@) == lookup(members@.subrange(i as int, members@.len() as int), key@),
        decreases members@.len() - i,
    {
        let ghost rest = members@.subrange(i as int, members@.len() as int);
        assert(rest.subrange(1, rest.len() as int) =~= members@.subrange(i + 1, members@.len() as int));
        if members[i].0 == *key {
            return Some(&members[i].1);
        }
        i += 1;
    }
    None
}

/// Extracts the result array from a response envelope.
pub fn envelope(doc: &Json) -> (r: Option<&Json>)
    ensures
        match r {
            Some(v) => envelope_array(*doc) == Some(*v),
            None => envelope_array(*doc).is_none(),
        },
{
    let key = String::from_str("results");
    match doc {
        Json::Object(top) => match find_member(top, &key) {
            Some(Json::Array(results)) => if results.len() > 0 {
                match &results[0] {
                    Json::Object(props) => if props.len() > 0 {
                        match &props[0].1 {
                            Json::Array(_) => Some(&props[0].1),
                            _ => None,
                        }
                    } else {
                        None
                    },
                    _ => None,
                }
            } else {
                None
            },
            _ => None,
        },
        _ => None,
    }
}

/// Renders an already parsed response (`None`: the text was not JSON).
pub fn render_parsed(parsed: &Option<Json>, format: Format) -> (r: Result<String, RenderError>)
    ensures
        format == Format::CSV ==> r == Err::<String, RenderError>(RenderError::UnsupportedFormat),
        format != Format::CSV && parsed.is_none() ==> r == Err::<String, RenderError>(
            RenderError::MalformedResponse,
        ),
        match r {
            Ok(s) => rendered(*parsed, format) == Ok::<Seq<char>, RenderError>(s@),
            Err(e) => rendered(*parsed, format) == Err::<Seq<char>, RenderError>(e),
        },
{
    match format {
        Format::CSV => Err(RenderError::UnsupportedFormat),
        Format::Raw => match parsed {
            Some(doc) => Ok(pretty_text(doc)),
            None => Err(RenderError::MalformedResponse),
        },
        _ => match parsed {
            Some(doc) => match envelope(doc) {
                Some(array) => match array {
                    Json::Array(items) => if format == Format::JSON {
                        proof {
                            reveal_strlit("\n");
                        }
                        let mut out = pretty_text(array);
                        let ghost body = out@;
                        out.append("\n");
                        assert(out@ =~= body + seq!['\n']);
                        Ok(out)
                    } else {
                        Ok(render_table(items))
                    },
                    _ => Err(RenderError::MalformedResponse),
                },
                None => Err(RenderError::MalformedResponse),
            },
            None => Err(RenderError::MalformedResponse),
        },
    }
}

/// Renders the text of a response in a format. A CSV request fails whatever
/// the text; any other fails on text that is not JSON.
pub fn render(raw: &str, format: Format) -> (r: Result<String, RenderError>)
    ensures
        format == Format::CSV ==> r == Err::<String, RenderError>(RenderError::UnsupportedFormat),
        format != Format::CSV && parsed_json(raw@).is_none() ==> r == Err::<String, RenderError>(
            RenderError::MalformedResponse,
        ),
        match r {
            Ok(s) => rendered(parsed_json(raw@), format) == Ok::<Seq<char>, RenderError>(s@),
            Err(e) => rendered(parsed_json(raw@), format) == Err::<Seq<char>, RenderError>(e),
        },
{
    if format == Format::CSV {
        return Err(RenderError::UnsupportedFormat);
    }
    let parsed = parse_json(raw);
    render_parsed(&parsed, format)
}


/// Every cell fits within its column's width: the width covers the header
/// and all data rows, however late a wide cell comes.
pub proof fn lemma_cell_fits_width(grid: Seq<Seq<Seq<char>>>, i: int, j: int)
    requires
        0 <= i < grid.len(),
        0 <= j < grid[i].len(),
    ensures
        grid[i][j].len() <= column_width(grid, j),
    decreases grid.len(),
{
    if i < grid.len() - 1 {
        lemma_cell_fits_width(grid.drop_last(), i, j);
    }
}

/// A column's width is that of one of its cells, or zero: it is the widest
/// cell, not more.
pub proof fn lemma_width_attained(grid: Seq<Seq<Seq<char>>>, j: int)
    ensures
        column_width(grid, j) == 0 || exists|i: int|
            0 <= i < grid.len() && j < grid[i].len() && #[trigger] grid[i][j].len() == column_width(grid, j),
    decreases grid.len(),
{
    if grid.len() > 0 {
        let g = grid.drop_last();
        lemma_width_attained(g, j);
        if column_width(grid, j) != 0 && column_width(grid, j) == column_width(g, j) {
            let i = choose|i: int| 0 <= i < g.len() && j < g[i].len() && #[trigger] g[i][j].len() == column_width(g, j);
            assert(grid[i] == g[i]);
        }
    }
}

proof fn lemma_no_object_no_rows(items: Seq<Json>)
    requires
        forall|i: int| 0 <= i < items.len() ==> !(items[i] is Object),
    ensures
        table_grid(items).len() == 0,
    decreases items.len(),
{
    if items.len() > 0 {
        lemma_no_object_no_rows(items.drop_last());
    }
}

/// The header row holds the keys of the first object of the array, in that
/// object's order, and every object adds one row after it.
pub proof fn lemma_header_is_first_object(items: Seq<Json>, k: int)
    requires
        0 <= k < items.len(),
        items[k] is Object,
        forall|i: int| 0 <= i < k ==> !(items[i] is Object),
    ensures
        table_grid(items).len() >= 2,
        table_grid(items)[0] == keys_of(items[k]->Object_0@),
    decreases items.len(),
{
    if k == items.len() - 1 {
        lemma_no_object_no_rows(items.drop_last());
    } else {
        lemma_header_is_first_object(items.drop_last(), k);
    }
}

} // verus!
