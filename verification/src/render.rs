//! Rendering a parsed table for display and for export, and naming the
//! export file. CSV export joins cells with a semicolon — a deliberate
//! deviation from the comma-delimited input, for regional spreadsheet
//! compatibility — and writes the header row; JSON export writes one
//! array of row objects. Cells are written verbatim in CSV; JSON
//! strings are escaped.

use vstd::prelude::*;

use crate::strutil::join_strings;
use crate::strutil::join_with;
use crate::strutil::lemma_join_with_push;
use crate::strutil::push_char;
use crate::table::ResultTable;

verus! {

/// One rendered table line: the fields joined with the separator,
/// closed by a line break.
pub open spec fn spec_table_line(fields: Seq<Seq<char>>, sep: char) -> Seq<char> {
    join_with(fields, sep).push('\n')
}

/// The rendered data rows, one line each.
pub open spec fn spec_table_body(rows: Seq<Seq<Seq<char>>>, sep: char) -> Seq<char>
    decreases rows.len(),
{
    if rows.len() == 0 {
        Seq::empty()
    } else {
        spec_table_line(rows.first(), sep) + spec_table_body(rows.drop_first(), sep)
    }
}

/// The whole rendered table: the header line followed by one line per
/// data row.
pub open spec fn spec_table_content(
    header: Seq<Seq<char>>,
    rows: Seq<Seq<Seq<char>>>,
    sep: char,
) -> Seq<char> {
    spec_table_line(header, sep) + spec_table_body(rows, sep)
}

/// Rendering one more row appends exactly that row's line.
proof fn lemma_table_body_push(rows: Seq<Seq<Seq<char>>>, r: Seq<Seq<char>>, sep: char)
    ensures
        spec_table_body(rows.push(r), sep) == spec_table_body(rows, sep) + spec_table_line(r, sep),
    decreases rows.len(),
{
    if rows.len() == 0 {
        assert(rows.push(r).first() == r);
        assert(rows.push(r).drop_first() =~= rows);
        assert(spec_table_line(r, sep) + Seq::<char>::empty() =~= spec_table_line(r, sep));
        assert(Seq::<char>::empty() + spec_table_line(r, sep) =~= spec_table_line(r, sep));
    } else {
        lemma_table_body_push(rows.drop_first(), r, sep);
        assert(rows.push(r).first() == rows.first());
        assert(rows.push(r).drop_first() =~= rows.drop_first().push(r));
        assert(spec_table_line(rows.first(), sep) + (spec_table_body(rows.drop_first(), sep)
            + spec_table_line(r, sep)) =~= (spec_table_line(rows.first(), sep) + spec_table_body(
            rows.drop_first(),
            sep,
        )) + spec_table_line(r, sep));
    }
}

/// Renders the table with the given one-character field separator:
/// the header line first, then one line per data row, each line closed
/// by a line break.
pub fn render_table(t: &ResultTable, sep: &str) -> (r: String)
    requires
        sep@.len() == 1,
    ensures
        r@ == spec_table_content(t.spec_header(), t.spec_rows(), sep@[0]),
{
    let mut out = join_strings(&t.header, sep);
    push_char(&mut out, '\n');
    let n = t.rows.len();
    let mut i: usize = 0;
    proof {
        assert(t.spec_rows().take(0) =~= Seq::<Seq<Seq<char>>>::empty());
        assert(out@ =~= spec_table_line(t.spec_header(), sep@[0]) + spec_table_body(
            t.spec_rows().take(0),
            sep@[0],
        ));
    }
    while i < n
        invariant
            i <= n,
            n == t.spec_rows().len(),
            sep@.len() == 1,
            out@ == spec_table_line(t.spec_header(), sep@[0]) + spec_table_body(
                t.spec_rows().take(i as int),
                sep@[0],
            ),
        decreases n - i,
    {
        let line = join_strings(&t.rows[i], sep);
        out.append(line.as_str());
        push_char(&mut out, '\n');
        proof {
            lemma_table_body_push(t.spec_rows().take(i as int), t.spec_rows()[i as int], sep@[0]);
            assert(t.spec_rows().take(i as int).push(t.spec_rows()[i as int]) =~= t.spec_rows()
                .take(i + 1));
            assert(out@ =~= spec_table_line(t.spec_header(), sep@[0]) + spec_table_body(
                t.spec_rows().take(i + 1),
                sep@[0],
            ));
        }
        i = i + 1;
    }
    proof {
        assert(t.spec_rows().take(n as int) =~= t.spec_rows());
    }
    out
}

/// The lower-case hexadecimal digit of a value below sixteen.
pub open spec fn hex_digit(n: int) -> char {
    if n == 0 {
        '0'
    } else if n == 1 {
        '1'
    } else if n == 2 {
        '2'
    } else if n == 3 {
        '3'
    } else if n == 4 {
        '4'
    } else if n == 5 {
        '5'
    } else if n == 6 {
        '6'
    } else if n == 7 {
        '7'
    } else if n == 8 {
        '8'
    } else if n == 9 {
        '9'
    } else if n == 10 {
        'a'
    } else if n == 11 {
        'b'
    } else if n == 12 {
        'c'
    } else if n == 13 {
        'd'
    } else if n == 14 {
        'e'
    } else {
        'f'
    }
}

/// The JSON escape of one character inside a string literal: quote,
/// backslash and the common control characters get two-character
/// escapes, the remaining control characters a `\u00..` escape, and
/// every other character stands for itself.
pub open spec fn json_escape_char(c: char) -> Seq<char> {
    if c == '"' {
        seq!['\\', '"']
    } else if c == '\\' {
        seq!['\\', '\\']
    } else if c == '\n' {
        seq!['\\', 'n']
    } else if c == '\r' {
        seq!['\\', 'r']
    } else if c == '\t' {
        seq!['\\', 't']
    } else if (c as u32) < 32 {
        seq!['\\', 'u', '0', '0', hex_digit(c as u32 as int / 16), hex_digit(c as u32 as int % 16)]
    } else {
        seq![c]
    }
}

/// The JSON escape of a whole character sequence.
pub open spec fn json_escape(s: Seq<char>) -> Seq<char>
    decreases s.len(),
{
    if s.len() == 0 {
        Seq::empty()
    } else {
        json_escape_char(s.first()) + json_escape(s.drop_first())
    }
}

/// Escaping one more character appends exactly that character's
/// escape.
proof fn lemma_json_escape_push(s: Seq<char>, c: char)
    ensures
        json_escape(s.push(c)) == json_escape(s) + json_escape_char(c),
    decreases s.len(),
{
    if s.len() == 0 {
        assert(s.push(c).first() == c);
        assert(s.push(c).drop_first() =~= s);
        assert(json_escape_char(c) + Seq::<char>::empty() =~= json_escape_char(c));
        assert(Seq::<char>::empty() + json_escape_char(c) =~= json_escape_char(c));
    } else {
        lemma_json_escape_push(s.drop_first(), c);
        assert(s.push(c).first() == s.first());
        assert(s.push(c).drop_first() =~= s.drop_first().push(c));
        assert(json_escape_char(s.first()) + (json_escape(s.drop_first()) + json_escape_char(c))
            =~= (json_escape_char(s.first()) + json_escape(s.drop_first())) + json_escape_char(c));
    }
}

/// A JSON string literal: the escaped characters between quotes.
pub open spec fn json_string(s: Seq<char>) -> Seq<char> {
    seq!['"'] + json_escape(s) + seq!['"']
}

/// One `"name":"value"` member of a row object.
pub open spec fn json_pair(name: Seq<char>, value: Seq<char>) -> Seq<char> {
    json_string(name) + seq![':'] + json_string(value)
}

/// The members of one row object, one per column.
pub open spec fn json_pairs(header: Seq<Seq<char>>, row: Seq<Seq<char>>) -> Seq<Seq<char>> {
    Seq::new(header.len(), |i: int| json_pair(header[i], row[i]))
}

/// One row as a JSON object of its column names and cells.
pub open spec fn json_object(header: Seq<Seq<char>>, row: Seq<Seq<char>>) -> Seq<char> {
    seq!['{'] + join_with(json_pairs(header, row), ',') + seq!['}']
}

/// The row objects of the whole table.
pub open spec fn json_objects(header: Seq<Seq<char>>, rows: Seq<Seq<Seq<char>>>) -> Seq<Seq<char>> {
    Seq::new(rows.len(), |i: int| json_object(header, rows[i]))
}

/// The whole table as JSON: an array of row objects.
pub open spec fn spec_json_content(header: Seq<Seq<char>>, rows: Seq<Seq<Seq<char>>>) -> Seq<
    char,
> {
    seq!['['] + join_with(json_objects(header, rows), ',') + seq![']']
}

/// The lower-case hexadecimal digit of a value below sixteen.
fn hex_char(n: u8) -> (r: char)
    requires
        n < 16,
    ensures
        r == hex_digit(n as int),
{
    let s = "0123456789abcdef";
    proof {
        reveal_strlit("0123456789abcdef");
    }
    s.get_char(n as usize)
}

/// Appends the JSON escape of one character.
fn push_escaped_char(out: &mut String, c: char)
    ensures
        final(out)@ == old(out)@ + json_escape_char(c),
{
    if c == '"' {
        out.append("\\\"");
        proof {
            reveal_strlit("\\\"");
            assert("\\\""@ =~= json_escape_char(c));
        }
    } else if c == '\\' {
        out.append("\\\\");
        proof {
            reveal_strlit("\\\\");
            assert("\\\\"@ =~= json_escape_char(c));
        }
    } else if c == '\n' {
        out.append("\\n");
        proof {
            reveal_strlit("\\n");
            assert("\\n"@ =~= json_escape_char(c));
        }
    } else if c == '\r' {
        out.append("\\r");
        proof {
            reveal_strlit("\\r");
            assert("\\r"@ =~= json_escape_char(c));
        }
    } else if c == '\t' {
        out.append("\\t");
        proof {
            reveal_strlit("\\t");
            assert("\\t"@ =~= json_escape_char(c));
        }
    } else if (c as u32) < 32 {
        out.append("\\u00");
        let u = c as u32;
        push_char(out, hex_char((u / 16) as u8));
        push_char(out, hex_char((u % 16) as u8));
        proof {
            reveal_strlit("\\u00");
            assert(old(out)@ + "\\u00"@ + seq![hex_digit(c as u32 as int / 16)] + seq![
                hex_digit(c as u32 as int % 16),
            ] =~= old(out)@ + json_escape_char(c));
        }
    } else {
        push_char(out, c);
        proof {
            assert(old(out)@ + seq![c] =~= old(out)@ + json_escape_char(c));
        }
    }
}

/// Appends the JSON escape of a whole string.
fn append_escaped(out: &mut String, s: &str)
    ensures
        final(out)@ == old(out)@ + json_escape(s@),
{
    let n = s.unicode_len();
    let mut i: usize = 0;
    proof {
        assert(json_escape(s@.take(0)) =~= Seq::<char>::empty());
        assert(out@ =~= old(out)@ + json_escape(s@.take(0)));
    }
    while i < n
        invariant
            i <= n,
            n == s@.len(),
            out@ == old(out)@ + json_escape(s@.take(i as int)),
        decreases n - i,
    {
        let c = s.get_char(i);
        push_escaped_char(out, c);
        proof {
            lemma_json_escape_push(s@.take(i as int), c);
            assert(s@.take(i as int).push(c) =~= s@.take(i + 1));
            assert(out@ =~= old(out)@ + json_escape(s@.take(i + 1)));
        }
        i = i + 1;
    }
    proof {
        assert(s@.take(n as int) =~= s@);
    }
}

/// Appends one cell as a JSON string literal.
fn append_json_string(out: &mut String, s: &str)
    ensures
        final(out)@ == old(out)@ + json_string(s@),
{
    push_char(out, '"');
    append_escaped(out, s);
    push_char(out, '"');
    proof {
        assert(((old(out)@ + seq!['"']) + json_escape(s@)).push('"') =~= old(out)@ + json_string(
            s@,
        ));
    }
}

/// Renders one data row as a JSON object of column names and cells.
fn render_json_object(header: &Vec<String>, row: &Vec<String>) -> (r: String)
    requires
        row.deep_view().len() == header.deep_view().len(),
    ensures
        r@ == json_object(header.deep_view(), row.deep_view()),
{
    let ghost pairs = json_pairs(header.deep_view(), row.deep_view());
    let mut out = String::new();
    push_char(&mut out, '{');
    let n = header.len();
    let mut i: usize = 0;
    proof {
        assert(out@ =~= seq!['{'] + join_with(pairs.take(0), ','));
    }
    while i < n
        invariant
            i <= n,
            n == header.deep_view().len(),
            n == header@.len(),
            row@.len() == n,
            row.deep_view().len() == n,
            pairs == json_pairs(header.deep_view(), row.deep_view()),
            out@ == seq!['{'] + join_with(pairs.take(i as int), ','),
        decreases n - i,
    {
        proof {
            lemma_join_with_push(pairs.take(i as int), ',', pairs[i as int]);
            assert(pairs.take(i as int).push(pairs[i as int]) =~= pairs.take(i + 1));
        }
        if i > 0 {
            push_char(&mut out, ',');
        }
        let ghost mid = out@;
        append_json_string(&mut out, header[i].as_str());
        push_char(&mut out, ':');
        append_json_string(&mut out, row[i].as_str());
        proof {
            assert(out@ =~= mid + pairs[i as int]);
            if i > 0 {
                assert(out@ =~= seq!['{'] + (join_with(pairs.take(i as int), ',') + seq![',']
                    + pairs[i as int]));
            } else {
                assert(out@ =~= seq!['{'] + join_with(pairs.take(1), ','));
            }
        }
        i = i + 1;
    }
    push_char(&mut out, '}');
    proof {
        assert(pairs.take(n as int) =~= pairs);
        assert(out@ =~= json_object(header.deep_view(), row.deep_view()));
    }
    out
}

/// Renders the table as JSON: one array of row objects, each object
/// mapping every column name to the row's cell in that column.
pub fn render_json(t: &ResultTable) -> (r: String)
    requires
        t.well_formed(),
    ensures
        r@ == spec_json_content(t.spec_header(), t.spec_rows()),
{
    let ghost objects = json_objects(t.spec_header(), t.spec_rows());
    let mut out = String::new();
    push_char(&mut out, '[');
    let n = t.rows.len();
    let mut i: usize = 0;
    proof {
        assert(out@ =~= seq!['['] + join_with(objects.take(0), ','));
    }
    while i < n
        invariant
            i <= n,
            n == t.spec_rows().len(),
            n == t.rows@.len(),
            t.well_formed(),
            objects == json_objects(t.spec_header(), t.spec_rows()),
            out@ == seq!['['] + join_with(objects.take(i as int), ','),
        decreases n - i,
    {
        proof {
            lemma_join_with_push(objects.take(i as int), ',', objects[i as int]);
            assert(objects.take(i as int).push(objects[i as int]) =~= objects.take(i + 1));
            assert(t.spec_rows()[i as int].len() == t.spec_header().len());
        }
        if i > 0 {
            push_char(&mut out, ',');
        }
        let ghost mid = out@;
        let obj = render_json_object(&t.header, &t.rows[i]);
        out.append(obj.as_str());
        proof {
            assert(out@ =~= mid + objects[i as int]);
            if i > 0 {
                assert(out@ =~= seq!['['] + (join_with(objects.take(i as int), ',') + seq![',']
                    + objects[i as int]));
            } else {
                assert(out@ =~= seq!['['] + join_with(objects.take(1), ','));
            }
        }
        i = i + 1;
    }
    push_char(&mut out, ']');
    proof {
        assert(objects.take(n as int) =~= objects);
        assert(out@ =~= spec_json_content(t.spec_header(), t.spec_rows()));
    }
    out
}

/// Renders the table as semicolon-separated CSV, header row included.
pub fn render_csv(t: &ResultTable) -> (r: String)
    ensures
        r@ == spec_table_content(t.spec_header(), t.spec_rows(), ';'),
{
    proof {
        reveal_strlit(";");
    }
    render_table(t, ";")
}

/// Renders the table for human-readable display: one line per row,
/// cells separated by tabs.
pub fn render_display(t: &ResultTable) -> (r: String)
    ensures
        r@ == spec_table_content(t.spec_header(), t.spec_rows(), '\t'),
{
    proof {
        reveal_strlit("\t");
    }
    render_table(t, "\t")
}

} // verus!
