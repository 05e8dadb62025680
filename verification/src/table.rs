//! The in-memory table and the CSV response parser. A response body is
//! comma-delimited text whose first line names the columns; every data
//! line must carry as many fields as the header, and a single trailing
//! line break is tolerated. All cells are kept as text, as the remote
//! service sent them.

use vstd::prelude::*;

use crate::errors::EcbError;
use crate::strutil::split_on;
use crate::strutil::split_string;
use crate::strutil::lemma_split_on_pieces;

verus! {

/// A rectangular table: a header row of column names and zero or more
/// data rows, all cells untyped text.
#[derive(Debug, PartialEq, Eq)]
pub struct ResultTable {
    pub header: Vec<String>,
    pub rows: Vec<Vec<String>>,
}

impl ResultTable {
    /// The column names, as character sequences.
    pub open spec fn spec_header(&self) -> Seq<Seq<char>> {
        self.header.deep_view()
    }

    /// The data rows, as character sequences.
    pub open spec fn spec_rows(&self) -> Seq<Seq<Seq<char>>> {
        self.rows.deep_view()
    }

    /// The table is rectangular: every data row has exactly one cell
    /// per column.
    pub open spec fn well_formed(&self) -> bool {
        forall|i: int|
            0 <= i < self.spec_rows().len() ==> (#[trigger] self.spec_rows()[i]).len()
                == self.spec_header().len()
    }

    /// The number of columns.
    pub fn num_columns(&self) -> (r: usize)
        ensures
            r == self.spec_header().len(),
    {
        self.header.len()
    }

    /// The number of data rows.
    pub fn num_rows(&self) -> (r: usize)
        ensures
            r == self.spec_rows().len(),
    {
        self.rows.len()
    }
}

/// The lines of a CSV body: the pieces between `'\n'` characters, with
/// one empty piece after a trailing line break dropped.
pub open spec fn csv_lines(body: Seq<char>) -> Seq<Seq<char>> {
    let ls = split_on(body, '\n');
    if ls.len() > 1 && ls.last().len() == 0 {
        ls.drop_last()
    } else {
        ls
    }
}

/// The column names a CSV body declares: the comma-separated fields of
/// its first line.
pub open spec fn spec_parsed_header(body: Seq<char>) -> Seq<Seq<char>> {
    split_on(csv_lines(body)[0], ',')
}

/// The data rows a CSV body carries: the comma-separated fields of
/// every line after the first.
pub open spec fn spec_parsed_rows(body: Seq<char>) -> Seq<Seq<Seq<char>>> {
    csv_lines(body).drop_first().map_values(|l: Seq<char>| split_on(l, ','))
}

/// A CSV body parses exactly when it is non-empty and every data row
/// carries as many fields as the header.
pub open spec fn spec_parse_ok(body: Seq<char>) -> bool {
    body.len() > 0 && forall|k: int|
        0 <= k < spec_parsed_rows(body).len() ==> (#[trigger] spec_parsed_rows(body)[k]).len()
            == spec_parsed_header(body).len()
}

/// Parses a CSV response body into a table: the first line names the
/// columns, the remaining lines are the data rows. Fails exactly when
/// the body is empty or some data row does not match the header's
/// width; no partial table is returned.
pub fn parse_csv(body: &str) -> (r: Result<ResultTable, EcbError>)
    ensures
        r is Ok <==> spec_parse_ok(body@),
        r matches Ok(t) ==> {
            &&& t.well_formed()
            &&& t.spec_header() == spec_parsed_header(body@)
            &&& t.spec_rows() == spec_parsed_rows(body@)
        },
        r matches Err(e) ==> e == EcbError::ParseFailure,
{
    if body.is_empty() {
        return Err(EcbError::ParseFailure);
    }
    let mut lines: Vec<String> = split_string(body, '\n');
    proof {
        lemma_split_on_pieces(body@, '\n');
        assert(lines.deep_view().len() == lines@.len());
    }
    if lines.len() > 1 && lines[lines.len() - 1].as_str().is_empty() {
        lines.pop();
        proof {
            assert(lines.deep_view() =~= csv_lines(body@));
        }
    } else {
        proof {
            assert(lines.deep_view() == csv_lines(body@));
        }
    }
    let ghost gl = lines.deep_view();
    let header: Vec<String> = split_string(lines[0].as_str(), ',');
    let ncols = header.len();
    proof {
        assert(header.deep_view() == spec_parsed_header(body@));
    }
    let mut rows: Vec<Vec<String>> = Vec::new();
    let nlines = lines.len();
    let mut i: usize = 1;
    while i < nlines
        invariant
            1 <= i <= nlines,
            nlines == gl.len(),
            gl == lines.deep_view(),
            gl == csv_lines(body@),
            lines@.len() == nlines,
            ncols == spec_parsed_header(body@).len(),
            rows.deep_view() =~= spec_parsed_rows(body@).take(i - 1),
            forall|k: int|
                0 <= k < rows.deep_view().len() ==> (#[trigger] rows.deep_view()[k]).len() == ncols,
        decreases nlines - i,
    {
        let fields = split_string(lines[i].as_str(), ',');
        proof {
            assert(gl.drop_first()[i - 1] == gl[i as int]);
            assert(spec_parsed_rows(body@)[i - 1] == split_on(lines@[i as int]@, ','));
        }
        if fields.len() != ncols {
            proof {
                assert(spec_parsed_rows(body@)[i - 1].len() != spec_parsed_header(body@).len());
            }
            return Err(EcbError::ParseFailure);
        }
        let ghost old_rows = rows.deep_view();
        rows.push(fields);
        proof {
            assert(rows.deep_view() =~= old_rows.push(spec_parsed_rows(body@)[i - 1]));
            assert(rows.deep_view() =~= spec_parsed_rows(body@).take(i as int));
        }
        i = i + 1;
    }
    proof {
        assert(rows.deep_view() =~= spec_parsed_rows(body@));
    }
    let t = ResultTable { header, rows };
    Ok(t)
}

} // verus!
