//! Rendering analysis results: sorting by code lines (descending) and
//! formatting each record as a line of text in the chosen output format.
//!
//! The formatter produces the lines to print; writing them out is the
//! caller's business.

use vstd::prelude::*;
use vstd::string::StringExecFns;

use crate::client::OutputFormat;
use crate::function_analyzer::{FunctionAnalysisResult, ResultView};

verus! {

/// The decimal digit character for one digit value.
pub open spec fn digit_char(d: nat) -> char {
    if d == 0 {
        '0'
    } else if d == 1 {
        '1'
    } else if d == 2 {
        '2'
    } else if d == 3 {
        '3'
    } else if d == 4 {
        '4'
    } else if d == 5 {
        '5'
    } else if d == 6 {
        '6'
    } else if d == 7 {
        '7'
    } else if d == 8 {
        '8'
    } else {
        '9'
    }
}

/// The decimal representation of a number, most significant digit first.
pub open spec fn dec_rep(n: nat) -> Seq<char>
    decreases n,
{
    if n < 10 {
        seq![digit_char(n)]
    } else {
        dec_rep(n / 10).push(digit_char(n % 10))
    }
}

/// The decimal digit string for one digit value.
fn digit_str(d: usize) -> (r: &'static str)
    requires
        d < 10,
    ensures
        r@ == seq![digit_char(d as nat)],
{
    proof {
        reveal_strlit("0");
        reveal_strlit("1");
        reveal_strlit("2");
        reveal_strlit("3");
        reveal_strlit("4");
        reveal_strlit("5");
        reveal_strlit("6");
        reveal_strlit("7");
        reveal_strlit("8");
        reveal_strlit("9");
    }
    let r = match d {
        0 => "0",
        1 => "1",
        2 => "2",
        3 => "3",
        4 => "4",
        5 => "5",
        6 => "6",
        7 => "7",
        8 => "8",
        _ => "9",
    };
    proof {
        assert(r@ =~= seq![digit_char(d as nat)]);
    }
    r
}

/// Renders a number in decimal.
pub fn usize_to_string(n: usize) -> (r: String)
    ensures
        r@ == dec_rep(n as nat),
    decreases n,
{
    if n < 10 {
        String::from_str(digit_str(n))
    } else {
        let mut s = usize_to_string(n / 10);
        s.append(digit_str(n % 10));
        s
    }
}

/// The table rendering of one record.
pub open spec fn spec_table_line(rv: ResultView) -> Seq<char> {
    ("  - fn ")@ + rv.name + (": total=")@ + dec_rep(rv.total) + (" lines, code=")@ + dec_rep(
        rv.code,
    ) + (", comment=")@ + dec_rep(rv.comment) + (", empty=")@ + dec_rep(rv.empty) + (
    ", complexity=")@ + dec_rep(rv.cyclomatic_complexity) + (", nesting=")@ + dec_rep(
        rv.nesting_depth,
    )
}

/// The CSV rendering of one record.
pub open spec fn spec_csv_line(rv: ResultView) -> Seq<char> {
    rv.name + (",")@ + dec_rep(rv.total) + (",")@ + dec_rep(rv.code) + (",")@ + dec_rep(rv.comment)
        + (",")@ + dec_rep(rv.empty) + (",")@ + dec_rep(rv.cyclomatic_complexity) + (",")@
        + dec_rep(rv.nesting_depth)
}

/// The JSON rendering of one record: one object per line, with a trailing
/// comma on every line but the last.
pub open spec fn spec_json_line(rv: ResultView, with_comma: bool) -> Seq<char> {
    ("  {\"name\": \"")@ + rv.name + ("\", \"total\": ")@ + dec_rep(rv.total) + (", \"code\": ")@
        + dec_rep(rv.code) + (", \"comment\": ")@ + dec_rep(rv.comment) + (", \"empty\": ")@
        + dec_rep(rv.empty) + (", \"complexity\": ")@ + dec_rep(rv.cyclomatic_complexity) + (
    ", \"nesting\": ")@ + dec_rep(rv.nesting_depth) + ("}")@ + (if with_comma {
        (",")@
    } else {
        Seq::<char>::empty()
    })
}

/// The output lines for a list of records in the given format. Table and
/// CSV render one line per record; JSON wraps the records in brackets.
pub open spec fn spec_render_all(rs: Seq<ResultView>, f: OutputFormat) -> Seq<Seq<char>> {
    match f {
        OutputFormat::Table => rs.map_values(|rv: ResultView| spec_table_line(rv)),
        OutputFormat::Csv => rs.map_values(|rv: ResultView| spec_csv_line(rv)),
        OutputFormat::Json => seq![("[")@] + Seq::new(
            rs.len(),
            |i: int| spec_json_line(rs[i], i + 1 < rs.len()),
        ) + seq![("]")@],
    }
}

/// Records ordered by code lines, largest first.
pub open spec fn sorted_by_code_desc(s: Seq<ResultView>) -> bool {
    forall|i: int, j: int| 0 <= i < j < s.len() ==> s[i].code >= s[j].code
}

/// A record placed into a sorted sequence: after every record with at
/// least as many code lines, before the rest.
pub open spec fn spec_insert_by_code(s: Seq<ResultView>, x: ResultView) -> Seq<ResultView>
    decreases s.len(),
{
    if s.len() == 0 {
        seq![x]
    } else if s.last().code >= x.code {
        s.push(x)
    } else {
        spec_insert_by_code(s.drop_last(), x).push(s.last())
    }
}

/// Records sorted by code lines, descending, by repeated insertion. Equal
/// keys keep their first-seen order.
pub open spec fn spec_sort_by_code(s: Seq<ResultView>) -> Seq<ResultView>
    decreases s.len(),
{
    if s.len() == 0 {
        Seq::empty()
    } else {
        spec_insert_by_code(spec_sort_by_code(s.drop_last()), s.last())
    }
}

/// Inserting into a sequence sorted by code lines keeps it sorted, keeps
/// exactly the old records plus the new one, and grows it by one.
pub proof fn lemma_insert_by_code_props(s: Seq<ResultView>, x: ResultView)
    requires
        sorted_by_code_desc(s),
    ensures
        sorted_by_code_desc(spec_insert_by_code(s, x)),
        spec_insert_by_code(s, x).to_multiset() == s.push(x).to_multiset(),
        spec_insert_by_code(s, x).len() == s.len() + 1,
        forall|k: int|
            0 <= k < spec_insert_by_code(s, x).len() ==> (spec_insert_by_code(s, x)[k] == x || (
            exists|t: int| 0 <= t < s.len() && s[t] == #[trigger] spec_insert_by_code(s, x)[k])),
    decreases s.len(),
{
    broadcast use vstd::seq_lib::group_to_multiset_ensures;

    let r = spec_insert_by_code(s, x);
    if s.len() == 0 {
        assert(r =~= Seq::<ResultView>::empty().push(x));
        assert(s.push(x).to_multiset() =~= r.to_multiset());
    } else if s.last().code >= x.code {
        assert(forall|i: int| 0 <= i < s.len() ==> s[i].code >= s.last().code);
    } else {
        let dl = s.drop_last();
        assert(sorted_by_code_desc(dl));
        lemma_insert_by_code_props(dl, x);
        let r0 = spec_insert_by_code(dl, x);
        assert(r == r0.push(s.last()));
        // every record already placed has at least as many code lines as
        // the one being appended
        assert forall|k: int| 0 <= k < r0.len() implies r0[k].code >= s.last().code by {
            if r0[k] != x {
                let t = choose|t: int| 0 <= t < dl.len() && dl[t] == r0[k];
                assert(s[t] == dl[t]);
                assert(s[t].code >= s.last().code);
            }
        }
        assert(sorted_by_code_desc(r));
        // the records are the old ones plus the new one
        assert(s =~= dl.push(s.last()));
        assert(r.to_multiset() =~= s.push(x).to_multiset()) by {
            assert(r.to_multiset() =~= r0.to_multiset().insert(s.last()));
            assert(r0.to_multiset() =~= dl.to_multiset().insert(x));
            assert(s.to_multiset() =~= dl.to_multiset().insert(s.last()));
            assert(s.push(x).to_multiset() =~= s.to_multiset().insert(x));
        }
        assert forall|k: int|
            0 <= k < r.len() implies (r[k] == x || (exists|t: int|
            0 <= t < s.len() && s[t] == #[trigger] r[k])) by {
            if k < r0.len() {
                if r0[k] != x {
                    let t = choose|t: int| 0 <= t < dl.len() && dl[t] == r0[k];
                    assert(s[t] == r[k]);
                }
            } else {
                assert(r[k] == s[s.len() - 1]);
            }
        }
    }
}

/// Sorting by code lines yields a sequence that is sorted, descending, and
/// holds exactly the records it was given.
pub proof fn lemma_sort_by_code_props(s: Seq<ResultView>)
    ensures
        sorted_by_code_desc(spec_sort_by_code(s)),
        spec_sort_by_code(s).to_multiset() == s.to_multiset(),
        spec_sort_by_code(s).len() == s.len(),
    decreases s.len(),
{
    broadcast use vstd::seq_lib::group_to_multiset_ensures;

    if s.len() > 0 {
        let dl = s.drop_last();
        lemma_sort_by_code_props(dl);
        lemma_insert_by_code_props(spec_sort_by_code(dl), s.last());
        assert(s =~= dl.push(s.last()));
        assert(spec_sort_by_code(s).to_multiset() =~= s.to_multiset()) by {
            assert(spec_sort_by_code(s).to_multiset() =~= spec_sort_by_code(
                dl,
            ).to_multiset().insert(s.last()));
            assert(s.to_multiset() =~= dl.to_multiset().insert(s.last()));
        }
    }
}

/// Inserts a record into a vector sorted by code lines, descending.
fn insert_by_code(v: Vec<FunctionAnalysisResult>, x: FunctionAnalysisResult) -> (r: Vec<
    FunctionAnalysisResult,
>)
    ensures
        r@.map_values(|y: FunctionAnalysisResult| y@) == spec_insert_by_code(
            v@.map_values(|y: FunctionAnalysisResult| y@),
            x@,
        ),
    decreases v@.len(),
{
    let ghost s = v@.map_values(|y: FunctionAnalysisResult| y@);
    let mut v = v;
    if v.len() == 0 {
        v.push(x);
        proof {
            assert(v@.map_values(|y: FunctionAnalysisResult| y@) =~= seq![x@]);
        }
        v
    } else {
        proof {
            assert(s.last() == v@.last()@);
        }
        if v[v.len() - 1].code >= x.code {
            let ghost old_v = v@;
            v.push(x);
            proof {
                assert(v@.map_values(|y: FunctionAnalysisResult| y@) =~= old_v.map_values(
                    |y: FunctionAnalysisResult| y@,
                ).push(x@));
            }
            v
        } else {
            let last = match v.pop() {
                Some(l) => l,
                None => unreached(),
            };
            proof {
                assert(v@.map_values(|y: FunctionAnalysisResult| y@) =~= s.drop_last());
            }
            let mut r = insert_by_code(v, x);
            let ghost r0 = r@;
            r.push(last);
            proof {
                assert(r@.map_values(|y: FunctionAnalysisResult| y@) =~= r0.map_values(
                    |y: FunctionAnalysisResult| y@,
                ).push(last@));
            }
            r
        }
    }
}

/// The table rendering of one record.
fn render_table_line(r: &FunctionAnalysisResult) -> (out: String)
    ensures
        out@ == spec_table_line(r@),
{
    let mut s = String::from_str("  - fn ");
    s.append(r.name.as_str());
    s.append(": total=");
    let num = usize_to_string(r.total);
    s.append(num.as_str());
    s.append(" lines, code=");
    let num = usize_to_string(r.code);
    s.append(num.as_str());
    s.append(", comment=");
    let num = usize_to_string(r.comment);
    s.append(num.as_str());
    s.append(", empty=");
    let num = usize_to_string(r.empty);
    s.append(num.as_str());
    s.append(", complexity=");
    let num = usize_to_string(r.cyclomatic_complexity);
    s.append(num.as_str());
    s.append(", nesting=");
    let num = usize_to_string(r.nesting_depth);
    s.append(num.as_str());
    s
}

/// The CSV rendering of one record.
fn render_csv_line(r: &FunctionAnalysisResult) -> (out: String)
    ensures
        out@ == spec_csv_line(r@),
{
    let mut s = String::new();
    s.append(r.name.as_str());
    s.append(",");
    let num = usize_to_string(r.total);
    s.append(num.as_str());
    s.append(",");
    let num = usize_to_string(r.code);
    s.append(num.as_str());
    s.append(",");
    let num = usize_to_string(r.comment);
    s.append(num.as_str());
    s.append(",");
    let num = usize_to_string(r.empty);
    s.append(num.as_str());
    s.append(",");
    let num = usize_to_string(r.cyclomatic_complexity);
    s.append(num.as_str());
    s.append(",");
    let num = usize_to_string(r.nesting_depth);
    s.append(num.as_str());
    s
}

/// The JSON rendering of one record.
fn render_json_line(r: &FunctionAnalysisResult, with_comma: bool) -> (out: String)
    ensures
        out@ == spec_json_line(r@, with_comma),
{
    let mut s = String::from_str("  {\"name\": \"");
    s.append(r.name.as_str());
    s.append("\", \"total\": ");
    let num = usize_to_string(r.total);
    s.append(num.as_str());
    s.append(", \"code\": ");
    let num = usize_to_string(r.code);
    s.append(num.as_str());
    s.append(", \"comment\": ");
    let num = usize_to_string(r.comment);
    s.append(num.as_str());
    s.append(", \"empty\": ");
    let num = usize_to_string(r.empty);
    s.append(num.as_str());
    s.append(", \"complexity\": ");
    let num = usize_to_string(r.cyclomatic_complexity);
    s.append(num.as_str());
    s.append(", \"nesting\": ");
    let num = usize_to_string(r.nesting_depth);
    s.append(num.as_str());
    s.append("}");
    if with_comma {
        s.append(",");
    }
    proof {
        if !with_comma {
            assert(spec_json_line(r@, with_comma) =~= s@);
        }
    }
    s
}

/// Handles the formatting of analysis results.
pub struct OutputFormatter {
    pub format: OutputFormat,
}

impl Default for OutputFormatter {
    /// The default formatter uses the table format.
    fn default() -> (r: Self)
        ensures
            r.format is Table,
    {
        OutputFormatter::new()
    }
}

impl OutputFormatter {
    /// A formatter with the default table format.
    pub fn new() -> (r: Self)
        ensures
            r.format is Table,
    {
        OutputFormatter { format: OutputFormat::Table }
    }

    /// A formatter with the given format.
    pub fn with_format(format: OutputFormat) -> (r: Self)
        ensures
            r.format == format,
    {
        OutputFormatter { format }
    }

    /// The output lines for the results, sorted by code lines in
    /// descending order and rendered in the formatter's format.
    pub fn display_results_sorted_by_code(&self, results: &Vec<FunctionAnalysisResult>) -> (out:
        Vec<String>)
        ensures
            out@.map_values(|s: String| s@) == spec_render_all(
                spec_sort_by_code(results@.map_values(|y: FunctionAnalysisResult| y@)),
                self.format,
            ),
    {
        let ghost views = results@.map_values(|y: FunctionAnalysisResult| y@);
        let mut sorted: Vec<FunctionAnalysisResult> = Vec::new();
        let n = results.len();
        let mut i: usize = 0;
        while i < n
            invariant
                i <= n,
                n == results@.len(),
                views == results@.map_values(|y: FunctionAnalysisResult| y@),
                sorted@.map_values(|y: FunctionAnalysisResult| y@) == spec_sort_by_code(
                    views.take(i as int),
                ),
            decreases n - i,
        {
            proof {
                assert(views.take(i + 1).drop_last() =~= views.take(i as int));
                assert(views.take(i + 1).last() == views[i as int]);
                assert(views[i as int] == results@[i as int]@);
            }
            sorted = insert_by_code(sorted, results[i].clone());
            i = i + 1;
        }
        proof {
            assert(views.take(n as int) =~= views);
        }
        let ghost svs = spec_sort_by_code(views);
        let ghost target = spec_render_all(svs, self.format);
        let m = sorted.len();
        let mut out: Vec<String> = Vec::new();
        match self.format {
            OutputFormat::Table => {
                let mut j: usize = 0;
                while j < m
                    invariant
                        j <= m,
                        m == sorted@.len(),
                        sorted@.map_values(|y: FunctionAnalysisResult| y@) == svs,
                        target == spec_render_all(svs, OutputFormat::Table),
                        out@.map_values(|s: String| s@) =~= target.take(j as int),
                    decreases m - j,
                {
                    let line = render_table_line(&sorted[j]);
                    proof {
                        assert(svs[j as int] == sorted@[j as int]@);
                        assert(out@.push(line).map_values(|s: String| s@) =~= out@.map_values(
                            |s: String| s@,
                        ).push(line@));
                        assert(out@.map_values(|s: String| s@).push(line@) =~= target.take(j + 1));
                    }
                    out.push(line);
                    j = j + 1;
                }
                proof {
                    assert(target.take(m as int) =~= target);
                }
            },
            OutputFormat::Csv => {
                let mut j: usize = 0;
                while j < m
                    invariant
                        j <= m,
                        m == sorted@.len(),
                        sorted@.map_values(|y: FunctionAnalysisResult| y@) == svs,
                        target == spec_render_all(svs, OutputFormat::Csv),
                        out@.map_values(|s: String| s@) =~= target.take(j as int),
                    decreases m - j,
                {
                    let line = render_csv_line(&sorted[j]);
                    proof {
                        assert(svs[j as int] == sorted@[j as int]@);
                        assert(out@.push(line).map_values(|s: String| s@) =~= out@.map_values(
                            |s: String| s@,
                        ).push(line@));
                        assert(out@.map_values(|s: String| s@).push(line@) =~= target.take(j + 1));
                    }
                    out.push(line);
                    j = j + 1;
                }
                proof {
                    assert(target.take(m as int) =~= target);
                }
            },
            OutputFormat::Json => {
                let open = String::from_str("[");
                proof {
                    assert(out@.push(open).map_values(|s: String| s@) =~= target.take(1));
                }
                out.push(open);
                let mut j: usize = 0;
                while j < m
                    invariant
                        j <= m,
                        m == sorted@.len(),
                        sorted@.map_values(|y: FunctionAnalysisResult| y@) == svs,
                        target == spec_render_all(svs, OutputFormat::Json),
                        target.len() == m + 2,
                        out@.map_values(|s: String| s@) =~= target.take(j + 1),
                    decreases m - j,
                {
                    let line = render_json_line(&sorted[j], j + 1 < m);
                    proof {
                        assert(svs[j as int] == sorted@[j as int]@);
                        assert(target[j + 1] == line@);
                        assert(out@.push(line).map_values(|s: String| s@) =~= out@.map_values(
                            |s: String| s@,
                        ).push(line@));
                        assert(out@.map_values(|s: String| s@).push(line@) =~= target.take(j + 2));
                    }
                    out.push(line);
                    j = j + 1;
                }
                let close = String::from_str("]");
                proof {
                    assert(target[m + 1] == close@);
                    assert(out@.push(close).map_values(|s: String| s@) =~= out@.map_values(
                        |s: String| s@,
                    ).push(close@));
                    assert(out@.map_values(|s: String| s@).push(close@) =~= target);
                }
                out.push(close);
            },
        }
        out
    }
}

} // verus!
