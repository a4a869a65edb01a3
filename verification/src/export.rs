use vstd::prelude::*;
use vstd::string::StrSliceExecFns;

verus! {

/// A line read up to a '\n' loses one '\r' standing right before it; a
/// line that merely ends in '\r' at the end of the input keeps it.
pub open spec fn strip_cr(l: Seq<char>) -> Seq<char> {
    if l.len() > 0 && l.last() == '\r' {
        l.drop_last()
    } else {
        l
    }
}

/// The lines of `rest` when `cur` of the current line is already read.
pub open spec fn lines_rec(rest: Seq<char>, cur: Seq<char>) -> Seq<Seq<char>>
    decreases rest.len(),
{
    if rest.len() == 0 {
        if cur.len() == 0 {
            Seq::empty()
        } else {
            seq![cur]
        }
    } else if rest[0] == '\n' {
        seq![strip_cr(cur)] + lines_rec(rest.drop_first(), Seq::empty())
    } else {
        lines_rec(rest.drop_first(), cur.push(rest[0]))
    }
}

/// The lines of a buffer: split at every '\n', with a '\r' right before
/// the '\n' dropped; a trailing newline adds no empty final line, and a
/// final line without one is kept.
pub open spec fn spec_lines(s: Seq<char>) -> Seq<Seq<char>> {
    lines_rec(s, Seq::empty())
}

/// Each buffer replaced by its lines.
pub open spec fn lines_table(content: Seq<Seq<char>>) -> Seq<Seq<Seq<char>>> {
    content.map_values(|s: Seq<char>| spec_lines(s))
}

/// The height of the export table: the line count of its longest column.
pub open spec fn max_line_count(table: Seq<Seq<Seq<char>>>) -> int
    decreases table.len(),
{
    if table.len() == 0 {
        0
    } else {
        let rest = max_line_count(table.drop_last());
        if table.last().len() >= rest {
            table.last().len() as int
        } else {
            rest
        }
    }
}

/// Splits one buffer into its lines, exactly as `spec_lines` states.
pub fn split_lines(s: &str) -> (r: Vec<String>)
    ensures
        r.deep_view() == spec_lines(s@),
{
    let n: usize = s.unicode_len();
    let mut out: Vec<String> = Vec::new();
    let mut start: usize = 0;
    let mut i: usize = 0;
    proof {
        assert(s@.skip(0) =~= s@);
        assert(s@.subrange(0, 0) =~= Seq::<char>::empty());
        assert(out.deep_view() =~= Seq::<Seq<char>>::empty());
        assert(out.deep_view() + lines_rec(s@, Seq::empty()) =~= lines_rec(s@, Seq::empty()));
    }
    while i < n
        invariant
            start <= i <= n,
            n == s@.len(),
            spec_lines(s@) == out.deep_view() + lines_rec(
                s@.skip(i as int),
                s@.subrange(start as int, i as int),
            ),
        decreases n - i,
    {
        let ghost out0 = out.deep_view();
        let c = s.get_char(i);
        proof {
            assert(s@.skip(i as int)[0] == c);
            assert(s@.skip(i as int).drop_first() =~= s@.skip(i as int + 1));
        }
        if c == '\n' {
            let end: usize = if i > start && s.get_char(i - 1) == '\r' {
                i - 1
            } else {
                i
            };
            proof {
                assert(strip_cr(s@.subrange(start as int, i as int)) =~= s@.subrange(
                    start as int,
                    end as int,
                ));
            }
            let line = s.substring_char(start, end);
            out.push(line.to_owned());
            proof {
                assert(out.deep_view() =~= out0.push(s@.subrange(start as int, end as int)));
                assert(out0 + (seq![strip_cr(s@.subrange(start as int, i as int))] + lines_rec(
                    s@.skip(i as int + 1),
                    Seq::empty(),
                )) =~= out.deep_view() + lines_rec(s@.skip(i as int + 1), Seq::empty()));
                assert(s@.subrange(i as int + 1, i as int + 1) =~= Seq::<char>::empty());
            }
            start = i + 1;
        } else {
            proof {
                assert(s@.subrange(start as int, i as int).push(c) =~= s@.subrange(
                    start as int,
                    i as int + 1,
                ));
            }
        }
        i = i + 1;
    }
    proof {
        assert(s@.skip(n as int) =~= Seq::<char>::empty());
    }
    if start < n {
        let ghost out0 = out.deep_view();
        let line = s.substring_char(start, n);
        out.push(line.to_owned());
        proof {
            assert(out.deep_view() =~= out0.push(s@.subrange(start as int, n as int)));
            assert(out0 + seq![s@.subrange(start as int, n as int)] =~= out.deep_view());
        }
    } else {
        proof {
            assert(s@.subrange(start as int, n as int).len() == 0);
            assert(out.deep_view() + Seq::<Seq<char>>::empty() =~= out.deep_view());
        }
    }
    out
}

/// Builds the export table: the first row is the column titles, and row
/// `c + 1` holds line `c` of every buffer, with an empty value where a
/// buffer has fewer lines. One column per buffer, as many value rows as
/// the longest buffer has lines.
pub fn process_data(titles: Vec<String>, content: Vec<String>) -> (r: Vec<Vec<String>>)
    requires
        content@.len() >= 1,
    ensures
        ({
            let table = lines_table(content.deep_view());
            let ncols = max_line_count(table);
            &&& r.deep_view().len() == 1 + ncols
            &&& r.deep_view()[0] == titles.deep_view()
            &&& forall|rr: int|
                1 <= rr <= ncols ==> (#[trigger] r.deep_view()[rr]).len() == content@.len()
            &&& forall|rr: int, j: int|
                #![trigger r.deep_view()[rr][j]]
                1 <= rr <= ncols && 0 <= j < table.len() ==> r.deep_view()[rr][j] == (if rr - 1
                    < table[j].len() {
                    table[j][rr - 1]
                } else {
                    Seq::<char>::empty()
                })
        }),
{
    let ghost table = lines_table(content.deep_view());
    let mut mat: Vec<Vec<String>> = Vec::new();
    let mut j: usize = 0;
    while j < content.len()
        invariant
            j <= content@.len(),
            mat.deep_view().len() == j,
            table == lines_table(content.deep_view()),
            forall|k: int| 0 <= k < j ==> #[trigger] mat.deep_view()[k] == table[k],
        decreases content@.len() - j,
    {
        let ghost mat0 = mat.deep_view();
        let lines = split_lines(content[j].as_str());
        mat.push(lines);
        proof {
            assert(mat.deep_view().len() == j + 1);
            assert(forall|k: int| 0 <= k < j ==> #[trigger] mat.deep_view()[k] == mat0[k]);
            assert(table[j as int] == spec_lines(content.deep_view()[j as int]));
            assert(mat.deep_view()[j as int] == table[j as int]);
        }
        j = j + 1;
    }
    proof {
        assert(mat.deep_view() =~= table);
    }
    let mut ncols: usize = 0;
    let mut j: usize = 0;
    while j < mat.len()
        invariant
            j <= mat@.len(),
            mat.deep_view() == table,
            ncols == max_line_count(table.take(j as int)),
        decreases mat@.len() - j,
    {
        proof {
            assert(table.take(j as int + 1).drop_last() =~= table.take(j as int));
            assert(table.take(j as int + 1).last() == table[j as int]);
        }
        let rows = mat[j].len();
        if rows > ncols {
            ncols = rows;
        }
        j = j + 1;
    }
    proof {
        assert(table.take(mat@.len() as int) =~= table);
    }
    let mut r: Vec<Vec<String>> = Vec::new();
    let ghost titles_view = titles.deep_view();
    r.push(titles);
    let mut c: usize = 0;
    while c < ncols
        invariant
            c <= ncols,
            ncols == max_line_count(table),
            mat.deep_view() == table,
            table.len() == content@.len(),
            r.deep_view().len() == 1 + c,
            r.deep_view()[0] == titles_view,
            forall|rr: int| 1 <= rr <= c ==> (#[trigger] r.deep_view()[rr]).len() == table.len(),
            forall|rr: int, j2: int|
                #![trigger r.deep_view()[rr][j2]]
                1 <= rr <= c && 0 <= j2 < table.len() ==> r.deep_view()[rr][j2] == (if rr - 1
                    < table[j2].len() {
                    table[j2][rr - 1]
                } else {
                    Seq::<char>::empty()
                }),
        decreases ncols - c,
    {
        let ghost r0 = r.deep_view();
        let mut row: Vec<String> = Vec::new();
        let mut j2: usize = 0;
        while j2 < mat.len()
            invariant
                j2 <= mat@.len(),
                mat.deep_view() == table,
                row.deep_view().len() == j2,
                forall|k: int|
                    0 <= k < j2 ==> #[trigger] row.deep_view()[k] == (if c < table[k].len() {
                        table[k][c as int]
                    } else {
                        Seq::<char>::empty()
                    }),
            decreases mat@.len() - j2,
        {
            let ghost row0 = row.deep_view();
            let cell_count = mat[j2].len();
            if c < cell_count {
                let cell = mat[j2][c].clone();
                row.push(cell);
            } else {
                row.push(String::new());
            }
            proof {
                assert(row.deep_view().len() == j2 + 1);
                assert(forall|k: int| 0 <= k < j2 ==> #[trigger] row.deep_view()[k] == row0[k]);
                assert(row.deep_view()[j2 as int] == (if c < table[j2 as int].len() {
                    table[j2 as int][c as int]
                } else {
                    Seq::<char>::empty()
                }));
            }
            j2 = j2 + 1;
        }
        r.push(row);
        proof {
            assert(r.deep_view().len() == 1 + c + 1);
            assert(forall|rr: int| 0 <= rr <= c ==> #[trigger] r.deep_view()[rr] == r0[rr]);
        }
        c = c + 1;
    }
    r
}

} // verus!
