//! The append-only result history.
//!
//! The history is a text of lines, one printed record per line, in append
//! order. Loading walks the lines: blank lines are skipped, lines that
//! parse become records, and the positions of lines that do not parse are
//! reported so the caller can warn without losing the rest. Appending a
//! record to a well-terminated history and loading it back finds the
//! record again (the store round-trip law).
//!
//! Reading and writing the backing file is the surrounding program's part;
//! this module works on the file's text.

use vstd::prelude::*;
use vstd::string::StrSliceExecFns;
use vstd::string::StringExecFns;
use crate::record::WpmResult;
use crate::record::spec_record_line;
use crate::record::spec_parse_record;
use crate::record::lemma_record_round_trip;
use crate::codec::lemma_concat_parts;
use crate::codec::no_newline;

verus! {

/// The first position at or after `i` that holds a line break, or the end.
pub open spec fn scan_line_end(s: Seq<char>, i: int) -> int
    decreases s.len() - i,
{
    if i < 0 || i >= s.len() || s[i] == '\n' {
        i
    } else {
        scan_line_end(s, i + 1)
    }
}

pub proof fn lemma_scan_line_bounds(s: Seq<char>, i: int)
    requires
        0 <= i <= s.len(),
    ensures
        i <= scan_line_end(s, i) <= s.len(),
    decreases s.len() - i,
{
    if i < s.len() && s[i] != '\n' {
        lemma_scan_line_bounds(s, i + 1);
    }
}

/// Where no break stands in `[i, j)` and one stands at `j` (or `j` is the
/// end), the scan stops at `j`.
pub proof fn lemma_scan_line_stops(s: Seq<char>, i: int, j: int)
    requires
        0 <= i <= j <= s.len(),
        forall|k: int| i <= k < j ==> #[trigger] s[k] != '\n',
        j == s.len() || s[j] == '\n',
    ensures
        scan_line_end(s, i) == j,
    decreases j - i,
{
    if i < j {
        lemma_scan_line_stops(s, i + 1, j);
    }
}

/// A scan that stops at a break inside `s` is unchanged by text appended
/// after `s`.
pub proof fn lemma_scan_line_prefix(s: Seq<char>, t: Seq<char>, i: int)
    requires
        0 <= i <= s.len(),
        scan_line_end(s, i) < s.len(),
    ensures
        scan_line_end(s + t, i) == scan_line_end(s, i),
    decreases s.len() - i,
{
    lemma_scan_line_bounds(s, i);
    lemma_concat_parts(s, t);
    if s[i] == '\n' {
    } else {
        lemma_scan_line_prefix(s, t, i + 1);
    }
}

/// The lines of `s` from position `i` on: each break ends a line, and a
/// final unterminated stretch is a line of its own.
pub open spec fn spec_lines_from(s: Seq<char>, i: int) -> Seq<Seq<char>>
    decreases s.len() - i,
{
    if i < 0 || i >= s.len() {
        Seq::empty()
    } else {
        let j = scan_line_end(s, i);
        if j < i || j > s.len() {
            Seq::empty()
        } else if j == s.len() {
            seq![s.subrange(i, j)]
        } else {
            seq![s.subrange(i, j)] + spec_lines_from(s, j + 1)
        }
    }
}

/// The lines of a history text.
pub open spec fn spec_lines(s: Seq<char>) -> Seq<Seq<char>> {
    spec_lines_from(s, 0)
}

/// The records of a list of lines: blank lines are skipped, lines that
/// parse are kept in order, lines that do not parse are dropped.
pub open spec fn spec_records_of(lines: Seq<Seq<char>>) -> Seq<WpmResult>
    decreases lines.len(),
{
    if lines.len() == 0 {
        Seq::empty()
    } else {
        let rest = spec_records_of(lines.drop_first());
        if lines[0].len() == 0 {
            rest
        } else {
            match spec_parse_record(lines[0]) {
                Option::Some(r) => seq![r] + rest,
                Option::None => rest,
            }
        }
    }
}

/// The zero-based positions, counted from `base`, of the non-blank lines
/// that do not parse.
pub open spec fn spec_bad_lines(lines: Seq<Seq<char>>, base: int) -> Seq<int>
    decreases lines.len(),
{
    if lines.len() == 0 {
        Seq::empty()
    } else {
        let rest = spec_bad_lines(lines.drop_first(), base + 1);
        if lines[0].len() == 0 || spec_parse_record(lines[0]) is Some {
            rest
        } else {
            seq![base] + rest
        }
    }
}

/// The in-memory view of the history: the records in file order.
pub struct ResultStore {
    records: Vec<WpmResult>,
}

impl ResultStore {
    pub closed spec fn records(&self) -> Seq<WpmResult> {
        self.records@
    }

    pub open spec fn wf(&self) -> bool {
        forall|k: int| 0 <= k < self.records().len() ==> (#[trigger] self.records()[k]).wf()
    }

    /// An empty history, as a first run finds it.
    pub fn empty() -> (r: ResultStore)
        ensures
            r.records() == Seq::<WpmResult>::empty(),
            r.wf(),
    {
        ResultStore { records: Vec::new() }
    }

    /// Loads the whole history from the backing file's text. A missing
    /// file (`None`) yields an empty history and no warnings; otherwise
    /// every line is decoded independently: blank lines are skipped,
    /// records are kept in order, and the position of each line that does
    /// not decode is reported.
    #[verifier::rlimit(100)]
    pub fn load_all(content: Option<&str>) -> (r: (ResultStore, Vec<usize>))
        ensures
            r.0.wf(),
            match content {
                Option::None => {
                    &&& r.0.records() == Seq::<WpmResult>::empty()
                    &&& r.1@ == Seq::<usize>::empty()
                },
                Option::Some(text) => {
                    &&& r.0.records() == spec_records_of(spec_lines(text@))
                    &&& r.1@.map_values(|x: usize| x as int) == spec_bad_lines(
                        spec_lines(text@),
                        0,
                    )
                },
            },
    {
        let text = match content {
            None => {
                let ghost e = Seq::<usize>::empty();
                proof {
                    assert(e.map_values(|x: usize| x as int) =~= Seq::<int>::empty());
                }
                return (ResultStore::empty(), Vec::new());
            },
            Some(t) => t,
        };
        let n = text.unicode_len();
        let mut records: Vec<WpmResult> = Vec::new();
        let mut bad: Vec<usize> = Vec::new();
        let mut i: usize = 0;
        let mut line_no: usize = 0;
        while i < n
            invariant
                i <= n + 1,
                line_no <= i,
                n == text@.len(),
                forall|k: int| 0 <= k < records@.len() ==> (#[trigger] records@[k]).wf(),
                spec_records_of(spec_lines(text@)) == records@ + spec_records_of(
                    spec_lines_from(text@, i as int),
                ),
                spec_bad_lines(spec_lines(text@), 0) == bad@.map_values(|x: usize| x as int)
                    + spec_bad_lines(spec_lines_from(text@, i as int), line_no as int),
            decreases n - i,
        {
            let mut j: usize = i;
            while j < n && text.get_char(j) != '\n'
                invariant
                    i <= j <= n,
                    n == text@.len(),
                    scan_line_end(text@, i as int) == scan_line_end(text@, j as int),
                decreases n - j,
            {
                j = j + 1;
            }
            let ghost lines_here = spec_lines_from(text@, i as int);
            proof {
                assert(lines_here =~= seq![text@.subrange(i as int, j as int)] + spec_lines_from(
                    text@,
                    j + 1,
                ));
                assert(lines_here.drop_first() =~= spec_lines_from(text@, j + 1));
                assert(lines_here[0] == text@.subrange(i as int, j as int));
            }
            let line = text.substring_char(i, j);
            if line.unicode_len() > 0 {
                match WpmResult::from_json(line) {
                    Ok(rec) => {
                        let ghost prev = records@;
                        records.push(rec);
                        proof {
                            assert(seq![rec] + spec_records_of(lines_here.drop_first())
                                =~= spec_records_of(lines_here));
                            assert(prev + spec_records_of(lines_here) =~= records@
                                + spec_records_of(lines_here.drop_first()));
                            assert(bad@.map_values(|x: usize| x as int) + spec_bad_lines(
                                lines_here,
                                line_no as int,
                            ) =~= bad@.map_values(|x: usize| x as int) + spec_bad_lines(
                                lines_here.drop_first(),
                                line_no + 1,
                            ));
                        }
                    },
                    Err(_) => {
                        let ghost prevb = bad@.map_values(|x: usize| x as int);
                        bad.push(line_no);
                        proof {
                            assert(bad@.map_values(|x: usize| x as int) =~= prevb.push(
                                line_no as int,
                            ));
                            assert(seq![line_no as int] + spec_bad_lines(
                                lines_here.drop_first(),
                                line_no + 1,
                            ) =~= spec_bad_lines(lines_here, line_no as int));
                            assert(prevb + spec_bad_lines(lines_here, line_no as int)
                                =~= bad@.map_values(|x: usize| x as int) + spec_bad_lines(
                                lines_here.drop_first(),
                                line_no + 1,
                            ));
                        }
                    },
                }
            }
            if j < n {
                i = j + 1;
            } else {
                i = n;
            }
            line_no = line_no + 1;
            proof {
                assert(spec_lines_from(text@, i as int) =~= lines_here.drop_first());
            }
        }
        proof {
            assert(spec_lines_from(text@, i as int) =~= Seq::<Seq<char>>::empty());
            assert(records@ + spec_records_of(spec_lines_from(text@, i as int)) =~= records@);
            assert(bad@.map_values(|x: usize| x as int) + spec_bad_lines(
                spec_lines_from(text@, i as int),
                line_no as int,
            ) =~= bad@.map_values(|x: usize| x as int));
        }
        (ResultStore { records }, bad)
    }

    /// Records a finished session and hands back the one line, break
    /// included, that the caller appends to the backing file.
    pub fn append(&mut self, record: WpmResult) -> (line: String)
        requires
            record.wf(),
            old(self).wf(),
        ensures
            final(self).wf(),
            final(self).records() == old(self).records().push(record),
            line@ == spec_record_line(record) + seq!['\n'],
    {
        let ghost prev = self.records@;
        self.records.push(record);
        proof {
            assert forall|k: int| 0 <= k < self.records@.len() implies (
            #[trigger] self.records@[k]).wf() by {
                if k < prev.len() {
                    assert(self.records@[k] == prev[k]);
                    assert(old(self).records()[k].wf());
                } else {
                    assert(self.records@[k] == record);
                }
            }
        }
        let mut line = record.to_json();
        proof {
            reveal_strlit("\n");
            assert("\n"@ =~= seq!['\n']);
        }
        line.append("\n");
        line
    }

    pub fn len(&self) -> (n: usize)
        ensures
            n == self.records().len(),
    {
        self.records.len()
    }

    /// The record at position `i`, oldest first.
    pub fn record_at(&self, i: usize) -> (r: &WpmResult)
        requires
            i < self.records().len(),
        ensures
            *r == self.records()[i as int],
    {
        &self.records[i]
    }

    /// The history as the chart's data: one (timestamp label, whole
    /// adjusted speed) point per record, oldest first.
    pub fn chart_points(&self) -> (r: Vec<(String, u64)>)
        requires
            self.wf(),
        ensures
            r@.len() == self.records().len(),
            forall|k: int|
                0 <= k < r@.len() ==> (#[trigger] r@[k]).0@
                    == crate::record::spec_datetime_chars(self.records()[k].date_time)
                    && r@[k].1 == self.records()[k].awpm_milli / 1000,
    {
        let mut out: Vec<(String, u64)> = Vec::new();
        let n = self.records.len();
        let mut k: usize = 0;
        while k < n
            invariant
                k <= n,
                n == self.records().len(),
                self.wf(),
                out@.len() == k,
                forall|t: int|
                    0 <= t < k ==> (#[trigger] out@[t]).0@
                        == crate::record::spec_datetime_chars(self.records()[t].date_time)
                        && out@[t].1 == self.records()[t].awpm_milli / 1000,
            decreases n - k,
        {
            let rec = &self.records[k];
            out.push((rec.date_label(), rec.awpm_whole()));
            k = k + 1;
        }
        out
    }
}

/// Appending one printed line to a well-terminated text adds exactly one
/// line to its line list.
pub proof fn lemma_lines_append(s: Seq<char>, l: Seq<char>, i: int)
    requires
        0 <= i <= s.len(),
        no_newline(l),
        i == s.len() || s.last() == '\n',
    ensures
        spec_lines_from(s + l + seq!['\n'], i) == spec_lines_from(s, i).push(l),
    decreases s.len() - i,
{
    let full = s + l + seq!['\n'];
    lemma_concat_parts(s + l, seq!['\n']);
    lemma_concat_parts(s, l);
    assert(s + l + seq!['\n'] == (s + l) + seq!['\n']);
    if i == s.len() {
        // one final line: `l` runs to the closing break
        assert forall|k: int| i <= k < i + l.len() implies #[trigger] full[k] != '\n' by {
            assert((s + l)[k] == l[k - s.len()]);
            assert(full[k] == (s + l)[k]);
        }
        assert(full[s.len() + l.len() as int] == '\n');
        lemma_scan_line_stops(full, i, i + l.len());
        assert(full.subrange(i, i + l.len()) =~= l);
        assert(spec_lines_from(full, i + l.len() + 1) =~= Seq::<Seq<char>>::empty());
        assert(spec_lines_from(full, i) =~= seq![l]);
        assert(spec_lines_from(s, i) =~= Seq::<Seq<char>>::empty());
        assert(spec_lines_from(s, i).push(l) =~= seq![l]);
    } else {
        // the first line of `s` is also the first line of the longer text
        let j = scan_line_end(s, i);
        lemma_scan_line_bounds(s, i);
        assert(s[s.len() - 1] == '\n');
        lemma_scan_line_ends_before(s, i);
        lemma_scan_line_prefix(s, l + seq!['\n'], i);
        assert(s + (l + seq!['\n']) =~= full);
        assert(scan_line_end(full, i) == j);
        assert(full.subrange(i, j) =~= s.subrange(i, j));
        lemma_lines_append(s, l, j + 1);
        assert(spec_lines_from(full, i) == seq![full.subrange(i, j)] + spec_lines_from(
            full,
            j + 1,
        ));
        assert(spec_lines_from(s, i) == seq![s.subrange(i, j)] + spec_lines_from(s, j + 1));
        assert(seq![s.subrange(i, j)] + spec_lines_from(s, j + 1).push(l) =~= (seq![
            s.subrange(i, j),
        ] + spec_lines_from(s, j + 1)).push(l));
    }
}

/// In a text whose last character is a break, a scan from any inside
/// position stops before the end.
pub proof fn lemma_scan_line_ends_before(s: Seq<char>, i: int)
    requires
        0 <= i < s.len(),
        s.last() == '\n',
    ensures
        scan_line_end(s, i) < s.len(),
    decreases s.len() - i,
{
    if s[i] != '\n' {
        lemma_scan_line_ends_before(s, i + 1);
    }
}

/// The records of a line list with one line appended: the appended line's
/// record, if any, comes last.
pub proof fn lemma_records_of_push(lines: Seq<Seq<char>>, l: Seq<char>)
    ensures
        spec_records_of(lines.push(l)) == spec_records_of(lines) + spec_records_of(seq![l]),
    decreases lines.len(),
{
    if lines.len() == 0 {
        assert(lines.push(l) =~= seq![l]);
        assert(spec_records_of(lines) =~= Seq::<WpmResult>::empty());
        assert(spec_records_of(lines) + spec_records_of(seq![l]) =~= spec_records_of(seq![l]));
    } else {
        lemma_records_of_push(lines.drop_first(), l);
        assert(lines.push(l).drop_first() =~= lines.drop_first().push(l));
        assert(lines.push(l)[0] == lines[0]);
        if lines[0].len() == 0 {
        } else {
            match spec_parse_record(lines[0]) {
                Option::Some(r) => {
                    assert(seq![r] + (spec_records_of(lines.drop_first()) + spec_records_of(
                        seq![l],
                    )) =~= (seq![r] + spec_records_of(lines.drop_first())) + spec_records_of(
                        seq![l],
                    ));
                },
                Option::None => {},
            }
        }
    }
}

/// The records of a single line that parses: exactly that record.
pub proof fn lemma_records_of_single(l: Seq<char>, r: WpmResult)
    requires
        l.len() > 0,
        spec_parse_record(l) == Option::Some(r),
    ensures
        spec_records_of(seq![l]) == seq![r],
{
    assert(seq![l].drop_first() =~= Seq::<Seq<char>>::empty());
    assert(seq![l][0] == l);
    assert(spec_records_of(Seq::<Seq<char>>::empty()) == Seq::<WpmResult>::empty());
    assert(spec_records_of(seq![l]) =~= seq![r]);
}

/// The store round-trip law: appending a record's line to any
/// well-terminated history text and loading that text back yields a
/// history that contains the record, equal in all fields.
#[verifier::rlimit(100)]
pub proof fn lemma_store_round_trip(content: Seq<char>, r: WpmResult)
    requires
        r.wf(),
        content.len() == 0 || content.last() == '\n',
    ensures
        spec_records_of(spec_lines(content + spec_record_line(r) + seq!['\n'])).contains(r),
{
    let l = spec_record_line(r);
    crate::record::lemma_record_line_no_newline(r);
    crate::record::lemma_record_line_nonempty(r);
    lemma_record_round_trip(r);
    lemma_lines_append(content, l, 0);
    let lines = spec_lines(content);
    lemma_records_of_push(lines, l);
    lemma_records_of_single(l, r);
    let all = spec_records_of(spec_lines(content + l + seq!['\n']));
    assert(all == spec_records_of(lines) + seq![r]);
    assert(all[all.len() - 1] == r);
}

} // verus!
