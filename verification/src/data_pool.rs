//! Data pool: rows of a CSV text handed out to the load generators, either in
//! turn (cycling) or at random.
use vstd::prelude::*;
use rand::Rng;
use crate::text::{
    chars_equal, chars_of, decimal, decimal_string, lemma_chars_deep_view, lines, split, split_chars,
    split_lines, string_from_chars, trim, trim_chars,
};


verus! {

broadcast use vstd::string::group_string_axioms;

/// How a data pool hands out its rows.
#[derive(Clone, Debug, PartialEq, Eq, Structural)]
pub enum DataPoolMode {
    /// Any row, drawn at random.
    Random,
    /// The rows in turn, starting over after the last one.
    Sequential,
}

impl Default for DataPoolMode {
    fn default() -> (m: Self)
        ensures
            m == DataPoolMode::Sequential,
    {
        DataPoolMode::Sequential
    }
}

/// The lower-case form of a text, as `str::to_lowercase` maps it.
pub uninterp spec fn lowercase(s: Seq<char>) -> Seq<char>;

/// Calls `str::to_lowercase`; its result is named `lowercase` of the argument.
#[verifier::external_body]
fn to_lowercase(s: &str) -> (r: String)
    ensures
        r@ == lowercase(s@),
{
    s.to_lowercase()
}

/// The mode a configuration word names: `"random"` in any letter case gives
/// random reads; every other word (`"sequential"`, `"sequence"`, `"loop"` and
/// unknown ones alike) gives sequential reads.
pub open spec fn mode_of_word(s: Seq<char>) -> DataPoolMode {
    if lowercase(s) == "random"@ {
        DataPoolMode::Random
    } else {
        DataPoolMode::Sequential
    }
}

impl DataPoolMode {
    /// The mode that a configuration word names (see `mode_of_word`).
    pub fn from_word(s: &str) -> (m: DataPoolMode)
        ensures
            m == mode_of_word(s@),
    {
        let lower = to_lowercase(s);
        let lower_chars = chars_of(lower.as_str());
        let random_chars = chars_of("random");
        if chars_equal(&lower_chars, &random_chars) {
            DataPoolMode::Random
        } else {
            DataPoolMode::Sequential
        }
    }
}

impl<'a> From<&'a str> for DataPoolMode {
    fn from(s: &'a str) -> (m: DataPoolMode) {
        DataPoolMode::from_word(s)
    }
}

impl<'a> vstd::std_specs::convert::FromSpecImpl<&'a str> for DataPoolMode {
    open spec fn obeys_from_spec() -> bool {
        true
    }

    open spec fn from_spec(v: &'a str) -> DataPoolMode {
        mode_of_word(v@)
    }
}

/// Where a data pool's CSV text comes from, and how its rows are read.
#[derive(Clone, Debug)]
pub struct DataPoolConfig {
    /// Path of the CSV file.
    pub file_path: String,
    /// Read mode.
    pub mode: DataPoolMode,
}

/// A summary of a data pool.
#[derive(Clone, Debug)]
pub struct DataPoolStats {
    /// Number of data rows.
    pub total_rows: usize,
    /// `"random"` or `"sequential"`.
    pub mode: String,
    /// How many times the sequential reads went past the last row.
    pub cycles: usize,
}

impl Default for DataPoolStats {
    fn default() -> (s: Self)
        ensures
            s.total_rows == 0,
            s.mode@ == Seq::<char>::empty(),
            s.cycles == 0,
    {
        DataPoolStats { total_rows: 0, mode: String::new(), cycles: 0 }
    }
}

/// The header fields of a CSV text whose lines are `ls`: the first line split
/// at commas, each field trimmed.
pub open spec fn header_fields(ls: Seq<Seq<char>>) -> Seq<Seq<char>> {
    split(ls[0], ',').map_values(|f: Seq<char>| trim(f))
}

/// Whether a line holds nothing but whitespace (such lines are skipped).
pub open spec fn is_blank(line: Seq<char>) -> bool {
    trim(line).len() == 0
}

/// The fields of a data line: the trimmed line split at commas, each field trimmed.
pub open spec fn row_fields(line: Seq<char>) -> Seq<Seq<char>> {
    split(trim(line), ',').map_values(|f: Seq<char>| trim(f))
}

/// The rows of the non-blank data lines among `ls[1..n]`.
pub open spec fn rows_before(ls: Seq<Seq<char>>, n: int) -> Seq<Seq<Seq<char>>>
    decreases n,
{
    if n <= 1 {
        Seq::empty()
    } else if is_blank(ls[n - 1]) {
        rows_before(ls, n - 1)
    } else {
        rows_before(ls, n - 1).push(row_fields(ls[n - 1]))
    }
}

/// The index of the first non-blank data line at or after `j` whose field count is not `width`.
pub open spec fn first_mismatch(ls: Seq<Seq<char>>, width: int, j: int) -> Option<int>
    decreases ls.len() - j,
{
    if j >= ls.len() || j < 1 {
        None
    } else if !is_blank(ls[j]) && row_fields(ls[j]).len() != width {
        Some(j)
    } else {
        first_mismatch(ls, width, j + 1)
    }
}

/// The message for a data line (numbered from 1 in the text) whose field count
/// differs from the header's.
pub open spec fn mismatch_message(line: nat, found: nat, expected: nat) -> Seq<char> {
    "第"@ + decimal(line) + "行的列数("@ + decimal(found) + ")与表头列数("@ + decimal(expected)
        + ")不匹配"@
}

/// What reading a CSV text gives: its header fields and rows, or the error message.
pub open spec fn csv_outcome(content: Seq<char>) -> Result<
    (Seq<Seq<char>>, Seq<Seq<Seq<char>>>),
    Seq<char>,
> {
    let ls = lines(content);
    if ls.len() == 0 {
        Err("CSV文件为空"@)
    } else {
        let h = header_fields(ls);
        if h.len() == 0 {
            Err("CSV文件没有字段名"@)
        } else {
            match first_mismatch(ls, h.len() as int, 1) {
                Some(j) => Err(
                    mismatch_message((j + 1) as nat, row_fields(ls[j]).len(), h.len()),
                ),
                None => {
                    let rows = rows_before(ls, ls.len() as int);
                    if rows.len() == 0 {
                        Err("CSV文件没有数据行"@)
                    } else {
                        Ok((h, rows))
                    }
                },
            }
        }
    }
}

/// The (header, value) pairs of one row: as many as the shorter of the two has.
pub open spec fn row_pairs(headers: Seq<Seq<char>>, row: Seq<Seq<char>>) -> Seq<
    (Seq<char>, Seq<char>),
> {
    let n = if headers.len() <= row.len() {
        headers.len()
    } else {
        row.len()
    };
    Seq::new(n, |k: int| (headers[k], row[k]))
}

/// The read index after one sequential read: one more, wrapping at the top of `usize`.
pub open spec fn next_read_index(i: usize) -> usize {
    if i == usize::MAX {
        0
    } else {
        (i + 1) as usize
    }
}

/// A CSV data pool.
#[derive(Clone)]
pub struct DataPool {
    /// Field names (the first line of the CSV text).
    pub headers: Vec<String>,
    /// Data rows.
    pub rows: Vec<Vec<String>>,
    /// Read mode.
    pub mode: DataPoolMode,
    /// Number of sequential reads made so far (wrapping).
    current_index: usize,
    /// Number of times sequential reads went past the last row (wrapping).
    cycles: usize,
}

/// A random number in `0..n`, drawn with `rand`'s thread-local generator
/// (`Rng::gen_range`); of the result only the range is known.
#[verifier::external_body]
fn random_below(n: usize) -> (r: usize)
    requires
        n > 0,
    ensures
        r < n,
{
    rand::thread_rng().gen_range(0..n)
}

/// Whether `i` is an index that the pool's random draw over `0..n` can give:
/// a possible outcome of `random_below(n)`, a uniform draw from the whole
/// range.
pub closed spec fn drawn_index(n: usize, i: usize) -> bool {
    call_ensures(random_below, (n,), i)
}

/// Every index the draw over `0..n` gives is an index below `n`.
pub proof fn lemma_drawn_index_in_range(n: usize, i: usize)
    requires
        drawn_index(n, i),
    ensures
        i < n,
{
}

/// Copies of the pieces, each trimmed, as strings.
fn trimmed_strings(pieces: &Vec<Vec<char>>) -> (r: Vec<String>)
    ensures
        r.deep_view() == pieces.deep_view().map_values(|f: Seq<char>| trim(f)),
{
    let mut r: Vec<String> = Vec::new();
    let n = pieces.len();
    for k in 0..n
        invariant
            n == pieces@.len(),
            r.deep_view() =~= pieces.deep_view().take(k as int).map_values(
                |f: Seq<char>| trim(f),
            ),
    {
        let t = trim_chars(&pieces[k]);
        let s = string_from_chars(&t);
        let ghost before = r.deep_view();
        r.push(s);
        proof {
            assert(pieces.deep_view()[k as int] == pieces@[k as int]@);
            assert(r.deep_view() =~= before.push(s@));
            assert(pieces.deep_view().take(k + 1).drop_last() =~= pieces.deep_view().take(
                k as int,
            ));
        }
    }
    proof {
        assert(pieces.deep_view().take(n as int) =~= pieces.deep_view());
    }
    r
}

/// The message for a data line whose field count differs from the header's.
fn mismatch_error(line: usize, found: usize, expected: usize) -> (e: String)
    ensures
        e@ == mismatch_message(line as nat, found as nat, expected as nat),
{
    let mut e = "第".to_string();
    e.append(decimal_string(line).as_str());
    e.append("行的列数(");
    e.append(decimal_string(found).as_str());
    e.append(")与表头列数(");
    e.append(decimal_string(expected).as_str());
    e.append(")不匹配");
    e
}

impl DataPool {
    /// The field names, as text.
    pub closed spec fn headers_view(&self) -> Seq<Seq<char>> {
        self.headers.deep_view()
    }

    /// The data rows, as text.
    pub closed spec fn rows_view(&self) -> Seq<Seq<Seq<char>>> {
        self.rows.deep_view()
    }

    /// The read mode.
    pub closed spec fn mode_view(&self) -> DataPoolMode {
        self.mode
    }

    /// The number of sequential reads made so far.
    pub closed spec fn read_count(&self) -> usize {
        self.current_index
    }

    /// The number of completed cycles over the rows.
    pub closed spec fn cycle_count(&self) -> usize {
        self.cycles
    }

    /// Reads a data pool from CSV text: the first line names the fields, each
    /// further non-blank line is a row with as many comma-separated fields;
    /// fields are trimmed.  Errors: empty text, a row of another width (the
    /// first one, by its line number), or no rows at all.
    pub fn from_csv_content(content: &str, mode: DataPoolMode) -> (r: Result<Self, String>)
        ensures
            match r {
                Ok(pool) => {
                    &&& csv_outcome(content@) == Ok::<_, Seq<char>>(
                        (pool.headers_view(), pool.rows_view()),
                    )
                    &&& pool.mode_view() == mode
                    &&& pool.read_count() == 0
                    &&& pool.cycle_count() == 0
                },
                Err(e) => csv_outcome(content@) == Err::<(Seq<Seq<char>>, Seq<Seq<Seq<char>>>), _>(e@),
            },
    {
        let chars = chars_of(content);
        let ls = split_lines(&chars);
        let ghost lsv = ls.deep_view();
        if ls.len() == 0 {
            return Err("CSV文件为空".to_string());
        }
        let header_pieces = split_chars(&ls[0], ',');
        proof {
            assert(lsv[0] == ls@[0]@);
        }
        let headers = trimmed_strings(&header_pieces);
        let width = headers.len();
        if width == 0 {
            return Err("CSV文件没有字段名".to_string());
        }
        let mut rows: Vec<Vec<String>> = Vec::new();
        let n = ls.len();
        for j in 1..n
            invariant
                n == lsv.len(),
                lsv == ls.deep_view(),
                lsv == lines(content@),
                width == headers.deep_view().len(),
                headers.deep_view() == header_fields(lsv),
                rows.deep_view() == rows_before(lsv, j as int),
                first_mismatch(lsv, width as int, 1) == first_mismatch(lsv, width as int, j as int),
        {
            proof {
                assert(lsv[j as int] == ls@[j as int]@);
            }
            let line = trim_chars(&ls[j]);
            if line.len() == 0 {
                proof {
                    assert(rows_before(lsv, j + 1) == rows_before(lsv, j as int));
                }
            } else {
                let pieces = split_chars(&line, ',');
                let values = trimmed_strings(&pieces);
                proof {
                    lemma_chars_deep_view(&line);
                    assert(values.deep_view() == row_fields(lsv[j as int]));
                }
                if values.len() != width {
                    let e = mismatch_error(j + 1, values.len(), width);
                    return Err(e);
                }
                let ghost before = rows.deep_view();
                rows.push(values);
                proof {
                    assert(rows.deep_view() =~= before.push(values.deep_view()));
                }
            }
        }
        if rows.len() == 0 {
            return Err("CSV文件没有数据行".to_string());
        }
        Ok(DataPool { headers, rows, mode, current_index: 0, cycles: 0 })
    }

    /// The next row, as (field name, value) pairs.  Sequential pools hand out
    /// the rows in turn and count a cycle each time they start over; random
    /// pools hand out any row and leave the counters alone.
    pub fn get_next_row(&mut self) -> (r: Vec<(String, String)>)
        requires
            old(self).rows_view().len() > 0,
        ensures
            final(self).headers_view() == old(self).headers_view(),
            final(self).rows_view() == old(self).rows_view(),
            final(self).mode_view() == old(self).mode_view(),
            old(self).mode_view() == DataPoolMode::Sequential ==> {
                let i = old(self).read_count();
                let row = (i as int) % (old(self).rows_view().len() as int);
                &&& r.deep_view() == row_pairs(
                    old(self).headers_view(),
                    old(self).rows_view()[row],
                )
                &&& final(self).read_count() == next_read_index(i)
                &&& final(self).cycle_count() == if row == 0 && i > 0 {
                    next_read_index(old(self).cycle_count())
                } else {
                    old(self).cycle_count()
                }
            },
            old(self).mode_view() == DataPoolMode::Random ==> {
                &&& exists|row: int|
                    0 <= row < old(self).rows_view().len() && r.deep_view() == row_pairs(
                        old(self).headers_view(),
                        #[trigger] old(self).rows_view()[row],
                    )
                &&& exists|row: usize|
                    #[trigger] drawn_index(old(self).rows_view().len() as usize, row) && r.deep_view() == row_pairs(
                        old(self).headers_view(),
                        old(self).rows_view()[row as int],
                    )
                &&& final(self).read_count() == old(self).read_count()
                &&& final(self).cycle_count() == old(self).cycle_count()
            },
    {
        let len = self.rows.len();
        let row_index = match self.mode {
            DataPoolMode::Random => random_below(len),
            DataPoolMode::Sequential => {
                let index = self.current_index;
                self.current_index = index.wrapping_add(1);
                let actual_index = index % len;
                if actual_index == 0 && index > 0 {
                    self.cycles = self.cycles.wrapping_add(1);
                }
                actual_index
            },
        };
        let row = &self.rows[row_index];
        let n = if self.headers.len() <= row.len() {
            self.headers.len()
        } else {
            row.len()
        };
        let ghost hv = self.headers.deep_view();
        let ghost rv = self.rows.deep_view()[row_index as int];
        let mut pairs: Vec<(String, String)> = Vec::new();
        for k in 0..n
            invariant
                n <= self.headers.len(),
                n <= row.len(),
                hv == self.headers.deep_view(),
                rv == row.deep_view(),
                n == row_pairs(hv, rv).len(),
                pairs.deep_view() =~= row_pairs(hv, rv).take(k as int),
        {
            let h = self.headers[k].clone();
            let v = row[k].clone();
            let ghost before = pairs.deep_view();
            pairs.push((h, v));
            proof {
                assert(hv[k as int] == self.headers@[k as int]@);
                assert(rv[k as int] == row@[k as int]@);
                assert(pairs.deep_view() =~= before.push((h@, v@)));
                assert(row_pairs(hv, rv).take(k + 1) =~= row_pairs(hv, rv).take(k as int).push(
                    (hv[k as int], rv[k as int]),
                ));
            }
        }
        proof {
            assert(row_pairs(hv, rv).take(n as int) =~= row_pairs(hv, rv));
            if old(self).mode_view() == DataPoolMode::Random {
                assert(old(self).rows_view().len() as usize == len);
                assert(drawn_index(len, row_index));
            }
        }
        pairs
    }

    /// The number of data rows.
    pub fn total_rows(&self) -> (n: usize)
        ensures
            n == self.rows_view().len(),
    {
        self.rows.len()
    }

    /// The number of completed cycles over the rows.
    pub fn get_cycles(&self) -> (n: usize)
        ensures
            n == self.cycle_count(),
    {
        self.cycles
    }

    /// The pool's summary: row count, mode name and cycle count.
    pub fn get_stats(&self) -> (s: DataPoolStats)
        ensures
            s.total_rows == self.rows_view().len(),
            s.mode@ == (match self.mode_view() {
                DataPoolMode::Random => "random"@,
                DataPoolMode::Sequential => "sequential"@,
            }),
            s.cycles == self.cycle_count(),
    {
        DataPoolStats {
            total_rows: self.rows.len(),
            mode: match self.mode {
                DataPoolMode::Random => "random".to_string(),
                DataPoolMode::Sequential => "sequential".to_string(),
            },
            cycles: self.get_cycles(),
        }
    }
}

} // verus!

verus! {

/// The rows of the non-blank lines up to `n`, each checked against the
/// header's width, all have that width.
pub proof fn lemma_rows_width(ls: Seq<Seq<char>>, width: int, n: int)
    requires
        forall|j: int|
            1 <= j < n && j < ls.len() ==> is_blank(#[trigger] ls[j]) || row_fields(ls[j]).len()
                == width,
        n <= ls.len(),
    ensures
        forall|k: int|
            0 <= k < rows_before(ls, n).len() ==> (#[trigger] rows_before(ls, n)[k]).len() == width,
    decreases n,
{
    if n > 1 {
        lemma_rows_width(ls, width, n - 1);
        let j = n - 1;
        assert(is_blank(ls[j]) || row_fields(ls[j]).len() == width);
        let prev = rows_before(ls, n - 1);
        assert forall|k: int| 0 <= k < rows_before(ls, n).len() implies (#[trigger] rows_before(
            ls,
            n,
        )[k]).len() == width by {
            if k < prev.len() {
                assert(rows_before(ls, n)[k] == prev[k]);
            }
        }
    }
}

/// With no mismatching line from `j` on, every non-blank line from `j` on has the header's width.
pub proof fn lemma_no_mismatch(ls: Seq<Seq<char>>, width: int, j: int)
    requires
        j >= 1,
        first_mismatch(ls, width, j) is None,
    ensures
        forall|m: int| j <= m < ls.len() ==> is_blank(#[trigger] ls[m]) || row_fields(ls[m]).len() == width,
    decreases ls.len() - j,
{
    if j < ls.len() {
        lemma_no_mismatch(ls, width, j + 1);
    }
}

/// Every row that reading a CSV text gives has exactly as many fields as the
/// header, and there is at least one row.
pub proof fn law_rows_match_header(content: Seq<char>)
    ensures
        csv_outcome(content) matches Ok((h, rows)) ==> rows.len() > 0 && forall|k: int|
            0 <= k < rows.len() ==> (#[trigger] rows[k]).len() == h.len(),
{
    let ls = lines(content);
    if ls.len() > 0 {
        let h = header_fields(ls);
        if h.len() > 0 && first_mismatch(ls, h.len() as int, 1) is None {
            lemma_no_mismatch(ls, h.len() as int, 1);
            lemma_rows_width(ls, h.len() as int, ls.len() as int);
        }
    }
}

/// How many cycles sequential reads have completed after `k` reads of `n` rows:
/// every return to the first row after the first read completes one.
pub open spec fn cycles_after(k: nat, n: nat) -> nat {
    if k == 0 {
        0
    } else {
        ((k - 1) as nat) / n
    }
}

/// Sequential reads keep the cycle count at `cycles_after`: if a pool has made
/// `k` reads and completed `cycles_after(k, n)` cycles, the next read (which
/// hands out row `k % n`, and counts a cycle when that is row 0 after the first
/// read) leaves it at `cycles_after(k + 1, n)`.  So a fresh pool that made `k`
/// reads has handed out rows 0, 1, ..., n - 1, 0, 1, ... in turn and counts
/// `cycles_after(k, n)` cycles.
pub proof fn law_cycles_follow_reads(k: nat, n: nat)
    requires
        n > 0,
    ensures
        cycles_after(k + 1, n) == if k % n == 0 && k > 0 {
            cycles_after(k, n) + 1
        } else {
            cycles_after(k, n)
        },
{
    if k > 0 {
        let q = ((k - 1) as nat) / n;
        let r = ((k - 1) as nat) % n;
        assert((k - 1) as nat == q * n + r && r < n) by (nonlinear_arith)
            requires
                n > 0,
                q == ((k - 1) as nat) / n,
                r == ((k - 1) as nat) % n,
        {}
        if r + 1 == n {
            assert(k == (q + 1) * n) by (nonlinear_arith)
                requires
                    (k - 1) == q * n + r,
                    r + 1 == n,
            {}
            assert(k % n == 0 && k / n == q + 1) by (nonlinear_arith)
                requires
                    k == (q + 1) * n,
                    n > 0,
            {}
        } else {
            assert(k == q * n + (r + 1) && r + 1 < n) by (nonlinear_arith)
                requires
                    (k - 1) == q * n + r,
                    r + 1 != n,
                    r < n,
            {}
            assert(k % n == r + 1 && k / n == q) by (nonlinear_arith)
                requires
                    k == q * n + (r + 1),
                    r + 1 < n,
                    n > 0,
            {}
        }
    }
}

/// The read count and cycle count of a sequential pool of `n` rows after `k`
/// reads from a fresh pool, each read moving them as `get_next_row` does.
pub open spec fn reads_state(k: nat, n: nat) -> (usize, usize)
    decreases k,
{
    if k == 0 {
        (0, 0)
    } else {
        let (i, c) = reads_state((k - 1) as nat, n);
        (
            next_read_index(i),
            if (i as int) % (n as int) == 0 && i > 0 {
                next_read_index(c)
            } else {
                c
            },
        )
    }
}

/// A fresh sequential pool of `n` rows that made `k` reads (no more than
/// `usize::MAX`) has read count `k`, so its next read hands out row `k % n`,
/// and has completed `cycles_after(k, n)` cycles: rows come out 0, 1, ...,
/// n - 1, 0, 1, ... in turn, and every return to row 0 counts a cycle.
pub proof fn law_sequential_reads(k: nat, n: nat)
    requires
        n > 0,
        k <= usize::MAX,
    ensures
        reads_state(k, n) == (k as usize, cycles_after(k, n) as usize),
        cycles_after(k, n) <= k,
    decreases k,
{
    if k > 0 {
        law_sequential_reads((k - 1) as nat, n);
        law_cycles_follow_reads((k - 1) as nat, n);
        assert(cycles_after(k, n) <= k) by (nonlinear_arith)
            requires
                n > 0,
                k > 0,
                cycles_after(k, n) == ((k - 1) as nat) / n,
        {}
    }
}

} // verus!
