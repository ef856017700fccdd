//! Messages.app: the query for new messages in `chat.db`, and reading the
//! rows that the `sqlite3` tool prints for it.
use vstd::prelude::*;
use crate::numbers::{decimal_int, int_error_text, parse_i64, parse_i64_str, push_decimal_i64, IntErrorKind};
use crate::text::{
    chars_of, contains, contains_in, field_ranges, index_of_in, lemma_index_of_bounds,
    lemma_lines_join, lemma_split_on_push_cr, lemma_terminated_lines, lemma_trim_push_whitespace,
    line_ranges, lines, split_on, string_of_range, strip_cr, terminated_lines, trim, trim_range,
};
use crate::watch::WatchEvent;

verus! {

/// The message text of one printed row: its second `|`-separated field,
/// trimmed, where the row is not blank and has such a field.
pub open spec fn message_of_row(line: Seq<char>) -> Option<Seq<char>> {
    if trim(line).len() > 0 && split_on(line, '|').len() >= 2 {
        Some(trim(split_on(line, '|')[1]))
    } else {
        None
    }
}

/// The message texts of the rows, in order.
pub open spec fn messages_of_rows(rows: Seq<Seq<char>>) -> Seq<Seq<char>>
    decreases rows.len(),
{
    if rows.len() == 0 {
        seq![]
    } else {
        let before = messages_of_rows(rows.drop_last());
        match message_of_row(rows.last()) {
            Some(m) => before.push(m),
            None => before,
        }
    }
}

/// The message texts in what `sqlite3` printed, one row per line.
pub open spec fn sqlite_messages(output: Seq<char>) -> Seq<Seq<char>> {
    messages_of_rows(lines(output))
}

/// Reads the message texts out of the rows that `sqlite3` printed: each
/// non-blank line with at least two `|`-separated fields gives its second
/// field, trimmed.
pub fn parse_sqlite_output(output: &str) -> (r: Vec<String>)
    ensures
        r@.map_values(|m: String| m@) == sqlite_messages(output@),
{
    let v = chars_of(output);
    let ls = line_ranges(&v);
    let ghost rows = lines(v@);
    let mut r: Vec<String> = Vec::new();
    let mut k: usize = 0;
    while k < ls.len()
        invariant
            k <= ls.len(),
            rows == lines(v@),
            v@ == output@,
            ls.len() == rows.len(),
            forall|j: int|
                #![trigger ls@[j]]
                0 <= j < ls.len() ==> ls@[j].0 <= ls@[j].1 <= v.len() && v@.subrange(
                    ls@[j].0 as int,
                    ls@[j].1 as int,
                ) == rows[j],
            r@.map_values(|m: String| m@) == messages_of_rows(rows.take(k as int)),
        decreases ls.len() - k,
    {
        let (lo, hi) = ls[k];
        let ghost line = rows[k as int];
        let ghost old_r = r@;
        proof {
            assert(rows.take(k + 1).drop_last() =~= rows.take(k as int));
            assert(rows.take(k + 1).last() == line);
        }
        let (a, b) = trim_range(&v, lo, hi);
        if a < b {
            let parts = field_ranges(&v, lo, hi, '|');
            if parts.len() >= 2 {
                let (f0, f1) = parts[1];
                let (c, d) = trim_range(&v, f0, f1);
                r.push(string_of_range(&v, c, d));
                proof {
                    assert(r@.map_values(|m: String| m@) =~= old_r.map_values(|m: String| m@).push(
                        trim(split_on(line, '|')[1]),
                    ));
                }
            }
        }
        k += 1;
    }
    assert(rows.take(ls.len() as int) =~= rows);
    r
}

/// Why no row id could be read.
#[derive(Debug, Clone, Copy, PartialEq, Eq, Structural)]
pub enum RowidError {
    /// The output holds no row.
    Missing,
    /// The row id text is not a decimal `i64`, for this reason.
    Invalid(IntErrorKind),
}

/// The text of each error: a missing row reads "No valid ROWID found", a
/// row id that does not parse reads as `ParseIntError` displays its kind.
pub open spec fn rowid_error_text(e: RowidError) -> Seq<char> {
    match e {
        RowidError::Missing => "No valid ROWID found"@,
        RowidError::Invalid(k) => int_error_text(k),
    }
}

impl RowidError {
    /// The text of the error (see `rowid_error_text`).
    pub fn message(&self) -> (m: &'static str)
        ensures
            m@ == rowid_error_text(*self),
    {
        match self {
            RowidError::Missing => "No valid ROWID found",
            RowidError::Invalid(k) => k.message(),
        }
    }
}

/// The row id of the first printed row: the first `|`-separated field of
/// the first line of the trimmed output, read as an `i64`.
pub open spec fn first_rowid(output: Seq<char>) -> Result<i64, RowidError> {
    let rows = lines(trim(output));
    if rows.len() > 0 && rows[0].len() > 0 {
        match parse_i64(split_on(rows[0], '|')[0]) {
            Ok(n) => Ok(n),
            Err(k) => Err(RowidError::Invalid(k)),
        }
    } else {
        Err(RowidError::Missing)
    }
}

/// The first line of `v[lo..hi]` (which must not be empty), as bounds.
fn first_line_range(v: &Vec<char>, lo: usize, hi: usize) -> (r: (usize, usize))
    requires
        lo < hi <= v.len(),
    ensures
        lo <= r.0 <= r.1 <= hi,
        lines(v@.subrange(lo as int, hi as int)).len() > 0,
        v@.subrange(r.0 as int, r.1 as int) == lines(v@.subrange(lo as int, hi as int))[0],
{
    let ghost s = v@.subrange(lo as int, hi as int);
    let i = index_of_in(v, lo, hi, '\n');
    proof {
        lemma_index_of_bounds(s, '\n');
    }
    if i == hi - lo {
        assert(s =~= v@.subrange(lo as int, hi as int));
        (lo, hi)
    } else {
        let end = lo + i;
        let stop = if i > 0 && v[end - 1] == '\r' { end - 1 } else { end };
        assert(s.take(i as int) =~= v@.subrange(lo as int, end as int));
        assert(strip_cr(s.take(i as int)) =~= v@.subrange(lo as int, stop as int));
        (lo, stop)
    }
}

/// Reads the row id of the newest row out of the `sqlite3` output (rows
/// come newest first): the first field of its first line.
pub fn get_last_rowid(output: &str) -> (r: Result<i64, RowidError>)
    ensures
        r == first_rowid(output@),
{
    let v = chars_of(output);
    assert(v@.subrange(0, v.len() as int) =~= v@);
    let (a, b) = trim_range(&v, 0, v.len());
    if a == b {
        assert(lines(v@.subrange(a as int, b as int)) =~= Seq::<Seq<char>>::empty());
        return Err(RowidError::Missing);
    }
    let (c, d) = first_line_range(&v, a, b);
    if c == d {
        return Err(RowidError::Missing);
    }
    let fields = field_ranges(&v, c, d, '|');
    let (f0, f1) = fields[0];
    match parse_i64_str(&v, f0, f1) {
        Ok(n) => Ok(n),
        Err(k) => Err(RowidError::Invalid(k)),
    }
}

/// What the query for the newest row id (`SELECT MAX(ROWID) ...`) gives:
/// the trimmed output read as an `i64` when the tool succeeded and printed
/// something, and 0 otherwise.
pub open spec fn latest_rowid(success: bool, output: Seq<char>) -> Result<i64, RowidError> {
    if success && trim(output).len() > 0 {
        match parse_i64(trim(output)) {
            Ok(n) => Ok(n),
            Err(k) => Err(RowidError::Invalid(k)),
        }
    } else {
        Ok(0)
    }
}

/// Reads the answer to the query for the newest row id.
pub fn parse_latest_rowid(success: bool, output: &str) -> (r: Result<i64, RowidError>)
    ensures
        r == latest_rowid(success, output@),
{
    if !success {
        return Ok(0);
    }
    let v = chars_of(output);
    assert(v@.subrange(0, v.len() as int) =~= v@);
    let (a, b) = trim_range(&v, 0, v.len());
    if a == b {
        return Ok(0);
    }
    match parse_i64_str(&v, a, b) {
        Ok(n) => Ok(n),
        Err(k) => Err(RowidError::Invalid(k)),
    }
}

/// The query for the ten newest messages after row `last_rowid`.
pub open spec fn new_messages_query(last_rowid: i64) -> Seq<char> {
    "SELECT m.ROWID, m.text, h.id as phone_number, datetime(m.date/1000000000 + strftime('%s', '2001-01-01'), 'unixepoch', 'localtime') as date_formatted
             FROM message m
             LEFT JOIN handle h ON m.handle_id = h.ROWID
             WHERE m.ROWID > "@ + decimal_int(last_rowid as int) + "
             ORDER BY m.ROWID DESC
             LIMIT 10;"@
}

/// An error that `sqlite3` printed because the database could not be read
/// (which asks for the Full Disk Access permission).
pub open spec fn is_permission_error(stderr: Seq<char>) -> bool {
    ||| contains(stderr, "attempt to write a readonly database"@)
    ||| contains(stderr, "permission denied"@)
    ||| contains(stderr, "unable to open database"@)
}

/// Whether what `sqlite3` printed on failure is a permission error.
pub fn permission_error(stderr: &str) -> (b: bool)
    ensures
        b == is_permission_error(stderr@),
{
    let v = chars_of(stderr);
    assert(v@.subrange(0, v.len() as int) =~= v@);
    let p1 = chars_of("attempt to write a readonly database");
    let p2 = chars_of("permission denied");
    let p3 = chars_of("unable to open database");
    contains_in(&v, 0, v.len(), &p1) || contains_in(&v, 0, v.len(), &p2) || contains_in(&v, 0, v.len(), &p3)
}

/// Watches Messages.app's store and reads the messages that arrive,
/// remembering the newest row already read.
#[derive(Clone, Copy, Debug)]
pub struct MessageProcessor {
    /// The newest row id already read; rows after it are new.
    pub last_processed_rowid: i64,
}

impl MessageProcessor {
    /// A processor that starts after the newest row id there is, where the
    /// query for it succeeded, and otherwise after the row id `previous`
    /// that was already held (0 before any was).
    pub fn new(previous: i64, latest_rowid: Option<i64>) -> (p: Self)
        ensures
            p.last_processed_rowid == (match latest_rowid {
                Some(n) => n,
                None => previous,
            }),
    {
        match latest_rowid {
            Some(n) => MessageProcessor { last_processed_rowid: n },
            None => MessageProcessor { last_processed_rowid: previous },
        }
    }

    /// The directory under the home directory that is watched.
    pub fn watch_subpath(&self) -> (s: &'static str)
        ensures
            s@ == "Library/Messages/NickNameCache"@,
    {
        "Library/Messages/NickNameCache"
    }

    /// What a watched path must contain to be looked at.
    pub fn get_file_pattern(&self) -> (s: &'static str)
        ensures
            s@ == ".db"@,
    {
        ".db"
    }

    /// The watch covers subdirectories.
    pub fn get_recursive_mode(&self) -> (b: bool)
        ensures
            b,
    {
        true
    }

    /// New messages may have arrived: only a metadata change of any kind
    /// is taken as that sign.
    pub fn accepts_event(&self, event: WatchEvent) -> (b: bool)
        ensures
            b == (event == WatchEvent::ModifyMetadataAny),
    {
        match event {
            WatchEvent::ModifyMetadataAny => true,
            _ => false,
        }
    }

    /// The query for the messages after the newest row already read.
    pub fn query_sql(&self) -> (s: String)
        ensures
            s@ == new_messages_query(self.last_processed_rowid),
    {
        let mut s = String::new();
        s.append(
            "SELECT m.ROWID, m.text, h.id as phone_number, datetime(m.date/1000000000 + strftime('%s', '2001-01-01'), 'unixepoch', 'localtime') as date_formatted
             FROM message m
             LEFT JOIN handle h ON m.handle_id = h.ROWID
             WHERE m.ROWID > ",
        );
        push_decimal_i64(&mut s, self.last_processed_rowid);
        s.append("
             ORDER BY m.ROWID DESC
             LIMIT 10;");
        s
    }

    /// Takes in what the query printed: returns the message texts, and where
    /// there are any, moves past the newest row when its id can be read.
    pub fn take_new_messages(&mut self, output: &str) -> (r: Vec<String>)
        ensures
            r@.map_values(|m: String| m@) == sqlite_messages(output@),
            final(self).last_processed_rowid == rowid_after(old(self).last_processed_rowid, output@),
    {
        let messages = parse_sqlite_output(output);
        if messages.len() > 0 {
            if let Ok(n) = get_last_rowid(output) {
                self.last_processed_rowid = n;
            }
        }
        messages
    }
}

/// The newest row id held after taking in `output` with `held` held before:
/// the id of its first row where it gave messages and that id reads,
/// `held` otherwise.
pub open spec fn rowid_after(held: i64, output: Seq<char>) -> i64 {
    if sqlite_messages(output).len() > 0 {
        match first_rowid(output) {
            Ok(n) => n,
            Err(_) => held,
        }
    } else {
        held
    }
}

/// The row id held after answers taken in one after another.
pub open spec fn rowid_after_all(held: i64, outputs: Seq<Seq<char>>) -> i64
    decreases outputs.len(),
{
    if outputs.len() == 0 {
        held
    } else {
        rowid_after(rowid_after_all(held, outputs.drop_last()), outputs.last())
    }
}

/// Each answer holds only rows newer than the row id held when its query
/// was made (the query asks for `ROWID >` that id), newest first.
pub open spec fn answers_newer(held: i64, outputs: Seq<Seq<char>>) -> bool
    decreases outputs.len(),
{
    if outputs.len() == 0 {
        true
    } else {
        &&& answers_newer(held, outputs.drop_last())
        &&& (first_rowid(outputs.last()) matches Ok(n) ==> n > rowid_after_all(held, outputs.drop_last()))
    }
}

/// Where every answer holds only newer rows, the row id held never goes
/// down: after each answer it is at least what it was before, and it moves
/// up to the newest row of every answer that gave messages; so the next
/// query, which asks for rows after it, asks for none of the rows already
/// handed out.
pub proof fn lemma_rowid_never_decreases(held: i64, outputs: Seq<Seq<char>>)
    requires
        answers_newer(held, outputs),
    ensures
        rowid_after_all(held, outputs) >= held,
        forall|k: int|
            0 <= k < outputs.len() ==> rowid_after_all(held, outputs.take(k + 1)) >= #[trigger] rowid_after_all(
                held,
                outputs.take(k),
            ),
    decreases outputs.len(),
{
    if outputs.len() > 0 {
        let init = outputs.drop_last();
        lemma_rowid_never_decreases(held, init);
        assert forall|k: int|
            0 <= k < outputs.len() implies rowid_after_all(held, outputs.take(k + 1)) >= #[trigger] rowid_after_all(
                held,
                outputs.take(k),
            ) by {
            if k < init.len() {
                assert(outputs.take(k + 1) =~= init.take(k + 1));
                assert(outputs.take(k) =~= init.take(k));
            } else {
                assert(outputs.take(k + 1) =~= outputs);
                assert(outputs.take(k) =~= init);
            }
        }
    }
}

/// An answer that lists rows with these row ids: newest first, each newer
/// than the row id `above` held when its query was made, the first of them
/// the one that `first_rowid` reads, and one message for each row.
pub open spec fn lists_rows(output: Seq<char>, ids: Seq<i64>, above: i64) -> bool {
    &&& forall|a: int, b: int| 0 <= a < b < ids.len() ==> #[trigger] ids[a] > #[trigger] ids[b]
    &&& forall|a: int| 0 <= a < ids.len() ==> #[trigger] ids[a] > above
    &&& ids.len() > 0 ==> first_rowid(output) == Ok::<i64, RowidError>(ids[0])
    &&& sqlite_messages(output).len() == ids.len()
}

proof fn lemma_held_step(held: i64, outputs: Seq<Seq<char>>, k: int)
    requires
        0 <= k < outputs.len(),
    ensures
        rowid_after_all(held, outputs.take(k + 1)) == rowid_after(rowid_after_all(held, outputs.take(k)), outputs[k]),
{
    assert(outputs.take(k + 1).drop_last() =~= outputs.take(k));
}

proof fn lemma_held_grows(held: i64, outputs: Seq<Seq<char>>, ids: Seq<Seq<i64>>, k: int, m: int)
    requires
        outputs.len() == ids.len(),
        forall|i: int| 0 <= i < outputs.len() ==> lists_rows(#[trigger] outputs[i], ids[i], rowid_after_all(held, outputs.take(i))),
        0 <= k <= m <= outputs.len(),
    ensures
        rowid_after_all(held, outputs.take(k)) <= rowid_after_all(held, outputs.take(m)),
    decreases m - k,
{
    if k < m {
        lemma_held_grows(held, outputs, ids, k, m - 1);
        lemma_held_step(held, outputs, m - 1);
        assert(lists_rows(outputs[m - 1], ids[m - 1], rowid_after_all(held, outputs.take(m - 1))));
        if ids[m - 1].len() > 0 {
            assert(ids[m - 1][0] > rowid_after_all(held, outputs.take(m - 1)));
        }
    }
}

/// Where every answer lists, newest first, only rows newer than the row id
/// held when its query was made, the row id held never goes down, it moves
/// to the newest row of each answer with rows, and every row of an answer
/// is older than every row of a later answer: no row is read by two calls.
pub proof fn lemma_each_row_read_once(held: i64, outputs: Seq<Seq<char>>, ids: Seq<Seq<i64>>)
    requires
        outputs.len() == ids.len(),
        forall|i: int| 0 <= i < outputs.len() ==> lists_rows(#[trigger] outputs[i], ids[i], rowid_after_all(held, outputs.take(i))),
    ensures
        forall|i: int| 0 <= i < outputs.len() ==> rowid_after_all(held, outputs.take(i)) <= #[trigger] rowid_after_all(held, outputs.take(i + 1)),
        forall|i: int| 0 <= i < outputs.len() && ids[i].len() > 0 ==> #[trigger] rowid_after_all(held, outputs.take(i + 1)) == ids[i][0],
        forall|i: int, j: int, a: int, b: int|
            0 <= i < j < outputs.len() && 0 <= a < ids[i].len() && 0 <= b < ids[j].len() ==> #[trigger] ids[i][a] < #[trigger] ids[j][b],
{
    assert forall|i: int| 0 <= i < outputs.len() implies rowid_after_all(held, outputs.take(i)) <= #[trigger] rowid_after_all(held, outputs.take(i + 1)) by {
        lemma_held_grows(held, outputs, ids, i, i + 1);
    }
    assert forall|i: int| 0 <= i < outputs.len() && ids[i].len() > 0 implies #[trigger] rowid_after_all(held, outputs.take(i + 1)) == ids[i][0] by {
        lemma_held_step(held, outputs, i);
        assert(lists_rows(outputs[i], ids[i], rowid_after_all(held, outputs.take(i))));
    }
    assert forall|i: int, j: int, a: int, b: int|
        0 <= i < j < outputs.len() && 0 <= a < ids[i].len() && 0 <= b < ids[j].len() implies #[trigger] ids[i][a] < #[trigger] ids[j][b] by {
        lemma_held_step(held, outputs, i);
        assert(lists_rows(outputs[i], ids[i], rowid_after_all(held, outputs.take(i))));
        assert(lists_rows(outputs[j], ids[j], rowid_after_all(held, outputs.take(j))));
        if a > 0 {
            assert(ids[i][0] > ids[i][a]);
        }
        lemma_held_grows(held, outputs, ids, i + 1, j);
        assert(ids[j][b] > rowid_after_all(held, outputs.take(j)));
    }
}

proof fn lemma_messages_of_rows_concat(p: Seq<Seq<char>>, q: Seq<Seq<char>>)
    ensures
        messages_of_rows(p + q) == messages_of_rows(p) + messages_of_rows(q),
    decreases q.len(),
{
    if q.len() == 0 {
        assert(p + q =~= p);
        assert(messages_of_rows(p) + messages_of_rows(q) =~= messages_of_rows(p));
    } else {
        lemma_messages_of_rows_concat(p, q.drop_last());
        assert((p + q).drop_last() =~= p + q.drop_last());
        assert((p + q).last() == q.last());
        match message_of_row(q.last()) {
            Some(m) => {
                assert(messages_of_rows(p + q) =~= messages_of_rows(p) + messages_of_rows(q));
            },
            None => {},
        }
    }
}

proof fn lemma_message_of_row_strip_cr(z: Seq<char>)
    ensures
        message_of_row(strip_cr(z)) == message_of_row(z),
{
    if z.len() > 0 && z.last() == '\r' {
        let w = z.drop_last();
        assert(w.push('\r') =~= z);
        lemma_trim_push_whitespace(w, '\r');
        lemma_split_on_push_cr(w, '|');
        let fw = split_on(w, '|');
        if fw.len() == 2 {
            lemma_trim_push_whitespace(fw[1], '\r');
            assert(split_on(z, '|')[1] == fw[1].push('\r'));
        } else if fw.len() > 2 {
            assert(split_on(z, '|')[1] == fw[1]);
        }
    }
}

/// Reading the rows of two outputs joined by a line break gives the
/// messages of the first and then those of the second.
pub proof fn lemma_sqlite_messages_join(a: Seq<char>, b: Seq<char>)
    ensures
        sqlite_messages(a + seq!['\n'] + b) == sqlite_messages(a) + sqlite_messages(b),
{
    lemma_lines_join(a, b);
    lemma_terminated_lines(a);
    let t = terminated_lines(a);
    let l = lines(a);
    lemma_messages_of_rows_concat(t, lines(b));
    let empty: Seq<char> = Seq::empty();
    assert(trim(empty) =~= empty);
    if a.len() == 0 {
        assert(t.drop_last() =~= Seq::<Seq<char>>::empty());
        assert(t.last() == empty);
        assert(message_of_row(empty) is None);
        assert(messages_of_rows(t) =~= messages_of_rows(l));
    } else if a.last() == '\n' {
        assert(t.drop_last() =~= l);
        assert(messages_of_rows(t) == messages_of_rows(l));
    } else {
        lemma_message_of_row_strip_cr(l.last());
        assert(t.drop_last() =~= l.drop_last());
        assert(messages_of_rows(t) == messages_of_rows(l));
    }
}

} // verus!
