//! Battery history recorded by the power daemon: parsing its history files,
//! keeping one entry per timestamp, and exporting entries as comma-separated rows.

use std::collections::HashMap;

use vstd::prelude::*;

use crate::charge::{
    charge_state_label, charge_state_of_name, charging_word, discharging_word, ChargeState,
};
use crate::text::{
    ascii_bytes, bytes_eq, int_chars, lemma_int_round_trip, lemma_split_append, lemma_split_single,
    parse_i64,
    parse_i64_spec, push_i64, split_bytes, split_seq, views,
};

verus! {

broadcast use vstd::std_specs::hash::group_hash_axioms;

/// Byte that ends a line of a history file.
pub const NEWLINE: u8 = 10;

/// Byte that separates the columns of a history line.
pub const TAB: u8 = 9;

/// One line of a history file: when it was recorded, the recorded value as
/// written in the file, and the charge state at that time.
pub struct HistoryRecord {
    pub timestamp: i64,
    pub value: Vec<u8>,
    pub charge_state: ChargeState,
}

/// The contents of a history record.
pub open spec fn record_view(r: HistoryRecord) -> (i64, Seq<u8>, ChargeState) {
    (r.timestamp, r.value@, r.charge_state)
}

/// The contents of each history record of `rs`.
pub open spec fn record_views(rs: Seq<HistoryRecord>) -> Seq<(i64, Seq<u8>, ChargeState)> {
    rs.map_values(|r: HistoryRecord| record_view(r))
}

/// The lines of a history file.
pub open spec fn history_lines(bytes: Seq<u8>) -> Seq<Seq<u8>> {
    split_seq(bytes, NEWLINE)
}

/// The columns of a history line.
pub open spec fn line_columns(line: Seq<u8>) -> Seq<Seq<u8>> {
    split_seq(line, TAB)
}

/// A line with at least three columns holds an entry; other lines are skipped.
pub open spec fn is_entry_line(line: Seq<u8>) -> bool {
    line_columns(line).len() >= 3
}

/// The entry of a line that holds one: the first column read as an integer
/// timestamp, the second column as the value, the third as the charge state.
pub open spec fn line_entry(line: Seq<u8>) -> (i64, Seq<u8>, ChargeState) {
    let cols = line_columns(line);
    (parse_i64_spec(cols[0]).unwrap(), cols[1], charge_state_of_name(cols[2]))
}

/// The entries of `lines`, in order, one for each line that holds an entry.
pub open spec fn line_entries(lines: Seq<Seq<u8>>) -> Seq<(i64, Seq<u8>, ChargeState)>
    decreases lines.len(),
{
    if lines.len() == 0 {
        Seq::empty()
    } else {
        let prev = line_entries(lines.drop_last());
        if is_entry_line(lines.last()) {
            prev.push(line_entry(lines.last()))
        } else {
            prev
        }
    }
}

/// The entries of a history file.
pub open spec fn history_entries(bytes: Seq<u8>) -> Seq<(i64, Seq<u8>, ChargeState)> {
    line_entries(history_lines(bytes))
}

/// Every line of the file that holds an entry starts with an integer timestamp.
pub open spec fn history_timestamps_valid(bytes: Seq<u8>) -> bool {
    forall|i: int|
        0 <= i < history_lines(bytes).len() && is_entry_line(#[trigger] history_lines(bytes)[i])
            ==> parse_i64_spec(line_columns(history_lines(bytes)[i])[0]) is Some
}

/// Whether every entry line of a history file starts with an integer timestamp,
/// which `parse_history` needs.
pub fn history_is_readable(bytes: &[u8]) -> (ok: bool)
    ensures
        ok == history_timestamps_valid(bytes@),
{
    let lines = split_bytes(bytes, NEWLINE);
    let ghost ls = history_lines(bytes@);
    let mut i: usize = 0;
    while i < lines.len()
        invariant
            views(lines@) == ls,
            ls == history_lines(bytes@),
            i <= lines.len(),
            forall|k: int|
                0 <= k < i && is_entry_line(#[trigger] ls[k])
                    ==> parse_i64_spec(line_columns(ls[k])[0]) is Some,
        decreases lines.len() - i,
    {
        assert(lines@[i as int]@ == ls[i as int]);
        let cols = split_bytes(lines[i].as_slice(), TAB);
        if cols.len() >= 3 {
            assert(cols@[0]@ == line_columns(ls[i as int])[0]);
            if parse_i64(cols[0].as_slice()).is_none() {
                return false;
            }
        }
        i = i + 1;
    }
    true
}

/// Reads the entries of a history file: one for each line that has at least three
/// tab-separated columns, in the order of the lines.
pub fn parse_history(bytes: &[u8]) -> (records: Vec<HistoryRecord>)
    requires
        history_timestamps_valid(bytes@),
    ensures
        record_views(records@) == history_entries(bytes@),
{
    let lines = split_bytes(bytes, NEWLINE);
    let ghost ls = history_lines(bytes@);
    let mut records: Vec<HistoryRecord> = Vec::new();
    let mut i: usize = 0;
    assert(ls.take(0) =~= Seq::<Seq<u8>>::empty());
    assert(record_views(records@) =~= Seq::<(i64, Seq<u8>, ChargeState)>::empty());
    while i < lines.len()
        invariant
            views(lines@) == ls,
            ls == history_lines(bytes@),
            history_timestamps_valid(bytes@),
            i <= lines.len(),
            record_views(records@) == line_entries(ls.take(i as int)),
        decreases lines.len() - i,
    {
        assert(lines@[i as int]@ == ls[i as int]);
        assert(ls.take(i + 1).drop_last() =~= ls.take(i as int));
        assert(ls.take(i + 1).last() == ls[i as int]);
        let cols = split_bytes(lines[i].as_slice(), TAB);
        if cols.len() >= 3 {
            assert(is_entry_line(ls[i as int]));
            let ts = parse_i64(cols[0].as_slice());
            let state = ChargeState::from_name(cols[2].as_slice());
            let value = cols[1].clone();
            assert(value@ == cols@[1]@);
            match ts {
                Some(t) => {
                    let ghost before = record_views(records@);
                    records.push(HistoryRecord { timestamp: t, value, charge_state: state });
                    assert(record_views(records@) =~= before.push(line_entry(ls[i as int])));
                },
                None => {
                    assert(false);
                },
            }
        }
        i = i + 1;
    }
    assert(ls.take(lines.len() as int) =~= ls);
    records
}

/// The history that inserting `rs` in order into an empty map keyed by timestamp
/// leaves: each timestamp maps to the last record that has it.
pub open spec fn latest_by_timestamp(rs: Seq<HistoryRecord>) -> Map<i64, HistoryRecord>
    decreases rs.len(),
{
    if rs.len() == 0 {
        Map::empty()
    } else {
        latest_by_timestamp(rs.drop_last()).insert(rs.last().timestamp, rs.last())
    }
}

/// Keys the records by timestamp; a later record replaces an earlier one with
/// the same timestamp.
pub fn history_by_timestamp(records: Vec<HistoryRecord>) -> (history: HashMap<i64, HistoryRecord>)
    ensures
        history@ == latest_by_timestamp(records@),
        history@.dom() == timestamps_of(records@),
        forall|t: i64| #[trigger] history@.contains_key(t) ==> history@[t].timestamp == t,
{
    proof {
        lemma_history_keys_match(records@);
        lemma_history_domain(records@);
    }
    let ghost rs = records@;
    let mut history: HashMap<i64, HistoryRecord> = HashMap::new();
    assert(rs.take(0) =~= Seq::<HistoryRecord>::empty());
    for r in it: records
        invariant
            it.seq() == rs,
            history@ == latest_by_timestamp(rs.take(it.index() as int)),
    {
        assert(rs.take(it.index() + 1).drop_last() =~= rs.take(it.index() as int));
        history.insert(r.timestamp, r);
    }
    assert(rs.take(rs.len() as int) =~= rs);
    history
}


/// The timestamps that the records of `rs` hold.
pub open spec fn timestamps_of(rs: Seq<HistoryRecord>) -> Set<i64> {
    Set::new(|t: i64| exists|i: int| 0 <= i < rs.len() && #[trigger] rs[i].timestamp == t)
}

/// In the history keyed by timestamp, every entry is stored under its own timestamp.
pub proof fn lemma_history_keys_match(rs: Seq<HistoryRecord>)
    ensures
        forall|t: i64| #[trigger] latest_by_timestamp(rs).contains_key(t)
            ==> latest_by_timestamp(rs)[t].timestamp == t,
    decreases rs.len(),
{
    if rs.len() > 0 {
        lemma_history_keys_match(rs.drop_last());
    }
}

/// The history keyed by timestamp holds exactly the timestamps of the records.
pub proof fn lemma_history_domain(rs: Seq<HistoryRecord>)
    ensures
        latest_by_timestamp(rs).dom() == timestamps_of(rs),
    decreases rs.len(),
{
    if rs.len() > 0 {
        let prev = rs.drop_last();
        lemma_history_domain(prev);
        assert forall|t: i64| latest_by_timestamp(rs).dom().contains(t) <==> timestamps_of(rs).contains(t) by {
            if timestamps_of(rs).contains(t) {
                let i = choose|i: int| 0 <= i < rs.len() && #[trigger] rs[i].timestamp == t;
                if i < rs.len() - 1 {
                    assert(prev[i].timestamp == t);
                    assert(timestamps_of(prev).contains(t));
                }
            }
            if timestamps_of(prev).contains(t) {
                let i = choose|i: int| 0 <= i < prev.len() && #[trigger] prev[i].timestamp == t;
                assert(rs[i].timestamp == t);
            }
            if t == rs.last().timestamp {
                assert(rs[rs.len() - 1].timestamp == t);
            }
        }
        assert(latest_by_timestamp(rs).dom() =~= timestamps_of(rs));
    }
}

/// The entry kept for a timestamp is the last record that has it: where record
/// `i` has timestamp `t` and no later record has, the history maps `t` to record `i`.
pub proof fn lemma_history_keeps_last(rs: Seq<HistoryRecord>, i: int)
    requires
        0 <= i < rs.len(),
        forall|j: int| i < j < rs.len() ==> (#[trigger] rs[j]).timestamp != rs[i].timestamp,
    ensures
        latest_by_timestamp(rs).contains_key(rs[i].timestamp),
        latest_by_timestamp(rs)[rs[i].timestamp] == rs[i],
    decreases rs.len(),
{
    if i < rs.len() - 1 {
        let prev = rs.drop_last();
        assert(rs[rs.len() - 1].timestamp != rs[i].timestamp);
        assert forall|j: int| i < j < prev.len() implies (#[trigger] prev[j]).timestamp != prev[i].timestamp by {
            assert(prev[j] == rs[j]);
        }
        lemma_history_keeps_last(prev, i);
    }
}

/// Bytes of `generic`.
pub open spec fn generic_word() -> Seq<u8> {
    seq![103u8, 101u8, 110u8, 101u8, 114u8, 105u8, 99u8]
}

/// Whether `word` occurs in `s`.
pub open spec fn contains_word(s: Seq<u8>, word: Seq<u8>) -> bool {
    exists|i: int| 0 <= i && i + word.len() <= s.len() && #[trigger] s.subrange(i, i + word.len()) == word
}

/// A data file of the power daemon holds battery history unless its path
/// contains `generic`.
pub fn is_history_file_path(path: &[u8]) -> (keep: bool)
    ensures
        keep == !contains_word(path@, generic_word()),
{
    let word: [u8; 7] = [103, 101, 110, 101, 114, 105, 99];
    assert(word@ =~= generic_word());
    if path.len() < 7 {
        return true;
    }
    let mut i: usize = 0;
    while i <= path.len() - 7
        invariant
            word@ == generic_word(),
            path.len() >= 7,
            i <= path.len() - 6,
            forall|k: int| 0 <= k < i ==> #[trigger] path@.subrange(k, k + generic_word().len()) != generic_word(),
        decreases path.len() - i,
    {
        let window = vstd::slice::slice_subrange(path, i, i + 7);
        if bytes_eq(window, &word) {
            assert(path@.subrange(i as int, i + generic_word().len()) == generic_word());
            return false;
        }
        i = i + 1;
    }
    true
}

/// One row of an exported history file: the entry's time in seconds since the
/// epoch, its value as it is to be written, and its charge state.
pub struct CsvRow {
    pub unix_time: i64,
    pub value: String,
    pub charge_state: ChargeState,
}

/// The first line of an exported history file.
pub open spec fn csv_header() -> Seq<char> {
    "date_time,capacity,state\n"@
}

/// The line that an exported history file holds for a row.
pub open spec fn csv_line(r: CsvRow) -> Seq<char> {
    int_chars(r.unix_time as int) + ","@ + r.value@ + ","@ + charge_state_label(r.charge_state) + "\n"@
}

/// The lines of `rows`, in order.
pub open spec fn csv_lines(rows: Seq<CsvRow>) -> Seq<char>
    decreases rows.len(),
{
    if rows.len() == 0 {
        Seq::empty()
    } else {
        csv_lines(rows.drop_last()) + csv_line(rows.last())
    }
}

/// The contents of an exported history file: the header line, then one line per row.
pub fn history_csv(rows: &[CsvRow]) -> (csv: String)
    ensures
        csv@ == csv_header() + csv_lines(rows@),
{
    let mut out = String::new();
    out.append("date_time,capacity,state\n");
    let mut i: usize = 0;
    assert(rows@.take(0) =~= Seq::<CsvRow>::empty());
    while i < rows.len()
        invariant
            i <= rows.len(),
            out@ == csv_header() + csv_lines(rows@.take(i as int)),
        decreases rows.len() - i,
    {
        let row = &rows[i];
        let ghost before = out@;
        push_i64(&mut out, row.unix_time);
        out.append(",");
        out.append(row.value.as_str());
        out.append(",");
        out.append(row.charge_state.label());
        out.append("\n");
        assert(rows@.take(i + 1).drop_last() =~= rows@.take(i as int));
        assert(out@ =~= before + csv_line(rows@[i as int]));
        i = i + 1;
    }
    assert(rows@.take(rows.len() as int) =~= rows@);
    out
}


/// A history file is read line by line: appending a line to a file adds that
/// line's entry, where it holds one, after the entries of the file.
pub proof fn lemma_history_append_line(file: Seq<u8>, line: Seq<u8>)
    requires
        !line.contains(NEWLINE),
    ensures
        history_entries(file + seq![NEWLINE] + line) == (if is_entry_line(line) {
            history_entries(file).push(line_entry(line))
        } else {
            history_entries(file)
        }),
{
    lemma_split_append(file, NEWLINE, line);
    let lines = history_lines(file + seq![NEWLINE] + line);
    assert(lines.drop_last() =~= history_lines(file));
    assert(lines.last() == line);
}

/// The first column of an exported row reads back as the row's timestamp: the
/// line starts with the timestamp's digits, followed by a comma.
pub proof fn lemma_csv_time_reads_back(row: CsvRow)
    ensures
        ({
            let n = int_chars(row.unix_time as int).len() as int;
            &&& n < csv_line(row).len()
            &&& csv_line(row)[n] == ','
            &&& parse_i64_spec(ascii_bytes(csv_line(row).take(n))) == Some(row.unix_time)
        }),
{
    lemma_int_round_trip(row.unix_time);
    let digits = int_chars(row.unix_time as int);
    let n = digits.len() as int;
    let line = csv_line(row);
    reveal_strlit(",");
    assert(line.take(n) =~= digits);
    assert(line[n] == ',');
}


/// A line `time TAB value TAB state` is read as one entry whose timestamp is the
/// time column read as an integer, whose value is exactly the second column,
/// whatever the state column holds, and whose charge state is charging or
/// discharging where the third column says so, and unknown otherwise.
pub proof fn lemma_history_line_columns(time: Seq<u8>, value: Seq<u8>, state: Seq<u8>)
    requires
        !time.contains(TAB) && !time.contains(NEWLINE),
        !value.contains(TAB) && !value.contains(NEWLINE),
        !state.contains(TAB) && !state.contains(NEWLINE),
        parse_i64_spec(time) is Some,
    ensures
        ({
            let line = time + seq![TAB] + value + seq![TAB] + state;
            let entries = history_entries(line);
            &&& history_timestamps_valid(line)
            &&& entries.len() == 1
            &&& entries[0].0 == parse_i64_spec(time).unwrap()
            &&& entries[0].1 == value
            &&& (state == charging_word() ==> entries[0].2 == ChargeState::Charging)
            &&& (state == discharging_word() ==> entries[0].2 == ChargeState::Discharging)
            &&& (state != charging_word() && state != discharging_word() ==> entries[0].2 == ChargeState::Unknown)
        }),
{
    let first = time + seq![TAB] + value;
    let line = first + seq![TAB] + state;
    lemma_split_single(time, TAB);
    lemma_split_append(time, TAB, value);
    lemma_split_append(first, TAB, state);
    let cols = line_columns(line);
    assert(cols =~= seq![time, value, state]);
    assert forall|i: int| 0 <= i < line.len() implies line[i] != NEWLINE by {
        if i < time.len() {
            assert(line[i] == time[i]);
        } else if i == time.len() {
        } else if i < time.len() + 1 + value.len() {
            assert(line[i] == value[i - time.len() - 1]);
        } else if i == time.len() + 1 + value.len() {
        } else {
            assert(line[i] == state[i - time.len() - 2 - value.len()]);
        }
    }
    lemma_split_single(line, NEWLINE);
    let lines = history_lines(line);
    assert(lines == seq![line]);
    assert(lines.drop_last() =~= Seq::<Seq<u8>>::empty());
    assert(line_entries(lines.drop_last()) =~= Seq::<(i64, Seq<u8>, ChargeState)>::empty());
    assert(is_entry_line(line));
}

} // verus!
