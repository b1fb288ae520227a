//! Key frequencies and the reading of key frequency files.
use crate::constants::{EXPECTED_COUNT_HEADER, EXPECTED_KEY_HEADER};
use crate::counts::{
    count_or_zero, entries_map, keys_distinct, lemma_entries_map, lemma_entries_map_update,
    lemma_entry_le_sum, lemma_sum_counts_prefix, sum_counts,
};
use crate::error::KbOptError;
use crate::keys::{parse_key_label, spec_parse_key_label, KeyId, ParseOptions};
use crate::text::{
    ascii_lower_chars, chars_of, concat3, parse_unsigned, parse_unsigned_chars, seq_eq,
    string_of_chars, to_ascii_lower, trim, trim_chars, IntErrorKind,
};
use vstd::prelude::*;

verus! {

/// Counts of key presses, per optimized key.
#[derive(Debug)]
pub struct KeyFreq {
    /// Count of each key, no key twice.
    raw_counts: Vec<(KeyId, u64)>,
    /// Sum of the counts.
    total: u64,
}

impl Default for KeyFreq {
    /// No keys recorded.
    fn default() -> (r: Self)
        ensures
            r@ == Map::<KeyId, u64>::empty(),
            r.entries().len() == 0,
            r.spec_total() == 0,
    {
        KeyFreq { raw_counts: Vec::new(), total: 0 }
    }
}

impl Clone for KeyFreq {
    /// The same counts.
    fn clone(&self) -> (r: Self)
        ensures
            r.entries() == self.entries(),
            r@ == self@,
            r.spec_total() == self.spec_total(),
    {
        proof {
            use_type_invariant(self);
        }
        KeyFreq { raw_counts: copy_entries(&self.raw_counts), total: self.total }
    }
}

impl View for KeyFreq {
    type V = Map<KeyId, u64>;

    /// The count of each recorded key.
    closed spec fn view(&self) -> Map<KeyId, u64> {
        entries_map(self.raw_counts@)
    }
}

impl KeyFreq {
    #[verifier::type_invariant]
    spec fn inv(self) -> bool {
        &&& keys_distinct(self.raw_counts@)
        &&& self.total == sum_counts(self.raw_counts@)
    }

    /// The recorded keys with their counts, in the order they were first
    /// recorded.
    pub closed spec fn entries(&self) -> Seq<(KeyId, u64)> {
        self.raw_counts@
    }

    /// The sum of all counts.
    pub closed spec fn spec_total(&self) -> nat {
        sum_counts(self.raw_counts@)
    }

    /// The view is the map of the entries and the total their sum.
    pub proof fn lemma_entries(&self)
        ensures
            self@ == entries_map(self.entries()),
            self.spec_total() == sum_counts(self.entries()),
    {
    }

    /// The recorded keys with their counts.
    pub fn counts(&self) -> (r: &Vec<(KeyId, u64)>)
        ensures
            r@ == self.entries(),
            keys_distinct(r@),
    {
        proof {
            use_type_invariant(self);
        }
        &self.raw_counts
    }

    /// The sum of all counts.
    pub fn total(&self) -> (r: u64)
        ensures
            r == self.spec_total(),
    {
        proof {
            use_type_invariant(self);
        }
        self.total
    }

    /// No keys recorded.
    pub fn new() -> (r: Self)
        ensures
            r@ == Map::<KeyId, u64>::empty(),
            r.entries().len() == 0,
            r.spec_total() == 0,
    {
        Self::default()
    }

    /// The counts `raw_counts`, with their sum as total.
    pub fn from_counts(raw_counts: Vec<(KeyId, u64)>) -> (r: Self)
        requires
            keys_distinct(raw_counts@),
            sum_counts(raw_counts@) <= u64::MAX,
        ensures
            r.entries() == raw_counts@,
            r@ == entries_map(raw_counts@),
            r.spec_total() == sum_counts(raw_counts@),
    {
        let mut total: u64 = 0;
        let mut i: usize = 0;
        while i < raw_counts.len()
            invariant
                i <= raw_counts@.len(),
                total == sum_counts(raw_counts@.subrange(0, i as int)),
                sum_counts(raw_counts@) <= u64::MAX,
            decreases raw_counts@.len() - i,
        {
            proof {
                lemma_sum_counts_prefix(raw_counts@, i as int + 1);
                assert(raw_counts@.subrange(0, i + 1).drop_last() =~= raw_counts@.subrange(
                    0,
                    i as int,
                ));
            }
            total = total + raw_counts[i].1;
            i = i + 1;
        }
        assert(raw_counts@.subrange(0, i as int) =~= raw_counts@);
        KeyFreq { raw_counts, total }
    }

    /// The count of `key`, 0 when it was not recorded.
    pub fn get_count(&self, key: KeyId) -> (r: u64)
        ensures
            r == count_or_zero(self@, key),
    {
        proof {
            use_type_invariant(self);
            lemma_entries_map(self.raw_counts@);
        }
        match find_key(&self.raw_counts, key) {
            Some(i) => {
                proof {
                    assert(entries_map(self.raw_counts@).contains_key(self.raw_counts@[i as int].0));
                }
                self.raw_counts[i].1
            },
            None => {
                proof {
                    if entries_map(self.raw_counts@).contains_key(key) {
                        let i = choose|i: int|
                            0 <= i < self.raw_counts@.len() && self.raw_counts@[i].0 == key;
                    }
                }
                0
            },
        }
    }

    /// Whether no key was recorded.
    pub fn is_empty(&self) -> (r: bool)
        ensures
            r == (self@.dom().len() == 0),
            r == (self@ == Map::<KeyId, u64>::empty()),
    {
        proof {
            use_type_invariant(self);
            lemma_entries_map(self.raw_counts@);
            if self.raw_counts@.len() > 0 {
                assert(self@.contains_key(self.raw_counts@[0].0));
            } else {
                assert(self@ =~= Map::<KeyId, u64>::empty());
            }
        }
        self.raw_counts.len() == 0
    }

    /// The number of recorded keys.
    pub fn unique_keys(&self) -> (r: usize)
        ensures
            r == self@.dom().len(),
    {
        proof {
            use_type_invariant(self);
            lemma_entries_map(self.raw_counts@);
        }
        self.raw_counts.len()
    }

    /// Adds the counts of `other` to these counts, key by key.
    pub fn merge(&mut self, other: KeyFreq)
        requires
            old(self).spec_total() + other.spec_total() <= u64::MAX,
        ensures
            merged(old(self)@, other@, final(self)@),
            final(self).spec_total() == old(self).spec_total() + other.spec_total(),
    {
        proof {
            use_type_invariant(&*self);
            use_type_invariant(&other);
        }
        let ghost old_map = self@;
        let ghost old_total = self.spec_total();
        let ghost os = other.raw_counts@;
        let ghost other_map = other@;
        let ghost other_total = other.spec_total();
        proof {
            lemma_entries_map(os);
        }
        let other_sum = other.total;
        let other_counts = other.raw_counts;
        let mut counts = copy_entries(&self.raw_counts);
        let mut j: usize = 0;
        while j < other_counts.len()
            invariant
                other_counts@ == os,
                keys_distinct(os),
                sum_counts(os) == other_total,
                old_total + other_total <= u64::MAX,
                j <= os.len(),
                keys_distinct(counts@),
                sum_counts(counts@) == old_total + sum_counts(os.subrange(0, j as int)),
                forall|k: KeyId|
                    #[trigger] entries_map(counts@).contains_key(k) <==> (old_map.contains_key(k)
                        || entries_map(os.subrange(0, j as int)).contains_key(k)),
                forall|k: KeyId|
                    #[trigger] entries_map(counts@).contains_key(k) ==> entries_map(counts@)[k]
                        == count_or_zero(old_map, k) + count_or_zero(
                        entries_map(os.subrange(0, j as int)),
                        k,
                    ),
            decreases os.len() - j,
        {
            let (k, v) = other_counts[j];
            let ghost pre = os.subrange(0, j as int);
            let ghost post = os.subrange(0, j as int + 1);
            proof {
                assert(post.drop_last() =~= pre);
                assert(post.last() == os[j as int]);
                assert(entries_map(post) == entries_map(pre).insert(k, v));
                assert(keys_distinct(pre));
                lemma_entries_map(pre);
                assert(!entries_map(pre).contains_key(k)) by {
                    if entries_map(pre).contains_key(k) {
                        let i = choose|i: int| 0 <= i < pre.len() && pre[i].0 == k;
                        assert(os[i].0 == os[j as int].0);
                    }
                }
                lemma_sum_counts_prefix(os, j as int + 1);
                assert(sum_counts(post) == sum_counts(pre) + v);
                lemma_entries_map(counts@);
            }
            match find_key(&counts, k) {
                Some(idx) => {
                    let c = counts[idx].1;
                    proof {
                        lemma_entry_le_sum(counts@, idx as int);
                        assert(entries_map(counts@).contains_key(counts@[idx as int].0));
                        assert(c == entries_map(counts@)[k]);
                        assert(c == count_or_zero(old_map, k));
                    }
                    let ghost before = counts@;
                    counts.set(idx, (k, c + v));
                    proof {
                        lemma_entries_map_update(before, idx as int, (c + v) as u64);
                        assert(counts@ == before.update(idx as int, (before[idx as int].0, (c + v) as u64)));
                        assert(entries_map(counts@) == entries_map(before).insert(k, (c + v) as u64));
                        assert forall|k2: KeyId| #[trigger] entries_map(counts@).contains_key(k2) implies entries_map(counts@)[k2]
                            == count_or_zero(old_map, k2) + count_or_zero(entries_map(post), k2) by {
                            if k2 != k {
                                assert(entries_map(counts@)[k2] == entries_map(before)[k2]);
                            }
                        }
                    }
                },
                None => {
                    let ghost before = counts@;
                    counts.push((k, v));
                    proof {
                        assert(!entries_map(before).contains_key(k)) by {
                            if entries_map(before).contains_key(k) {
                                let i = choose|i: int| 0 <= i < before.len() && before[i].0 == k;
                            }
                        }
                        assert(counts@.drop_last() =~= before);
                        assert(entries_map(counts@) == entries_map(before).insert(k, v));
                        assert(!old_map.contains_key(k));
                        assert forall|k2: KeyId| #[trigger] entries_map(counts@).contains_key(k2) implies entries_map(counts@)[k2]
                            == count_or_zero(old_map, k2) + count_or_zero(entries_map(post), k2) by {
                            if k2 != k {
                                assert(entries_map(counts@)[k2] == entries_map(before)[k2]);
                            }
                        }
                        assert(keys_distinct(counts@)) by {
                            assert forall|a: int, b: int| 0 <= a < b < counts@.len() implies counts@[a].0
                                != counts@[b].0 by {
                                if b == counts@.len() - 1 {
                                    assert(entries_map(before).contains_key(before[a].0));
                                }
                            }
                        }
                    }
                },
            }
            j = j + 1;
            proof {
                assert(os.subrange(0, j as int) =~= post);
            }
        }
        proof {
            assert(os.subrange(0, j as int) =~= os);
            assert(entries_map(counts@).dom() =~= old_map.dom() + other_map.dom());
        }
        let new_total = self.total + other_sum;
        *self = KeyFreq { raw_counts: counts, total: new_total };
    }
}

/// A copy of the entries `s`.
fn copy_entries(s: &Vec<(KeyId, u64)>) -> (r: Vec<(KeyId, u64)>)
    ensures
        r@ == s@,
{
    let mut r: Vec<(KeyId, u64)> = Vec::new();
    let mut i: usize = 0;
    while i < s.len()
        invariant
            i <= s@.len(),
            r@ == s@.subrange(0, i as int),
        decreases s@.len() - i,
    {
        r.push(s[i]);
        i = i + 1;
        assert(r@ =~= s@.subrange(0, i as int));
    }
    assert(s@.subrange(0, s@.len() as int) =~= s@);
    r
}

/// Where `k` stands in the entries `s`, if it does.
fn find_key(s: &Vec<(KeyId, u64)>, k: KeyId) -> (r: Option<usize>)
    ensures
        r matches Some(i) ==> i < s@.len() && s@[i as int].0 == k,
        r is None ==> forall|i: int| 0 <= i < s@.len() ==> s@[i].0 != k,
{
    let mut i: usize = 0;
    while i < s.len()
        invariant
            i <= s@.len(),
            forall|j: int| 0 <= j < i ==> s@[j].0 != k,
        decreases s@.len() - i,
    {
        if s[i].0 == k {
            return Some(i);
        }
        i = i + 1;
    }
    None
}

/// Why a key frequency file could not be read.
pub enum ReadFault {
    /// The CSV reader could not read the header row.
    HeaderUnreadable,
    /// The header row has no first column.
    HeaderMissingKey,
    /// The header row has no second column.
    HeaderMissingCount,
    /// The first header is not `Key` (in any ASCII case); it is the one given.
    HeaderKey(Seq<char>),
    /// The second header is not `Count` (in any ASCII case); it is the one given.
    HeaderCount(Seq<char>),
    /// The CSV reader could not read a record.
    Csv,
    /// The record of the given row has fewer than two columns.
    CsvRow { row: nat, got: nat },
    /// The record names no optimized key (strict reading only).
    UnknownKey { row: nat, label: Seq<char> },
    /// The count is no `u64`, or the counts of the file add up to more.
    CountParse { row: nat, value: Seq<char>, kind: IntErrorKind },
}

/// Whether `a` and `b` are equal but for ASCII case.
pub open spec fn eq_ignore_ascii_case(a: Seq<char>, b: Seq<char>) -> bool {
    to_ascii_lower(a) == to_ascii_lower(b)
}

/// The problem of a header row, if any.
pub open spec fn header_fault(header: Option<Seq<Seq<char>>>) -> Option<ReadFault> {
    match header {
        None => Some(ReadFault::HeaderUnreadable),
        Some(h) => if h.len() < 1 {
            Some(ReadFault::HeaderMissingKey)
        } else if h.len() < 2 {
            Some(ReadFault::HeaderMissingCount)
        } else if !eq_ignore_ascii_case(h[0], EXPECTED_KEY_HEADER@) {
            Some(ReadFault::HeaderKey(h[0]))
        } else if !eq_ignore_ascii_case(h[1], EXPECTED_COUNT_HEADER@) {
            Some(ReadFault::HeaderCount(h[1]))
        } else {
            None
        },
    }
}

/// Whether every field of a record is blank.
pub open spec fn all_blank(fields: Seq<Seq<char>>) -> bool {
    forall|i: int| 0 <= i < fields.len() ==> #[trigger] trim(fields[i]).len() == 0
}

/// What one record of row `row` gives: nothing, a key with its count, or a
/// problem.
pub open spec fn record_step(fields: Seq<Seq<char>>, row: nat, strict: bool) -> Result<
    Option<(KeyId, u64)>,
    ReadFault,
> {
    if all_blank(fields) {
        Ok(None)
    } else if fields.len() < 2 {
        Err(ReadFault::CsvRow { row, got: fields.len() })
    } else {
        let label = trim(fields[0]);
        let count = trim(fields[1]);
        if label.len() == 0 {
            Ok(None)
        } else {
            match spec_parse_key_label(label) {
                Some(k) => match parse_unsigned(count, u64::MAX as nat) {
                    Ok(n) => Ok(Some((k, n as u64))),
                    Err(kind) => Err(ReadFault::CountParse { row, value: count, kind }),
                },
                None => if strict {
                    Err(ReadFault::UnknownKey { row, label })
                } else {
                    Ok(None)
                },
            }
        }
    }
}

/// The counts and their total after the first `n` records (the record of
/// index `i` is in row `i + 2`, after the header), or the first problem.
pub open spec fn read_prefix(
    recs: Seq<Option<Seq<Seq<char>>>>,
    n: nat,
    strict: bool,
) -> Result<(Map<KeyId, u64>, nat), ReadFault>
    decreases n,
{
    if n == 0 {
        Ok((Map::empty(), 0))
    } else {
        match read_prefix(recs, (n - 1) as nat, strict) {
            Err(f) => Err(f),
            Ok((m, t)) => match recs[n - 1] {
                None => Err(ReadFault::Csv),
                Some(fields) => match record_step(fields, n + 1, strict) {
                    Err(f) => Err(f),
                    Ok(None) => Ok((m, t)),
                    Ok(Some((k, c))) => if t + c > u64::MAX {
                        Err(
                            ReadFault::CountParse {
                                row: n + 1,
                                value: trim(fields[1]),
                                kind: IntErrorKind::PosOverflow,
                            },
                        )
                    } else {
                        Ok((m.insert(k, (count_or_zero(m, k) + c) as u64), (t + c) as nat))
                    },
                },
            },
        }
    }
}

/// The counts of a file with the header row `header` and the records
/// `recs` and their total, or the first problem.
pub open spec fn spec_read_key_freq(
    header: Option<Seq<Seq<char>>>,
    recs: Seq<Option<Seq<Seq<char>>>>,
    strict: bool,
) -> Result<(Map<KeyId, u64>, nat), ReadFault> {
    match header_fault(header) {
        Some(f) => Err(f),
        None => read_prefix(recs, recs.len(), strict),
    }
}

/// Whether the error `e` reports the problem `f`.
pub open spec fn describes(e: KbOptError, f: ReadFault) -> bool {
    match f {
        ReadFault::HeaderUnreadable => e matches KbOptError::CsvHeader(s) && s@.len() >= 24
            && s@.subrange(0, 24) == "Failed to read headers: "@,
        ReadFault::HeaderMissingKey => e matches KbOptError::CsvHeader(s) && s@
            == "Missing key column at index 0"@,
        ReadFault::HeaderMissingCount => e matches KbOptError::CsvHeader(s) && s@
            == "Missing count column at index 1"@,
        ReadFault::HeaderKey(found) => e matches KbOptError::CsvHeader(s) && s@
            == "Expected 'Key' in column 0, found '"@ + found + "'"@,
        ReadFault::HeaderCount(found) => e matches KbOptError::CsvHeader(s) && s@
            == "Expected 'Count' in column 1, found '"@ + found + "'"@,
        ReadFault::Csv => e is Csv,
        ReadFault::CsvRow { row, got } => e matches KbOptError::CsvRow { row: r, got: g } && r
            == row && g == got,
        ReadFault::UnknownKey { row, label } => e matches KbOptError::UnknownKey {
            row: r,
            label: l,
        } && r == row && l@ == label,
        ReadFault::CountParse { row, value, kind } => e matches KbOptError::CountParse {
            row: r,
            value: v,
            source: k,
        } && r == row && v@ == value && k == kind,
    }
}

/// The fields of a header row that the CSV reader gave, if it could read it.
pub open spec fn header_view(h: Result<Vec<String>, csv::Error>) -> Option<Seq<Seq<char>>> {
    match h {
        Ok(v) => Some(v.deep_view()),
        Err(_) => None,
    }
}

/// The fields of the records that the CSV reader gave, `None` where it
/// could not read one.
pub open spec fn records_view(r: Seq<Result<Vec<String>, csv::Error>>) -> Seq<
    Option<Seq<Seq<char>>>,
> {
    Seq::new(
        r.len(),
        |i: int|
            match r[i] {
                Ok(v) => Some(v.deep_view()),
                Err(_) => None,
            },
    )
}

/// The header row that the `csv` crate reads from `input` with a header row,
/// every field trimmed and records of any length; `None` when it fails.
pub uninterp spec fn csv_header_fields(input: Seq<u8>) -> Option<Seq<Seq<char>>>;

/// The records after the header row that the `csv` crate reads from `input`
/// with every field trimmed and records of any length; `None` for a record
/// it fails on.
pub uninterp spec fn csv_record_fields(input: Seq<u8>) -> Seq<Option<Seq<Seq<char>>>>;

/// `csv::ReaderBuilder` with a header row, `Trim::All` and flexible records,
/// then `Reader::headers`: the header row of `input`, each field as a
/// string. The result is named, a function of the bytes.
#[verifier::external_body]
fn read_csv_headers(input: &[u8]) -> (r: Result<Vec<String>, csv::Error>)
    ensures
        header_view(r) == csv_header_fields(input@),
{
    let mut rdr = csv::ReaderBuilder::new().has_headers(true).trim(csv::Trim::All).flexible(
        true,
    ).from_reader(input);
    rdr.headers().map(|h| h.iter().map(|f| f.to_string()).collect())
}

/// `csv::ReaderBuilder` as for the header row, then `Reader::records`: each
/// record after the header row of `input`, its fields as strings, or the
/// error that the reader reports for it. The result is named, a function of
/// the bytes. Its length is below `usize::MAX` because std's `Vec` never
/// holds more than `isize::MAX` bytes and these elements are not empty.
#[verifier::external_body]
fn read_csv_records(input: &[u8]) -> (r: Vec<Result<Vec<String>, csv::Error>>)
    ensures
        records_view(r@) == csv_record_fields(input@),
        r@.len() < usize::MAX,
{
    let mut rdr = csv::ReaderBuilder::new().has_headers(true).trim(csv::Trim::All).flexible(
        true,
    ).from_reader(input);
    rdr.records().map(|r| r.map(|rec| rec.iter().map(|f| f.to_string()).collect())).collect()
}

/// The text of an error of the `csv` crate, as its `Display` writes it.
#[verifier::external_body]
fn csv_error_text(e: &csv::Error) -> String {
    e.to_string()
}

/// Whether `a` and `b` are equal but for ASCII case, as
/// `str::eq_ignore_ascii_case`.
fn eq_ignore_case(a: &str, b: &str) -> (r: bool)
    ensures
        r == eq_ignore_ascii_case(a@, b@),
{
    let x = chars_of(a);
    let y = chars_of(b);
    let lx = ascii_lower_chars(x.as_slice());
    let ly = ascii_lower_chars(y.as_slice());
    seq_eq(lx.as_slice(), ly.as_slice())
}

/// Checks that the header row is `Key,Count`, in any ASCII case.
pub fn validate_csv_headers(header: &Result<Vec<String>, csv::Error>) -> (r: Result<(), KbOptError>)
    ensures
        match header_fault(header_view(*header)) {
            None => r is Ok,
            Some(f) => r matches Err(e) && describes(e, f),
        },
{
    let h = match header {
        Ok(h) => h,
        Err(e) => {
            let m = concat3("Failed to read headers: ", csv_error_text(e).as_str(), "");
            proof {
                reveal_strlit("Failed to read headers: ");
                assert(m@.subrange(0, 24) =~= "Failed to read headers: "@);
            }
            return Err(KbOptError::CsvHeader(m));
        },
    };
    assert(header_view(*header) == Some(h.deep_view()));
    if h.len() < 1 {
        return Err(KbOptError::CsvHeader(String::from_str("Missing key column at index 0")));
    }
    if h.len() < 2 {
        return Err(KbOptError::CsvHeader(String::from_str("Missing count column at index 1")));
    }
    let key_header = h[0].as_str();
    let count_header = h[1].as_str();
    assert(h.deep_view()[0] == key_header@);
    assert(h.deep_view()[1] == count_header@);
    if !eq_ignore_case(key_header, EXPECTED_KEY_HEADER) {
        let m = concat3("Expected 'Key' in column 0, found '", key_header, "'");
        return Err(KbOptError::CsvHeader(m));
    }
    if !eq_ignore_case(count_header, EXPECTED_COUNT_HEADER) {
        let m = concat3("Expected 'Count' in column 1, found '", count_header, "'");
        return Err(KbOptError::CsvHeader(m));
    }
    Ok(())
}

/// The trimmed characters of column `column_index` of a record, or the
/// error for a record of row `row_number` that has no such column.
fn get_column_value(record: &Vec<String>, column_index: usize, row_number: usize) -> (r: Result<
    Vec<char>,
    KbOptError,
>)
    ensures
        column_index < record@.len() ==> (r matches Ok(v) && v@ == trim(
            record.deep_view()[column_index as int],
        )),
        column_index >= record@.len() ==> (r matches Err(KbOptError::CsvRow { row, got }) && row
            == row_number && got == record@.len()),
{
    if column_index < record.len() {
        let c = chars_of(record[column_index].as_str());
        Ok(trim_chars(c.as_slice()))
    } else {
        Err(KbOptError::CsvRow { row: row_number, got: record.len() })
    }
}

/// Reads a count as an unsigned 64-bit number, or gives the error for row
/// `row_number`.
pub fn parse_count_value(count_str: &str, row_number: usize) -> (r: Result<u64, KbOptError>)
    ensures
        match parse_unsigned(count_str@, u64::MAX as nat) {
            Ok(n) => r == Ok::<u64, KbOptError>(n as u64),
            Err(kind) => r matches Err(KbOptError::CountParse { row, value, source }) && row
                == row_number && value@ == count_str@ && source == kind,
        },
{
    let c = chars_of(count_str);
    match parse_unsigned_chars(c.as_slice(), u64::MAX) {
        Ok(n) => Ok(n),
        Err(kind) => Err(
            KbOptError::CountParse {
                row: row_number,
                value: String::from_str(count_str),
                source: kind,
            },
        ),
    }
}

/// What one record gives: nothing (blank record, empty label, or a label of
/// no optimized key when reading is not strict), a key and its count, or
/// the error of row `row`.
pub fn parse_record(rec: &Vec<String>, row: usize, opt: &ParseOptions) -> (r: Result<
    Option<(KeyId, u64)>,
    KbOptError,
>)
    ensures
        match record_step(rec.deep_view(), row as nat, opt.strict_unknown_keys) {
            Ok(x) => r matches Ok(y) && y == x,
            Err(f) => r matches Err(e) && describes(e, f),
        },
{
    let ghost fields = rec.deep_view();
    let mut blank = true;
    let mut i: usize = 0;
    while i < rec.len()
        invariant
            fields == rec.deep_view(),
            i <= rec@.len(),
            blank == (forall|j: int| 0 <= j < i ==> #[trigger] trim(fields[j]).len() == 0),
        decreases rec@.len() - i,
    {
        let c = chars_of(rec[i].as_str());
        let t = trim_chars(c.as_slice());
        assert(fields[i as int] == rec@[i as int]@);
        if t.len() != 0 {
            blank = false;
        }
        i = i + 1;
    }
    if blank {
        return Ok(None);
    }
    let key_label = match get_column_value(rec, 0, row) {
        Ok(v) => v,
        Err(e) => {
            return Err(e);
        },
    };
    let count_chars = match get_column_value(rec, 1, row) {
        Ok(v) => v,
        Err(e) => {
            return Err(e);
        },
    };
    if key_label.len() == 0 {
        return Ok(None);
    }
    let label = string_of_chars(key_label.as_slice());
    proof {
        crate::text::lemma_trim_idempotent(key_label@);
    }
    match parse_key_label(label.as_str()) {
        Some(kid) => {
            let count_str = string_of_chars(count_chars.as_slice());
            match parse_count_value(count_str.as_str(), row) {
                Ok(count) => Ok(Some((kid, count))),
                Err(e) => Err(e),
            }
        },
        None => {
            if opt.strict_unknown_keys {
                Err(KbOptError::UnknownKey { row, label })
            } else {
                Ok(None)
            }
        },
    }
}

/// The counts of a key frequency file from its header row and records as
/// the CSV reader gave them: the counts of each key added up, or the error
/// of the first problem (see `spec_read_key_freq`).
pub fn key_freq_from_records(
    header: Result<Vec<String>, csv::Error>,
    records: Vec<Result<Vec<String>, csv::Error>>,
    opt: &ParseOptions,
) -> (r: Result<KeyFreq, KbOptError>)
    requires
        records@.len() < usize::MAX,
    ensures
        match spec_read_key_freq(header_view(header), records_view(records@), opt.strict_unknown_keys) {
            Ok((m, t)) => r matches Ok(kf) && kf@ == m && kf.spec_total() == t,
            Err(f) => r matches Err(e) && describes(e, f),
        },
{
    match validate_csv_headers(&header) {
        Ok(()) => {},
        Err(e) => {
            return Err(e);
        },
    }
    let ghost recs = records_view(records@);
    let ghost hv = header_view(header);
    assert(header_fault(hv) is None);
    let strict = opt.strict_unknown_keys;
    let mut records = records;
    let mut counts: Vec<(KeyId, u64)> = Vec::new();
    let mut total: u64 = 0;
    let mut i: usize = 0;
    let n = records.len();
    #[verifier::loop_isolation(false)]
    while i < n
        invariant
            n == records@.len(),
            n < usize::MAX,
            recs == records_view(records@),
            header_fault(hv) is None,
            hv == header_view(header),
            strict == opt.strict_unknown_keys,
            i <= n,
            keys_distinct(counts@),
            total == sum_counts(counts@),
            read_prefix(recs, i as nat, strict) matches Ok((m, t)) && m == entries_map(counts@)
                && t == total,
        decreases n - i,
    {
        let row = i + 2;
        let ghost prev = read_prefix(recs, i as nat, strict);
        assert(read_prefix(recs, (i + 1) as nat, strict) == match prev {
            Err(f) => Err(f),
            Ok((m, t)) => match recs[i as int] {
                None => Err(ReadFault::Csv),
                Some(fields) => match record_step(fields, (i + 2) as nat, strict) {
                    Err(f) => Err(f),
                    Ok(None) => Ok((m, t)),
                    Ok(Some((k, c))) => if t + c > u64::MAX {
                        Err(
                            ReadFault::CountParse {
                                row: (i + 2) as nat,
                                value: trim(fields[1]),
                                kind: IntErrorKind::PosOverflow,
                            },
                        )
                    } else {
                        Ok((m.insert(k, (count_or_zero(m, k) + c) as u64), (t + c) as nat))
                    },
                },
            },
        });
        if records[i].is_err() {
            proof {
                assert(recs[i as int] is None);
                lemma_read_prefix_err(recs, (i + 1) as nat, n as nat, strict);

            }
            let item = records.remove(i);
            match item {
                Err(e) => {
                    return Err(KbOptError::Csv(e));
                },
                Ok(_) => {
                    assert(false);
                    return Err(KbOptError::Other(String::new()));
                },
            }
        }
        let step = match &records[i] {
            Ok(rec) => {
                assert(recs[i as int] == Some(rec.deep_view()));
                parse_record(rec, row, opt)
            },
            Err(_) => Ok(None),
        };
        match step {
            Err(e) => {
                proof {
                    lemma_read_prefix_err(recs, (i + 1) as nat, n as nat, strict);
                }
                return Err(e);
            },
            Ok(None) => {},
            Ok(Some((k, c))) => {
                if c > u64::MAX - total {
                    proof {
                        lemma_read_prefix_err(recs, (i + 1) as nat, n as nat, strict);
                    }
                    let fields = match &records[i] {
                        Ok(rec) => rec,
                        Err(_) => {
                            assert(false);
                            return Err(KbOptError::Other(String::new()));
                        },
                    };
                    let c1 = chars_of(fields[1].as_str());
                    let t1 = trim_chars(c1.as_slice());
                    return Err(
                        KbOptError::CountParse {
                            row,
                            value: string_of_chars(t1.as_slice()),
                            source: IntErrorKind::PosOverflow,
                        },
                    );
                }
                proof {
                    lemma_entries_map(counts@);
                }
                match find_key(&counts, k) {
                    Some(idx) => {
                        let old_c = counts[idx].1;
                        proof {
                            lemma_entry_le_sum(counts@, idx as int);
                            assert(entries_map(counts@).contains_key(counts@[idx as int].0));
                        }
                        let ghost before = counts@;
                        counts.set(idx, (k, old_c + c));
                        proof {
                            lemma_entries_map_update(before, idx as int, (old_c + c) as u64);
                            assert(counts@ == before.update(
                                idx as int,
                                (before[idx as int].0, (old_c + c) as u64),
                            ));
                        }
                    },
                    None => {
                        let ghost before = counts@;
                        counts.push((k, c));
                        proof {
                            assert(!entries_map(before).contains_key(k)) by {
                                if entries_map(before).contains_key(k) {
                                    let j = choose|j: int| 0 <= j < before.len() && before[j].0 == k;
                                }
                            }
                            assert(counts@.drop_last() =~= before);
                            assert(keys_distinct(counts@)) by {
                                assert forall|a: int, b: int|
                                    0 <= a < b < counts@.len() implies counts@[a].0
                                    != counts@[b].0 by {
                                    if b == counts@.len() - 1 {
                                        assert(entries_map(before).contains_key(before[a].0));
                                    }
                                }
                            }
                        }
                    },
                }
                total = total + c;
            },
        }
        i = i + 1;
    }
    assert(recs.len() == n);
    Ok(KeyFreq::from_counts(counts))
}

/// Once a prefix of the records fails, every longer prefix fails alike.
proof fn lemma_read_prefix_err(recs: Seq<Option<Seq<Seq<char>>>>, i: nat, n: nat, strict: bool)
    requires
        i <= n,
        read_prefix(recs, i, strict) is Err,
    ensures
        read_prefix(recs, n, strict) == read_prefix(recs, i, strict),
    decreases n - i,
{
    if i < n {
        lemma_read_prefix_err(recs, i, (n - 1) as nat, strict);
    }
}

/// Reads the text of a key frequency file: a header row `Key,Count` (in
/// any ASCII case) and records of a key label and its count, any further
/// columns ignored, every field trimmed. Blank records and empty labels are
/// skipped; labels that name no optimized key are skipped, or rejected
/// when `opt` is strict. The counts of each key are added up.
pub fn read_key_freq_from_reader(input: &[u8], opt: &ParseOptions) -> (r: Result<KeyFreq, KbOptError>)
    ensures
        match spec_read_key_freq(
            csv_header_fields(input@),
            csv_record_fields(input@),
            opt.strict_unknown_keys,
        ) {
            Ok((m, t)) => r matches Ok(kf) && kf@ == m && kf.spec_total() == t,
            Err(f) => r matches Err(e) && describes(e, f),
        },
{
    let header = read_csv_headers(input);
    let records = read_csv_records(input);
    key_freq_from_records(header, records, opt)
}

/// Whether `r` holds the counts of `a` and `b` added key by key.
pub open spec fn merged(a: Map<KeyId, u64>, b: Map<KeyId, u64>, r: Map<KeyId, u64>) -> bool {
    &&& r.dom() == a.dom() + b.dom()
    &&& forall|k: KeyId| #[trigger] r.contains_key(k) ==> r[k] == count_or_zero(a, k) + count_or_zero(b, k)
}

/// Merging does not depend on the order of the two operands.
pub proof fn lemma_merge_commutes(a: Map<KeyId, u64>, b: Map<KeyId, u64>, r1: Map<KeyId, u64>, r2: Map<KeyId, u64>)
    requires
        merged(a, b, r1),
        merged(b, a, r2),
    ensures
        r1 == r2,
{
    assert(r1.dom() =~= r2.dom());
    assert(r1 =~= r2);
}

/// Merging is associative: merging three tables of counts gives the same
/// counts however the merges are grouped, so the counts of several files
/// do not depend on the order in which the files are read.
pub proof fn lemma_merge_associates(
    a: Map<KeyId, u64>,
    b: Map<KeyId, u64>,
    c: Map<KeyId, u64>,
    ab: Map<KeyId, u64>,
    abc: Map<KeyId, u64>,
    bc: Map<KeyId, u64>,
    a_bc: Map<KeyId, u64>,
)
    requires
        merged(a, b, ab),
        merged(ab, c, abc),
        merged(b, c, bc),
        merged(a, bc, a_bc),
    ensures
        abc == a_bc,
{
    assert(abc.dom() =~= a_bc.dom());
    assert forall|k: KeyId| #[trigger] abc.contains_key(k) implies abc[k] == a_bc[k] by {
        assert(count_or_zero(ab, k) == count_or_zero(a, k) + count_or_zero(b, k));
        assert(count_or_zero(bc, k) == count_or_zero(b, k) + count_or_zero(c, k));
    }
    assert(abc =~= a_bc);
}

/// Merging an empty table of counts leaves the counts as they are.
pub proof fn lemma_merge_empty(a: Map<KeyId, u64>, r: Map<KeyId, u64>)
    requires
        merged(a, Map::empty(), r),
    ensures
        r == a,
{
    assert(r.dom() =~= a.dom());
    assert(r =~= a);
}

} // verus!
