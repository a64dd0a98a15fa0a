use crate::error::{RecordField, SplitError};
use vstd::prelude::*;

verus! {

/// One row as the tabular reader hands it out: its fields, and the line of
/// the input it starts on, when known.
#[derive(Debug)]
pub struct RawRecord {
    pub fields: Vec<String>,
    pub line: Option<u64>,
}

impl View for RawRecord {
    type V = (Seq<Seq<char>>, Option<u64>);

    open spec fn view(&self) -> Self::V {
        (self.fields.deep_view(), self.line)
    }
}

/// The records that the tabular reader yields before its first error, and
/// that error, if it met one.
struct CsvScan {
    records: Vec<RawRecord>,
    failure: Option<csv::Error>,
}

#[verifier::external_type_specification]
#[verifier::external_body]
pub struct ExCsvError(csv::Error);

pub assume_specification[ csv::Error::is_io_error ](e: &csv::Error) -> bool;

/// The rows (fields and starting line) that a default `csv::Reader` yields
/// from `data` before its first error, and whether it met an error.
pub uninterp spec fn csv_rows_of(data: Seq<u8>) -> (Seq<(Seq<Seq<char>>, Option<u64>)>, bool);

/// Relies on csv::Reader::from_reader and Reader::records with the default
/// configuration (the first record is a header and is not yielded): the
/// records up to the first error, each with its fields and starting line.
#[verifier::external_body]
fn scan_csv(data: &[u8]) -> (r: CsvScan)
    ensures
        r.records@.map_values(|x: RawRecord| x@) == csv_rows_of(data@).0,
        r.failure.is_some() == csv_rows_of(data@).1,
{
    let mut rdr = csv::Reader::from_reader(data);
    let mut records = Vec::new();
    for item in rdr.records() {
        match item {
            Ok(rec) => records.push(RawRecord {
                fields: rec.iter().map(|f| f.to_string()).collect(),
                line: rec.position().map(|p| p.line()),
            }),
            Err(e) => return CsvScan { records, failure: Some(e) },
        }
    }
    CsvScan { records, failure: None }
}

/// One segment to cut: its 1-based position among the data rows, and the
/// start and end expressions handed verbatim to the transcoder.
#[derive(Debug)]
pub struct SplitInfo {
    pub number: u64,
    pub start: String,
    pub end: String,
}

/// The mathematical content of a `SplitInfo`.
pub ghost struct SplitView {
    pub number: u64,
    pub start: Seq<char>,
    pub end: Seq<char>,
}

impl View for SplitInfo {
    type V = SplitView;

    open spec fn view(&self) -> SplitView {
        SplitView { number: self.number, start: self.start@, end: self.end@ }
    }
}

/// The error for a row that lacks `field`.
pub open spec fn missing(field: RecordField, row: (Seq<Seq<char>>, Option<u64>)) -> SplitError {
    SplitError::MissingField { field, line: row.1 }
}

/// What parsing one row gives, when the row is data row `number`.
pub open spec fn parsed_row(row: (Seq<Seq<char>>, Option<u64>), number: u64) -> Result<SplitView, SplitError> {
    if row.0.len() == 0 {
        Err(missing(RecordField::Start, row))
    } else if row.0.len() == 1 {
        Err(missing(RecordField::End, row))
    } else {
        Ok(SplitView { number, start: row.0[0], end: row.0[1] })
    }
}

/// Row `i` is the first row with fewer than two fields.
pub open spec fn is_first_incomplete(rows: Seq<(Seq<Seq<char>>, Option<u64>)>, i: int) -> bool {
    &&& 0 <= i < rows.len()
    &&& rows[i].0.len() < 2
    &&& forall|j: int| 0 <= j < i ==> #[trigger] rows[j].0.len() >= 2
}

/// The descriptors of complete rows: row `i` becomes segment `i + 1`.
pub open spec fn descriptors_of(rows: Seq<(Seq<Seq<char>>, Option<u64>)>) -> Seq<SplitView> {
    Seq::new(rows.len(), |i: int| SplitView { number: (i + 1) as u64, start: rows[i].0[0], end: rows[i].0[1] })
}

/// What parsing the data rows gives: the error of the first incomplete row,
/// or one descriptor per row in input order.
pub open spec fn parsed_rows(rows: Seq<(Seq<Seq<char>>, Option<u64>)>) -> Result<Seq<SplitView>, SplitError> {
    if exists|i: int| is_first_incomplete(rows, i) {
        let i = choose|i: int| is_first_incomplete(rows, i);
        if rows[i].0.len() == 0 {
            Err(missing(RecordField::Start, rows[i]))
        } else {
            Err(missing(RecordField::End, rows[i]))
        }
    } else {
        Ok(descriptors_of(rows))
    }
}

/// The error for a row that lacks `field`, with the row's line when known.
pub fn parse_si_error(r: &RawRecord, field: RecordField) -> (e: SplitError)
    ensures
        e == missing(field, r@),
{
    SplitError::MissingField { field, line: r.line }
}

/// Parses data row `number`: its first field is the start, its second the
/// end; further fields are ignored.
pub fn parse_si(r: &RawRecord, number: u64) -> (res: Result<SplitInfo, SplitError>)
    ensures
        match res {
            Ok(si) => parsed_row(r@, number) == Ok::<SplitView, SplitError>(si@),
            Err(e) => parsed_row(r@, number) == Err::<SplitView, SplitError>(e),
        },
{
    if r.fields.len() == 0 {
        return Err(parse_si_error(r, RecordField::Start));
    }
    if r.fields.len() == 1 {
        return Err(parse_si_error(r, RecordField::End));
    }
    let start = r.fields[0].clone();
    let end = r.fields[1].clone();
    proof {
        assert(start@ == r@.0[0]);
        assert(end@ == r@.0[1]);
    }
    Ok(SplitInfo { number, start, end })
}

proof fn lemma_first_incomplete_unique(rows: Seq<(Seq<Seq<char>>, Option<u64>)>, i: int, k: int)
    requires
        is_first_incomplete(rows, i),
        is_first_incomplete(rows, k),
    ensures
        i == k,
{
    if i < k {
        assert(rows[i].0.len() >= 2);
    } else if k < i {
        assert(rows[k].0.len() >= 2);
    }
}

/// Parses the data rows in order, stopping at the first incomplete one.
pub fn parse_records(rows: &Vec<RawRecord>) -> (res: Result<Vec<SplitInfo>, SplitError>)
    ensures
        match res {
            Ok(v) => parsed_rows(rows@.map_values(|r: RawRecord| r@)) == Ok::<Seq<SplitView>, SplitError>(v@.map_values(|s: SplitInfo| s@)),
            Err(e) => parsed_rows(rows@.map_values(|r: RawRecord| r@)) == Err::<Seq<SplitView>, SplitError>(e),
        },
{
    let ghost views = rows@.map_values(|r: RawRecord| r@);
    let mut out: Vec<SplitInfo> = Vec::new();
    let mut i: usize = 0;
    while i < rows.len()
        invariant
            i <= rows.len(),
            views == rows@.map_values(|r: RawRecord| r@),
            forall|j: int| 0 <= j < i ==> #[trigger] views[j].0.len() >= 2,
            out@.map_values(|s: SplitInfo| s@) =~= descriptors_of(views).subrange(0, i as int),
        decreases rows.len() - i,
    {
        proof {
            assert(views[i as int] == rows@[i as int]@);
            assert(i + 1 <= usize::MAX);
        }
        let number = (i + 1) as u64;
        match parse_si(&rows[i], number) {
            Ok(si) => {
                proof {
                    assert(views[i as int].0.len() >= 2);
                    assert(si@ == descriptors_of(views)[i as int]);
                }
                let ghost before = out@;
                out.push(si);
                assert(out@ == before.push(si));
                proof {
                    let d = descriptors_of(views);
                    assert(before.map_values(|s: SplitInfo| s@).len() == i);
                    assert(before.len() == i);
                    assert forall|j: int| 0 <= j <= i implies out@.map_values(|s: SplitInfo| s@)[j] == d[j] by {
                        if j < i {
                            assert(out@[j] == before[j]);
                            assert(before.map_values(|s: SplitInfo| s@)[j] == d.subrange(0, i as int)[j]);
                        }
                    }
                }
                i = i + 1;
                assert(out@.map_values(|s: SplitInfo| s@) =~= descriptors_of(views).subrange(0, i as int));
            },
            Err(e) => {
                proof {
                    assert(is_first_incomplete(views, i as int));
                    let k = choose|k: int| is_first_incomplete(views, k);
                    lemma_first_incomplete_unique(views, i as int, k);
                }
                return Err(e);
            },
        }
    }
    proof {
        assert forall|k: int| !is_first_incomplete(views, k) by {
            if 0 <= k < views.len() {
                assert(views[k].0.len() >= 2);
            }
        }
        assert(out@.map_values(|s: SplitInfo| s@) =~= descriptors_of(views));
    }
    Ok(out)
}

/// The error for a failure of the tabular reader: an I/O failure, or an
/// invalid structure.
fn read_failure(e: &csv::Error) -> (r: SplitError)
    ensures
        r == SplitError::IoError || r == SplitError::MalformedRecord,
{
    if e.is_io_error() {
        SplitError::IoError
    } else {
        SplitError::MalformedRecord
    }
}

/// What reading `data` as a table of splits gives: the parse error of the
/// first incomplete row the reader yields, else a reader error if it met
/// one, else one descriptor per data row.
pub open spec fn read_outcome_ok(data: Seq<u8>, res: Result<Vec<SplitInfo>, SplitError>) -> bool {
    let (rows, failed) = csv_rows_of(data);
    match parsed_rows(rows) {
        Err(e) => res == Err::<Vec<SplitInfo>, SplitError>(e),
        Ok(d) => if failed {
            res == Err::<Vec<SplitInfo>, SplitError>(SplitError::IoError)
                || res == Err::<Vec<SplitInfo>, SplitError>(SplitError::MalformedRecord)
        } else {
            res is Ok && res->Ok_0@.map_values(|s: SplitInfo| s@) == d
        },
    }
}

/// Reads the split table in `data` (a header line, then one row per
/// segment) into descriptors, in row order.
pub fn read_split_info(data: &[u8]) -> (res: Result<Vec<SplitInfo>, SplitError>)
    ensures
        read_outcome_ok(data@, res),
{
    let scan = scan_csv(data);
    let infos = match parse_records(&scan.records) {
        Ok(v) => v,
        Err(e) => return Err(e),
    };
    match &scan.failure {
        Some(e) => Err(read_failure(e)),
        None => Ok(infos),
    }
}

} // verus!
