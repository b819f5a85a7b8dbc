//! Parsing of the system's disk usage table, as the `df -k` report prints
//! it: a header row, then one row per mounted filesystem with exactly six
//! fields — filesystem, blocks, used, available, use percent, mount point.
//! Running the report is I/O and happens outside this crate; turning its
//! bytes into rows, and looking rows up, happens here.
use vstd::prelude::*;
use crate::system_info::{field_value, lines_of, parse_field, split_fields, split_lines,
    tokens_of, HealthError};

verus! {

/// One row of the disk usage table. Sizes are in kilobyte blocks; the use
/// percentage is the integer the report prints.
#[derive(Clone, Debug, PartialEq, Eq)]
pub struct Diskinfo {
    pub filesystem: Vec<u8>,
    pub total: i32,
    pub used: i32,
    pub available: i32,
    pub use_percent: i32,
    pub mounted_on: Vec<u8>,
}

/// One row of the table, over mathematical sequences, for contracts.
pub struct DiskRow {
    pub filesystem: Seq<u8>,
    pub total: int,
    pub used: int,
    pub available: int,
    pub use_percent: int,
    pub mounted_on: Seq<u8>,
}

/// Whether a parsed row is the given abstract row.
pub open spec fn row_matches(d: Diskinfo, row: DiskRow) -> bool {
    &&& d.filesystem@ == row.filesystem
    &&& d.total == row.total
    &&& d.used == row.used
    &&& d.available == row.available
    &&& d.use_percent == row.use_percent
    &&& d.mounted_on@ == row.mounted_on
}

/// What one line of the table comes to: its six fields, with the four
/// numeric ones read as unsigned decimal numbers.
pub open spec fn disk_row_of(line: Seq<u8>) -> Result<DiskRow, HealthError> {
    let toks = tokens_of(line);
    if toks.len() != 6 {
        Err(HealthError::DiskFieldCount)
    } else {
        match (
            field_value(toks[1]),
            field_value(toks[2]),
            field_value(toks[3]),
            field_value(toks[4]),
        ) {
            (
                Option::Some(total),
                Option::Some(used),
                Option::Some(available),
                Option::Some(use_percent),
            ) => Ok(DiskRow {
                filesystem: toks[0],
                total: total,
                used: used,
                available: available,
                use_percent: use_percent,
                mounted_on: toks[5],
            }),
            _ => Err(HealthError::DiskBadField),
        }
    }
}

/// What a sequence of table lines comes to: their rows in order, or the
/// first line's failure.
pub open spec fn disk_rows_of(ls: Seq<Seq<u8>>) -> Result<Seq<DiskRow>, HealthError>
    decreases ls.len(),
{
    if ls.len() == 0 {
        Ok(Seq::empty())
    } else {
        match disk_row_of(ls[0]) {
            Ok(row) => match disk_rows_of(ls.drop_first()) {
                Ok(rest) => Ok(seq![row] + rest),
                Err(e) => Err(e),
            },
            Err(e) => Err(e),
        }
    }
}

/// What the whole report comes to: the rows after the header line.
pub open spec fn disk_table_result(data: Seq<u8>) -> Result<Seq<DiskRow>, HealthError> {
    let ls = lines_of(data);
    if ls.len() == 0 {
        Ok(Seq::empty())
    } else {
        disk_rows_of(ls.drop_first())
    }
}

/// One unfolding of `disk_rows_of`, for callers that reason one line at a
/// time.
proof fn lemma_disk_rows_step(ls: Seq<Seq<u8>>)
    requires
        ls.len() > 0,
    ensures
        disk_rows_of(ls) == (match disk_row_of(ls[0]) {
            Ok(row) => match disk_rows_of(ls.drop_first()) {
                Ok(rest) => Ok::<Seq<DiskRow>, HealthError>(seq![row] + rest),
                Err(e) => Err(e),
            },
            Err(e) => Err(e),
        }),
{
}

/// Parses the disk usage report: drops the header line, then reads each row,
/// failing on the first row that is not six fields of which the middle four
/// are numbers.
pub fn disk_usage_table(data: &[u8]) -> (r: Result<Vec<Diskinfo>, HealthError>)
    ensures
        (match (r, disk_table_result(data@)) {
            (Ok(v), Ok(rows)) => v@.len() == rows.len() && (forall|i: int|
                0 <= i < rows.len() ==> row_matches(#[trigger] v@[i], rows[i])),
            (Err(e), Err(e2)) => e == e2,
            _ => false,
        }),
{
    let lines = split_lines(data);
    let mut out: Vec<Diskinfo> = Vec::new();
    let ghost ls = lines_of(data@);
    if lines.len() == 0 {
        return Ok(out);
    }
    let ghost body = ls.drop_first();
    let mut k: usize = 1;
    let ghost mut rows_done: Seq<DiskRow> = Seq::empty();
    proof {
        assert(lines.deep_view().skip(1) =~= body);
        assert(rows_done + Seq::<DiskRow>::empty() =~= Seq::<DiskRow>::empty());
    }
    let n = lines.len();
    #[verifier::loop_isolation(false)]
    while k < n
        invariant
            1 <= k <= n,
            n == lines@.len(),
            lines.deep_view() == ls,
            out@.len() == rows_done.len(),
            rows_done.len() == k - 1,
            forall|i: int| 0 <= i < rows_done.len() ==> row_matches(
                #[trigger] out@[i],
                rows_done[i],
            ),
            disk_rows_of(body) == (match disk_rows_of(ls.skip(k as int)) {
                Ok(rest) => Ok::<Seq<DiskRow>, HealthError>(rows_done + rest),
                Err(e) => Err(e),
            }),
        decreases n - k,
    {
        let ghost suffix = ls.skip(k as int);
        proof {
            assert(suffix.drop_first() =~~= ls.skip(k as int + 1));
            assert(suffix[0] == lines.deep_view()[k as int]);
            lemma_disk_rows_step(suffix);
        }
        let line = &lines[k];
        proof {
            assert(lines.deep_view()[k as int] =~= lines@[k as int]@);
            assert(suffix[0] == line@);
        }
        let fields = split_fields(line.as_slice());
        if fields.len() != 6 {
            proof {
                assert(tokens_of(suffix[0]).len() != 6);
                assert(disk_row_of(suffix[0]) == Err::<DiskRow, HealthError>(
                    HealthError::DiskFieldCount,
                ));
            }
            return Err(HealthError::DiskFieldCount);
        }
        let total = parse_field(fields[1].as_slice());
        let used = parse_field(fields[2].as_slice());
        let available = parse_field(fields[3].as_slice());
        let use_percent = parse_field(fields[4].as_slice());
        proof {
            assert(fields.deep_view()[0] =~= fields@[0]@);
            assert(fields.deep_view()[1] =~= fields@[1]@);
            assert(fields.deep_view()[2] =~= fields@[2]@);
            assert(fields.deep_view()[3] =~= fields@[3]@);
            assert(fields.deep_view()[4] =~= fields@[4]@);
            assert(fields.deep_view()[5] =~= fields@[5]@);
        }
        match (total, used, available, use_percent) {
            (Some(t), Some(u), Some(a), Some(p)) => {
                let ghost row = (match disk_row_of(suffix[0]) {
                    Ok(row) => row,
                    Err(_) => arbitrary(),
                });
                let d = Diskinfo {
                    filesystem: fields[0].clone(),
                    total: t,
                    used: u,
                    available: a,
                    use_percent: p,
                    mounted_on: fields[5].clone(),
                };
                proof {
                    assert(d.filesystem@ =~= fields@[0]@);
                    assert(d.mounted_on@ =~= fields@[5]@);
                    assert(row_matches(d, row));
                }
                out.push(d);
                proof {
                    let rows0 = rows_done;
                    rows_done = rows_done.push(row);
                    assert(forall|i: int| 0 <= i < rows_done.len() - 1 ==> row_matches(
                        #[trigger] out@[i],
                        rows_done[i],
                    ));
                    assert(disk_row_of(suffix[0]) == Ok::<DiskRow, HealthError>(row));
                    match disk_rows_of(ls.skip(k as int + 1)) {
                        Ok(rest) => {
                            assert(disk_rows_of(suffix) == Ok::<Seq<DiskRow>, HealthError>(
                                seq![row] + rest,
                            ));
                            assert(rows_done + rest =~= rows0 + (seq![row] + rest));
                            assert(disk_rows_of(body) == Ok::<Seq<DiskRow>, HealthError>(
                                rows_done + rest,
                            ));
                        }
                        Err(e) => {
                            assert(disk_rows_of(suffix) == Err::<Seq<DiskRow>, HealthError>(e));
                            assert(disk_rows_of(body) == Err::<Seq<DiskRow>, HealthError>(e));
                        }
                    }
                }
            }
            _ => {
                return Err(HealthError::DiskBadField);
            }
        }
        k += 1;
    }
    proof {
        assert(ls.skip(n as int) =~= Seq::<Seq<u8>>::empty());
        assert(rows_done + Seq::<DiskRow>::empty() =~= rows_done);
    }
    Ok(out)
}

/// The first row mounted at the given point, if any.
pub fn find_mount<'a>(disks: &'a Vec<Diskinfo>, ptr: &[u8]) -> (r: Option<&'a Diskinfo>)
    ensures
        (match r {
            Some(d) => exists|i: int| 0 <= i < disks@.len() && #[trigger] disks@[i].mounted_on@
                == ptr@ && d == disks@[i] && (forall|j: int| 0 <= j < i
                ==> #[trigger] disks@[j].mounted_on@ != ptr@),
            None => forall|i: int| 0 <= i < disks@.len() ==> #[trigger] disks@[i].mounted_on@
                != ptr@,
        }),
{
    let mut k: usize = 0;
    let n = disks.len();
    #[verifier::loop_isolation(false)]
    while k < n
        invariant
            k <= n,
            n == disks@.len(),
            forall|j: int| 0 <= j < k as int ==> #[trigger] disks@[j].mounted_on@ != ptr@,
        decreases n - k,
    {
        if bytes_equal(disks[k].mounted_on.as_slice(), ptr) {
            return Some(&disks[k]);
        }
        k += 1;
    }
    None
}

/// The first row of the given filesystem, if any.
pub fn find_filesystem<'a>(disks: &'a Vec<Diskinfo>, ptr: &[u8]) -> (r: Option<&'a Diskinfo>)
    ensures
        (match r {
            Some(d) => exists|i: int| 0 <= i < disks@.len() && #[trigger] disks@[i].filesystem@
                == ptr@ && d == disks@[i] && (forall|j: int| 0 <= j < i
                ==> #[trigger] disks@[j].filesystem@ != ptr@),
            None => forall|i: int| 0 <= i < disks@.len() ==> #[trigger] disks@[i].filesystem@
                != ptr@,
        }),
{
    let mut k: usize = 0;
    let n = disks.len();
    #[verifier::loop_isolation(false)]
    while k < n
        invariant
            k <= n,
            n == disks@.len(),
            forall|j: int| 0 <= j < k as int ==> #[trigger] disks@[j].filesystem@ != ptr@,
        decreases n - k,
    {
        if bytes_equal(disks[k].filesystem.as_slice(), ptr) {
            return Some(&disks[k]);
        }
        k += 1;
    }
    None
}

/// Whether two byte strings hold the same bytes.
pub fn bytes_equal(a: &[u8], b: &[u8]) -> (r: bool)
    ensures
        r == (a@ == b@),
{
    if a.len() != b.len() {
        proof {
            assert(a@.len() != b@.len());
        }
        return false;
    }
    let mut k: usize = 0;
    #[verifier::loop_isolation(false)]
    while k < a.len()
        invariant
            k <= a@.len(),
            a@.len() == b@.len(),
            forall|j: int| 0 <= j < k as int ==> a@[j] == b@[j],
        decreases a@.len() - k,
    {
        if a[k] != b[k] {
            return false;
        }
        k += 1;
    }
    proof {
        assert(a@ =~= b@);
    }
    true
}

} // verus!
