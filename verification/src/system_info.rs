//! Parsing of the kernel's health tables: the cumulative CPU time table and
//! the memory table, with the line, field and number machinery they share
//! (the disk usage parser builds on it too).
//!
//! The health job reads the kernel's statistics files and keeps the seven
//! counters of the aggregate CPU line (the line whose first field is the
//! bare `cpu` tag) and the three memory counters. The files are read outside
//! this crate; everything from the raw bytes to the counters is parsed and
//! checked here. A field is read as the ASCII digits it holds, in order, as
//! one unsigned decimal number; any other bytes in the field are ignored.
//! The tables these readers are for hold nothing but ASCII, where that
//! reading and the broad numericness test (`not_numeric`) pick out the same
//! characters; on bytes of a wider encoding the field readers keep only the
//! ASCII digits.
use vstd::prelude::*;

verus! {

/// Cumulative CPU time, in the kernel's clock ticks, one counter per
/// scheduling class.
#[derive(Clone, Copy, Debug, PartialEq, Eq, Structural)]
pub struct CPUtime {
    pub user: i32,
    pub nice: i32,
    pub system: i32,
    pub idle: i32,
    pub iowait: i32,
    pub irq: i32,
    pub softirq: i32,
}

impl CPUtime {
    /// Field-wise difference of two readings, for usage over an interval.
    pub fn sub(self, other: CPUtime) -> (r: CPUtime)
        requires
            i32::MIN <= self.user - other.user <= i32::MAX,
            i32::MIN <= self.nice - other.nice <= i32::MAX,
            i32::MIN <= self.system - other.system <= i32::MAX,
            i32::MIN <= self.idle - other.idle <= i32::MAX,
            i32::MIN <= self.iowait - other.iowait <= i32::MAX,
            i32::MIN <= self.irq - other.irq <= i32::MAX,
            i32::MIN <= self.softirq - other.softirq <= i32::MAX,
        ensures
            r.user == self.user - other.user,
            r.nice == self.nice - other.nice,
            r.system == self.system - other.system,
            r.idle == self.idle - other.idle,
            r.iowait == self.iowait - other.iowait,
            r.irq == self.irq - other.irq,
            r.softirq == self.softirq - other.softirq,
    {
        CPUtime {
            user: self.user - other.user,
            nice: self.nice - other.nice,
            system: self.system - other.system,
            idle: self.idle - other.idle,
            iowait: self.iowait - other.iowait,
            irq: self.irq - other.irq,
            softirq: self.softirq - other.softirq,
        }
    }
}

/// Why the CPU table failed to parse.
#[derive(Clone, Copy, Debug, PartialEq, Eq, Structural)]
pub enum HealthError {
    /// No line of the table begins with the aggregate `cpu ` tag.
    MissingCpuLine,
    /// The aggregate line has fewer than eight whitespace-separated fields.
    TooFewFields,
    /// A counter field held no digits, or its value does not fit the counter.
    BadField,
    /// A row of the disk usage table does not have exactly six fields.
    DiskFieldCount,
    /// A numeric field of a disk usage row held no digits, or its value does
    /// not fit the counter.
    DiskBadField,
    /// The memory table misses one of its three expected counters.
    MissingMemField,
    /// A counter line of the memory table held no digits, or its value does
    /// not fit the counter.
    BadMemField,
}

impl HealthError {
    /// A short description of the failure, for reports and logs.
    pub fn message(&self) -> (r: &'static str)
        ensures
            self is MissingCpuLine ==> r@ == "could not find the cpu line"@,
            self is TooFewFields ==> r@ == "too few fields in the cpu line"@,
            self is BadField ==> r@ == "could not parse a field of the cpu line"@,
            self is DiskFieldCount ==> r@ == "wrong number of fields in the disk table"@,
            self is DiskBadField ==> r@ == "could not parse a row of the disk table"@,
            self is MissingMemField ==> r@ == "could not find fields of the memory table"@,
            self is BadMemField ==> r@ == "could not parse a field of the memory table"@,
    {
        match self {
            HealthError::MissingCpuLine => "could not find the cpu line",
            HealthError::TooFewFields => "too few fields in the cpu line",
            HealthError::BadField => "could not parse a field of the cpu line",
            HealthError::DiskFieldCount => "wrong number of fields in the disk table",
            HealthError::DiskBadField => "could not parse a row of the disk table",
            HealthError::MissingMemField => "could not find fields of the memory table",
            HealthError::BadMemField => "could not parse a field of the memory table",
        }
    }
}

/// Whether a character is numeric in the broad sense of the character
/// tables (decimal digits, letter numbers and other numbers). Stated only
/// through the facts the trusted wrapper gives.
pub uninterp spec fn numeric_char(c: char) -> bool;

/// Relies on char::is_numeric: whether the character is in one of the
/// number categories. The answer is a function of the character alone, and
/// the ASCII digits are among the numeric characters.
#[verifier::external_body]
fn char_is_numeric(c: char) -> (r: bool)
    ensures
        r == numeric_char(c),
        ('0' <= c && c <= '9') ==> r,
{
    c.is_numeric()
}

/// A character that cannot be part of a number: the complement of the
/// broad numericness test of the character tables.
pub fn not_numeric(c: char) -> (r: bool)
    ensures
        r == !numeric_char(c),
{
    !char_is_numeric(c)
}

/// An ASCII decimal digit.
pub open spec fn is_digit(b: u8) -> bool {
    0x30 <= b <= 0x39
}

/// ASCII whitespace: space, tab, line feed, vertical tab, form feed,
/// carriage return.
pub open spec fn is_space(b: u8) -> bool {
    b == 0x20 || 0x09 <= b <= 0x0d
}

/// The digits of a field, in order, everything else dropped.
pub open spec fn digits_of(s: Seq<u8>) -> Seq<u8> {
    s.filter(|b: u8| is_digit(b))
}

/// The value of a sequence of ASCII digits read as an unsigned decimal
/// number.
pub open spec fn dec_val(s: Seq<u8>) -> nat
    decreases s.len(),
{
    if s.len() == 0 {
        0
    } else {
        dec_val(s.drop_last()) * 10 + (s.last() - 0x30) as nat
    }
}

/// What a counter field comes to: the decimal value of its digits, or
/// nothing when it has no digits or the value does not fit the counter.
pub open spec fn field_value(t: Seq<u8>) -> Option<int> {
    if digits_of(t).len() == 0 || dec_val(digits_of(t)) > i32::MAX as nat {
        None
    } else {
        Some(dec_val(digits_of(t)) as int)
    }
}

/// Reads one counter field: its digits, in order, as an unsigned decimal
/// number.
pub fn parse_field(s: &[u8]) -> (r: Option<i32>)
    ensures
        (match r {
            Some(v) => field_value(s@) == Some(v as int),
            None => field_value(s@) is None,
        }),
{
    let mut acc: u64 = 0;
    let mut any: bool = false;
    let mut over: bool = false;
    let mut i: usize = 0;
    proof {
        assert(s@.take(0) =~= Seq::<u8>::empty());
        assert(digits_of(s@.take(0)) =~= Seq::<u8>::empty());
    }
    #[verifier::loop_isolation(false)]
    while i < s.len()
        invariant
            i <= s@.len(),
            any <==> digits_of(s@.take(i as int)).len() > 0,
            !over ==> acc as nat == dec_val(digits_of(s@.take(i as int)))
                && acc <= i32::MAX as u64,
            over ==> dec_val(digits_of(s@.take(i as int))) > i32::MAX as nat,
        decreases s@.len() - i,
    {
        let b = s[i];
        let ghost prefix = s@.take(i as int);
        let ghost next_prefix = s@.take(i as int + 1);
        proof {
            assert(next_prefix.drop_last() =~= prefix);
            assert(next_prefix.last() == s@[i as int]);
            reveal(Seq::filter);
            if is_digit(b) {
                assert(digits_of(next_prefix) =~= digits_of(prefix).push(b));
                assert(digits_of(next_prefix).drop_last() =~= digits_of(prefix));
                assert(dec_val(digits_of(next_prefix)) == dec_val(digits_of(prefix)) * 10
                    + (b - 0x30) as nat);
            } else {
                assert(digits_of(next_prefix) =~= digits_of(prefix));
            }
        }
        if b >= 0x30 && b <= 0x39 {
            any = true;
            if !over {
                let d = (b - 0x30) as u64;
                let next = acc * 10 + d;
                if next > i32::MAX as u64 {
                    over = true;
                } else {
                    acc = next;
                }
            } else {
                proof {
                    let dv = dec_val(digits_of(prefix));
                    assert(dv * 10 >= dv) by (nonlinear_arith)
                        requires dv >= 0;
                }
            }
        }
        i += 1;
    }
    proof {
        assert(s@.take(s@.len() as int) =~= s@);
    }
    if !any || over {
        None
    } else {
        Some(acc as i32)
    }
}

/// The lines of the table: byte runs separated by line feeds. A line feed
/// always ends a line; a final run without one is a line of its own.
pub open spec fn lines_acc(s: Seq<u8>, cur: Seq<u8>) -> Seq<Seq<u8>>
    decreases s.len(),
{
    if s.len() == 0 {
        if cur.len() == 0 {
            Seq::empty()
        } else {
            seq![cur]
        }
    } else if s[0] == 0x0a {
        seq![cur] + lines_acc(s.drop_first(), Seq::empty())
    } else {
        lines_acc(s.drop_first(), cur.push(s[0]))
    }
}

/// The lines of the whole table.
pub open spec fn lines_of(s: Seq<u8>) -> Seq<Seq<u8>> {
    lines_acc(s, Seq::empty())
}

/// Splits the table into its lines.
pub fn split_lines(data: &[u8]) -> (r: Vec<Vec<u8>>)
    ensures
        r.deep_view() == lines_of(data@),
{
    let mut out: Vec<Vec<u8>> = Vec::new();
    let mut cur: Vec<u8> = Vec::new();
    let mut i: usize = 0;
    proof {
        assert(data@.skip(0) =~= data@);
        assert(out.deep_view() + lines_acc(data@, cur@) =~~= lines_of(data@));
    }
    #[verifier::loop_isolation(false)]
    while i < data.len()
        invariant
            i <= data@.len(),
            lines_of(data@) == out.deep_view() + lines_acc(data@.skip(i as int), cur@),
        decreases data@.len() - i,
    {
        let ghost rest = data@.skip(i as int);
        proof {
            assert(rest.drop_first() =~= data@.skip(i as int + 1));
            assert(rest[0] == data@[i as int]);
        }
        let b = data[i];
        if b == 0x0a {
            let ghost out0 = out.deep_view();
            let ghost cur0 = cur@;
            let done = cur;
            cur = Vec::new();
            out.push(done);
            proof {
                assert(out.deep_view() =~~= out0.push(cur0));
                assert(out0.push(cur0) =~~= out0 + seq![cur0]);
                assert(out.deep_view() + lines_acc(data@.skip(i as int + 1), cur@)
                    =~~= out0 + (seq![cur0] + lines_acc(rest.drop_first(), Seq::empty())));
            }
        } else {
            cur.push(b);
        }
        i += 1;
    }
    proof {
        assert(data@.skip(data@.len() as int) =~= Seq::<u8>::empty());
    }
    if cur.len() > 0 {
        let ghost out0 = out.deep_view();
        let ghost cur0 = cur@;
        out.push(cur);
        proof {
            assert(out.deep_view() =~~= out0.push(cur0));
            assert(out0.push(cur0) =~~= out0 + seq![cur0]);
        }
        out
    } else {
        proof {
            assert(out.deep_view() + Seq::<Seq<u8>>::empty() =~~= out.deep_view());
        }
        out
    }
}

/// The whitespace-separated fields of a line, in order.
pub open spec fn tokens_acc(s: Seq<u8>, cur: Seq<u8>) -> Seq<Seq<u8>>
    decreases s.len(),
{
    if s.len() == 0 {
        if cur.len() == 0 {
            Seq::empty()
        } else {
            seq![cur]
        }
    } else if is_space(s[0]) {
        if cur.len() == 0 {
            tokens_acc(s.drop_first(), Seq::empty())
        } else {
            seq![cur] + tokens_acc(s.drop_first(), Seq::empty())
        }
    } else {
        tokens_acc(s.drop_first(), cur.push(s[0]))
    }
}

/// The fields of a whole line.
pub open spec fn tokens_of(s: Seq<u8>) -> Seq<Seq<u8>> {
    tokens_acc(s, Seq::empty())
}

/// Splits a line into its whitespace-separated fields.
pub fn split_fields(line: &[u8]) -> (r: Vec<Vec<u8>>)
    ensures
        r.deep_view() == tokens_of(line@),
{
    let mut out: Vec<Vec<u8>> = Vec::new();
    let mut cur: Vec<u8> = Vec::new();
    let mut i: usize = 0;
    proof {
        assert(line@.skip(0) =~= line@);
        assert(out.deep_view() + tokens_acc(line@, cur@) =~~= tokens_of(line@));
    }
    #[verifier::loop_isolation(false)]
    while i < line.len()
        invariant
            i <= line@.len(),
            tokens_of(line@) == out.deep_view() + tokens_acc(line@.skip(i as int), cur@),
        decreases line@.len() - i,
    {
        let ghost rest = line@.skip(i as int);
        proof {
            assert(rest.drop_first() =~= line@.skip(i as int + 1));
            assert(rest[0] == line@[i as int]);
        }
        let b = line[i];
        if b == 0x20 || (b >= 0x09 && b <= 0x0d) {
            if cur.len() > 0 {
                let ghost out0 = out.deep_view();
                let ghost cur0 = cur@;
                let done = cur;
                cur = Vec::new();
                out.push(done);
                proof {
                    assert(out.deep_view() =~~= out0.push(cur0));
                    assert(out0.push(cur0) =~~= out0 + seq![cur0]);
                    assert(out.deep_view() + tokens_acc(line@.skip(i as int + 1), cur@)
                        =~~= out0 + (seq![cur0] + tokens_acc(rest.drop_first(), Seq::empty())));
                }
            } else {
                proof {
                    assert(cur@ =~= Seq::<u8>::empty());
                }
            }
        } else {
            cur.push(b);
        }
        i += 1;
    }
    proof {
        assert(line@.skip(line@.len() as int) =~= Seq::<u8>::empty());
    }
    if cur.len() > 0 {
        let ghost out0 = out.deep_view();
        let ghost cur0 = cur@;
        out.push(cur);
        proof {
            assert(out.deep_view() =~~= out0.push(cur0));
            assert(out0.push(cur0) =~~= out0 + seq![cur0]);
        }
        out
    } else {
        proof {
            assert(out.deep_view() + Seq::<Seq<u8>>::empty() =~~= out.deep_view());
        }
        out
    }
}

/// Whether a line begins with the given tag.
pub open spec fn line_starts_with(l: Seq<u8>, tag: Seq<u8>) -> bool {
    l.len() >= tag.len() && l.take(tag.len() as int) == tag
}

/// The first line that begins with the given tag, if any.
pub open spec fn find_line_spec(ls: Seq<Seq<u8>>, tag: Seq<u8>) -> Option<Seq<u8>>
    decreases ls.len(),
{
    if ls.len() == 0 {
        None
    } else if line_starts_with(ls[0], tag) {
        Some(ls[0])
    } else {
        find_line_spec(ls.drop_first(), tag)
    }
}

/// Whether a byte string begins with the given tag.
pub fn bytes_starts_with(l: &[u8], tag: &[u8]) -> (r: bool)
    ensures
        r == line_starts_with(l@, tag@),
{
    if l.len() < tag.len() {
        return false;
    }
    let mut k: usize = 0;
    #[verifier::loop_isolation(false)]
    while k < tag.len()
        invariant
            k <= tag@.len(),
            tag@.len() <= l@.len(),
            forall|j: int| 0 <= j < k as int ==> l@[j] == tag@[j],
        decreases tag@.len() - k,
    {
        if l[k] != tag[k] {
            proof {
                assert(l@.take(tag@.len() as int)[k as int] != tag@[k as int]);
            }
            return false;
        }
        k += 1;
    }
    proof {
        assert(l@.take(tag@.len() as int) =~= tag@);
    }
    true
}

/// Finds the first line that begins with the given tag.
pub fn find_line<'a>(lines: &'a Vec<Vec<u8>>, tag: &[u8]) -> (r: Option<&'a Vec<u8>>)
    ensures
        (match r {
            Option::Some(l) => find_line_spec(lines.deep_view(), tag@) == Option::Some(l@),
            Option::None => find_line_spec(lines.deep_view(), tag@) is None,
        }),
{
    let mut k: usize = 0;
    let n = lines.len();
    proof {
        assert(lines.deep_view().skip(0) =~= lines.deep_view());
    }
    #[verifier::loop_isolation(false)]
    while k < n
        invariant
            k <= n,
            n == lines@.len(),
            find_line_spec(lines.deep_view(), tag@) == find_line_spec(
                lines.deep_view().skip(k as int),
                tag@,
            ),
        decreases n - k,
    {
        let ghost rest = lines.deep_view().skip(k as int);
        proof {
            assert(rest.drop_first() =~~= lines.deep_view().skip(k as int + 1));
            assert(rest[0] == lines.deep_view()[k as int]);
            assert(lines.deep_view()[k as int] =~= lines@[k as int]@);
        }
        let line = &lines[k];
        if bytes_starts_with(line.as_slice(), tag) {
            proof {
                assert(rest[0] == line@);
                assert(line_starts_with(rest[0], tag@));
                assert(find_line_spec(rest, tag@) == Option::Some(rest[0]));
            }
            return Some(line);
        }
        k += 1;
    }
    proof {
        assert(lines.deep_view().skip(n as int) =~= Seq::<Seq<u8>>::empty());
    }
    None
}

/// The aggregate CPU line's tag: `cpu` followed by a space, which no
/// per-core tag has.
pub open spec fn cpu_tag() -> Seq<u8> {
    seq![0x63u8, 0x70u8, 0x75u8, 0x20u8]
}

/// What parsing the whole table comes to.
pub open spec fn cpu_time_result(data: Seq<u8>) -> Result<CPUtime, HealthError> {
    match find_line_spec(lines_of(data), cpu_tag()) {
        Option::None => Err(HealthError::MissingCpuLine),
        Option::Some(line) => cpu_time_result_of_line(line),
    }
}

/// Parses the kernel's CPU time table: finds the aggregate `cpu ` line and
/// reads its first seven counters.
pub fn cpu_time(data: &[u8]) -> (r: Result<CPUtime, HealthError>)
    ensures
        r == cpu_time_result(data@),
{
    let lines = split_lines(data);
    let tag: [u8; 4] = [0x63u8, 0x70u8, 0x75u8, 0x20u8];
    proof {
        assert(tag@ =~= cpu_tag());
    }
    match find_line(&lines, tag.as_slice()) {
        Option::Some(line) => parse_cpu_line(line),
        Option::None => Err(HealthError::MissingCpuLine),
    }
}

/// Reads the seven counters of the aggregate CPU line.
fn parse_cpu_line(line: &Vec<u8>) -> (r: Result<CPUtime, HealthError>)
    ensures
        r == cpu_time_result_of_line(line@),
{
    let fields = split_fields(line.as_slice());
    if fields.len() < 8 {
        return Err(HealthError::TooFewFields);
    }
    let user = parse_field(fields[1].as_slice());
    let nice = parse_field(fields[2].as_slice());
    let system = parse_field(fields[3].as_slice());
    let idle = parse_field(fields[4].as_slice());
    let iowait = parse_field(fields[5].as_slice());
    let irq = parse_field(fields[6].as_slice());
    let softirq = parse_field(fields[7].as_slice());
    proof {
        assert(fields.deep_view()[1] =~= fields@[1]@);
        assert(fields.deep_view()[2] =~= fields@[2]@);
        assert(fields.deep_view()[3] =~= fields@[3]@);
        assert(fields.deep_view()[4] =~= fields@[4]@);
        assert(fields.deep_view()[5] =~= fields@[5]@);
        assert(fields.deep_view()[6] =~= fields@[6]@);
        assert(fields.deep_view()[7] =~= fields@[7]@);
    }
    match (user, nice, system, idle, iowait, irq, softirq) {
        (Some(u), Some(n), Some(s), Some(i), Some(w), Some(q), Some(f)) => Ok(CPUtime {
            user: u,
            nice: n,
            system: s,
            idle: i,
            iowait: w,
            irq: q,
            softirq: f,
        }),
        _ => Err(HealthError::BadField),
    }
}

/// What parsing one aggregate line comes to.
pub open spec fn cpu_time_result_of_line(line: Seq<u8>) -> Result<CPUtime, HealthError> {
    let toks = tokens_of(line);
    if toks.len() < 8 {
        Err(HealthError::TooFewFields)
    } else {
        match (
            field_value(toks[1]),
            field_value(toks[2]),
            field_value(toks[3]),
            field_value(toks[4]),
            field_value(toks[5]),
            field_value(toks[6]),
            field_value(toks[7]),
        ) {
            (
                Option::Some(user),
                Option::Some(nice),
                Option::Some(system),
                Option::Some(idle),
                Option::Some(iowait),
                Option::Some(irq),
                Option::Some(softirq),
            ) => Ok(CPUtime {
                user: user as i32,
                nice: nice as i32,
                system: system as i32,
                idle: idle as i32,
                iowait: iowait as i32,
                irq: irq as i32,
                softirq: softirq as i32,
            }),
            _ => Err(HealthError::BadField),
        }
    }
}

/// The memory counters of the kernel's memory table, in kilobytes.
#[derive(Clone, Copy, Debug, PartialEq, Eq, Structural)]
pub struct Meminfo {
    pub total: i32,
    pub free: i32,
    pub available: i32,
}

/// The tag of the total-memory line.
pub open spec fn mem_total_tag() -> Seq<u8> {
    seq![0x4du8, 0x65u8, 0x6du8, 0x54u8, 0x6fu8, 0x74u8, 0x61u8, 0x6cu8, 0x3au8]
}

/// The tag of the free-memory line.
pub open spec fn mem_free_tag() -> Seq<u8> {
    seq![0x4du8, 0x65u8, 0x6du8, 0x46u8, 0x72u8, 0x65u8, 0x65u8, 0x3au8]
}

/// The tag of the available-memory line.
pub open spec fn mem_available_tag() -> Seq<u8> {
    seq![
        0x4du8, 0x65u8, 0x6du8, 0x41u8, 0x76u8, 0x61u8, 0x69u8, 0x6cu8, 0x61u8, 0x62u8,
        0x6cu8, 0x65u8, 0x3au8,
    ]
}

/// What parsing the memory table comes to: the three counters, each read
/// from the digits of its whole line.
pub open spec fn mem_info_result(data: Seq<u8>) -> Result<Meminfo, HealthError> {
    let ls = lines_of(data);
    match (
        find_line_spec(ls, mem_total_tag()),
        find_line_spec(ls, mem_free_tag()),
        find_line_spec(ls, mem_available_tag()),
    ) {
        (Option::Some(lt), Option::Some(lf), Option::Some(la)) => {
            match (field_value(lt), field_value(lf), field_value(la)) {
                (Option::Some(t), Option::Some(f), Option::Some(a)) => Ok(Meminfo {
                    total: t as i32,
                    free: f as i32,
                    available: a as i32,
                }),
                _ => Err(HealthError::BadMemField),
            }
        }
        _ => Err(HealthError::MissingMemField),
    }
}

/// Parses the kernel's memory table: total, free and available memory in
/// kilobytes.
pub fn mem_info(data: &[u8]) -> (r: Result<Meminfo, HealthError>)
    ensures
        r == mem_info_result(data@),
{
    let lines = split_lines(data);
    let total_tag: [u8; 9] = [0x4du8, 0x65u8, 0x6du8, 0x54u8, 0x6fu8, 0x74u8, 0x61u8, 0x6cu8,
        0x3au8];
    let free_tag: [u8; 8] = [0x4du8, 0x65u8, 0x6du8, 0x46u8, 0x72u8, 0x65u8, 0x65u8, 0x3au8];
    let available_tag: [u8; 13] = [0x4du8, 0x65u8, 0x6du8, 0x41u8, 0x76u8, 0x61u8, 0x69u8,
        0x6cu8, 0x61u8, 0x62u8, 0x6cu8, 0x65u8, 0x3au8];
    proof {
        assert(total_tag@ =~= mem_total_tag());
        assert(free_tag@ =~= mem_free_tag());
        assert(available_tag@ =~= mem_available_tag());
    }
    let total_line = find_line(&lines, total_tag.as_slice());
    let free_line = find_line(&lines, free_tag.as_slice());
    let available_line = find_line(&lines, available_tag.as_slice());
    match (total_line, free_line, available_line) {
        (Option::Some(lt), Option::Some(lf), Option::Some(la)) => {
            let total = parse_field(lt.as_slice());
            let free = parse_field(lf.as_slice());
            let available = parse_field(la.as_slice());
            match (total, free, available) {
                (Option::Some(t), Option::Some(f), Option::Some(a)) => Ok(Meminfo {
                    total: t,
                    free: f,
                    available: a,
                }),
                _ => Err(HealthError::BadMemField),
            }
        }
        _ => Err(HealthError::MissingMemField),
    }
}

} // verus!
