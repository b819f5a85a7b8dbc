use dora_radio_service::disk::{disk_usage_table, find_filesystem, find_mount};
use dora_radio_service::system_info::{
    cpu_time, mem_info, not_numeric, parse_field, split_fields, split_lines, CPUtime,
    HealthError, Meminfo,
};
use dora_radio_service::vector_math::{vec_add, vec_sub, vec_sum};

#[test]
fn cpu_time_reads_the_aggregate_line() {
    let table = b"cpu  4705 356 584 3699 23 23 0 0 0 0\ncpu0 100 0 50 900 1 2 3 0 0 0\n";
    let t = cpu_time(table).unwrap();
    assert_eq!(
        t,
        CPUtime {
            user: 4705,
            nice: 356,
            system: 584,
            idle: 3699,
            iowait: 23,
            irq: 23,
            softirq: 0,
        }
    );
}

#[test]
fn cpu_time_skips_per_core_lines() {
    // `cpu0` is not the aggregate tag: the aggregate line is found even when
    // a per-core line comes first.
    let table = b"cpu0 1 2 3 4 5 6 7\ncpu  9 8 7 6 5 4 3\n";
    let t = cpu_time(table).unwrap();
    assert_eq!(
        t,
        CPUtime { user: 9, nice: 8, system: 7, idle: 6, iowait: 5, irq: 4, softirq: 3 }
    );
}

#[test]
fn cpu_time_without_aggregate_line_fails() {
    assert_eq!(cpu_time(b""), Err(HealthError::MissingCpuLine));
    assert_eq!(
        cpu_time(b"intr 5 4 3\nctxt 99\n"),
        Err(HealthError::MissingCpuLine)
    );
    assert_eq!(
        cpu_time(b"cpu0 1 2 3 4 5 6 7\n"),
        Err(HealthError::MissingCpuLine)
    );
}

#[test]
fn cpu_time_with_too_few_fields_fails() {
    assert_eq!(cpu_time(b"cpu 1 2 3\n"), Err(HealthError::TooFewFields));
}

#[test]
fn cpu_time_with_unreadable_field_fails() {
    assert_eq!(
        cpu_time(b"cpu  x y z w v u t\n"),
        Err(HealthError::BadField)
    );
    // A counter too large for its type is a bad field, not a wrong value.
    assert_eq!(
        cpu_time(b"cpu  99999999999 1 1 1 1 1 1\n"),
        Err(HealthError::BadField)
    );
}

#[test]
fn parse_field_reads_digits_only() {
    assert_eq!(parse_field(b"123"), Some(123));
    assert_eq!(parse_field(b"45%"), Some(45));
    assert_eq!(parse_field(b""), None);
    assert_eq!(parse_field(b"abc"), None);
    assert_eq!(parse_field(b"2147483647"), Some(i32::MAX));
    assert_eq!(parse_field(b"2147483648"), None);
}

#[test]
fn split_lines_and_fields() {
    assert_eq!(
        split_lines(b"a b\nc\n\nd"),
        vec![b"a b".to_vec(), b"c".to_vec(), b"".to_vec(), b"d".to_vec()]
    );
    assert_eq!(split_lines(b""), Vec::<Vec<u8>>::new());
    assert_eq!(
        split_fields(b"  cpu   12  7 "),
        vec![b"cpu".to_vec(), b"12".to_vec(), b"7".to_vec()]
    );
    assert_eq!(split_fields(b"   "), Vec::<Vec<u8>>::new());
}

#[test]
fn not_numeric_rejects_non_numbers() {
    assert!(not_numeric('a'));
    assert!(not_numeric(' '));
    assert!(not_numeric('%'));
    assert!(not_numeric('.'));
    assert!(!not_numeric('0'));
    assert!(!not_numeric('5'));
    assert!(!not_numeric('9'));
    // Numericness is the character tables' broad notion, not only ASCII.
    assert!(!not_numeric('\u{0664}'));
    assert!(!not_numeric('\u{09EC}'));
}

#[test]
fn cpu_time_difference() {
    let later = CPUtime {
        user: 4705,
        nice: 356,
        system: 584,
        idle: 3699,
        iowait: 23,
        irq: 23,
        softirq: 9,
    };
    let earlier = CPUtime {
        user: 4700,
        nice: 350,
        system: 580,
        idle: 3600,
        iowait: 20,
        irq: 22,
        softirq: 4,
    };
    assert_eq!(
        later.sub(earlier),
        CPUtime { user: 5, nice: 6, system: 4, idle: 99, iowait: 3, irq: 1, softirq: 5 }
    );
}

#[test]
fn vector_arithmetic() {
    assert_eq!(vec_add(&vec![1, 2, 3], &vec![10, 20, 30]), vec![11, 22, 33]);
    assert_eq!(vec_sub(&vec![10, 20, 30], &vec![1, 2, 3]), vec![9, 18, 27]);
    // The element-wise operations cover the indices both vectors have.
    assert_eq!(vec_add(&vec![1, 2, 3], &vec![10]), vec![11]);
    assert_eq!(vec_sum(&vec![1, 2, 3, 4]), 10);
    assert_eq!(vec_sum(&Vec::new()), 0);
}

#[test]
fn health_error_messages() {
    assert_eq!(
        HealthError::MissingCpuLine.message(),
        "could not find the cpu line"
    );
    assert_eq!(
        HealthError::TooFewFields.message(),
        "too few fields in the cpu line"
    );
    assert_eq!(
        HealthError::BadField.message(),
        "could not parse a field of the cpu line"
    );
}

#[test]
fn disk_table_reads_every_row() {
    let report = b"Filesystem 1K-blocks Used Available Use% Mounted on\n\
/dev/sda1 523248 5976 517272 2% /boot\n\
/dev/sda3 41152736 9211080 30150640 24% /\n";
    let disks = disk_usage_table(report).unwrap();
    assert_eq!(disks.len(), 2);
    assert_eq!(disks[0].filesystem, b"/dev/sda1".to_vec());
    assert_eq!(disks[0].total, 523248);
    assert_eq!(disks[0].used, 5976);
    assert_eq!(disks[0].available, 517272);
    assert_eq!(disks[0].use_percent, 2);
    assert_eq!(disks[0].mounted_on, b"/boot".to_vec());

    let root = find_mount(&disks, b"/").unwrap();
    assert_eq!(root.filesystem, b"/dev/sda3".to_vec());
    assert_eq!(root.use_percent, 24);
    let sd = find_filesystem(&disks, b"/dev/sda1").unwrap();
    assert_eq!(sd.mounted_on, b"/boot".to_vec());
    assert!(find_mount(&disks, b"/nowhere").is_none());
    assert!(find_filesystem(&disks, b"/dev/sdz9").is_none());
}

#[test]
fn disk_table_rejects_bad_rows() {
    // Only a header: nothing to report, but not an error.
    let header_only = b"Filesystem 1K-blocks Used Available Use% Mounted on\n";
    assert_eq!(disk_usage_table(header_only).unwrap(), Vec::new());
    assert_eq!(disk_usage_table(b"").unwrap(), Vec::new());

    let short_row = b"header\n/dev/sda1 523248 5976\n";
    assert_eq!(
        disk_usage_table(short_row),
        Err(HealthError::DiskFieldCount)
    );
    let bad_number = b"header\n/dev/sda1 x y z% /boot\n";
    assert_eq!(
        disk_usage_table(bad_number),
        Err(HealthError::DiskFieldCount)
    );
    let bad_field = b"header\n/dev/sda1 a b c d% /boot\n";
    assert_eq!(disk_usage_table(bad_field), Err(HealthError::DiskBadField));
}

#[test]
fn mem_info_reads_the_three_counters() {
    let table = b"MemTotal:       16314336 kB\nMemFree:         2295936 kB\nMemAvailable:    9345316 kB\nBuffers:          935564 kB\n";
    assert_eq!(
        mem_info(table),
        Ok(Meminfo { total: 16314336, free: 2295936, available: 9345316 })
    );
}

#[test]
fn mem_info_failures() {
    let missing = b"MemTotal:       16314336 kB\nBuffers:          935564 kB\n";
    assert_eq!(
        mem_info(missing),
        Err(HealthError::MissingMemField)
    );
    let bad = b"MemTotal: x kB\nMemFree: 1 kB\nMemAvailable: 2 kB\n";
    assert_eq!(
        mem_info(bad),
        Err(HealthError::BadMemField)
    );
    // `MemFree:` must not be mistaken for a prefix of another tag.
    let shadowed = b"MemTotalX: 5\nMemTotal: 7\nMemFree: 1\nMemAvailable: 2\n";
    let m = mem_info(shadowed).unwrap();
    assert_eq!(m.total, 7);
}
