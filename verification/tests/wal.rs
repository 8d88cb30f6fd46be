use kprf::clock::LocalTime;
use kprf::wal::frame::{contains_newline, frame, read_records};
use kprf::wal::reader::WALReader;
use kprf::wal::record::{Record, RecordStatus};
use kprf::wal::segment::Segment;
use kprf::wal::writer::{WALWriter, WalAction, WalError};

/// A directory in memory: name, what was written, and the room given.
struct Dir {
    files: Vec<(String, Vec<u8>, u64)>,
}

impl Dir {
    fn new() -> Dir {
        Dir { files: Vec::new() }
    }

    fn names(&self) -> Vec<String> {
        self.files.iter().map(|f| f.0.clone()).collect()
    }

    fn position(&self, name: &str) -> Option<usize> {
        self.files.iter().position(|f| f.0 == name)
    }

    /// The bytes of the file on disk: the data, padded with zeros to its room.
    fn bytes(&self, name: &str) -> Vec<u8> {
        let f = &self.files[self.position(name).unwrap()];
        let mut bytes = f.1.clone();
        while (bytes.len() as u64) < f.2 {
            bytes.push(0);
        }
        bytes
    }

    fn perform(&mut self, actions: Vec<WalAction>) {
        for action in actions {
            match action {
                WalAction::Create { name, size } => {
                    assert!(self.position(&name).is_none());
                    self.files.push((name, Vec::new(), size));
                }
                WalAction::Append { name, bytes } => {
                    let i = self.position(&name).unwrap();
                    self.files[i].1.extend(bytes);
                }
                WalAction::Rename { from, to } => {
                    assert!(from.ends_with(".A"));
                    assert!(to.ends_with(".C"));
                    if let Some(old) = self.position(&to) {
                        self.files.remove(old);
                    }
                    let i = self.position(&from).unwrap();
                    self.files[i].0 = to;
                }
                WalAction::Remove { name } => {
                    let i = self.position(&name).unwrap();
                    self.files.remove(i);
                }
            }
        }
    }

    fn active(&self) -> usize {
        self.files.iter().filter(|f| f.0.ends_with(".A")).count()
    }

    fn replay(&self) -> Vec<Vec<u8>> {
        let reader = WALReader::new();
        let mut records = Vec::new();
        for segment in WALReader::list_closed_segments(&self.names()) {
            records.extend(reader.read_records(&self.bytes(&segment.file_name())));
        }
        records
    }
}

fn at(second: u32, millis: u32) -> LocalTime {
    LocalTime {
        year: 2024,
        month: 3,
        day: 9,
        hour: 7,
        minute: 5,
        second,
        nanosecond: millis * 1_000_000,
    }
}

fn payload(i: usize, len: usize) -> Vec<u8> {
    let mut p = format!("{{\"n\":{}}}", i).into_bytes();
    while p.len() < len {
        p.push(b'x');
    }
    p
}

#[test]
fn segment_names_carry_the_stamp() {
    let now = LocalTime {
        year: 2024,
        month: 3,
        day: 9,
        hour: 7,
        minute: 5,
        second: 1,
        nanosecond: 42_999_999,
    };
    assert_eq!(Segment::stamp_at(&now), Some(20240309070501042));
    assert_eq!(
        Segment::file_name_at(&now),
        Some(String::from("20240309070501042.A"))
    );
    let segment = Segment::create_at(&now).unwrap();
    assert_eq!(segment.get_stamp(), 20240309070501042);
    assert_eq!(segment.closed(), false);
    assert_eq!(segment.file_name(), "20240309070501042.A");
    let sealed = segment.close();
    assert_eq!(sealed.closed(), true);
    assert_eq!(sealed.get_stamp(), 20240309070501042);
    assert_eq!(sealed.file_name(), "20240309070501042.C");
}

#[test]
fn segment_names_are_padded_to_seventeen_digits() {
    let early = LocalTime {
        year: 7,
        month: 1,
        day: 2,
        hour: 0,
        minute: 0,
        second: 0,
        nanosecond: 0,
    };
    assert_eq!(
        Segment::file_name_at(&early),
        Some(String::from("00070102000000000.A"))
    );
    let zero = LocalTime { year: 0, ..early };
    assert_eq!(
        Segment::file_name_at(&zero),
        Some(String::from("00000102000000000.A"))
    );
}

#[test]
fn a_leap_second_shows_as_second_sixty() {
    let leap = LocalTime {
        year: 2016,
        month: 12,
        day: 31,
        hour: 23,
        minute: 59,
        second: 59,
        nanosecond: 1_500_000_000,
    };
    assert_eq!(
        Segment::file_name_at(&leap),
        Some(String::from("20161231235960500.A"))
    );
}

#[test]
fn there_is_no_name_for_an_instant_out_of_range() {
    let good = at(0, 0);
    assert!(Segment::file_name_at(&good).is_some());
    assert!(Segment::file_name_at(&LocalTime { year: 10_000, ..good }).is_none());
    assert!(Segment::file_name_at(&LocalTime { year: -1, ..good }).is_none());
    assert!(Segment::file_name_at(&LocalTime { month: 0, ..good }).is_none());
    assert!(Segment::file_name_at(&LocalTime { month: 13, ..good }).is_none());
    assert!(Segment::file_name_at(&LocalTime { day: 0, ..good }).is_none());
    assert!(Segment::file_name_at(&LocalTime { day: 32, ..good }).is_none());
    assert!(Segment::file_name_at(&LocalTime { hour: 24, ..good }).is_none());
    assert!(Segment::file_name_at(&LocalTime { minute: 60, ..good }).is_none());
    assert!(Segment::file_name_at(&LocalTime { second: 60, ..good }).is_none());
    assert!(Segment::file_name_at(&LocalTime { nanosecond: 2_000_000_000, ..good }).is_none());
    assert!(Segment::create_at(&LocalTime { year: 10_000, ..good }).is_none());
    assert_eq!(Segment::stamp_at(&LocalTime { year: 10_000, ..good }), None);
}

#[test]
fn the_clock_gives_a_name_of_the_right_shape() {
    let name = Segment::generate_file_name().unwrap();
    assert_eq!(name.len(), 19);
    assert!(name.ends_with(".A"));
    assert!(name[..17].bytes().all(|b| b.is_ascii_digit()));
    let segment = Segment::load(&name).unwrap();
    assert_eq!(segment.file_name(), name);
    let created = Segment::create().unwrap();
    assert!(created.get_stamp() >= segment.get_stamp());
    assert_eq!(created.closed(), false);
}

#[test]
fn names_are_read_back() {
    let active = Segment::load("20240309070501042.A").unwrap();
    assert_eq!(active.get_stamp(), 20240309070501042);
    assert_eq!(active.closed(), false);
    let sealed = Segment::load("00000000000000007.C").unwrap();
    assert_eq!(sealed.get_stamp(), 7);
    assert_eq!(sealed.closed(), true);
    assert_eq!(sealed.file_name(), "00000000000000007.C");
    for name in [
        "",
        "20240309070501042",
        "20240309070501042.",
        "20240309070501042.B",
        "20240309070501042.a",
        "2024030907050104.A",
        "202403090705010421.A",
        "2024030907050104x.A",
        "20240309070501042-A",
        "20240309070501042.AC",
        "notes.txt",
        "٢0240309070501042.A",
    ] {
        assert!(Segment::load(name).is_none(), "{} was taken for a segment", name);
    }
}

#[test]
fn room_is_rounded_down_to_a_multiple_of_eight() {
    assert_eq!(Segment::preallocation(0), 0);
    assert_eq!(Segment::preallocation(7), 0);
    assert_eq!(Segment::preallocation(8), 8);
    assert_eq!(Segment::preallocation(255), 248);
    assert_eq!(Segment::preallocation(256), 256);
    assert_eq!(Segment::preallocation(1048579), 1048576);
    assert_eq!(Segment::preallocation(u64::MAX), u64::MAX - 7);
}

#[test]
fn records_are_framed_as_lines() {
    assert_eq!(frame(b"abc"), Some(b"abc\n".to_vec()));
    assert_eq!(frame(b""), Some(b"\n".to_vec()));
    assert_eq!(frame(b"a\nb"), None);
    assert_eq!(frame(b"\n"), None);
    assert_eq!(contains_newline(b"abc"), false);
    assert_eq!(contains_newline(b"ab\n"), true);
    assert_eq!(contains_newline(b""), false);
}

#[test]
fn lines_are_read_back_and_padding_is_not() {
    assert_eq!(read_records(b""), Vec::<Vec<u8>>::new());
    assert_eq!(read_records(b"\0\0\0\0"), Vec::<Vec<u8>>::new());
    assert_eq!(read_records(b"a\nbc\n"), vec![b"a".to_vec(), b"bc".to_vec()]);
    assert_eq!(
        read_records(b"a\nbc\n\0\0\0\0\0"),
        vec![b"a".to_vec(), b"bc".to_vec()]
    );
    // what no newline has ended is no record
    assert_eq!(read_records(b"a\nbc"), vec![b"a".to_vec()]);
    // empty lines are lines, and a zero inside a line belongs to it
    assert_eq!(
        read_records(b"\n\na\0b\n"),
        vec![b"".to_vec(), b"".to_vec(), b"a\0b".to_vec()]
    );
}

#[test]
fn sealed_segments_are_listed_oldest_first() {
    let names: Vec<String> = [
        "20240309070501042.C",
        "20240309070501041.A",
        "notes.txt",
        "20230101000000000.C",
        "20240309070501040.C",
        "20250101000000000.A",
    ]
    .iter()
    .map(|n| String::from(*n))
    .collect();
    let listed: Vec<String> = WALReader::list_closed_segments(&names)
        .iter()
        .map(|s| s.file_name())
        .collect();
    assert_eq!(
        listed,
        vec![
            "20230101000000000.C",
            "20240309070501040.C",
            "20240309070501042.C",
        ]
    );
    assert_eq!(
        WALReader::next_segment(&names).unwrap().file_name(),
        "20230101000000000.C"
    );
    assert!(WALReader::next_segment(&vec![String::from("20250101000000000.A")]).is_none());
    assert!(WALReader::next_segment(&vec![]).is_none());
}

fn renamed(action: &WalAction) -> (String, String) {
    match action {
        WalAction::Rename { from, to } => (from.clone(), to.clone()),
        _ => panic!("no file was renamed"),
    }
}

fn created(action: &WalAction) -> (String, u64) {
    match action {
        WalAction::Create { name, size } => (name.clone(), *size),
        _ => panic!("no file was created"),
    }
}

fn appended(action: &WalAction) -> (String, Vec<u8>) {
    match action {
        WalAction::Append { name, bytes } => (name.clone(), bytes.clone()),
        _ => panic!("nothing was appended"),
    }
}

fn pair(a: &str, b: &str) -> (String, String) {
    (String::from(a), String::from(b))
}

#[test]
fn opening_seals_the_orphans_of_a_crash() {
    let names: Vec<String> = [
        "20240309070400000.A",
        "20240309070300000.C",
        "stray.A",
        "notes.txt",
        ".A",
        "20240309070200000.A",
        "A",
        "x.a",
    ]
    .iter()
    .map(|n| String::from(*n))
    .collect();
    let closing = Segment::close_active_segments(&names);
    assert_eq!(closing.len(), 4);
    let (writer, actions) = WALWriter::new_at(1000, &names, &at(0, 0)).unwrap();
    assert_eq!(actions.len(), 5);
    assert_eq!(renamed(&actions[0]), pair("20240309070400000.A", "20240309070400000.C"));
    assert_eq!(renamed(&actions[1]), pair("stray.A", "stray.C"));
    assert_eq!(renamed(&actions[2]), pair(".A", ".C"));
    assert_eq!(renamed(&actions[3]), pair("20240309070200000.A", "20240309070200000.C"));
    assert_eq!(created(&actions[4]), (String::from("20240309070500000.A"), 1000));
    assert_eq!(writer.bytes_written(), 0);
    assert_eq!(writer.segment_size(), 1000);
    assert_eq!(writer.current_segment().file_name(), "20240309070500000.A");
}

#[test]
fn opening_leaves_one_active_file() {
    let mut dir = Dir::new();
    for (name, data) in [
        ("20240309070400000.A", "a\n"),
        ("stray.A", "b\n"),
        ("stray.C", "old\n"),
        ("notes.txt", "c"),
    ] {
        dir.files.push((String::from(name), data.as_bytes().to_vec(), 0));
    }
    let (writer, actions) = WALWriter::new_at(64, &dir.names(), &at(0, 0)).unwrap();
    dir.perform(actions);
    assert_eq!(dir.active(), 1);
    let mut names = dir.names();
    names.sort();
    assert_eq!(
        names,
        vec![
            "20240309070400000.C",
            "20240309070500000.A",
            "notes.txt",
            "stray.C",
        ]
    );
    // each orphan is sealed with what it held, and the other files are untouched
    assert_eq!(dir.bytes("20240309070400000.C"), b"a\n".to_vec());
    assert_eq!(dir.bytes("stray.C"), b"b\n".to_vec());
    assert_eq!(dir.bytes("notes.txt"), b"c".to_vec());
    assert_eq!(writer.current_segment().file_name(), "20240309070500000.A");
}

#[test]
fn names_are_sealed_by_their_last_letter() {
    assert_eq!(Segment::sealed_name_of("x.A"), Some(String::from("x.C")));
    assert_eq!(Segment::sealed_name_of(".A"), Some(String::from(".C")));
    assert_eq!(Segment::sealed_name_of("a.b.A"), Some(String::from("a.b.C")));
    assert_eq!(Segment::sealed_name_of("é.A"), Some(String::from("é.C")));
    for name in ["", "A", "x.C", "x.a", "xA", "x.A ", "x.AA"] {
        assert_eq!(Segment::sealed_name_of(name), None, "{} was sealed", name);
    }
    let active = Segment::load("20240309070501042.A").unwrap();
    assert_eq!(
        renamed(&active.seal().unwrap()),
        pair("20240309070501042.A", "20240309070501042.C")
    );
    assert!(active.close().seal().is_none());
}

#[test]
fn a_new_segment_takes_the_stamp_after_the_latest() {
    // the clock is ahead: its stamp is taken
    assert_eq!(Segment::next_stamp(Some(5), Some(9)), Some(9));
    assert_eq!(Segment::next_stamp(None, Some(9)), Some(9));
    // the clock stalls or is set back: the stamp after the latest is taken
    assert_eq!(Segment::next_stamp(Some(9), Some(9)), Some(10));
    assert_eq!(Segment::next_stamp(Some(9), Some(3)), Some(10));
    // no clock, no stamp
    assert_eq!(Segment::next_stamp(Some(9), None), None);
    assert_eq!(Segment::next_stamp(None, None), None);
    // seventeen digits are all there is
    assert_eq!(
        Segment::next_stamp(Some(99_999_999_999_999_998), Some(1)),
        Some(99_999_999_999_999_999)
    );
    assert_eq!(Segment::next_stamp(Some(99_999_999_999_999_999), Some(1)), None);
    assert_eq!(Segment::next_stamp(None, Some(100_000_000_000_000_000)), None);
    assert_eq!(Segment::next_stamp(Some(u64::MAX), Some(1)), None);
    let names = vec![
        String::from("20240309070500000.C"),
        String::from("stray.A"),
        String::from("20240309070500007.A"),
        String::from("20240309070500003.C"),
    ];
    assert_eq!(Segment::latest_stamp(&names), Some(20240309070500007));
    assert_eq!(Segment::latest_stamp(&vec![String::from("stray.A")]), None);
    assert_eq!(Segment::latest_stamp(&vec![]), None);
}

#[test]
fn the_log_opens_behind_the_latest_segment() {
    // the clock shows the stamp of a segment that is there: the next stamp is taken
    let names = vec![String::from("20240309070500000.C")];
    let (writer, actions) = WALWriter::new_at(1000, &names, &at(0, 0)).unwrap();
    assert_eq!(created(&actions[0]), (String::from("20240309070500001.A"), 1000));
    assert_eq!(writer.current_segment().file_name(), "20240309070500001.A");
    // the clock was set back behind an orphan: the orphan is sealed, the next stamp taken
    let names = vec![String::from("20240309070509000.A")];
    let (_, actions) = WALWriter::new_at(1000, &names, &at(0, 0)).unwrap();
    assert_eq!(renamed(&actions[0]), pair("20240309070509000.A", "20240309070509000.C"));
    assert_eq!(created(&actions[1]), (String::from("20240309070509001.A"), 1000));
    let (_, actions) = WALWriter::new_at(1000, &names, &at(10, 0)).unwrap();
    assert_eq!(created(&actions[1]), (String::from("20240309070510000.A"), 1000));
    assert!(Segment::prepare_env_and_create(&names, 1000, &at(0, 0)).is_some());
    // a clock that shows no stamp opens no log
    let bad = LocalTime { year: 12345, ..at(0, 0) };
    assert!(matches!(
        WALWriter::new_at(1000, &vec![], &bad),
        Err(WalError::Clock)
    ));
    assert!(matches!(WALWriter::open(1000, &vec![], None), Err(WalError::Clock)));
    assert!(Segment::prepare(&vec![], 1000, None).is_none());
}

#[test]
fn the_log_opens_by_the_local_clock() {
    let (writer, actions) = WALWriter::new(4096, &vec![]).unwrap();
    assert_eq!(actions.len(), 1);
    assert_eq!(
        created(&actions[0]),
        (writer.current_segment().file_name(), 4096)
    );
    let mut writer = writer;
    let actions = writer.write_record(b"{}").unwrap();
    assert_eq!(actions.len(), 1);
    assert_eq!(writer.bytes_written(), 3);
}

#[test]
fn a_record_that_fits_is_appended() {
    let (mut writer, _) = WALWriter::new_at(10, &vec![], &at(0, 0)).unwrap();
    assert_eq!(writer.must_roll(9), false);
    assert_eq!(writer.must_roll(10), true);
    let actions = writer.write_record_at(b"12345", &at(0, 0)).unwrap();
    assert_eq!(actions.len(), 1);
    assert_eq!(
        appended(&actions[0]),
        (String::from("20240309070500000.A"), b"12345\n".to_vec())
    );
    assert_eq!(writer.bytes_written(), 6);
    // the newline counts: three more bytes and a newline fill the segment
    assert_eq!(writer.must_roll(3), false);
    assert_eq!(writer.must_roll(4), true);
    let actions = writer.write_record_at(b"abc", &at(0, 0)).unwrap();
    assert_eq!(actions.len(), 1);
    assert_eq!(writer.bytes_written(), 10);
}

#[test]
fn a_record_that_does_not_fit_rolls_the_segment() {
    let (mut writer, _) = WALWriter::new_at(10, &vec![], &at(0, 0)).unwrap();
    writer.write_record_at(b"12345", &at(0, 0)).unwrap();
    let actions = writer.write_record_at(b"abcde", &at(1, 0)).unwrap();
    assert_eq!(actions.len(), 3);
    assert_eq!(created(&actions[0]), (String::from("20240309070501000.A"), 8));
    assert_eq!(renamed(&actions[1]), pair("20240309070500000.A", "20240309070500000.C"));
    assert_eq!(
        appended(&actions[2]),
        (String::from("20240309070501000.A"), b"abcde\n".to_vec())
    );
    assert_eq!(writer.bytes_written(), 6);
    assert_eq!(writer.current_segment().file_name(), "20240309070501000.A");
}

#[test]
fn a_refused_record_changes_nothing() {
    let (mut writer, _) = WALWriter::new_at(10, &vec![], &at(0, 0)).unwrap();
    writer.write_record_at(b"12345", &at(0, 0)).unwrap();
    assert_eq!(
        writer.write_record_at(b"a\nb", &at(1, 0)).unwrap_err(),
        WalError::Newline
    );
    // a roll is due, and the clock shows no stamp
    let unnamed = LocalTime { year: -5, ..at(0, 0) };
    assert_eq!(
        writer.write_record_at(b"abcde", &unnamed).unwrap_err(),
        WalError::Clock
    );
    assert_eq!(
        writer.write_record_with(b"abcde", None).unwrap_err(),
        WalError::Clock
    );
    assert_eq!(writer.write_record(b"a\n").unwrap_err(), WalError::Newline);
    assert_eq!(writer.bytes_written(), 6);
    assert_eq!(writer.current_segment().file_name(), "20240309070500000.A");
    // a record that fits needs no clock
    assert!(writer.write_record_with(b"abc", None).is_ok());
}

#[test]
fn a_roll_under_a_stalled_clock_takes_the_next_stamp() {
    let mut dir = Dir::new();
    let (mut writer, actions) = WALWriter::new_at(10, &dir.names(), &at(0, 0)).unwrap();
    dir.perform(actions);
    let mut written = Vec::new();
    // every record rolls, and the clock never moves
    for i in 0..5usize {
        let p = payload(i, 9);
        dir.perform(writer.write_record_at(&p, &at(0, 0)).unwrap());
        written.push(p);
        assert_eq!(dir.active(), 1);
    }
    assert_eq!(writer.current_segment().file_name(), "20240309070500004.A");
    // the clock is set back: the names go on in order
    let p = payload(5, 9);
    dir.perform(writer.write_record_at(&p, &LocalTime { year: 2001, ..at(0, 0) }).unwrap());
    written.push(p);
    assert_eq!(writer.current_segment().file_name(), "20240309070500005.A");
    dir.perform(writer.close());
    assert_eq!(dir.active(), 0);
    assert_eq!(dir.replay(), written);
}

#[test]
fn wal_roll() {
    // segments of 256 bytes, ten records of forty bytes each with their newline
    let mut dir = Dir::new();
    let (mut writer, actions) = WALWriter::new_at(256, &dir.names(), &at(0, 0)).unwrap();
    dir.perform(actions);
    let mut written = Vec::new();
    for i in 0..10usize {
        let p = payload(i, 39);
        let actions = writer.write_record_at(&p, &at(1, i as u32)).unwrap();
        dir.perform(actions);
        written.push(p);
        assert_eq!(dir.active(), 1);
    }
    assert!(dir.files.len() >= 2);
    assert_eq!(dir.files.len(), 2);
    assert_eq!(dir.active(), 1);
    // six records fill the first segment, the seventh sealed it
    assert_eq!(dir.bytes("20240309070500000.C").len(), 256);
    assert_eq!(dir.files[dir.position("20240309070500000.C").unwrap()].1.len(), 240);
    dir.perform(writer.close());
    assert_eq!(dir.active(), 0);
    assert_eq!(dir.replay(), written);
}

#[test]
fn what_is_written_is_replayed_across_many_segments() {
    let mut dir = Dir::new();
    let (mut writer, actions) = WALWriter::new_at(50, &dir.names(), &at(0, 0)).unwrap();
    dir.perform(actions);
    let mut written = Vec::new();
    for i in 0..40usize {
        // records of up to 75 bytes: some are larger than a whole segment
        let p = payload(i, (i * 13) % 76);
        let actions = writer.write_record_at(&p, &at(2, i as u32)).unwrap();
        dir.perform(actions);
        written.push(p);
        assert_eq!(dir.active(), 1);
    }
    assert!(dir.files.len() > 10);
    dir.perform(writer.close());
    assert_eq!(dir.active(), 0);
    assert_eq!(dir.replay(), written);
}

#[test]
fn a_sealed_segment_is_no_smaller_than_the_record_that_sealed_it() {
    let mut dir = Dir::new();
    let (mut writer, actions) = WALWriter::new_at(64, &dir.names(), &at(0, 0)).unwrap();
    dir.perform(actions);
    for i in 0..30usize {
        let p = payload(i, 10 + (i * 7) % 50);
        let sealing = writer.must_roll(p.len());
        let sealed = writer.current_segment().close().file_name();
        let held = writer.bytes_written() as usize;
        let actions = writer.write_record_at(&p, &at(3, i as u32)).unwrap();
        dir.perform(actions);
        if sealing {
            // the sealed file is as large as its room or its records, whichever is more
            assert_eq!(dir.bytes(&sealed).len(), std::cmp::max(64, held));
            if p.len() + 1 <= std::cmp::max(64, held) {
                assert!(dir.bytes(&sealed).len() >= p.len() + 1);
            }
        }
    }
}

#[test]
fn replay_goes_on_after_a_crash() {
    let mut dir = Dir::new();
    let (mut writer, actions) = WALWriter::new_at(64, &dir.names(), &at(0, 0)).unwrap();
    dir.perform(actions);
    let mut written = Vec::new();
    for i in 0..5usize {
        let p = payload(i, 20);
        dir.perform(writer.write_record_at(&p, &at(1, i as u32)).unwrap());
        written.push(p);
    }
    // no clean shutdown: the next writer finds an orphan
    assert_eq!(dir.active(), 1);
    let (mut writer, actions) = WALWriter::new_at(64, &dir.names(), &at(9, 0)).unwrap();
    dir.perform(actions);
    assert_eq!(dir.active(), 1);
    for i in 5..8usize {
        let p = payload(i, 20);
        dir.perform(writer.write_record_at(&p, &at(10, i as u32)).unwrap());
        written.push(p);
    }
    dir.perform(writer.close());
    assert_eq!(dir.active(), 0);
    assert_eq!(dir.replay(), written);
}

#[test]
fn a_segment_takes_records_only_while_it_is_active() {
    let segment = Segment::create_at(&at(0, 0)).unwrap();
    assert_eq!(
        appended(&segment.write(b"abc").unwrap()),
        (String::from("20240309070500000.A"), b"abc\n".to_vec())
    );
    assert!(segment.write(b"a\nb").is_none());
    assert!(segment.remove().is_none());
    let sealed = segment.close();
    assert!(sealed.write(b"abc").is_none());
    match sealed.remove().unwrap() {
        WalAction::Remove { name } => assert_eq!(name, "20240309070500000.C"),
        _ => panic!("the segment was not removed"),
    }
}

#[test]
fn a_drained_segment_is_removed() {
    let mut records = vec![
        Record::new(String::from("t"), String::from("a"), None),
        Record::new(String::from("t"), String::from("b"), Some(String::from("k"))),
    ];
    let sealed = Segment::load("20240309070500000.C").unwrap();
    let active = Segment::load("20240309070500000.A").unwrap();
    assert!(!WALReader::is_drained(&records));
    assert!(WALReader::remove_if_drained(sealed, &records).is_none());
    let first = records[0].uuid;
    let second = records[1].uuid;
    assert_ne!(first, second);
    assert_eq!(WALReader::mark_completed(&mut records, first), true);
    assert_eq!(records[0].status, RecordStatus::Completed);
    assert_eq!(records[1].status, RecordStatus::Insert);
    assert_eq!(records[0].data, "a");
    assert!(WALReader::remove_if_drained(sealed, &records).is_none());
    assert_eq!(WALReader::mark_completed(&mut records, 12345), false);
    assert_eq!(WALReader::mark_completed(&mut records, second), true);
    assert!(WALReader::is_drained(&records));
    assert!(WALReader::remove_if_drained(active, &records).is_none());
    match WALReader::remove_if_drained(sealed, &records).unwrap() {
        WalAction::Remove { name } => assert_eq!(name, "20240309070500000.C"),
        _ => panic!("the segment was not removed"),
    }
    assert!(WALReader::is_drained(&vec![]));
}

#[test]
fn records_start_out_waiting_under_a_random_id() {
    let mut record = Record::new(
        String::from("topic"),
        String::from("data"),
        Some(String::from("key")),
    );
    assert_eq!(record.topic, "topic");
    assert_eq!(record.data, "data");
    assert_eq!(record.key, Some(String::from("key")));
    assert_eq!(record.status, RecordStatus::Insert);
    assert_eq!(record.is_completed(), false);
    // version four, variant of RFC 4122
    assert_eq!((record.uuid >> 76) & 0xf, 4);
    assert_eq!((record.uuid >> 62) & 0x3, 2);
    let id = record.uuid;
    record.complete();
    assert_eq!(record.status, RecordStatus::Completed);
    assert_eq!(record.is_completed(), true);
    assert_eq!(record.uuid, id);
    assert_eq!(record.topic, "topic");
    let other = Record::default();
    assert_eq!(other.topic, "");
    assert_eq!(other.data, "");
    assert_eq!(other.key, None);
    assert_eq!(other.status, RecordStatus::Insert);
    assert_ne!(other.uuid, id);
}

#[test]
fn record_ids_are_written_as_uuids() {
    let mut record = Record::default();
    record.uuid = 0xa1a2a3a4b1b2c1c2d1d2d3d4d5d6d7d8;
    assert_eq!(record.uuid_text(), "a1a2a3a4-b1b2-c1c2-d1d2-d3d4d5d6d7d8");
    record.uuid = 0;
    assert_eq!(record.uuid_text(), "00000000-0000-0000-0000-000000000000");
    record.uuid = 0x0123456789abcdef_fedcba9876543210;
    assert_eq!(record.uuid_text(), "01234567-89ab-cdef-fedc-ba9876543210");
}

#[test]
fn names_sort_the_way_time_runs() {
    let instants = [
        LocalTime { year: 1999, month: 12, day: 31, hour: 23, minute: 59, second: 59, nanosecond: 999_000_000 },
        LocalTime { year: 2000, month: 1, day: 1, hour: 0, minute: 0, second: 0, nanosecond: 0 },
        LocalTime { year: 2000, month: 1, day: 1, hour: 0, minute: 0, second: 0, nanosecond: 1_000_000 },
        LocalTime { year: 2000, month: 1, day: 1, hour: 0, minute: 0, second: 1, nanosecond: 0 },
        LocalTime { year: 2000, month: 1, day: 1, hour: 0, minute: 1, second: 0, nanosecond: 0 },
        LocalTime { year: 2000, month: 1, day: 1, hour: 1, minute: 0, second: 0, nanosecond: 0 },
        LocalTime { year: 2000, month: 1, day: 2, hour: 0, minute: 0, second: 0, nanosecond: 0 },
        LocalTime { year: 2000, month: 2, day: 1, hour: 0, minute: 0, second: 0, nanosecond: 0 },
        LocalTime { year: 2001, month: 1, day: 1, hour: 0, minute: 0, second: 0, nanosecond: 0 },
    ];
    let mut stamps = Vec::new();
    let mut names = Vec::new();
    for (i, t) in instants.iter().enumerate() {
        let segment = Segment::create_at(t).unwrap();
        stamps.push(segment.get_stamp());
        // active and sealed names mixed
        names.push(if i % 2 == 0 { segment.file_name() } else { segment.close().file_name() });
    }
    for i in 1..stamps.len() {
        assert!(stamps[i - 1] < stamps[i]);
        assert!(names[i - 1] < names[i]);
    }
    assert!(Segment::load("00000000000000009.C").unwrap().file_name()
        < Segment::load("00000000000000010.A").unwrap().file_name());
}

#[test]
fn ids_are_written_the_way_the_uuid_crate_writes_them() {
    let mut x: u128 = 0x0123456789abcdef_fedcba9876543210;
    for _ in 0..200 {
        assert_eq!(kprf::ident::uuid_text(x), uuid::Uuid::from_u128(x).to_string());
        x = x.wrapping_mul(0x2545f4914f6cdd1d_9e3779b97f4a7c15).wrapping_add(0x1234567);
    }
    for x in [0u128, 1, u128::MAX, 1 << 127, 0xf << 76] {
        assert_eq!(kprf::ident::uuid_text(x), uuid::Uuid::from_u128(x).to_string());
    }
    let fresh = Record::default();
    assert_eq!(
        fresh.uuid_text(),
        uuid::Uuid::from_u128(fresh.uuid).to_string()
    );
    assert_eq!(
        uuid::Uuid::from_u128(fresh.uuid).get_version_num(),
        4
    );
}

#[test]
fn names_are_the_instant_in_seventeen_digits() {
    let cases = [
        (2024, 3, 9, 7, 5, 1, 42_000_000u32),
        (1, 1, 1, 0, 0, 0, 0),
        (999, 12, 31, 23, 59, 59, 999_999_999),
        (9999, 12, 31, 23, 59, 59, 1_999_000_000),
        (2016, 12, 31, 23, 59, 59, 1_000_000_000),
        (2000, 2, 29, 12, 0, 30, 500_400_300),
    ];
    for (year, month, day, hour, minute, second, nanosecond) in cases {
        let instant = chrono::NaiveDate::from_ymd_opt(year, month, day)
            .unwrap()
            .and_hms_nano_opt(hour, minute, second, nanosecond)
            .unwrap();
        let mut expected = instant.format("%Y%m%d%H%M%S%3f.").to_string();
        expected.push_str("A");
        let now = LocalTime {
            year,
            month,
            day,
            hour,
            minute,
            second,
            nanosecond,
        };
        assert_eq!(Segment::file_name_at(&now), Some(expected));
    }
}

#[test]
fn the_local_clock_shows_a_stamp_of_today() {
    let before = chrono::Local::now().format("%Y%m%d").to_string();
    let stamp = Segment::stamp_now().unwrap();
    let after = chrono::Local::now().format("%Y%m%d").to_string();
    assert!(stamp < 100_000_000_000_000_000);
    let shown = format!("{:017}", stamp);
    // the date of the stamp is the local date, also across midnight
    assert!(shown[..8] == before[..] || shown[..8] == after[..]);
}
