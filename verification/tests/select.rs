use tailr::TakeValue::{PlusZero, TakeNum};
use tailr::{
    bytes_from, count_lines_bytes, lines_from, read_until_line_end, seek_line, tail_bytes,
    tail_lines, LineEmitter,
};

const TEN: &[u8] = b"one\ntwo\nthree\nfour\nfive\nsix\nseven\neight\nnine\nten\n";
const THREE: &[u8] = b"Three\nlines,\nfour words.";

#[test]
fn seek_line_finds_the_start_of_each_line() {
    assert_eq!(seek_line(TEN, 0), 0);
    assert_eq!(seek_line(TEN, 1), 4);
    assert_eq!(seek_line(TEN, 2), 8);
    assert_eq!(seek_line(TEN, 3), 14);
    assert_eq!(seek_line(TEN, 9), 45);
    assert_eq!(seek_line(TEN, 10), 49);
    assert_eq!(seek_line(TEN, 11), 49);
    assert_eq!(seek_line(TEN, u64::MAX), 49);
    assert_eq!(seek_line(b"", 0), 0);
    assert_eq!(seek_line(b"", 5), 0);
    assert_eq!(seek_line(THREE, 2), 13);
    assert_eq!(seek_line(THREE, 3), 24);
}

#[test]
fn tail_lines_from_the_end() {
    assert_eq!(tail_lines(TEN, &TakeNum(-1), 10), b"ten\n");
    assert_eq!(tail_lines(TEN, &TakeNum(-3), 10), b"eight\nnine\nten\n");
    assert_eq!(tail_lines(TEN, &TakeNum(-10), 10), TEN);
    assert_eq!(tail_lines(TEN, &TakeNum(-200), 10), TEN);
    assert_eq!(tail_lines(TEN, &TakeNum(i64::MIN), 10), TEN);
    assert_eq!(tail_lines(THREE, &TakeNum(-1), 3), b"four words.");
    assert_eq!(tail_lines(THREE, &TakeNum(-2), 3), b"lines,\nfour words.");
}

#[test]
fn tail_lines_from_the_start() {
    assert_eq!(tail_lines(TEN, &TakeNum(1), 10), TEN);
    assert_eq!(tail_lines(TEN, &TakeNum(2), 10), &TEN[4..]);
    assert_eq!(tail_lines(TEN, &TakeNum(10), 10), b"ten\n");
    assert_eq!(tail_lines(TEN, &TakeNum(11), 10), b"");
    assert_eq!(tail_lines(TEN, &PlusZero, 10), TEN);
    assert_eq!(tail_lines(THREE, &TakeNum(3), 3), b"four words.");
}

#[test]
fn tail_lines_of_nothing() {
    assert_eq!(tail_lines(TEN, &TakeNum(0), 10), b"");
    assert_eq!(tail_lines(b"", &TakeNum(-10), 0), b"");
    assert_eq!(tail_lines(b"", &PlusZero, 0), b"");
    assert_eq!(tail_lines(b"", &TakeNum(1), 0), b"");
}

#[test]
fn tail_bytes_from_the_end() {
    assert_eq!(tail_bytes(TEN, &TakeNum(-1), 49), b"\n");
    assert_eq!(tail_bytes(TEN, &TakeNum(-4), 49), b"ten\n");
    assert_eq!(tail_bytes(TEN, &TakeNum(-49), 49), TEN);
    assert_eq!(tail_bytes(TEN, &TakeNum(-50), 49), TEN);
    assert_eq!(tail_bytes(TEN, &TakeNum(i64::MIN), 49), TEN);
}

#[test]
fn tail_bytes_from_the_start() {
    assert_eq!(tail_bytes(TEN, &TakeNum(1), 49), TEN);
    assert_eq!(tail_bytes(TEN, &TakeNum(2), 49), &TEN[1..]);
    assert_eq!(tail_bytes(TEN, &TakeNum(49), 49), b"\n");
    assert_eq!(tail_bytes(TEN, &TakeNum(50), 49), b"");
    assert_eq!(tail_bytes(TEN, &PlusZero, 49), TEN);
}

#[test]
fn tail_bytes_of_nothing() {
    assert_eq!(tail_bytes(TEN, &TakeNum(0), 49), b"");
    assert_eq!(tail_bytes(b"", &TakeNum(-10), 0), b"");
    assert_eq!(tail_bytes(b"", &PlusZero, 0), b"");
}

#[test]
fn tail_bytes_past_the_data_is_empty() {
    assert_eq!(tail_bytes(b"abc", &TakeNum(-2), 100), b"");
    assert_eq!(tail_bytes(b"abc", &TakeNum(4), 100), b"");
    assert_eq!(tail_bytes(b"abc", &TakeNum(3), 100), b"c");
}

#[test]
fn tail_bytes_may_cut_a_character() {
    let data = "Öne".as_bytes();
    assert_eq!(tail_bytes(data, &TakeNum(-3), 4), &[0x96, b'n', b'e']);
}

#[test]
fn a_count_from_the_end_gives_that_many_lines() {
    for data in [TEN, THREE] {
        let (total, _) = count_lines_bytes(data);
        for k in 1..=total {
            let out = tail_lines(data, &TakeNum(-(k as i64)), total);
            assert_eq!(count_lines_bytes(out).0, k);
            assert!(data.ends_with(out));
        }
    }
}

#[test]
fn a_count_from_the_start_leaves_the_lines_before_it_out() {
    for data in [TEN, THREE] {
        let (total, _) = count_lines_bytes(data);
        for n in 1..=total {
            let out = tail_lines(data, &TakeNum(n as i64), total);
            assert_eq!(count_lines_bytes(out).0, total - n + 1);
            assert!(data.ends_with(out));
        }
    }
}

#[test]
fn a_count_from_the_end_gives_that_many_bytes() {
    for k in 1..=49u64 {
        let out = tail_bytes(TEN, &TakeNum(-(k as i64)), 49);
        assert_eq!(out.len() as u64, k);
        assert_eq!(out, &TEN[49 - k as usize..]);
    }
}

#[test]
fn line_emitter_passes_over_the_first_lines() {
    let mut emitter = LineEmitter::new(2);
    assert_eq!(emitter, LineEmitter { to_skip: 2 });
    assert!(!emitter.next_line());
    assert!(!emitter.next_line());
    assert!(emitter.next_line());
    assert!(emitter.next_line());
    assert_eq!(emitter, LineEmitter { to_skip: 0 });

    let mut emitter = LineEmitter::new(0);
    assert!(emitter.next_line());
    assert!(emitter.next_line());
}

#[test]
fn lines_read_one_by_one_are_those_of_lines_from() {
    for data in [TEN, THREE, b"".as_slice(), b"\n\n\n".as_slice()] {
        for start in 0..12 {
            let mut emitter = LineEmitter::new(start);
            let mut out = Vec::new();
            let mut at = 0;
            while at < data.len() {
                let bytes_read = read_until_line_end(data, at);
                if emitter.next_line() {
                    out.extend_from_slice(&data[at..at + bytes_read]);
                }
                at += bytes_read;
            }
            assert_eq!(out, lines_from(data, start));
        }
    }
}

#[test]
fn lines_from_a_line_on() {
    assert_eq!(lines_from(TEN, 0), TEN);
    assert_eq!(lines_from(TEN, 7), b"eight\nnine\nten\n");
    assert_eq!(lines_from(TEN, 9), b"ten\n");
    assert_eq!(lines_from(TEN, 10), b"");
    assert_eq!(lines_from(TEN, u64::MAX), b"");
    assert_eq!(lines_from(THREE, 2), b"four words.");
}

#[test]
fn bytes_from_a_byte_on() {
    assert_eq!(bytes_from(TEN, 0), TEN);
    assert_eq!(bytes_from(TEN, 45), b"ten\n");
    assert_eq!(bytes_from(TEN, 49), b"");
    assert_eq!(bytes_from(TEN, 50), b"");
    assert_eq!(bytes_from(TEN, u64::MAX), b"");
}
