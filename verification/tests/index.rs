use tailr::TakeValue::{PlusZero, TakeNum};
use tailr::{get_start_index, magnitude};

#[test]
fn test_get_start_index() {
    // +0 on an empty file (0 lines/bytes) gives None
    assert_eq!(get_start_index(&PlusZero, 0), None);

    // +0 on a file that is not empty gives 0
    assert_eq!(get_start_index(&PlusZero, 1), Some(0));

    // 0 lines/bytes gives None
    assert_eq!(get_start_index(&TakeNum(0), 1), None);

    // Any lines/bytes of an empty file gives None
    assert_eq!(get_start_index(&TakeNum(1), 0), None);

    // More lines/bytes than the file holds gives None
    assert_eq!(get_start_index(&TakeNum(2), 1), None);

    // A start within the file gives one less than the start
    assert_eq!(get_start_index(&TakeNum(1), 10), Some(0));
    assert_eq!(get_start_index(&TakeNum(2), 10), Some(1));
    assert_eq!(get_start_index(&TakeNum(3), 10), Some(2));

    // A negative start is added to the total
    assert_eq!(get_start_index(&TakeNum(-1), 10), Some(9));
    assert_eq!(get_start_index(&TakeNum(-2), 10), Some(8));
    assert_eq!(get_start_index(&TakeNum(-3), 10), Some(7));

    // A negative start beyond the file gives 0, for the whole file
    assert_eq!(get_start_index(&TakeNum(-20), 10), Some(0));
}

#[test]
fn plus_zero_takes_all_of_a_file_that_holds_anything() {
    assert_eq!(get_start_index(&PlusZero, 0), None);
    for total in [1, 2, 10, 4096, u64::MAX] {
        assert_eq!(get_start_index(&PlusZero, total), Some(0));
    }
}

#[test]
fn zero_takes_nothing() {
    for total in [0, 1, 2, 10, u64::MAX] {
        assert_eq!(get_start_index(&TakeNum(0), total), None);
    }
}

#[test]
fn positive_count_within_the_file() {
    assert_eq!(get_start_index(&TakeNum(10), 10), Some(9));
    assert_eq!(get_start_index(&TakeNum(1), 1), Some(0));
    assert_eq!(get_start_index(&TakeNum(7), 4096), Some(6));
    assert_eq!(
        get_start_index(&TakeNum(i64::MAX), u64::MAX),
        Some(9223372036854775806)
    );
    assert_eq!(
        get_start_index(&TakeNum(i64::MAX), 9223372036854775807),
        Some(9223372036854775806)
    );
}

#[test]
fn positive_count_beyond_the_end() {
    assert_eq!(get_start_index(&TakeNum(11), 10), None);
    assert_eq!(get_start_index(&TakeNum(2), 1), None);
    assert_eq!(get_start_index(&TakeNum(i64::MAX), 10), None);
    assert_eq!(
        get_start_index(&TakeNum(i64::MAX), 9223372036854775806),
        None
    );
}

#[test]
fn negative_count_steps_back_from_the_end() {
    assert_eq!(get_start_index(&TakeNum(-10), 10), Some(0));
    assert_eq!(get_start_index(&TakeNum(-9), 10), Some(1));
    assert_eq!(get_start_index(&TakeNum(-11), 10), Some(0));
    assert_eq!(get_start_index(&TakeNum(i64::MIN), 10), Some(0));
    assert_eq!(
        get_start_index(&TakeNum(i64::MIN), u64::MAX),
        Some(9223372036854775807)
    );
    assert_eq!(
        get_start_index(&TakeNum(i64::MIN + 1), u64::MAX),
        Some(9223372036854775808)
    );
    assert_eq!(get_start_index(&TakeNum(-1), u64::MAX), Some(u64::MAX - 1));
}

#[test]
fn nothing_is_taken_from_an_empty_file() {
    for take in [
        PlusZero,
        TakeNum(0),
        TakeNum(1),
        TakeNum(-1),
        TakeNum(i64::MAX),
        TakeNum(i64::MIN),
    ] {
        assert_eq!(get_start_index(&take, 0), None);
    }
}

#[test]
fn magnitude_of_every_sign() {
    assert_eq!(magnitude(0), 0);
    assert_eq!(magnitude(5), 5);
    assert_eq!(magnitude(-5), 5);
    assert_eq!(magnitude(i64::MAX), 9223372036854775807);
    assert_eq!(magnitude(i64::MIN + 1), 9223372036854775807);
    assert_eq!(magnitude(i64::MIN), 9223372036854775808);
}
