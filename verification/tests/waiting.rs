use unix_socket_switcher::span::Span;
use unix_socket_switcher::wait::{wait_for_file, FileRead, WaitStep};

/// Feeds reads to a wait; gives its result, the number of reads, and the pauses.
fn run(limit: Span, mut next: impl FnMut(usize) -> FileRead) -> (Result<String, String>, usize, u64) {
    let mut reads = 0;
    let mut paused = 0;
    let mut step = wait_for_file(limit);
    loop {
        match step {
            WaitStep::Read { wait, pause } => {
                paused += pause.secs() * 1_000_000_000 + pause.subsec_nanos() as u64;
                let read = next(reads);
                reads += 1;
                step = wait.resume(read);
            }
            WaitStep::Done(result) => return (result, reads, paused),
        }
    }
}

#[test]
fn the_first_text_in_the_file_is_handed_on() {
    let (result, reads, paused) = run(Span::from_secs(10), |n| match n {
        0 => FileRead::NotFound,
        1 => FileRead::Content(String::new()),
        2 => FileRead::Content(" \n".to_string()),
        _ => FileRead::Content(" 123\n".to_string()),
    });
    assert_eq!(result, Ok(" 123\n".to_string()));
    assert_eq!(reads, 4);
    assert_eq!(paused, 4_000_000);
}

#[test]
fn an_error_other_than_a_missing_file_ends_the_wait() {
    let (result, reads, _) = run(Span::from_secs(10), |n| match n {
        0 => FileRead::NotFound,
        _ => FileRead::Failed("Permission denied (os error 13)".to_string()),
    });
    assert_eq!(result, Err("Permission denied (os error 13)".to_string()));
    assert_eq!(reads, 2);
}

#[test]
fn a_wait_is_given_up_when_its_time_is_up() {
    let (result, reads, paused) = run(Span::from_millis(25), |_| FileRead::NotFound);
    assert_eq!(result, Err("File was not created on time".to_string()));
    assert_eq!(reads, 25);
    assert_eq!(paused, 25_000_000);
    let (result, reads, paused) = run(Span::from_millis(1), |_| FileRead::NotFound);
    assert_eq!(result, Err("File was not created on time".to_string()));
    assert_eq!(reads, 1);
    assert_eq!(paused, 1_000_000);
    let (result, reads, paused) =
        run(Span::from_secs(0), |_| FileRead::Content("1".to_string()));
    assert_eq!(result, Err("File was not created on time".to_string()));
    assert_eq!(reads, 0);
    assert_eq!(paused, 0);
}

#[test]
fn text_that_comes_last_is_not_missed() {
    let (result, reads, paused) = run(Span::from_millis(3), |n| {
        if n < 2 { FileRead::NotFound } else { FileRead::Content("7".to_string()) }
    });
    assert_eq!(result, Ok("7".to_string()));
    assert_eq!(reads, 3);
    // The last read comes when all of the time has passed.
    assert_eq!(paused, 3_000_000);
}

#[test]
fn a_wait_need_not_be_a_whole_number_of_milliseconds() {
    let (result, reads, paused) = run(Span::new(0, 500_000), |_| FileRead::NotFound);
    assert_eq!(result, Err("File was not created on time".to_string()));
    assert_eq!(reads, 1);
    assert_eq!(paused, 500_000);
    let (result, reads, paused) =
        run(Span::new(0, 2_300_000), |_| FileRead::Content("\n".to_string()));
    assert_eq!(result, Err("File was not created on time".to_string()));
    assert_eq!(reads, 3);
    assert_eq!(paused, 2_300_000);
    let (result, _, _) = run(Span::new(0, 1), |_| FileRead::Content("1".to_string()));
    assert_eq!(result, Ok("1".to_string()));
}

#[test]
fn a_wait_knows_how_much_time_is_left() {
    match wait_for_file(Span::from_millis(3)) {
        WaitStep::Read { wait, pause } => {
            assert_eq!(pause, Span::from_millis(1));
            assert_eq!(wait.remaining(), Span::from_millis(2));
            match wait.resume(FileRead::NotFound) {
                WaitStep::Read { wait, pause } => {
                    assert_eq!(pause, Span::from_millis(1));
                    assert_eq!(wait.remaining(), Span::from_millis(1));
                }
                other => panic!("{:?}", other),
            }
        }
        other => panic!("{:?}", other),
    }
}
