use obvious3::error::exit_code;
use obvious3::{FindError, Line, Pipeline, Step, DEFAULT_CONCURRENCY, QUEUE_CAPACITY};

fn line(text: &str) -> Line {
    Line::frame(text.as_bytes().to_vec()).unwrap()
}

fn header() -> Line {
    line("{\"file_type\":\"Obvious3_0\",\"root\":\"memory:///\"}")
}

fn text(line: &Line) -> String {
    String::from_utf8(line.as_bytes().clone()).unwrap()
}

#[test]
fn frame_appends_the_line_end() {
    let framed = Line::frame(b"{\"size\":1}".to_vec()).unwrap();
    assert_eq!(framed.as_bytes().as_slice(), b"{\"size\":1}\n");
    assert_eq!(framed.payload(), b"{\"size\":1}".to_vec());
}

#[test]
fn frame_of_the_empty_payload_is_a_bare_line_end() {
    let framed = Line::frame(Vec::new()).unwrap();
    assert_eq!(framed.as_bytes().as_slice(), b"\n");
    assert_eq!(framed.payload(), Vec::<u8>::new());
}

#[test]
fn frame_refuses_a_payload_with_a_line_end() {
    assert_eq!(Line::frame(b"two\nlines".to_vec()), None);
    assert_eq!(Line::frame(b"trailing\n".to_vec()), None);
    assert_eq!(Line::frame(b"\n".to_vec()), None);
}

#[test]
fn fits_tells_single_lines_apart() {
    assert!(Line::fits(&b"no line end, but a \r return".to_vec()));
    assert!(Line::fits(&Vec::new()));
    assert!(!Line::fits(&b"a\nb".to_vec()));
}

#[test]
fn cloned_line_has_the_same_bytes() {
    let first = line("abc");
    assert_eq!(first.clone(), first);
}

#[test]
fn defaults_are_a_hundred_queued_and_128_in_flight() {
    assert_eq!(QUEUE_CAPACITY, 100);
    assert_eq!(DEFAULT_CONCURRENCY, 128);
}

#[test]
fn header_is_written_first() {
    let mut pipeline = Pipeline::start(header(), 4, 4);
    assert_eq!(pipeline.queued(), 1);
    assert!(pipeline.offer(line("r1")).is_ok());
    let first = pipeline.next_write().unwrap();
    assert_eq!(text(&first), "{\"file_type\":\"Obvious3_0\",\"root\":\"memory:///\"}\n");
    let second = pipeline.next_write().unwrap();
    assert_eq!(text(&second), "r1\n");
    assert_eq!(pipeline.next_write(), None);
}

#[test]
fn lines_come_out_in_the_order_they_went_in() {
    let mut pipeline = Pipeline::start(header(), 2, 2);
    assert!(pipeline.offer(line("a")).is_ok());
    assert!(pipeline.offer(line("b")).is_ok());
    assert!(pipeline.offer(line("c")).is_ok());
    assert_eq!(pipeline.queued(), 2);
    assert_eq!(pipeline.in_flight(), 2);
    let mut written = Vec::new();
    while let Some(next) = pipeline.next_write() {
        written.push(text(&next));
    }
    assert_eq!(written.len(), 4);
    assert_eq!(written[1], "a\n");
    assert_eq!(written[2], "b\n");
    assert_eq!(written[3], "c\n");
}

#[test]
fn full_queue_holds_producers_back() {
    let mut pipeline = Pipeline::start(header(), 2, 3);
    assert!(pipeline.offer(line("1")).is_ok());
    assert!(pipeline.offer(line("2")).is_ok());
    assert_eq!((pipeline.queued(), pipeline.in_flight()), (3, 0));
    assert!(pipeline.may_pull());
    assert!(pipeline.offer(line("3")).is_ok());
    assert_eq!((pipeline.queued(), pipeline.in_flight()), (3, 1));
    assert!(pipeline.may_pull());
    assert!(pipeline.offer(line("4")).is_ok());
    assert_eq!((pipeline.queued(), pipeline.in_flight()), (3, 2));
    assert!(!pipeline.may_pull());
}

#[test]
fn line_offered_at_the_limit_is_handed_back() {
    let mut pipeline = Pipeline::start(header(), 1, 1);
    assert!(pipeline.offer(line("1")).is_ok());
    assert!(!pipeline.may_pull());
    assert_eq!(pipeline.offer(line("2")), Err(line("2")));
    assert_eq!((pipeline.queued(), pipeline.in_flight()), (1, 1));
}

#[test]
fn buffered_lines_never_exceed_capacity_plus_limit() {
    let limit = 3;
    let capacity = 5;
    let mut pipeline = Pipeline::start(header(), limit, capacity);
    let mut taken = 0;
    for i in 0..1000 {
        if pipeline.may_pull() {
            assert!(pipeline.offer(line(&format!("record {}", i))).is_ok());
            taken += 1;
        } else {
            assert!(pipeline.offer(line("late")).is_err());
        }
        assert!(pipeline.queued() <= capacity);
        assert!(pipeline.in_flight() <= limit);
        assert!(pipeline.queued() + pipeline.in_flight() <= capacity + limit);
    }
    assert_eq!(taken, capacity - 1 + limit);
    assert_eq!(pipeline.queued() + pipeline.in_flight(), capacity + limit);
}

#[test]
fn writing_a_line_unblocks_the_oldest_producer() {
    let mut pipeline = Pipeline::start(header(), 2, 1);
    assert!(pipeline.offer(line("a")).is_ok());
    assert!(pipeline.offer(line("b")).is_ok());
    assert!(!pipeline.may_pull());
    assert_eq!(text(&pipeline.next_write().unwrap()), text(&header()));
    assert_eq!((pipeline.queued(), pipeline.in_flight()), (1, 1));
    assert!(pipeline.may_pull());
    assert_eq!(text(&pipeline.next_write().unwrap()), "a\n");
    assert_eq!(text(&pipeline.next_write().unwrap()), "b\n");
    assert_eq!((pipeline.queued(), pipeline.in_flight()), (0, 0));
}

#[test]
fn run_finishes_when_source_ends_and_queue_drains() {
    let mut pipeline = Pipeline::start(header(), 2, 2);
    assert!(pipeline.offer(line("a")).is_ok());
    assert!(!pipeline.is_finished());
    pipeline.source_ended();
    assert!(!pipeline.may_pull());
    assert!(!pipeline.is_finished());
    assert!(pipeline.next_write().is_some());
    assert!(!pipeline.is_finished());
    assert!(pipeline.next_write().is_some());
    assert!(pipeline.is_finished());
    assert_eq!(pipeline.outcome(), None);
    assert_eq!(exit_code(pipeline.outcome()), 0);
}

#[test]
fn closed_output_ends_the_run_with_exit_zero() {
    let mut pipeline = Pipeline::start(header(), 8, 8);
    for i in 0..12 {
        assert!(pipeline.offer(line(&format!("r{}", i))).is_ok());
    }
    assert!(pipeline.next_write().is_some());
    pipeline.output_closed();
    assert!(pipeline.is_finished());
    assert!(!pipeline.may_pull());
    assert_eq!((pipeline.queued(), pipeline.in_flight()), (0, 0));
    assert_eq!(pipeline.next_write(), None);
    assert_eq!(pipeline.outcome(), Some(FindError::BrokenOutput));
    assert_eq!(exit_code(pipeline.outcome()), 0);
}

#[test]
fn closed_output_before_the_header_is_written_is_benign_too() {
    let mut pipeline = Pipeline::start(header(), 1, 1);
    pipeline.output_closed();
    assert!(pipeline.is_finished());
    assert_eq!(exit_code(pipeline.outcome()), 0);
    assert_eq!(pipeline.offer(line("x")), Err(line("x")));
}

#[test]
fn broken_output_reported_as_a_failure_closes_the_output() {
    let mut pipeline = Pipeline::start(header(), 1, 1);
    pipeline.fail(FindError::BrokenOutput);
    assert!(pipeline.is_finished());
    assert_eq!(pipeline.outcome(), Some(FindError::BrokenOutput));
    assert_eq!(exit_code(pipeline.outcome()), 0);
}

#[test]
fn malformed_second_line_stops_the_run_with_whole_lines_only() {
    let mut pipeline = Pipeline::start(header(), 4, 4);
    assert!(pipeline.offer(line("{\"location\":\"one\"}")).is_ok());
    pipeline.fail(FindError::DecodeError);
    assert!(!pipeline.may_pull());
    assert_eq!(
        pipeline.offer(line("{\"location\":\"three\"}")),
        Err(line("{\"location\":\"three\"}"))
    );
    let mut written = Vec::new();
    while let Some(next) = pipeline.next_write() {
        written.extend_from_slice(next.as_bytes());
    }
    assert_eq!(
        String::from_utf8(written).unwrap(),
        "{\"file_type\":\"Obvious3_0\",\"root\":\"memory:///\"}\n{\"location\":\"one\"}\n"
    );
    assert!(pipeline.is_finished());
    assert_eq!(pipeline.outcome(), Some(FindError::DecodeError));
    assert_eq!(exit_code(pipeline.outcome()), 1);
}

#[test]
fn first_fault_is_the_one_reported() {
    let mut pipeline = Pipeline::start(header(), 4, 4);
    pipeline.fail(FindError::SourceError);
    pipeline.fail(FindError::DecodeError);
    assert_eq!(pipeline.outcome(), Some(FindError::SourceError));
    pipeline.output_closed();
    assert_eq!(pipeline.outcome(), Some(FindError::SourceError));
    assert_eq!(exit_code(pipeline.outcome()), 1);
}

#[test]
fn source_error_after_the_end_is_still_a_fault() {
    let mut pipeline = Pipeline::start(header(), 4, 4);
    pipeline.source_ended();
    pipeline.fail(FindError::SourceError);
    assert_eq!(pipeline.outcome(), Some(FindError::SourceError));
}

#[test]
fn chained_run_reproduces_header_and_records() {
    let records = ["{\"location\":\"a\"}", "{\"location\":\"b\"}", "{\"location\":\"c\"}"];
    let mut first = Pipeline::start(header(), DEFAULT_CONCURRENCY, QUEUE_CAPACITY);
    for record in records {
        assert!(first.offer(line(record)).is_ok());
    }
    first.source_ended();
    let mut upstream = Vec::new();
    while let Some(next) = first.next_write() {
        upstream.push(next);
    }
    assert!(first.is_finished());

    let mut second = Pipeline::start(upstream[0].clone(), DEFAULT_CONCURRENCY, QUEUE_CAPACITY);
    for record in &upstream[1..] {
        assert!(second.offer(Line::frame(record.payload()).unwrap()).is_ok());
    }
    second.source_ended();
    let mut downstream = Vec::new();
    while let Some(next) = second.next_write() {
        downstream.push(next);
    }
    assert!(second.is_finished());
    assert_eq!(downstream, upstream);
    assert_eq!(exit_code(second.outcome()), 0);
}

#[test]
fn reader_pulls_until_the_limit_then_waits_for_the_writer() {
    let mut pipeline = Pipeline::start(header(), 1, 1);
    assert_eq!(pipeline.reader_step(), Step::Go);
    assert_eq!(pipeline.writer_step(), Step::Go);
    assert!(pipeline.offer(line("a")).is_ok());
    assert_eq!(pipeline.reader_step(), Step::Wait);
    assert_eq!(pipeline.writer_step(), Step::Go);
    assert!(pipeline.next_write().is_some());
    assert_eq!(pipeline.reader_step(), Step::Go);
    assert_eq!(pipeline.writer_step(), Step::Go);
    assert!(pipeline.next_write().is_some());
    assert_eq!(pipeline.reader_step(), Step::Go);
    assert_eq!(pipeline.writer_step(), Step::Wait);
}

#[test]
fn both_parties_stop_when_the_run_is_over() {
    let mut pipeline = Pipeline::start(header(), 2, 2);
    pipeline.source_ended();
    assert_eq!(pipeline.reader_step(), Step::Stop);
    assert_eq!(pipeline.writer_step(), Step::Go);
    assert!(pipeline.next_write().is_some());
    assert_eq!(pipeline.writer_step(), Step::Stop);
    assert!(pipeline.is_finished());
}

#[test]
fn fault_stops_the_reader_and_lets_the_writer_drain() {
    let mut pipeline = Pipeline::start(header(), 2, 2);
    assert!(pipeline.offer(line("a")).is_ok());
    pipeline.fail(FindError::SourceError);
    assert_eq!(pipeline.reader_step(), Step::Stop);
    assert_eq!(pipeline.writer_step(), Step::Go);
    assert!(pipeline.next_write().is_some());
    assert!(pipeline.next_write().is_some());
    assert_eq!(pipeline.writer_step(), Step::Stop);
}

#[test]
fn closed_output_stops_both_parties_at_once() {
    let mut pipeline = Pipeline::start(header(), 2, 2);
    assert!(pipeline.offer(line("a")).is_ok());
    pipeline.output_closed();
    assert_eq!(pipeline.reader_step(), Step::Stop);
    assert_eq!(pipeline.writer_step(), Step::Stop);
}

#[test]
fn limit_of_zero_sets_no_limit() {
    let mut pipeline = Pipeline::start(header(), 0, 1);
    for i in 0..500 {
        assert!(pipeline.may_pull());
        assert!(pipeline.offer(line(&format!("r{}", i))).is_ok());
    }
    assert_eq!((pipeline.queued(), pipeline.in_flight()), (1, 500));
    assert_eq!(pipeline.reader_step(), Step::Go);
}
