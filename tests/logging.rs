use st_logger::composite_writer::{CompositeWriter, FanOut};
use st_logger::console_writer::{color_of, Color, ConsoleLogWriter};
use st_logger::error::LogError;
use st_logger::file_writer::FileLogWriter;
use st_logger::level::LogLevel;
use st_logger::line::{format_line, parse_line};
use st_logger::logger::Logger;
use st_logger::timestamp::Timestamp;
use st_logger::writer::LogWriter;
use std::sync::{Arc, Mutex};

/// A sink that keeps its lines in memory and records every call made to it.
struct Memory {
    name: &'static str,
    fail: bool,
    lines: Arc<Mutex<Vec<String>>>,
    calls: Arc<Mutex<Vec<&'static str>>>,
}

impl LogWriter for Memory {
    fn write(&self, message: &str) -> Result<(), LogError> {
        self.calls.lock().unwrap().push(self.name);
        if self.fail {
            return Err(LogError::Io(format!("{} is unavailable", self.name)));
        }
        self.lines.lock().unwrap().push(message.to_string());
        Ok(())
    }
}

fn memory(name: &'static str, fail: bool, calls: &Arc<Mutex<Vec<&'static str>>>) -> Memory {
    Memory { name, fail, lines: Arc::new(Mutex::new(Vec::new())), calls: calls.clone() }
}

fn memory_logger() -> (Logger<CompositeWriter<Memory>>, Arc<Mutex<Vec<String>>>) {
    let calls = Arc::new(Mutex::new(Vec::new()));
    let sink = memory("file", false, &calls);
    let lines = sink.lines.clone();
    let mut composite = CompositeWriter::new();
    composite.add_writer(sink);
    (Logger::new(composite), lines)
}

fn contents(lines: &Arc<Mutex<Vec<String>>>) -> String {
    let mut all = String::new();
    for line in lines.lock().unwrap().iter() {
        all.push_str(line);
        all.push('\n');
    }
    all
}

fn extract_first_timestamp(log_contents: &str) -> Option<String> {
    log_contents
        .lines()
        .next()?
        .split(['[', ']'].as_ref())
        .nth(1)
        .map(|s| s.trim().to_string())
}

fn has_stamp_shape(s: &str) -> bool {
    let chars: Vec<char> = s.chars().collect();
    if chars.len() != 19 {
        return false;
    }
    chars.iter().enumerate().all(|(i, c)| match i {
        4 | 7 => *c == '-',
        10 => *c == ' ',
        13 | 16 => *c == ':',
        _ => c.is_ascii_digit(),
    })
}

fn new_year() -> Timestamp {
    Timestamp::new(2024, 1, 1, 0, 0, 0).unwrap()
}

#[test]
fn it_logs_messages_to_file() {
    let (logger, lines) = memory_logger();
    logger.log(LogLevel::Info, "This is a log message").unwrap();
    let log_contents = contents(&lines);
    assert!(log_contents.contains("[INFO] This is a log message"));
}

#[test]
fn it_logs_different_levels_correctly() {
    let (logger, lines) = memory_logger();
    logger.log(LogLevel::Info, "This is an info message").unwrap();
    logger.log(LogLevel::Error, "This is an error message").unwrap();
    logger.log(LogLevel::Warning, "This is a warning message").unwrap();
    logger.log(LogLevel::Debug, "This is a debug message").unwrap();
    let log_contents = contents(&lines);
    assert!(log_contents.contains("[INFO] This is an info message"));
    assert!(log_contents.contains("[ERROR] This is an error message"));
    assert!(log_contents.contains("[WARNING] This is a warning message"));
    assert!(log_contents.contains("[DEBUG] This is a debug message"));
}

#[test]
fn it_appends_messages_to_file() {
    let (logger, lines) = memory_logger();
    logger.log(LogLevel::Info, "First log message").unwrap();
    logger.log(LogLevel::Info, "Second log message").unwrap();
    let log_contents = contents(&lines);
    assert!(log_contents.contains("[INFO] First log message"));
    assert!(log_contents.contains("[INFO] Second log message"));
    let kept = lines.lock().unwrap();
    assert_eq!(kept.len(), 2);
    assert!(kept[0].ends_with("[INFO] First log message"));
    assert!(kept[1].ends_with("[INFO] Second log message"));
}

#[test]
fn it_logs_with_correct_timestamp_format() {
    let (logger, lines) = memory_logger();
    logger.log(LogLevel::Info, "Testing timestamp").unwrap();
    let log_contents = contents(&lines);
    let timestamp = extract_first_timestamp(&log_contents).expect("No timestamp found");
    assert!(has_stamp_shape(&timestamp), "Timestamp format is incorrect: {}", timestamp);
}

#[test]
fn format_line_writes_the_wire_format() {
    let at = Timestamp::new(2024, 3, 9, 7, 5, 2).unwrap();
    assert_eq!(format_line(&at, LogLevel::Warning, "low disk"), "[2024-03-09 07:05:02] [WARNING] low disk");
    assert_eq!(format_line(&new_year(), LogLevel::Debug, ""), "[2024-01-01 00:00:00] [DEBUG] ");
}

#[test]
fn format_line_pads_small_and_large_years() {
    let early = Timestamp::new(7, 12, 31, 23, 59, 59).unwrap();
    assert_eq!(format_line(&early, LogLevel::Error, "x"), "[0007-12-31 23:59:59] [ERROR] x");
    let late = Timestamp::new(12345, 1, 2, 3, 4, 5).unwrap();
    assert_eq!(format_line(&late, LogLevel::Info, "y"), "[+12345-01-02 03:04:05] [INFO] y");
    let before = Timestamp::new(-44, 3, 15, 12, 0, 0).unwrap();
    assert_eq!(format_line(&before, LogLevel::Info, "z"), "[-0044-03-15 12:00:00] [INFO] z");
}

#[test]
fn timestamp_new_checks_ranges() {
    assert!(Timestamp::new(2024, 0, 1, 0, 0, 0).is_none());
    assert!(Timestamp::new(2024, 13, 1, 0, 0, 0).is_none());
    assert!(Timestamp::new(2024, 1, 0, 0, 0, 0).is_none());
    assert!(Timestamp::new(2024, 1, 32, 0, 0, 0).is_none());
    assert!(Timestamp::new(2024, 1, 1, 24, 0, 0).is_none());
    assert!(Timestamp::new(2024, 1, 1, 0, 60, 0).is_none());
    assert!(Timestamp::new(2024, 1, 1, 0, 0, 60).is_none());
    let t = Timestamp::new(2024, 12, 31, 23, 59, 59).unwrap();
    assert_eq!(t.format(), "2024-12-31 23:59:59");
}

#[test]
fn parse_line_extracts_level_and_body() {
    let parsed = parse_line("[2024-01-01 00:00:00] [INFO] hello").unwrap();
    assert_eq!(parsed.timestamp, "[2024-01-01 00:00:00]");
    assert_eq!(parsed.level, "[INFO]");
    assert_eq!(parsed.body, "hello");
}

#[test]
fn parse_line_skips_white_space_and_keeps_later_brackets() {
    let parsed = parse_line("[t]   \t[LEVEL]   body [with] brackets").unwrap();
    assert_eq!(parsed.timestamp, "[t]");
    assert_eq!(parsed.level, "[LEVEL]");
    assert_eq!(parsed.body, "body [with] brackets");
}

#[test]
fn parse_line_round_trips_a_formatted_line() {
    let line = format_line(&new_year(), LogLevel::Error, "  fail");
    let parsed = parse_line(&line).unwrap();
    assert_eq!(parsed.timestamp, "[2024-01-01 00:00:00]");
    assert_eq!(parsed.level, "[ERROR]");
    assert_eq!(parsed.body, "fail");
}

#[test]
fn parse_line_rejects_a_line_without_brackets() {
    match parse_line("no brackets here") {
        Err(LogError::InvalidFormat(m)) => assert_eq!(m, "Missing closing bracket for timestamp in message: no brackets here"),
        other => panic!("unexpected {:?}", other),
    }
}

#[test]
fn parse_line_rejects_a_line_without_a_level_bracket() {
    match parse_line("[2024-01-01 00:00:00] INFO hello") {
        Err(LogError::InvalidFormat(m)) => assert_eq!(
            m,
            "Missing closing bracket for log level in message: [2024-01-01 00:00:00] INFO hello"
        ),
        other => panic!("unexpected {:?}", other),
    }
}

#[test]
fn color_of_maps_each_level() {
    assert_eq!(color_of("[DEBUG]"), Some(Color::Blue));
    assert_eq!(color_of("[INFO]"), Some(Color::Green));
    assert_eq!(color_of("[WARNING]"), Some(Color::Yellow));
    assert_eq!(color_of("[ERROR]"), Some(Color::Red));
    assert_eq!(color_of("[NOTICE]"), None);
    assert_eq!(color_of("INFO"), None);
}

#[test]
fn console_render_shows_level_in_colour_or_plain() {
    let shown = ConsoleLogWriter.render("[2024-01-01 00:00:00] [INFO] hello").unwrap();
    let plain = "[2024-01-01 00:00:00] [INFO] hello";
    let coloured = "[2024-01-01 00:00:00] \u{1b}[32m[INFO]\u{1b}[0m hello";
    assert!(shown == plain || shown == coloured, "unexpected {:?}", shown);
}

#[test]
fn console_render_shows_unknown_level_plainly() {
    let shown = ConsoleLogWriter.render("[t] [NOTICE]   body").unwrap();
    assert_eq!(shown, "[t] [UNKNOWN] body");
}

#[test]
fn console_render_fails_on_missing_bracket() {
    match ConsoleLogWriter.render("plain text") {
        Err(LogError::InvalidFormat(m)) => assert_eq!(m, "Missing closing bracket for timestamp in message: plain text"),
        other => panic!("unexpected {:?}", other),
    }
}

#[test]
fn composite_calls_each_member_once_in_order() {
    let calls = Arc::new(Mutex::new(Vec::new()));
    let mut composite = CompositeWriter::new();
    composite.add_writer(memory("first", false, &calls));
    composite.add_writer(memory("second", false, &calls));
    composite.add_writer(memory("third", false, &calls));
    assert_eq!(composite.len(), 3);
    assert!(composite.write("line").is_ok());
    assert_eq!(*calls.lock().unwrap(), vec!["first", "second", "third"]);
    for i in 0..3 {
        assert_eq!(*composite.member(i).lines.lock().unwrap(), vec!["line".to_string()]);
    }
}

#[test]
fn composite_stops_at_first_failure() {
    let calls = Arc::new(Mutex::new(Vec::new()));
    let mut composite = CompositeWriter::new();
    composite.add_writer(memory("first", false, &calls));
    composite.add_writer(memory("second", true, &calls));
    composite.add_writer(memory("third", false, &calls));
    match composite.write("line") {
        Err(LogError::Io(m)) => assert_eq!(m, "second is unavailable"),
        other => panic!("unexpected {:?}", other),
    }
    assert_eq!(*calls.lock().unwrap(), vec!["first", "second"]);
    assert!(composite.member(2).lines.lock().unwrap().is_empty());
}

#[test]
fn empty_composite_succeeds() {
    let composite: CompositeWriter<Memory> = CompositeWriter::default();
    assert_eq!(composite.len(), 0);
    assert!(composite.write("line").is_ok());
    assert!(matches!(composite.begin(), FanOut::Finish(Ok(()))));
}

#[test]
fn fan_out_steps() {
    let calls = Arc::new(Mutex::new(Vec::new()));
    let mut composite = CompositeWriter::new();
    composite.add_writer(memory("a", false, &calls));
    composite.add_writer(memory("b", false, &calls));
    assert!(matches!(composite.begin(), FanOut::Deliver(0)));
    assert!(matches!(composite.after(0, Ok(())), FanOut::Deliver(1)));
    assert!(matches!(composite.after(1, Ok(())), FanOut::Finish(Ok(()))));
    match composite.after(0, Err(LogError::Lock("busy".to_string()))) {
        FanOut::Finish(Err(LogError::Lock(m))) => assert_eq!(m, "busy"),
        other => panic!("unexpected {:?}", other),
    }
}

#[test]
fn logger_log_at_hands_one_line_to_the_writer() {
    let (logger, lines) = memory_logger();
    logger.log_at(LogLevel::Debug, "hello", &new_year()).unwrap();
    assert_eq!(*lines.lock().unwrap(), vec!["[2024-01-01 00:00:00] [DEBUG] hello".to_string()]);
    assert_eq!(logger.writer().len(), 1);
}

#[test]
fn file_writer_keeps_path_and_frames_lines() {
    let w = FileLogWriter::new("t.log");
    assert_eq!(w.file_path(), "t.log");
    assert_eq!(w.record("[x] [INFO] y"), "[x] [INFO] y\n");
    assert!(w.lock().lock().is_ok());
}

#[test]
fn level_names() {
    assert_eq!(LogLevel::Debug.name(), "DEBUG");
    assert_eq!(LogLevel::Info.name(), "INFO");
    assert_eq!(LogLevel::Warning.name(), "WARNING");
    assert_eq!(LogLevel::Error.name(), "ERROR");
}

#[test]
fn scenario_console_then_file_keeps_three_lines_in_order() {
    let calls = Arc::new(Mutex::new(Vec::new()));
    let console = memory("console", false, &calls);
    let file = memory("file", false, &calls);
    let console_lines = console.lines.clone();
    let file_lines = file.lines.clone();
    let mut composite = CompositeWriter::new();
    composite.add_writer(console);
    composite.add_writer(file);
    let logger = Logger::new(composite);
    logger.log(LogLevel::Info, "boot").unwrap();
    logger.log(LogLevel::Error, "fail").unwrap();
    logger.log(LogLevel::Warning, "low disk").unwrap();
    let kept = file_lines.lock().unwrap().clone();
    assert_eq!(kept.len(), 3);
    let expected = [("[INFO]", "boot"), ("[ERROR]", "fail"), ("[WARNING]", "low disk")];
    for (line, (level, body)) in kept.iter().zip(expected.iter()) {
        let parsed = parse_line(line).unwrap();
        assert!(has_stamp_shape(&parsed.timestamp[1..parsed.timestamp.len() - 1]));
        assert_eq!(parsed.level, *level);
        assert_eq!(parsed.body, *body);
        assert!(ConsoleLogWriter.render(line).is_ok());
    }
    assert_eq!(*console_lines.lock().unwrap(), kept);
    assert_eq!(
        *calls.lock().unwrap(),
        vec!["console", "file", "console", "file", "console", "file"]
    );
}

#[test]
fn console_render_names_missing_level_bracket() {
    match ConsoleLogWriter.render("[2024-01-01 00:00:00] INFO hello") {
        Err(LogError::InvalidFormat(m)) => assert_eq!(
            m,
            "Missing closing bracket for log level in message: [2024-01-01 00:00:00] INFO hello"
        ),
        other => panic!("unexpected {:?}", other),
    }
}

#[test]
fn logger_returns_the_writer_error_unchanged() {
    let calls = Arc::new(Mutex::new(Vec::new()));
    let mut composite = CompositeWriter::new();
    composite.add_writer(memory("file", true, &calls));
    let logger = Logger::new(composite);
    match logger.log(LogLevel::Error, "fail") {
        Err(LogError::Io(m)) => assert_eq!(m, "file is unavailable"),
        other => panic!("unexpected {:?}", other),
    }
    assert_eq!(*calls.lock().unwrap(), vec!["file"]);
}

/// A member that is either a single sink or a nested composite.
enum Node {
    Leaf(Memory),
    Group(CompositeWriter<Node>),
}

impl LogWriter for Node {
    fn write(&self, message: &str) -> Result<(), LogError> {
        match self {
            Node::Leaf(m) => m.write(message),
            Node::Group(g) => g.write(message),
        }
    }
}

fn group(members: Vec<Node>) -> CompositeWriter<Node> {
    let mut c = CompositeWriter::new();
    for m in members {
        c.add_writer(m);
    }
    c
}

fn nested_run(shape: u8, fail_b: bool) -> (Vec<&'static str>, Result<(), LogError>) {
    let calls = Arc::new(Mutex::new(Vec::new()));
    let a = Node::Leaf(memory("a", false, &calls));
    let b = Node::Leaf(memory("b", fail_b, &calls));
    let c = Node::Leaf(memory("c", false, &calls));
    let top = match shape {
        0 => group(vec![a, Node::Group(group(vec![b, c]))]),
        1 => group(vec![Node::Group(group(vec![a, b])), c]),
        _ => group(vec![a, b, c]),
    };
    let r = top.write("m");
    let seen = calls.lock().unwrap().clone();
    (seen, r)
}

#[test]
fn nested_composites_act_as_flattened() {
    for fail_b in [false, true] {
        let (flat_calls, flat_result) = nested_run(2, fail_b);
        for shape in [0, 1] {
            let (calls, result) = nested_run(shape, fail_b);
            assert_eq!(calls, flat_calls);
            assert_eq!(format!("{:?}", result), format!("{:?}", flat_result));
        }
        if fail_b {
            assert_eq!(flat_calls, vec!["a", "b"]);
            assert!(matches!(flat_result, Err(LogError::Io(_))));
        } else {
            assert_eq!(flat_calls, vec!["a", "b", "c"]);
            assert!(flat_result.is_ok());
        }
    }
}
