use wayback_submit::client::{Client, Settings};
use wayback_submit::level::Level;
use wayback_submit::outcome::Outcome;
use wayback_submit::queue::{Action, Event, LogLine, Queue, Step};
use wayback_submit::status::Status;

/// What a scripted service says to one request.
enum Reply {
    Status(u16),
    StatusWithMessage(u16, &'static str),
    Failure,
}

/// All that a run did, as the caller saw it.
struct Trace {
    submitted: Vec<String>,
    lines: Vec<LogLine>,
    waits: Vec<u64>,
    finished: bool,
    aborted: bool,
    unused_replies: usize,
}

fn client() -> Client {
    Client::new(Settings::standard(), "key".to_string(), "secret".to_string())
}

fn queue_of(urls: &[&str]) -> Queue {
    Queue::new(client(), urls.iter().map(|url| url.to_string()).collect())
}

fn answer(code: u16) -> Event {
    Event::Response(Outcome::new(Status::new(code).unwrap(), Vec::new()))
}

fn answer_with_message(code: u16, message: &str) -> Event {
    let fields = vec![("message".to_string(), message.to_string())];
    Event::Response(Outcome::new(Status::new(code).unwrap(), fields))
}

fn line(level: Level, text: &str) -> LogLine {
    LogLine { level, text: text.to_string() }
}

fn url_of(action: &Action) -> String {
    match action {
        Action::Submit(request) => request.form[0].1.clone(),
        other => panic!("no request is due: {:?}", other),
    }
}

/// Runs the queue as a caller would, with the replies of the script in place
/// of the service and without resting.
fn run(queue: &mut Queue, script: Vec<Reply>) -> Trace {
    let mut trace = Trace {
        submitted: Vec::new(),
        lines: Vec::new(),
        waits: Vec::new(),
        finished: false,
        aborted: false,
        unused_replies: 0,
    };
    let mut replies = script.into_iter();
    let mut action = queue.action();
    loop {
        let event = match action {
            Action::Submit(request) => {
                let reply = match replies.next() {
                    Some(reply) => reply,
                    None => break,
                };
                trace.submitted.push(request.form[0].1.clone());
                match reply {
                    Reply::Status(code) => answer(code),
                    Reply::StatusWithMessage(code, message) => answer_with_message(code, message),
                    Reply::Failure => Event::TransportFailure,
                }
            }
            Action::Wait(seconds) => {
                trace.waits.push(seconds);
                Event::CooldownElapsed
            }
            Action::Finish => {
                trace.finished = true;
                break;
            }
            Action::Abort => {
                trace.aborted = true;
                break;
            }
        };
        let Step { lines, action: next } = queue.advance(event);
        trace.lines.extend(lines);
        action = next;
    }
    trace.unused_replies = replies.count();
    trace
}

#[test]
fn rate_limited_once_then_success() {
    let mut queue = queue_of(&["https://a.example", "https://b.example"]);
    let trace = run(&mut queue, vec![Reply::Status(200), Reply::Status(429), Reply::Status(200)]);
    assert_eq!(
        trace.lines,
        vec![
            line(Level::Info, "1/2: 200 OK -> https://a.example"),
            line(Level::Warn, "2/2: 429 Too Many Requests -> https://b.example"),
            line(Level::Info, "2/2: 200 OK -> https://b.example"),
        ]
    );
    assert_eq!(trace.waits, vec![60]);
    assert_eq!(
        trace.submitted,
        vec!["https://a.example", "https://b.example", "https://b.example"]
    );
    assert!(trace.finished);
    assert!(!trace.aborted);
    assert_eq!(queue.completed(), 2);
    assert_eq!(queue.pending(), 0);
}

#[test]
fn rate_limited_step_by_step() {
    let mut queue = queue_of(&["https://a.example", "https://b.example"]);
    assert_eq!(url_of(&queue.action()), "https://a.example");

    let step = queue.advance(answer(200));
    assert_eq!(step.lines, vec![line(Level::Info, "1/2: 200 OK -> https://a.example")]);
    assert_eq!(url_of(&step.action), "https://b.example");
    assert_eq!(queue.completed(), 1);

    let step = queue.advance(answer(429));
    assert_eq!(
        step.lines,
        vec![line(Level::Warn, "2/2: 429 Too Many Requests -> https://b.example")]
    );
    assert_eq!(step.action, Action::Wait(60));
    assert_eq!(queue.completed(), 1);
    assert_eq!(queue.pending(), 0);

    let step = queue.advance(Event::CooldownElapsed);
    assert!(step.lines.is_empty());
    assert_eq!(url_of(&step.action), "https://b.example");

    let step = queue.advance(answer(200));
    assert_eq!(step.lines, vec![line(Level::Info, "2/2: 200 OK -> https://b.example")]);
    assert_eq!(step.action, Action::Finish);
    assert!(queue.is_finished());
    assert_eq!(queue.completed(), 2);
}

#[test]
fn all_success_keeps_input_order() {
    let urls = ["https://one.example", "https://two.example", "https://three.example"];
    let mut queue = queue_of(&urls);
    let trace = run(&mut queue, vec![Reply::Status(200), Reply::Status(200), Reply::Status(200)]);
    assert_eq!(trace.submitted, urls);
    assert_eq!(
        trace.lines,
        vec![
            line(Level::Info, "1/3: 200 OK -> https://one.example"),
            line(Level::Info, "2/3: 200 OK -> https://two.example"),
            line(Level::Info, "3/3: 200 OK -> https://three.example"),
        ]
    );
    assert!(trace.waits.is_empty());
    assert!(trace.finished);
    assert_eq!(queue.completed(), 3);
    assert_eq!(queue.pending(), 0);
    assert_eq!(queue.total(), 3);
}

#[test]
fn single_url_succeeds() {
    let mut queue = queue_of(&["https://only.example"]);
    let trace = run(&mut queue, vec![Reply::Status(200)]);
    assert_eq!(trace.lines, vec![line(Level::Info, "1/1: 200 OK -> https://only.example")]);
    assert!(trace.finished);
}

#[test]
fn requeued_item_goes_behind_the_others() {
    let mut queue = queue_of(&["https://a.example", "https://b.example", "https://c.example"]);
    let trace = run(
        &mut queue,
        vec![Reply::Status(429), Reply::Status(200), Reply::Status(200), Reply::Status(200)],
    );
    assert_eq!(
        trace.submitted,
        vec!["https://a.example", "https://b.example", "https://c.example", "https://a.example"]
    );
    assert_eq!(
        trace.lines,
        vec![
            line(Level::Warn, "1/3: 429 Too Many Requests -> https://a.example"),
            line(Level::Info, "1/3: 200 OK -> https://b.example"),
            line(Level::Info, "2/3: 200 OK -> https://c.example"),
            line(Level::Info, "3/3: 200 OK -> https://a.example"),
        ]
    );
    assert_eq!(trace.waits, vec![60]);
    assert!(trace.finished);
}

#[test]
fn rate_limited_five_times_waits_five_times() {
    let mut queue = queue_of(&["https://slow.example"]);
    let mut script: Vec<Reply> = (0..5).map(|_| Reply::Status(429)).collect();
    script.push(Reply::Status(200));
    let trace = run(&mut queue, script);
    assert_eq!(trace.waits, vec![60, 60, 60, 60, 60]);
    assert_eq!(trace.submitted.len(), 6);
    let warnings = trace.lines.iter().filter(|line| line.level == Level::Warn).count();
    assert_eq!(warnings, 5);
    assert_eq!(
        trace.lines.last(),
        Some(&line(Level::Info, "1/1: 200 OK -> https://slow.example"))
    );
    assert!(trace.finished);
    assert_eq!(queue.completed(), 1);
}

#[test]
fn every_item_ends_once_whatever_the_rate_limits() {
    let mut queue = queue_of(&["https://a.example", "https://b.example", "https://c.example"]);
    let script = vec![
        Reply::Status(429),
        Reply::Status(500),
        Reply::Status(429),
        Reply::Status(429),
        Reply::Status(200),
        Reply::Status(429),
        Reply::Status(404),
    ];
    let trace = run(&mut queue, script);
    assert!(trace.finished);
    let ends: Vec<&LogLine> =
        trace.lines.iter().filter(|line| line.level != Level::Warn).collect();
    assert_eq!(
        ends,
        vec![
            &line(Level::Error, "1/3: 500 Internal Server Error -> https://b.example"),
            &line(Level::Info, "2/3: 200 OK -> https://c.example"),
            &line(Level::Error, "3/3: 404 Not Found -> https://a.example"),
        ]
    );
    assert_eq!(trace.waits.len(), 4);
    assert_eq!(queue.completed(), 3);
    assert_eq!(queue.pending(), 0);
}

#[test]
fn failure_uses_up_an_index_and_the_run_goes_on() {
    let mut queue = queue_of(&["https://a.example", "https://b.example"]);
    let trace = run(&mut queue, vec![Reply::Status(403), Reply::Status(200)]);
    assert_eq!(
        trace.lines,
        vec![
            line(Level::Error, "1/2: 403 Forbidden -> https://a.example"),
            line(Level::Info, "2/2: 200 OK -> https://b.example"),
        ]
    );
    assert!(trace.waits.is_empty());
    assert!(trace.finished);
    assert!(!trace.aborted);
}

#[test]
fn message_is_logged_at_the_level_of_the_answer() {
    let mut queue = queue_of(&["https://a.example", "https://b.example", "https://c.example"]);
    let script = vec![
        Reply::StatusWithMessage(200, "saved"),
        Reply::StatusWithMessage(429, "slow down"),
        Reply::StatusWithMessage(401, "who are you"),
        Reply::Status(200),
    ];
    let trace = run(&mut queue, script);
    assert_eq!(
        trace.lines,
        vec![
            line(Level::Info, "1/3: 200 OK -> https://a.example"),
            line(Level::Info, "saved"),
            line(Level::Warn, "2/3: 429 Too Many Requests -> https://b.example"),
            line(Level::Warn, "slow down"),
            line(Level::Error, "2/3: 401 Unauthorized -> https://c.example"),
            line(Level::Error, "who are you"),
            line(Level::Info, "3/3: 200 OK -> https://b.example"),
        ]
    );
}

#[test]
fn transport_failure_stops_the_run() {
    let mut queue = queue_of(&["https://a.example", "https://b.example", "https://c.example"]);
    let trace = run(
        &mut queue,
        vec![Reply::Status(200), Reply::Failure, Reply::Status(200), Reply::Status(200)],
    );
    assert!(trace.aborted);
    assert!(!trace.finished);
    assert_eq!(trace.submitted, vec!["https://a.example", "https://b.example"]);
    assert_eq!(trace.lines, vec![line(Level::Info, "1/3: 200 OK -> https://a.example")]);
    assert_eq!(trace.unused_replies, 2);
    assert!(queue.is_aborted());
    assert_eq!(queue.pending(), 1);
    assert_eq!(queue.completed(), 1);
}

#[test]
fn aborted_queue_takes_no_more_events() {
    let mut queue = queue_of(&["https://a.example", "https://b.example"]);
    let step = queue.advance(Event::TransportFailure);
    assert_eq!(step.action, Action::Abort);
    assert!(step.lines.is_empty());
    for event in [answer(200), Event::CooldownElapsed, Event::TransportFailure] {
        let step = queue.advance(event);
        assert_eq!(step.action, Action::Abort);
        assert!(step.lines.is_empty());
        assert_eq!(queue.pending(), 1);
        assert_eq!(queue.completed(), 0);
    }
}

#[test]
fn empty_queue_has_finished_at_once() {
    let mut queue = queue_of(&[]);
    assert_eq!(queue.action(), Action::Finish);
    assert!(queue.is_finished());
    assert_eq!(queue.total(), 0);
    let trace = run(&mut queue, vec![Reply::Status(200)]);
    assert!(trace.submitted.is_empty());
    assert!(trace.lines.is_empty());
    assert_eq!(trace.unused_replies, 1);
}

#[test]
fn event_that_does_not_fit_changes_nothing() {
    let mut queue = queue_of(&["https://a.example"]);
    let step = queue.advance(Event::CooldownElapsed);
    assert!(step.lines.is_empty());
    assert_eq!(url_of(&step.action), "https://a.example");
    assert_eq!(queue.completed(), 0);

    let step = queue.advance(answer(429));
    assert_eq!(step.action, Action::Wait(60));
    let step = queue.advance(answer(200));
    assert!(step.lines.is_empty());
    assert_eq!(step.action, Action::Wait(60));
    let step = queue.advance(Event::TransportFailure);
    assert_eq!(step.action, Action::Wait(60));
    assert!(!queue.is_aborted());
}

#[test]
fn duplicate_urls_are_all_submitted() {
    let mut queue = queue_of(&["https://a.example", "https://a.example"]);
    let trace = run(&mut queue, vec![Reply::Status(200), Reply::Status(200)]);
    assert_eq!(trace.submitted, vec!["https://a.example", "https://a.example"]);
    assert_eq!(
        trace.lines,
        vec![
            line(Level::Info, "1/2: 200 OK -> https://a.example"),
            line(Level::Info, "2/2: 200 OK -> https://a.example"),
        ]
    );
}

#[test]
fn index_has_as_many_digits_as_it_needs() {
    let urls: Vec<String> = (0..12).map(|i| format!("https://{}.example", i)).collect();
    let mut queue = Queue::new(client(), urls);
    let trace = run(&mut queue, (0..12).map(|_| Reply::Status(200)).collect());
    assert_eq!(trace.lines[8], line(Level::Info, "9/12: 200 OK -> https://8.example"));
    assert_eq!(trace.lines[9], line(Level::Info, "10/12: 200 OK -> https://9.example"));
    assert_eq!(trace.lines[11], line(Level::Info, "12/12: 200 OK -> https://11.example"));
}
