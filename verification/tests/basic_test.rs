use logrelay::delivery::{
    program_exit_code, Action, ChildStatus, DeliveryWorker, Event, Outcome, Phase,
    CONNECT_FAILURE_CODE, NO_STATUS_CODE, SPAWN_FAILURE_CODE,
};
use logrelay::lines::LineSplitter;
use logrelay::queue::{DeliverValue, MessageQueue};
use logrelay::syslog::{format_record, Timestamp};

#[test]
fn it_fails_to_locate_binary() {
    // A child that cannot be spawned (e.g. ./notreal.sh) is fatal before any
    // network activity, with the fixed spawn-failure exit code.
    assert_eq!(SPAWN_FAILURE_CODE, 40);
    assert_ne!(SPAWN_FAILURE_CODE, CONNECT_FAILURE_CODE);
    assert_ne!(SPAWN_FAILURE_CODE, NO_STATUS_CODE);
}

#[test]
fn it_fails_to_connect() {
    // With nothing listening, every connect attempt fails; once the policy
    // is exhausted the worker ends fatally and the program exits 127, after
    // sleeping exactly the backoff schedule.
    let mut worker = DeliveryWorker::new(4);
    let mut slept: u64 = 0;
    let mut attempts: u32 = 0;
    loop {
        attempts += 1;
        match worker.step(Event::ConnectFailed) {
            Action::SleepMs(d) => slept += d,
            Action::Fail => break,
            other => panic!("unexpected action {:?}", other),
        }
    }
    assert_eq!(attempts, 4);
    assert_eq!(slept, 10 + 100 + 1000);
    assert_eq!(worker.phase, Phase::Done(Outcome::FatalFailure));
    assert_eq!(
        program_exit_code(Outcome::FatalFailure, ChildStatus::Exited(0)),
        127
    );
}

#[test]
fn it_preserves_exit_code() {
    // Child exits 69 -> wrapper exits 69.
    assert_eq!(
        program_exit_code(Outcome::Completed, ChildStatus::Exited(69)),
        69
    );
}

#[test]
fn it_connects_and_sends_several_lines() {
    // The whole pipeline against a fake connection: wrap `seq 1 5`, expect
    // exactly five delivered records whose MESSAGE fields are 1..5 in order.
    let mut splitter = LineSplitter::new();
    let mut queue = MessageQueue::new();
    for line in splitter.feed(b"1\n2\n3\n4\n5\n") {
        assert!(!queue.is_full());
        queue.push(DeliverValue::Line(line));
    }
    assert!(splitter.finish().is_none());
    assert!(!queue.is_full());
    queue.push(DeliverValue::Eof);

    let ts = Timestamp::new(2003, 8, 24, 5, 14, 15, 3).unwrap();
    let mut worker = DeliveryWorker::new(3);
    let mut sent: Vec<Vec<u8>> = Vec::new();
    let mut pending: Vec<u8> = Vec::new();
    let mut action = worker.step(Event::ConnectOk);
    loop {
        match action {
            Action::Pop => match queue.pop() {
                Some(DeliverValue::Line(l)) => {
                    pending = l;
                    action = worker.step(Event::PoppedLine);
                }
                Some(DeliverValue::Eof) => {
                    action = worker.step(Event::PoppedEof);
                }
                None => panic!("queue drained before the end marker"),
            },
            Action::Write => {
                sent.push(format_record(&ts, b"myhost", b"seq", &pending));
                action = worker.step(Event::WriteOk);
            }
            Action::Finish => break,
            other => panic!("unexpected action {:?}", other),
        }
    }
    assert_eq!(worker.phase, Phase::Done(Outcome::Completed));
    assert_eq!(sent.len(), 5);

    let mut messages: Vec<String> = Vec::new();
    for record in &sent {
        let text = String::from_utf8(record.clone()).unwrap();
        assert!(text.starts_with("<"));
        // Skip the 7 leading space-separated syslog fields to reach MESSAGE.
        let message: String = text
            .split(' ')
            .skip(7)
            .collect::<Vec<&str>>()
            .join(" ");
        messages.push(message.trim_end().to_string());
    }
    assert_eq!(vec!["1", "2", "3", "4", "5"], messages);
}

#[test]
fn it_retries_on_socket_failures() {
    // Consecutive failures back off geometrically; a success resets the
    // count, so the next failure starts the schedule over.
    let mut worker = DeliveryWorker::new(10);
    assert!(matches!(
        worker.step(Event::ConnectFailed),
        Action::SleepMs(10)
    ));
    assert!(matches!(
        worker.step(Event::ConnectFailed),
        Action::SleepMs(100)
    ));
    assert!(matches!(worker.step(Event::ConnectOk), Action::Pop));
    assert_eq!(worker.fails, 0);
    // A write failure mid-stream counts against the same policy.
    assert!(matches!(worker.step(Event::PoppedLine), Action::Write));
    assert!(matches!(
        worker.step(Event::WriteFailed),
        Action::SleepMs(10)
    ));
    assert_eq!(worker.phase, Phase::Connecting);
}

#[test]
fn it_honors_hostname_flag() {
    let explicit = logrelay::config::resolve_hostname(Some(b"customhost".to_vec()));
    assert_eq!(explicit, b"customhost".to_vec());

    let ts = Timestamp::new(2023, 1, 2, 3, 4, 5, 6).unwrap();
    let record = format_record(&ts, b"customhost", b"app", b"x\n");
    let text = String::from_utf8(record).unwrap();
    let fields: Vec<&str> = text.split(' ').collect();
    assert_eq!(fields[2], "customhost");
}

#[test]
fn it_honors_process_name_flag() {
    let explicit = logrelay::config::resolve_appname(Some(b"myapp".to_vec()), b"/bin/ls");
    assert_eq!(explicit, b"myapp".to_vec());

    let defaulted = logrelay::config::resolve_appname(None, b"/usr/bin/seq");
    assert_eq!(defaulted, b"seq".to_vec());

    let ts = Timestamp::new(2023, 1, 2, 3, 4, 5, 6).unwrap();
    let record = format_record(&ts, b"h", b"myapp", b"x\n");
    let text = String::from_utf8(record).unwrap();
    let fields: Vec<&str> = text.split(' ').collect();
    assert_eq!(fields[3], "myapp");
}

#[test]
fn it_fails_if_certificate_is_not_trusted() {
    // A rejected handshake (untrusted server certificate) raises the same
    // failure event as a refused connection; the worker must end fatally on
    // the security-error path, never complete silently.
    let mut worker = DeliveryWorker::new(2);
    assert!(matches!(
        worker.step(Event::ConnectFailed),
        Action::SleepMs(10)
    ));
    assert!(matches!(worker.step(Event::ConnectFailed), Action::Fail));
    assert_eq!(worker.phase, Phase::Done(Outcome::FatalFailure));
    assert_ne!(worker.phase, Phase::Done(Outcome::Completed));
    assert_eq!(
        program_exit_code(Outcome::FatalFailure, ChildStatus::Exited(0)),
        CONNECT_FAILURE_CODE
    );
}

#[test]
fn it_does_not_crash_on_super_long_lines() {
    let mut line: Vec<u8> = vec![b'x'; 5_000_000];
    line.push(b'\n');
    let mut splitter = LineSplitter::new();
    let out = splitter.feed(&line);
    assert_eq!(out.len(), 1);
    assert_eq!(out[0], line);
    assert!(splitter.finish().is_none());
}
