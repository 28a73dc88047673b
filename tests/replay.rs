use slack_to_discord::archive::SlackChannel;
use slack_to_discord::cache::{DbError, FileRow};
use slack_to_discord::discord::{ChannelGet, ChannelId, ChannelType, MessageGet, MessageId};
use slack_to_discord::ledger::{Ledger, PostRecord};
use slack_to_discord::replay::{Action, Event, Replay, ReplayError};
use slack_to_discord::slack::{parse_timestamp, File, Message, TimeStamp};

fn ts(s: &str) -> TimeStamp {
    parse_timestamp(s).unwrap()
}

fn message(t: &str, user: &str, text: &str, reply_count: Option<u64>, thread_ts: Option<&str>) -> Message {
    Message::Message {
        text: text.to_string(),
        files: None,
        user: user.to_string(),
        subtype: None,
        ts: ts(t),
        reply_count,
        thread_ts: thread_ts.map(ts),
    }
}

fn names() -> Vec<(String, String)> {
    vec![("U1".to_string(), "Alice".to_string()), ("U2".to_string(), "Bob".to_string())]
}

fn posted(id: &str, channel: &str) -> Event {
    Event::Posted(Ok(MessageGet { id: MessageId::new(id.to_string()), channel_id: ChannelId::from(channel.to_string()) }))
}

fn expect_post(a: Action) -> (String, String, usize) {
    match a {
        Action::PostMessage { channel, message, files } => (channel.as_str().to_string(), message.content, files.len()),
        other => panic!("expected a post, got {:?}", other),
    }
}

fn expect_record(a: Action) -> PostRecord {
    match a {
        Action::Record { record } => record,
        other => panic!("expected a record, got {:?}", other),
    }
}

fn general_messages() -> Vec<Message> {
    vec![
        message("1.0", "U1", "hello", Some(1), None),
        message("2.0", "U2", "hi back", None, Some("1.0")),
    ]
}

fn run_first(ledger: Ledger) -> Replay {
    let mut r = Replay::new("C1".to_string(), ChannelId::from("D1".to_string()), names(), general_messages(), ledger);
    let (channel, content, files) = expect_post(r.step(Event::Ready));
    assert_eq!(channel, "D1");
    assert_eq!(content, "**Alice** Thu, 1 Jan 1970 09:00:01 +0900\nhello\n");
    assert_eq!(files, 0);
    match r.step(posted("M1", "D1")) {
        Action::StartThread { channel, message, name } => {
            assert_eq!(channel.as_str(), "D1");
            assert_eq!(message.as_str(), "M1");
            assert_eq!(name, "slack thread");
        },
        other => panic!("expected a thread, got {:?}", other),
    }
    let root = expect_record(r.step(Event::ThreadStarted(Ok(ChannelId::from("T1".to_string())))));
    assert_eq!(root.id.as_str(), "M1");
    assert_eq!(root.slack_channel_id, "C1");
    assert_eq!(root.discord_channel_id.as_str(), "D1");
    assert!(root.slack_ts == ts("1.0"));
    assert_eq!(root.discord_thread_id.as_ref().map(|t| t.as_str()), Some("T1"));
    match r.step(Event::Recorded(Ok(()))) {
        Action::Pause { millis } => assert_eq!(millis, 1000),
        other => panic!("expected a pause, got {:?}", other),
    }
    let (channel, content, _) = expect_post(r.step(Event::Ready));
    assert_eq!(channel, "T1");
    assert_eq!(content, "**Bob** Thu, 1 Jan 1970 09:00:02 +0900\nhi back\n");
    let reply = expect_record(r.step(posted("M2", "T1")));
    assert_eq!(reply.id.as_str(), "M2");
    assert!(reply.slack_ts == ts("2.0"));
    assert_eq!(reply.discord_thread_id.as_ref().map(|t| t.as_str()), Some("T1"));
    assert!(matches!(r.step(Event::Recorded(Ok(()))), Action::Pause { .. }));
    assert!(matches!(r.step(Event::Ready), Action::Finished));
    r
}

#[test]
fn root_and_reply_are_threaded_and_rerun_is_silent() {
    let r = run_first(Ledger::new());
    let ledger = r.into_ledger();
    assert_eq!(ledger.len(), 2);
    let mut again = Replay::new("C1".to_string(), ChannelId::from("D1".to_string()), names(), general_messages(), ledger);
    assert!(matches!(again.step(Event::Ready), Action::Finished));
    assert_eq!(again.into_ledger().len(), 2);
}

#[test]
fn reply_without_ledgered_root_fails_without_posting() {
    let msgs = vec![message("6.0", "U1", "orphan", None, Some("5.0"))];
    let mut r = Replay::new("C1".to_string(), ChannelId::from("D1".to_string()), names(), msgs, Ledger::new());
    match r.step(Event::Ready) {
        Action::Failed { error: ReplayError::OrphanReply, ts: Some(t) } => assert!(t == ts("6.0")),
        other => panic!("expected an orphan reply, got {:?}", other),
    }
}

#[test]
fn reply_to_root_without_thread_fails() {
    let msgs = vec![
        message("1.0", "U1", "root", Some(0), None),
        message("2.0", "U2", "late reply", None, Some("1.0")),
    ];
    let mut r = Replay::new("C1".to_string(), ChannelId::from("D1".to_string()), names(), msgs, Ledger::new());
    expect_post(r.step(Event::Ready));
    let rec = expect_record(r.step(posted("M1", "D1")));
    assert!(rec.discord_thread_id.is_none());
    assert!(matches!(r.step(Event::Recorded(Ok(()))), Action::Pause { .. }));
    assert!(matches!(r.step(Event::Ready), Action::Failed { error: ReplayError::MissingThread, .. }));
}

#[test]
fn plain_message_is_posted_and_recorded_without_thread() {
    let msgs = vec![message("3.5", "U2", "ping U1", None, None)];
    let mut r = Replay::new("C1".to_string(), ChannelId::from("D1".to_string()), names(), msgs, Ledger::new());
    let (channel, content, _) = expect_post(r.step(Event::Ready));
    assert_eq!(channel, "D1");
    assert_eq!(content, "**Bob** Thu, 1 Jan 1970 09:00:03 +0900\nping Alice\n");
    let rec = expect_record(r.step(posted("M9", "D1")));
    assert!(rec.discord_thread_id.is_none());
}

#[test]
fn hosted_attachments_are_fetched_others_dropped() {
    let m = Message::Message {
        text: "files".to_string(),
        files: Some(vec![
            File::Tombstone,
            File::Hosted { name: "a.png".to_string(), title: "A".to_string(), url_private_download: "https://x/a".to_string() },
            File::External { name: "e".to_string(), title: "E".to_string() },
            File::Hosted { name: "b.txt".to_string(), title: "B".to_string(), url_private_download: "https://x/b".to_string() },
            File::Snippet,
        ]),
        user: "U1".to_string(),
        subtype: None,
        ts: ts("10.0"),
        reply_count: None,
        thread_ts: None,
    };
    let mut r = Replay::new("C1".to_string(), ChannelId::from("D1".to_string()), names(), vec![m], Ledger::new());
    match r.step(Event::Ready) {
        Action::FetchFile { url } => assert_eq!(url, "https://x/a"),
        other => panic!("expected a fetch, got {:?}", other),
    }
    let row = |u: &str, b: &[u8], mime: &str| FileRow { url: u.to_string(), inner: b.to_vec(), mime: mime.to_string() };
    match r.step(Event::Fetched(Ok(row("https://x/a", &[1, 2], "image/png")))) {
        Action::FetchFile { url } => assert_eq!(url, "https://x/b"),
        other => panic!("expected a fetch, got {:?}", other),
    }
    match r.step(Event::Fetched(Ok(row("https://x/b", &[3], "text/plain")))) {
        Action::PostMessage { files, .. } => {
            assert_eq!(files.len(), 2);
            assert_eq!(files[0].0, "a.png");
            assert_eq!(files[0].1.title, "A");
            assert_eq!(files[0].1.mime, "image/png");
            assert_eq!(files[0].1.body, vec![1, 2]);
            assert_eq!(files[1].0, "b.txt");
            assert_eq!(files[1].1.body, vec![3]);
        },
        other => panic!("expected a post, got {:?}", other),
    }
}

#[test]
fn attachment_failure_stops_the_channel() {
    let m = Message::Message {
        text: "f".to_string(),
        files: Some(vec![File::Hosted { name: "a".to_string(), title: "A".to_string(), url_private_download: "u".to_string() }]),
        user: "U1".to_string(),
        subtype: None,
        ts: ts("10.0"),
        reply_count: None,
        thread_ts: None,
    };
    let mut r = Replay::new("C1".to_string(), ChannelId::from("D1".to_string()), names(), vec![m], Ledger::new());
    assert!(matches!(r.step(Event::Ready), Action::FetchFile { .. }));
    assert!(matches!(
        r.step(Event::Fetched(Err(DbError::NoCntentType))),
        Action::Failed { error: ReplayError::Fetch(DbError::NoCntentType), .. }
    ));
}

#[test]
fn post_and_ledger_failures_stop_the_channel() {
    let mut r = Replay::new("C1".to_string(), ChannelId::from("D1".to_string()), names(), vec![message("1.0", "U1", "x", None, None)], Ledger::new());
    expect_post(r.step(Event::Ready));
    assert!(matches!(r.step(Event::Posted(Err("down".to_string()))), Action::Failed { error: ReplayError::Post(_), .. }));

    let mut r = Replay::new("C1".to_string(), ChannelId::from("D1".to_string()), names(), vec![message("1.0", "U1", "x", None, None)], Ledger::new());
    expect_post(r.step(Event::Ready));
    expect_record(r.step(posted("M1", "D1")));
    assert!(matches!(r.step(Event::Recorded(Err("disk".to_string()))), Action::Failed { error: ReplayError::Record(_), .. }));
    assert_eq!(r.into_ledger().len(), 0);
}

#[test]
fn unexpected_event_fails() {
    let mut r = Replay::new("C1".to_string(), ChannelId::from("D1".to_string()), names(), vec![message("1.0", "U1", "x", None, None)], Ledger::new());
    assert!(matches!(r.step(Event::Recorded(Ok(()))), Action::Failed { error: ReplayError::UnexpectedEvent, .. }));
}

#[test]
fn partially_migrated_channel_resumes_after_ledgered_prefix() {
    let mut ledger = Ledger::new();
    ledger
        .record(PostRecord {
            id: MessageId::new("M1".to_string()),
            slack_channel_id: "C1".to_string(),
            discord_channel_id: ChannelId::from("D1".to_string()),
            slack_ts: ts("1.0"),
            discord_thread_id: Some(ChannelId::from("T1".to_string())),
        })
        .unwrap();
    let mut r = Replay::new("C1".to_string(), ChannelId::from("D1".to_string()), names(), general_messages(), ledger);
    let (channel, _, _) = expect_post(r.step(Event::Ready));
    assert_eq!(channel, "T1");
}

#[test]
fn unconfigured_channel_gets_no_replay() {
    let dest = vec![ChannelGet {
        name: "general".to_string(),
        id: ChannelId::from("D1".to_string()),
        channel_type: ChannelType::GuildText,
        parent_id: None,
        message_count: None,
    }];
    let random = SlackChannel { id: "C2".to_string(), name: "random".to_string(), messages: general_messages() };
    assert!(Replay::for_channel(&dest, random, names(), Ledger::new()).is_none());
    let general = SlackChannel { id: "C1".to_string(), name: "general".to_string(), messages: general_messages() };
    let mut r = Replay::for_channel(&dest, general, names(), Ledger::new()).unwrap();
    let (channel, _, _) = expect_post(r.step(Event::Ready));
    assert_eq!(channel, "D1");
}

#[test]
fn records_follow_timestamp_order() {
    let msgs = vec![message("1.0", "U1", "a", None, None), message("2.0", "U1", "b", None, None)];
    let mut r = Replay::new("C1".to_string(), ChannelId::from("D1".to_string()), names(), msgs, Ledger::new());
    let mut seen = Vec::new();
    let mut event = Event::Ready;
    let mut n = 0;
    loop {
        n += 1;
        assert!(n < 20);
        event = match r.step(event) {
            Action::PostMessage { .. } => posted(&format!("M{}", n), "D1"),
            Action::Record { record } => {
                seen.push(record.slack_ts);
                Event::Recorded(Ok(()))
            },
            Action::Pause { .. } => Event::Ready,
            Action::Finished => break,
            other => panic!("unexpected {:?}", other),
        };
    }
    assert_eq!(seen.len(), 2);
    assert!(seen[0].earlier(&seen[1]));
}

#[test]
fn thread_failure_stops_the_channel() {
    let mut r = Replay::new("C1".to_string(), ChannelId::from("D1".to_string()), names(), general_messages(), Ledger::new());
    expect_post(r.step(Event::Ready));
    assert!(matches!(r.step(posted("M1", "D1")), Action::StartThread { .. }));
    match r.step(Event::ThreadStarted(Err("forbidden".to_string()))) {
        Action::Failed { error: ReplayError::StartThread(e), ts: Some(t) } => {
            assert_eq!(e, "forbidden");
            assert!(t == ts("1.0"));
        },
        other => panic!("expected a thread failure, got {:?}", other),
    }
    assert_eq!(r.into_ledger().len(), 0);
}
