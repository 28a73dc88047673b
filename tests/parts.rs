use slack_to_discord::archive::{add_messages, entry_kind, sort_messages, ArchiveError, EntryKind, SlackChannel};
use slack_to_discord::cache::{ContentType, DbError, FetchAction, FetchEvent, FileFetch, FileRow};
use slack_to_discord::discord::{ChannelGet, ChannelId, ChannelType, MessageId};
use slack_to_discord::ledger::{Ledger, LedgerError, PostRecord};
use slack_to_discord::number::{parse_i64, parse_u32};
use slack_to_discord::provision::{
    categories_to_create, configured_channels, deployed_categories, deployed_channels, plan_channel, wanted_categories,
    ChannelConfig, ChannelPlan, ConfigError,
};
use slack_to_discord::render::{render_message, replace_slack_id_to_real_name, user_names};
use slack_to_discord::slack::{hello, parse_timestamp, Channel, Message, TimeStamp, TimeStampError, User};

fn chars(s: &str) -> Vec<char> {
    s.chars().collect()
}

#[test]
fn greeting() {
    assert_eq!(hello(), "Hello World!");
}

#[test]
fn integers_parse_like_std() {
    assert_eq!(parse_i64(&chars("42")), Some(42));
    assert_eq!(parse_i64(&chars("-17")), Some(-17));
    assert_eq!(parse_i64(&chars("+5")), Some(5));
    assert_eq!(parse_i64(&chars("-9223372036854775808")), Some(i64::MIN));
    assert_eq!(parse_i64(&chars("9223372036854775807")), Some(i64::MAX));
    assert_eq!(parse_i64(&chars("9223372036854775808")), None);
    assert_eq!(parse_i64(&chars("")), None);
    assert_eq!(parse_i64(&chars("-")), None);
    assert_eq!(parse_i64(&chars("1a")), None);
    assert_eq!(parse_u32(&chars("4294967295")), Some(u32::MAX));
    assert_eq!(parse_u32(&chars("4294967296")), None);
    assert_eq!(parse_u32(&chars("-1")), None);
    assert_eq!(parse_u32(&chars("000200")), Some(200));
}

#[test]
fn timestamps_parse_and_order() {
    let t = parse_timestamp("1700000000.000200").unwrap();
    assert_eq!(t.secs(), 1700000000);
    assert_eq!(t.nsecs(), 200);
    let u = parse_timestamp("1700000000.000300").unwrap();
    assert!(t.earlier(&u));
    assert!(!u.earlier(&t));
    assert!(t.same(&parse_timestamp("1700000000.200").unwrap()));
    assert_eq!(parse_timestamp("1.2.3").unwrap().nsecs(), 2);
    assert_eq!(parse_timestamp("x.1"), Err(TimeStampError::InvalidSecs));
    assert_eq!(parse_timestamp("12"), Err(TimeStampError::MissingNsecs));
    assert_eq!(parse_timestamp("12."), Err(TimeStampError::InvalidNsecs));
    assert_eq!(parse_timestamp("12.-1"), Err(TimeStampError::InvalidNsecs));
    assert_eq!(parse_timestamp("12.1000000000"), Err(TimeStampError::OutOfRange));
    assert_eq!(parse_timestamp("999999999999.0"), Err(TimeStampError::OutOfRange));
    assert!(TimeStamp::new(0, 1_000_000_000).is_none());
    assert!(TimeStamp::new(-62_135_596_800, 0).is_some());
    assert!(TimeStamp::new(-62_135_596_801, 0).is_none());
}

#[test]
fn timestamp_text_round_trips() {
    let t = parse_timestamp("1700000000.000200").unwrap();
    assert_eq!(t.to_text(), "1700000000.200");
    assert!(parse_timestamp(&t.to_text()).unwrap().same(&t));
    let n = TimeStamp::new(-5, 7).unwrap();
    assert_eq!(n.to_text(), "-5.7");
    assert!(parse_timestamp(&n.to_text()).unwrap().same(&n));
    assert_eq!(TimeStamp::new(0, 0).unwrap().to_text(), "0.0");
}

#[test]
fn tokyo_dates() {
    assert_eq!(parse_timestamp("0.0").unwrap().jtc_date(), "Thu, 1 Jan 1970 09:00:00 +0900");
    assert_eq!(parse_timestamp("1700000000.5").unwrap().jtc_date(), "Wed, 15 Nov 2023 07:13:20 +0900");
}

fn table(pairs: &[(&str, &str)]) -> Vec<(String, String)> {
    pairs.iter().map(|(a, b)| (a.to_string(), b.to_string())).collect()
}

#[test]
fn ids_are_replaced_only_as_whole_tokens() {
    let t = table(&[("U1", "Alice")]);
    assert_eq!(replace_slack_id_to_real_name(&t, "U12 joined"), "U12 joined");
    assert_eq!(replace_slack_id_to_real_name(&t, "XU1 joined"), "XU1 joined");
    assert_eq!(replace_slack_id_to_real_name(&t, "<@U1> hi <@U1>"), "<@Alice> hi <@Alice>");
    assert_eq!(replace_slack_id_to_real_name(&t, "U1"), "Alice");
    assert_eq!(replace_slack_id_to_real_name(&t, "U1U1"), "U1U1");
    assert_eq!(replace_slack_id_to_real_name(&t, ""), "");
    assert_eq!(replace_slack_id_to_real_name(&t, "héllo U1, wörld"), "héllo Alice, wörld");
}

#[test]
fn names_put_in_are_not_replaced_again() {
    let t = table(&[("U1", "U2"), ("U2", "Bob")]);
    assert_eq!(replace_slack_id_to_real_name(&t, "U1 U2"), "U2 Bob");
}

#[test]
fn table_order_does_not_matter() {
    let a = table(&[("U1", "Alice"), ("U12", "Carol")]);
    let b = table(&[("U12", "Carol"), ("U1", "Alice")]);
    let text = "<@U1> and <@U12>";
    assert_eq!(replace_slack_id_to_real_name(&a, text), "<@Alice> and <@Carol>");
    assert_eq!(replace_slack_id_to_real_name(&b, text), "<@Alice> and <@Carol>");
}

#[test]
fn user_ids_become_names() {
    let users = vec![
        User { id: "U1".to_string(), real_name: Some("Alice A".to_string()), name: "alice".to_string() },
        User { id: "U2".to_string(), real_name: None, name: "bob".to_string() },
    ];
    assert_eq!(users[0].readable_name(), "Alice A");
    assert_eq!(users[1].readable_name(), "bob");
    let names = user_names(&users);
    assert_eq!(names, vec![("U1".to_string(), "Alice A".to_string()), ("U2".to_string(), "bob".to_string())]);
    assert_eq!(replace_slack_id_to_real_name(&names, "<@U1> and <@U2>"), "<@Alice A> and <@bob>");
    let t = parse_timestamp("0.0").unwrap();
    assert_eq!(render_message(&names, "U2", &t, "hey U1"), "**bob** Thu, 1 Jan 1970 09:00:00 +0900\nhey Alice A\n");
}

fn record(ts: &str, channel: &str) -> PostRecord {
    PostRecord {
        id: MessageId::new("M".to_string()),
        slack_channel_id: channel.to_string(),
        discord_channel_id: ChannelId::from("D".to_string()),
        slack_ts: parse_timestamp(ts).unwrap(),
        discord_thread_id: None,
    }
}

#[test]
fn ledger_refuses_duplicate_keys() {
    let mut l = Ledger::new();
    assert_eq!(l.record(record("1.0", "C1")), Ok(()));
    assert_eq!(l.record(record("1.0", "C2")), Ok(()));
    assert_eq!(l.record(record("1.0", "C1")), Err(LedgerError::DuplicateKey));
    assert_eq!(l.len(), 2);
    let t = parse_timestamp("1.0").unwrap();
    assert!(l.lookup(&"C1".to_string(), &t).is_some());
    assert!(l.lookup(&"C3".to_string(), &t).is_none());
    assert!(l.lookup(&"C1".to_string(), &parse_timestamp("2.0").unwrap()).is_none());
}

fn row(url: &str, bytes: &[u8], mime: &str) -> FileRow {
    FileRow { url: url.to_string(), inner: bytes.to_vec(), mime: mime.to_string() }
}

#[test]
fn cache_download_then_hit() {
    let (mut f, a) = FileFetch::start("https://x/a");
    assert!(matches!(a, FetchAction::QueryRow { ref url } if url == "https://x/a"));
    assert!(matches!(f.step(FetchEvent::Row(Ok(None))), FetchAction::Download { ref url } if url == "https://x/a"));
    assert!(matches!(f.step(FetchEvent::Responded(Ok(ContentType::Text("image/png".to_string())))), FetchAction::ReadBody));
    let stored = match f.step(FetchEvent::BodyRead(Ok(vec![7, 8, 9]))) {
        FetchAction::InsertRow { row } => row,
        other => panic!("expected an insert, got {:?}", other),
    };
    assert_eq!(stored.url, "https://x/a");
    assert_eq!(stored.inner, vec![7, 8, 9]);
    assert_eq!(stored.mime, "image/png");
    let first = match f.step(FetchEvent::Inserted(Ok(()))) {
        FetchAction::Finish(Ok(r)) => r,
        other => panic!("expected a row, got {:?}", other),
    };
    assert!(f.is_done());
    let (mut g, _) = FileFetch::start("https://x/a");
    match g.step(FetchEvent::Row(Ok(Some(row("https://x/a", &[7, 8, 9], "image/png"))))) {
        FetchAction::Finish(Ok(second)) => {
            assert_eq!(second.inner, first.inner);
            assert_eq!(second.mime, first.mime);
        },
        other => panic!("expected a cached row, got {:?}", other),
    }
}

#[test]
fn cache_errors() {
    let (mut f, _) = FileFetch::start("u");
    assert!(matches!(f.step(FetchEvent::Row(Err("locked".to_string()))), FetchAction::Finish(Err(DbError::GetSql(_)))));
    let (mut f, _) = FileFetch::start("u");
    f.step(FetchEvent::Row(Ok(None)));
    assert!(matches!(f.step(FetchEvent::Responded(Ok(ContentType::Missing))), FetchAction::Finish(Err(DbError::NoCntentType))));
    let (mut f, _) = FileFetch::start("u");
    f.step(FetchEvent::Row(Ok(None)));
    assert!(matches!(f.step(FetchEvent::Responded(Ok(ContentType::NotText))), FetchAction::Finish(Err(DbError::InvalidContentType))));
    let (mut f, _) = FileFetch::start("u");
    f.step(FetchEvent::Row(Ok(None)));
    assert!(matches!(f.step(FetchEvent::Responded(Err("dns".to_string()))), FetchAction::Finish(Err(DbError::FetchFromUrl(_)))));
    let (mut f, _) = FileFetch::start("u");
    f.step(FetchEvent::Row(Ok(None)));
    f.step(FetchEvent::Responded(Ok(ContentType::Text("a/b".to_string()))));
    assert!(matches!(f.step(FetchEvent::BodyRead(Err("reset".to_string()))), FetchAction::Finish(Err(DbError::FetchFromUrl(_)))));
    let (mut f, _) = FileFetch::start("u");
    f.step(FetchEvent::Row(Ok(None)));
    f.step(FetchEvent::Responded(Ok(ContentType::Text("a/b".to_string()))));
    f.step(FetchEvent::BodyRead(Ok(vec![])));
    assert!(matches!(f.step(FetchEvent::Inserted(Err("full".to_string()))), FetchAction::Finish(Err(DbError::InsertSql(_)))));
    let (mut f, _) = FileFetch::start("u");
    assert!(matches!(f.step(FetchEvent::Inserted(Ok(()))), FetchAction::Finish(Err(DbError::OutOfSequence))));
}

#[test]
fn export_paths() {
    assert!(matches!(entry_kind("general/2020-01-01.json"), EntryKind::Messages(ref c) if c == "general"));
    assert!(matches!(entry_kind("general/"), EntryKind::Directory));
    assert!(matches!(entry_kind("channels.json"), EntryKind::Other));
    assert!(matches!(entry_kind("a/b/c.json"), EntryKind::Other));
    assert!(matches!(entry_kind("/x.json"), EntryKind::Messages(ref c) if c.is_empty()));
}

fn msg(ts: &str, text: &str) -> Message {
    Message::Message {
        text: text.to_string(),
        files: None,
        user: "U1".to_string(),
        subtype: None,
        ts: parse_timestamp(ts).unwrap(),
        reply_count: None,
        thread_ts: None,
    }
}

fn text_of(m: &Message) -> &str {
    match m {
        Message::Message { text, .. } => text,
    }
}

#[test]
fn messages_gather_and_sort() {
    let mut channels = vec![
        SlackChannel::from_channel(Channel { name: "general".to_string(), id: "C1".to_string() }),
        SlackChannel::from_channel(Channel { name: "random".to_string(), id: "C2".to_string() }),
    ];
    assert_eq!(add_messages(&mut channels, &"general".to_string(), vec![msg("3.0", "c"), msg("1.0", "a")]), Ok(()));
    assert_eq!(add_messages(&mut channels, &"general".to_string(), vec![msg("2.0", "b"), msg("1.0", "a2")]), Ok(()));
    assert_eq!(add_messages(&mut channels, &"missing".to_string(), vec![msg("1.0", "x")]), Err(ArchiveError::UnknownChannel));
    assert_eq!(channels[0].messages.len(), 4);
    assert_eq!(channels[1].messages.len(), 0);
    let sorted = sort_messages(std::mem::take(&mut channels[0].messages));
    let texts: Vec<&str> = sorted.iter().map(text_of).collect();
    assert_eq!(texts, vec!["a", "a2", "b", "c"]);
    assert!(sort_messages(Vec::new()).is_empty());
}

fn get(name: &str, id: &str, t: ChannelType, parent: Option<&str>) -> ChannelGet {
    ChannelGet {
        name: name.to_string(),
        id: ChannelId::from(id.to_string()),
        channel_type: t,
        parent_id: parent.map(|p| ChannelId::from(p.to_string())),
        message_count: None,
    }
}

#[test]
fn provisioning_creates_only_what_is_missing() {
    let pairs = vec![
        ("general".to_string(), "Chat".to_string()),
        ("random".to_string(), "Chat".to_string()),
        ("dev".to_string(), "Work".to_string()),
    ];
    let config = ChannelConfig::new(pairs.clone()).unwrap();
    let wanted = wanted_categories(config.entries());
    assert_eq!(wanted, vec!["Chat".to_string(), "Work".to_string()]);
    let existing = vec![
        get("Chat", "K1", ChannelType::GuildCategory, None),
        get("Work", "V1", ChannelType::GuildVoice, None),
        get("general", "D1", ChannelType::GuildText, Some("K1")),
        get("stray", "D2", ChannelType::GuildText, Some("K9")),
        get("offtopic", "D3", ChannelType::GuildText, Some("K1")),
    ];
    let mut categories = deployed_categories(&existing, &wanted);
    assert_eq!(categories.len(), 1);
    assert_eq!(categories[0].0, "Chat");
    let create = categories_to_create(&wanted, &categories);
    assert_eq!(create.len(), 1);
    assert_eq!(create[0].name, "Work");
    assert_eq!(create[0].channel_type, ChannelType::GuildCategory);
    assert!(create[0].parent_id.is_none());
    categories.push(("Work".to_string(), ChannelId::from("K2".to_string())));
    assert!(categories_to_create(&wanted, &categories).is_empty());
    let deployed = deployed_channels(&existing, &categories);
    assert_eq!(deployed.len(), 2);
    assert_eq!(deployed[0].name, "general");
    assert!(matches!(plan_channel(&"general".to_string(), &config, &deployed, &categories), ChannelPlan::Deployed));
    match plan_channel(&"dev".to_string(), &config, &deployed, &categories) {
        ChannelPlan::Create(post) => {
            assert_eq!(post.name, "dev");
            assert_eq!(post.channel_type, ChannelType::GuildText);
            assert_eq!(post.parent_id.unwrap().as_str(), "K2");
        },
        other => panic!("expected a creation, got {:?}", other),
    }
    assert!(matches!(plan_channel(&"offtopic".to_string(), &config, &deployed, &categories), ChannelPlan::Unconfigured));
    assert!(matches!(plan_channel(&"nowhere".to_string(), &config, &deployed, &categories), ChannelPlan::Unconfigured));
    let only_chat = vec![categories[0].clone()];
    assert!(matches!(plan_channel(&"dev".to_string(), &config, &deployed, &only_chat), ChannelPlan::CategoryMissing(ref c) if c == "Work"));
    let kept = configured_channels(&deployed, &config);
    assert_eq!(kept.len(), 1);
    assert_eq!(kept[0].name, "general");
}

#[test]
fn each_missing_category_is_created_once() {
    let wanted = vec!["a".to_string(), "a".to_string(), "b".to_string()];
    let categories = vec![("b".to_string(), ChannelId::new("K".to_string()))];
    let create = categories_to_create(&wanted, &categories);
    assert_eq!(create.len(), 1);
    assert_eq!(create[0].name, "a");
}

#[test]
fn config_refuses_a_channel_named_twice() {
    let pairs = vec![("general".to_string(), "A".to_string()), ("general".to_string(), "B".to_string())];
    assert!(matches!(ChannelConfig::new(pairs), Err(ConfigError::DuplicateChannel)));
    assert!(ChannelConfig::new(Vec::new()).is_ok());
}

#[test]
fn channel_id_keeps_its_text() {
    assert_eq!(ChannelId::new("123".to_string()).as_str(), "123");
    assert_eq!(ChannelId::from("456".to_string()).as_str(), "456");
}

#[test]
fn channel_type_codes() {
    assert_eq!(ChannelType::GuildCategory.code(), 4);
    assert_eq!(ChannelType::from_code(11), Some(ChannelType::PublicThread));
    assert_eq!(ChannelType::from_code(0), Some(ChannelType::GuildText));
    assert_eq!(ChannelType::from_code(2), Some(ChannelType::GuildVoice));
    assert_eq!(ChannelType::from_code(5), None);
}

#[test]
fn stored_file_keeps_its_fields() {
    let f = slack_to_discord::File::new(7, "https://x/a".to_string(), vec![1, 2, 3]);
    assert_eq!(f.id(), 7);
    assert_eq!(f.url(), "https://x/a");
    assert_eq!(f.blob(), &vec![1, 2, 3]);
}
