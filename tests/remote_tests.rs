use contract_scout::remote::{
    authorization, contents_url, header_value, judge_reply, Probe, ProbeAction, Reply, Verdict,
};
use contract_scout::names::MarkerKind;
use contract_scout::shard::{
    after_download, date_hour_file_name, fetch_start, shard_file_name, shard_location, shards_in_range,
    FetchAction, Shard,
};
use chrono::Datelike;

fn forbidden(remaining: &str, reset: u64) -> Reply {
    Reply::Status { code: 403, remaining: Some(remaining.to_string()), reset: Some(reset.to_string()) }
}

#[test]
fn reply_meanings() {
    let ok = Reply::Status { code: 200, remaining: None, reset: None };
    let missing = Reply::Status { code: 404, remaining: None, reset: None };
    let other = Reply::Status { code: 500, remaining: None, reset: None };
    assert_eq!(judge_reply(1, &ok, 0), Verdict::Present);
    assert_eq!(judge_reply(3, &missing, 0), Verdict::Absent);
    assert_eq!(judge_reply(1, &other, 0), Verdict::Retry { wait_secs: 2 });
    assert_eq!(judge_reply(2, &Reply::Failed, 0), Verdict::Retry { wait_secs: 4 });
    assert_eq!(judge_reply(3, &Reply::Failed, 0), Verdict::GiveUp);
    assert_eq!(judge_reply(1, &forbidden("5", 0), 0), Verdict::Retry { wait_secs: 2 });
}

#[test]
fn rate_limit_waits_and_counts() {
    let now: u64 = 1_700_000_000;
    match judge_reply(1, &forbidden("0", now + 30), now) {
        Verdict::Retry { wait_secs } => assert!(wait_secs >= 30 && wait_secs >= 60),
        v => panic!("unexpected {:?}", v),
    }
    assert_eq!(judge_reply(1, &forbidden("0", now + 500), now), Verdict::Retry { wait_secs: 500 });
    assert_eq!(judge_reply(2, &forbidden("0", now - 10), now), Verdict::Retry { wait_secs: 60 });
    assert_eq!(judge_reply(3, &forbidden("0", now + 30), now), Verdict::GiveUp);

    let mut probe = Probe::new(MarkerKind::Foundry);
    assert_eq!(probe.on_reply(&forbidden("0", now + 30), now), ProbeAction::Ask { wait_secs: 60 });
    assert_eq!(probe.on_reply(&forbidden("0", now + 30), now), ProbeAction::Ask { wait_secs: 60 });
    assert_eq!(probe.attempt, 3);
    assert_eq!(probe.on_reply(&forbidden("0", now + 30), now), ProbeAction::Done { present: false });
}

#[test]
fn probe_moves_through_candidates() {
    let mut probe = Probe::new(MarkerKind::Hardhat);
    let missing = Reply::Status { code: 404, remaining: None, reset: None };
    assert_eq!(probe.on_reply(&missing, 0), ProbeAction::Ask { wait_secs: 0 });
    assert_eq!(probe.candidate, 1);
    assert_eq!(probe.attempt, 1);
    let ok = Reply::Status { code: 204, remaining: None, reset: None };
    assert_eq!(probe.on_reply(&ok, 0), ProbeAction::Done { present: true });
    let mut last = Probe::new(MarkerKind::Hardhat);
    last.on_reply(&missing, 0);
    assert_eq!(last.on_reply(&missing, 0), ProbeAction::Done { present: false });
}

#[test]
fn header_numbers() {
    assert_eq!(header_value("42"), 42);
    assert_eq!(header_value("+7"), 7);
    assert_eq!(header_value("abc"), 0);
    assert_eq!(header_value(""), 0);
}

#[test]
fn request_texts() {
    assert_eq!(
        contents_url("https://api.github.com", "alice/foo", "foundry.toml"),
        "https://api.github.com/repos/alice/foo/contents/foundry.toml"
    );
    assert_eq!(authorization("abc"), "token abc");
}

#[test]
fn fetcher_skips_existing_shard() {
    assert_eq!(fetch_start(true), FetchAction::Skip);
    assert_eq!(fetch_start(false), FetchAction::Download { wait_secs: 0 });
    assert_eq!(after_download(1, false), FetchAction::Download { wait_secs: 2 });
    assert_eq!(after_download(2, false), FetchAction::Download { wait_secs: 4 });
    assert_eq!(after_download(3, false), FetchAction::GiveUp);
    assert_eq!(after_download(2, true), FetchAction::Done);
}

#[test]
fn shard_names() {
    let day = chrono::NaiveDate::from_ymd_opt(2024, 1, 5).unwrap().num_days_from_ce();
    assert_eq!(shard_file_name(Shard { day, hour: 7 }).unwrap(), "2024-01-05-7.json.gz");
    assert_eq!(shard_file_name(Shard { day, hour: 23 }).unwrap(), "2024-01-05-23.json.gz");
    assert_eq!(
        shard_location("https://data.gharchive.org", Shard { day, hour: 0 }).unwrap(),
        "https://data.gharchive.org/2024-01-05-0.json.gz"
    );
    assert_eq!(date_hour_file_name(2023, 12, 31, 15), "2023-12-31-15.json.gz");
    assert_eq!(shard_file_name(Shard { day: i32::MAX, hour: 0 }), None);
}

#[test]
fn shard_ranges() {
    let shards = shards_in_range(10, 11);
    assert_eq!(shards.len(), 48);
    assert_eq!(shards[0], Shard { day: 10, hour: 0 });
    assert_eq!(shards[23], Shard { day: 10, hour: 23 });
    assert_eq!(shards[24], Shard { day: 11, hour: 0 });
    assert!(shards_in_range(5, 4).is_empty());
}
