use contract_scout::classify::{
    filter_solidity_repos, fold_evidence, merge_evidence, pending_checks, Evidence, MissingPolicy, Pending, Report,
};
use contract_scout::lexicon::{message_hits, words_hit};
use contract_scout::names::{ends_with, is_marker, is_repo_name, marker_file, MarkerKind};
use contract_scout::record::{parse_lines, parse_push_events, split_lines, ActivityRecord, CommitEntry};
use std::io::Write;

fn lexicon() -> Vec<String> {
    ["solidity", "contract", "erc20", "hardhat", "foundry"].iter().map(|s| s.to_string()).collect()
}

fn commit(message: &str, added: &[&str]) -> CommitEntry {
    CommitEntry { message: message.to_string(), added: added.iter().map(|s| s.to_string()).collect() }
}

fn record(repo: &str, commits: Vec<CommitEntry>) -> ActivityRecord {
    ActivityRecord { repo: repo.to_string(), commits }
}

fn sorted(v: &[String]) -> Vec<String> {
    let mut v = v.to_vec();
    v.sort();
    v
}

fn gzip(text: &str) -> Vec<u8> {
    let mut enc = flate2::write::GzEncoder::new(Vec::new(), flate2::Compression::default());
    enc.write_all(text.as_bytes()).unwrap();
    enc.finish().unwrap()
}

#[test]
fn repo_name_shape() {
    assert!(is_repo_name("alice/foo"));
    assert!(!is_repo_name("alice"));
    assert!(!is_repo_name("a/b/c"));
    assert!(!is_repo_name("/foo"));
    assert!(!is_repo_name("foo/"));
    assert!(!is_repo_name("/"));
    assert!(!is_repo_name(""));
}

#[test]
fn marker_suffixes() {
    assert!(ends_with("contracts/hardhat.config.js", "hardhat.config.js"));
    assert!(!ends_with("js", "hardhat.config.js"));
    assert!(is_marker(MarkerKind::Hardhat, "contracts/hardhat.config.js"));
    assert!(is_marker(MarkerKind::Hardhat, "hardhat.config.ts"));
    assert!(!is_marker(MarkerKind::Hardhat, "hardhat.config.json"));
    assert!(is_marker(MarkerKind::Foundry, "pkg/foundry.toml"));
    assert!(!is_marker(MarkerKind::Foundry, "foundry.toml.bak"));
    assert_eq!(marker_file(MarkerKind::Hardhat, 1), "hardhat.config.ts");
}

#[test]
fn lexicon_needs_whole_words() {
    let lex = lexicon();
    assert!(!message_hits("solidity-like tooling", &lex));
    assert!(!message_hits("contracts everywhere", &lex));
    assert!(message_hits("add ERC20 contract", &lex));
    assert!(message_hits("Move to\tSolidity\n", &lex));
    assert!(!message_hits("", &lex));
    let words: Vec<String> = vec!["foo".to_string(), "hardhat".to_string()];
    assert!(words_hit(&words, &lex));
    assert!(!words_hit(&vec!["Hardhat".to_string()], &lex));
}

#[test]
fn malformed_names_never_reported() {
    let recs = vec![
        record("not-a-repo", vec![commit("solidity contract", &["foundry.toml"])]),
        record("a/b/c", vec![commit("solidity", &["hardhat.config.js"])]),
        record("/x", vec![commit("solidity", &[])]),
    ];
    let ev = filter_solidity_repos(&recs, &lexicon());
    assert!(ev.hit.is_empty() && ev.hardhat.is_empty() && ev.foundry.is_empty());
    assert!(pending_checks(&ev, MissingPolicy::EitherMissing).is_empty());
}

#[test]
fn classification_is_repeatable() {
    let recs = vec![
        record("alice/foo", vec![commit("add ERC20 contract", &["foundry.toml"])]),
        record("bob/bar", vec![commit("fix readme", &["hardhat.config.ts"])]),
        record("carol/baz", vec![commit("solidity work", &[])]),
    ];
    let a = filter_solidity_repos(&recs, &lexicon());
    let b = filter_solidity_repos(&recs, &lexicon());
    assert_eq!(sorted(&a.hit), sorted(&b.hit));
    assert_eq!(sorted(&a.hardhat), sorted(&b.hardhat));
    assert_eq!(sorted(&a.foundry), sorted(&b.foundry));
    assert_eq!(sorted(&a.hit), vec!["alice/foo".to_string(), "carol/baz".to_string()]);
    assert_eq!(a.hardhat, vec!["bob/bar".to_string()]);
    assert_eq!(a.foundry, vec!["alice/foo".to_string()]);
}

#[test]
fn local_hardhat_suppresses_remote_check() {
    let recs = vec![record(
        "dave/token",
        vec![commit("new solidity contract", &["contracts/hardhat.config.js"])],
    )];
    let ev = filter_solidity_repos(&recs, &lexicon());
    assert_eq!(ev.hardhat, vec!["dave/token".to_string()]);
    let either = pending_checks(&ev, MissingPolicy::EitherMissing);
    assert_eq!(either.len(), 1);
    assert!(!either[0].check_hardhat);
    assert!(either[0].check_foundry);
    assert!(pending_checks(&ev, MissingPolicy::BothMissing).is_empty());
}

#[test]
fn two_shards_end_to_end() {
    let shard_one = "{\"type\":\"PushEvent\",\"repo\":{\"name\":\"alice/foo\"},\"payload\":{\"commits\":[\
        {\"message\":\"add ERC20 contract\",\"added\":[\"foundry.toml\"]}]}}\n";
    let shard_two = "{\"type\":\"PullRequestEvent\",\"repo\":{\"name\":\"bob/bar\"},\"payload\":{\"commits\":[\
        {\"message\":\"solidity contract\",\"added\":[\"hardhat.config.js\"]}]}}\n";
    let first = parse_push_events(&gzip(shard_one));
    let second = parse_push_events(&gzip(shard_two));
    assert_eq!(first.len(), 1);
    assert_eq!(second.len(), 0);
    let lex = lexicon();
    let mut ev = Evidence::new();
    merge_evidence(&mut ev, &filter_solidity_repos(&first, &lex));
    merge_evidence(&mut ev, &filter_solidity_repos(&second, &lex));
    assert_eq!(ev.foundry, vec!["alice/foo".to_string()]);
    assert!(ev.hardhat.is_empty());
    let pending = pending_checks(&ev, MissingPolicy::EitherMissing);
    assert_eq!(pending.len(), 1);
    assert_eq!(pending[0].repo, "alice/foo");
    assert!(pending[0].check_hardhat);
    assert!(!pending[0].check_foundry);
}

#[test]
fn merge_is_order_free_and_repeatable() {
    let lex = lexicon();
    let a = filter_solidity_repos(&vec![record("a/x", vec![commit("solidity", &["foundry.toml"])])], &lex);
    let b = filter_solidity_repos(&vec![record("b/y", vec![commit("hardhat", &["hardhat.config.ts"])])], &lex);
    let mut ab = Evidence::new();
    merge_evidence(&mut ab, &a);
    merge_evidence(&mut ab, &b);
    merge_evidence(&mut ab, &b);
    let mut ba = Evidence::new();
    merge_evidence(&mut ba, &b);
    merge_evidence(&mut ba, &a);
    assert_eq!(sorted(&ab.hit), sorted(&ba.hit));
    assert_eq!(sorted(&ab.hardhat), sorted(&ba.hardhat));
    assert_eq!(sorted(&ab.foundry), sorted(&ba.foundry));
    assert_eq!(ab.hit.len(), 2);
}

#[test]
fn report_records_remote_outcomes() {
    let recs = vec![record("alice/foo", vec![commit("erc20", &["foundry.toml"])])];
    let ev = filter_solidity_repos(&recs, &lexicon());
    let mut report = Report::from_evidence(&ev);
    assert_eq!(report.foundry, vec!["alice/foo".to_string()]);
    let p = Pending { repo: "alice/foo".to_string(), check_hardhat: true, check_foundry: false };
    report.record_check(&p, true, true);
    assert_eq!(report.hardhat, vec!["alice/foo".to_string()]);
    assert_eq!(report.foundry, vec!["alice/foo".to_string()]);
    assert_eq!(report.nothing_found, 0);
    let q = Pending { repo: "carol/baz".to_string(), check_hardhat: true, check_foundry: true };
    report.record_check(&q, false, false);
    assert_eq!(report.nothing_found, 1);
    assert_eq!(report.hardhat.len(), 1);
}

#[test]
fn lines_and_malformed_input() {
    let lines = split_lines(&b"a\n\nbc".to_vec());
    assert_eq!(lines, vec![b"a".to_vec(), b"".to_vec(), b"bc".to_vec()]);
    assert_eq!(split_lines(&b"a\n".to_vec()), vec![b"a".to_vec()]);
    assert!(split_lines(&Vec::new()).is_empty());
    let text = "not json\n\
        {\"type\":\"PushEvent\",\"repo\":{}}\n\
        {\"type\":\"PushEvent\",\"repo\":{\"name\":\"e/f\"}}\n\
        {\"type\":\"PushEvent\",\"repo\":{\"name\":\"g/h\"},\"payload\":{\"commits\":[{\"added\":[\"x\"]},\
        {\"message\":\"m\",\"added\":[1,\"foundry.toml\"]}]}}";
    let recs = parse_lines(&text.as_bytes().to_vec());
    assert_eq!(recs.len(), 2);
    assert_eq!(recs[0].repo, "e/f");
    assert!(recs[0].commits.is_empty());
    assert_eq!(recs[1].commits.len(), 1);
    assert_eq!(recs[1].commits[0].message, "m");
    assert_eq!(recs[1].commits[0].added, vec!["foundry.toml".to_string()]);
    assert!(parse_push_events(&b"garbage".to_vec()).is_empty());
}

#[test]
fn malformed_commits_are_skipped_one_by_one() {
    let text = "{\"type\":\"PushEvent\",\"repo\":{\"name\":\"a/b\"},\"payload\":{\"commits\":[\
        {\"message\":\"solidity\",\"added\":[42,null,\"hardhat.config.ts\"]},\
        {\"message\":7},{\"message\":\"x\",\"added\":\"nope\"}]}}\n\
        {\"type\":\"PushEvent\",\"repo\":{\"name\":\"c/d\"},\"payload\":{\"commits\":5}}\n\
        not json\n\
        {\"type\":\"PushEvent\",\"repo\":{\"name\":\"a/b\"}}";
    let recs = parse_lines(&text.as_bytes().to_vec());
    assert_eq!(recs.len(), 3);
    assert_eq!(recs[0].commits.len(), 2);
    assert_eq!(recs[0].commits[0].added, vec!["hardhat.config.ts".to_string()]);
    assert!(recs[0].commits[1].added.is_empty());
    assert_eq!(recs[1].repo, "c/d");
    assert!(recs[1].commits.is_empty());
    let ev = filter_solidity_repos(&recs, &lexicon());
    assert_eq!(ev.hardhat, vec!["a/b".to_string()]);
}

#[test]
fn truncated_shard_keeps_intact_lines() {
    let full = gzip("{\"type\":\"PushEvent\",\"repo\":{\"name\":\"a/b\"}}\n{\"type\":\"PushEvent\",\"repo\":{\"name\":\"c/d\"}}\n");
    let cut = full[..full.len() - 4].to_vec();
    let recs = parse_push_events(&cut);
    assert!(recs.len() <= 2);
    assert!(recs.iter().all(|r| r.repo == "a/b" || r.repo == "c/d"));
}

#[test]
fn fold_of_shards_is_their_union() {
    let lex = lexicon();
    let parts = vec![
        filter_solidity_repos(&vec![record("a/x", vec![commit("solidity", &["foundry.toml"])])], &lex),
        filter_solidity_repos(&vec![record("bad", vec![commit("solidity", &["foundry.toml"])])], &lex),
        filter_solidity_repos(&vec![record("a/x", vec![commit("evm", &["hardhat.config.js"])])], &lex),
    ];
    let all = fold_evidence(&parts);
    assert_eq!(all.hit, vec!["a/x".to_string()]);
    assert_eq!(all.hardhat, vec!["a/x".to_string()]);
    assert_eq!(all.foundry, vec!["a/x".to_string()]);
    assert!(pending_checks(&all, MissingPolicy::EitherMissing).is_empty());
}

#[test]
fn pending_lists_each_repo_once() {
    let recs = vec![
        record("a/x", vec![commit("solidity", &[])]),
        record("a/x", vec![commit("contract", &[])]),
    ];
    let pending = pending_checks(&filter_solidity_repos(&recs, &lexicon()), MissingPolicy::BothMissing);
    assert_eq!(pending.len(), 1);
}
