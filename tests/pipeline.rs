use llmgrep::collect::{accept_content, entry_action, is_binary_file, should_ignore, Collector, EntryAction, MAX_FILE_SIZE};
use llmgrep::content::{chunk_text, ChunkScan, CHUNK_SIZE};
use llmgrep::rank::{any_positive, rank_candidates, Candidate, RankRetry};
use llmgrep::response::{parse_file_scores, parse_verdict};
use llmgrep::score::Score;
use llmgrep::scorer::{merge_scores, score_batch, ScoringPass, BATCH_SIZE};

fn s(x: f64) -> Score {
    Score::from_bits(x.to_bits())
}

fn comps(p: &str) -> Vec<String> {
    p.split('/').filter(|c| !c.is_empty()).map(|c| c.to_string()).collect()
}

fn pats(ps: &[&str]) -> Vec<Vec<String>> {
    ps.iter().map(|p| comps(p)).collect()
}

fn names(ns: &[&str]) -> Vec<String> {
    ns.iter().map(|n| n.to_string()).collect()
}

#[test]
fn ignored_prefix_excludes_directory_and_everything_under_it() {
    let ignore = pats(&[".git", "node_modules", "docs/private"]);
    assert!(should_ignore(&comps(".git"), &ignore));
    assert!(should_ignore(&comps(".git/objects/ab/cdef"), &ignore));
    assert!(should_ignore(&comps("node_modules/x/index.js"), &ignore));
    assert!(should_ignore(&comps("docs/private/notes.md"), &ignore));
    assert!(!should_ignore(&comps("docs/public/notes.md"), &ignore));
    assert!(!should_ignore(&comps("src/main.rs"), &ignore));
    assert_eq!(entry_action(&comps(".git/config"), &ignore, false, Some(10)), EntryAction::Skip);
    assert_eq!(entry_action(&comps("node_modules"), &ignore, true, None), EntryAction::Skip);
}

#[test]
fn ignore_matches_components_not_substrings() {
    let ignore = pats(&["target"]);
    assert!(!should_ignore(&comps("targets/a.rs"), &ignore));
    assert!(!should_ignore(&comps("my_target"), &ignore));
    assert!(should_ignore(&comps("target"), &ignore));
    assert!(!should_ignore(&comps("src/target"), &ignore));
    assert!(!should_ignore(&comps("src/main.rs"), &pats(&[])));
}

#[test]
fn size_cap_decides_whether_a_file_is_read() {
    let ignore = pats(&[".git"]);
    let p = comps("src/lib.rs");
    assert_eq!(entry_action(&p, &ignore, false, Some(MAX_FILE_SIZE + 1)), EntryAction::Skip);
    assert_eq!(entry_action(&p, &ignore, false, Some(MAX_FILE_SIZE)), EntryAction::Read);
    assert_eq!(entry_action(&p, &ignore, false, Some(0)), EntryAction::Read);
    assert_eq!(entry_action(&p, &ignore, false, None), EntryAction::Skip);
    assert_eq!(entry_action(&comps("src"), &ignore, true, None), EntryAction::Descend);
    assert_eq!(MAX_FILE_SIZE, 1048576);
}

#[test]
fn content_must_be_utf8_text() {
    assert!(accept_content(&b"fn main() {}\n".to_vec()));
    assert!(accept_content(&Vec::new()));
    assert!(accept_content(&"h\u{e9}llo w\u{f6}rld".as_bytes().to_vec()));
    assert!(!accept_content(&vec![b'a', 0xff, b'b']));
    assert!(!accept_content(&vec![0u8; 400]));
}

#[test]
fn binary_heuristic_thresholds() {
    assert!(!is_binary_file(&vec![b'a'; 1000]));
    assert!(!is_binary_file(&Vec::new()));
    let mut exactly = vec![b'a'; 1000];
    for b in exactly.iter_mut().take(300) {
        *b = 0;
    }
    assert!(!is_binary_file(&exactly));
    let mut over = vec![b'a'; 1000];
    for b in over.iter_mut().take(301) {
        *b = 200;
    }
    assert!(is_binary_file(&over));
    let mut late = vec![b'a'; 1000];
    late.extend(vec![0u8; 2000]);
    assert!(!is_binary_file(&late));
    assert!(is_binary_file(&vec![0u8; 301]));
}

#[test]
fn parses_wrapped_and_bare_score_lists() {
    let wrapped = parse_file_scores(r#"{"filenames":[{"filename":"a.rs","score":0.5},{"filename":"b.rs","score":1}]}"#);
    assert_eq!(wrapped.len(), 2);
    assert_eq!(wrapped[0].filename, "a.rs");
    assert_eq!(wrapped[0].score, s(0.5));
    assert_eq!(wrapped[1].score, s(1.0));
    let bare = parse_file_scores(r#"[{"filename":"c.rs","score":0.25,"note":"x"}]"#);
    assert_eq!(bare.len(), 1);
    assert_eq!(bare[0].filename, "c.rs");
    assert_eq!(bare[0].score, s(0.25));
    assert!(parse_file_scores("not json").is_empty());
    assert!(parse_file_scores(r#"{"other":[]}"#).is_empty());
    assert!(parse_file_scores(r#"[{"filename":"a.rs"}]"#).is_empty());
    assert!(parse_file_scores(r#"[{"filename":"a.rs","score":"high"}]"#).is_empty());
}

#[test]
fn merge_aligns_scores_with_names() {
    let entries = parse_file_scores(r#"[{"filename":"b.rs","score":0.7},{"filename":"a.rs","score":0.1},{"filename":"a.rs","score":0.9},{"filename":"zzz","score":0.3}]"#);
    let got = merge_scores(&names(&["a.rs", "b.rs", "c.rs"]), &entries);
    assert_eq!(got, vec![s(0.1), s(0.7), Score::zero()]);
    let none = merge_scores(&names(&["a.rs", "b.rs"]), &Vec::new());
    assert_eq!(none, vec![Score::zero(), Score::zero()]);
    assert!(merge_scores(&Vec::new(), &entries).is_empty());
}

#[test]
fn malformed_answer_scores_batch_zero_and_pass_continues() {
    let all: Vec<String> = (0..150).map(|i| format!("f{}.rs", i)).collect();
    let mut pass = ScoringPass::new(all);
    let first = pass.next_batch().unwrap();
    assert_eq!(first.len(), BATCH_SIZE);
    assert_eq!(first[0], "f0.rs");
    pass.record_answer("{ this is not json");
    let second = pass.next_batch().unwrap();
    assert_eq!(second.len(), 50);
    assert_eq!(second[0], "f100.rs");
    pass.record_answer(r#"[{"filename":"f120.rs","score":0.8}]"#);
    assert!(pass.done());
    assert!(pass.next_batch().is_none());
    let scores = pass.into_scores();
    assert_eq!(scores.len(), 150);
    for (i, sc) in scores.iter().enumerate() {
        if i == 120 {
            assert_eq!(*sc, s(0.8));
        } else {
            assert_eq!(*sc, Score::zero());
        }
    }
}

#[test]
fn score_batch_of_empty_answer_is_zero() {
    let got = score_batch(&names(&["x", "y", "z"]), "");
    assert_eq!(got, vec![Score::zero(); 3]);
}

#[test]
fn sort_is_stable_and_descending() {
    let ranked = rank_candidates(&vec![s(0.2), s(0.9), s(0.9)]);
    assert_eq!(
        ranked,
        vec![
            Candidate { file: 1, score: s(0.9) },
            Candidate { file: 2, score: s(0.9) },
            Candidate { file: 0, score: s(0.2) },
        ]
    );
    let mixed = rank_candidates(&vec![s(0.0), s(-0.5), s(3.0), s(-0.0), s(0.5)]);
    let order: Vec<usize> = mixed.iter().map(|c| c.file).collect();
    assert_eq!(order, vec![2, 4, 0, 3, 1]);
    assert!(rank_candidates(&Vec::new()).is_empty());
}

#[test]
fn score_order_follows_numbers() {
    assert!(s(0.9).at_least(&s(0.2)));
    assert!(!s(0.2).at_least(&s(0.9)));
    assert!(s(0.0).at_least(&s(-0.0)));
    assert!(s(-0.0).at_least(&s(0.0)));
    assert!(s(-1.0).at_least(&s(-2.0)));
    assert!(!s(-2.0).at_least(&s(-1.0)));
    assert!(s(0.1).is_positive());
    assert!(!s(0.0).is_positive());
    assert!(!s(-0.0).is_positive());
    assert!(!s(-0.3).is_positive());
}

#[test]
fn retry_gives_up_after_three_all_zero_attempts() {
    let zeros = || rank_candidates(&vec![s(0.0), s(0.0)]);
    let mut retry = RankRetry::new();
    assert!(retry.on_attempt(zeros()).is_none());
    assert!(retry.on_attempt(zeros()).is_none());
    let last = retry.on_attempt(zeros());
    assert_eq!(last, Some(Vec::new()));
}

#[test]
fn retry_returns_first_positive_attempt() {
    let mut retry = RankRetry::new();
    assert!(retry.on_attempt(rank_candidates(&vec![s(0.0)])).is_none());
    let ranked = rank_candidates(&vec![s(0.0), s(0.4)]);
    assert!(any_positive(&ranked));
    let got = retry.on_attempt(ranked.clone()).unwrap();
    assert_eq!(got, ranked);
    assert_eq!(got[0].file, 1);
}

#[test]
fn retry_stops_at_once_when_nothing_collected() {
    let mut retry = RankRetry::new();
    assert_eq!(retry.on_attempt(Vec::new()), Some(Vec::new()));
}

#[test]
fn chunking_4500_characters() {
    let text: String = (0..4500).map(|i| if i % 7 == 0 { '\u{e9}' } else { (b'a' + (i % 26) as u8) as char }).collect();
    let chunks = chunk_text(&text);
    let sizes: Vec<usize> = chunks.iter().map(|c| c.chars().count()).collect();
    assert_eq!(sizes, vec![2000, 2000, 500]);
    assert_eq!(chunks.concat(), text);
    assert_eq!(CHUNK_SIZE, 2000);
    assert!(chunk_text("").is_empty());
    assert_eq!(chunk_text("abc"), vec!["abc".to_string()]);
    let exact: String = "x".repeat(4000);
    assert_eq!(chunk_text(&exact).len(), 2);
}

#[test]
fn scan_stops_at_first_matching_chunk() {
    let text = "y".repeat(4500);
    let mut scan = ChunkScan::from_text(&text);
    assert_eq!(scan.chunk_count(), 3);
    assert_eq!(scan.next_chunk().unwrap().len(), 2000);
    scan.record_answer(Some(r#"{"has_match": false, "analysis": null}"#));
    assert!(scan.next_chunk().is_some());
    scan.record_answer(Some(r#"{"has_match": true, "analysis": "talks about y"}"#));
    assert!(scan.finished());
    assert!(scan.next_chunk().is_none());
    assert_eq!(scan.chunks_asked(), 2);
    assert_eq!(scan.into_match(), Some(Some("talks about y".to_string())));
}

#[test]
fn scan_treats_failures_as_no_match() {
    let mut scan = ChunkScan::from_text(&"z".repeat(2500));
    scan.record_answer(None);
    scan.record_answer(Some("garbage"));
    assert!(scan.finished());
    assert_eq!(scan.chunks_asked(), 2);
    assert_eq!(scan.into_match(), None);
}

#[test]
fn scan_decodes_bytes_leniently() {
    let mut scan = ChunkScan::new(&vec![b'a', 0xff, b'b']);
    assert_eq!(scan.chunk_count(), 1);
    assert_eq!(scan.next_chunk().unwrap().as_str(), "a\u{fffd}b");
    scan.record_answer(Some(r#"{"has_match": true}"#));
    assert_eq!(scan.into_match(), Some(None));
    let empty = ChunkScan::new(&Vec::new());
    assert!(empty.finished());
}

#[test]
fn verdict_shapes() {
    let v = parse_verdict(r#"{"has_match": true, "analysis": "yes"}"#).unwrap();
    assert!(v.has_match);
    assert_eq!(v.analysis, Some("yes".to_string()));
    let w = parse_verdict(r#"{"has_match": false}"#).unwrap();
    assert!(!w.has_match);
    assert_eq!(w.analysis, None);
    assert!(parse_verdict(r#"{"analysis": "x"}"#).is_none());
    assert!(parse_verdict(r#"{"has_match": "true"}"#).is_none());
    assert!(parse_verdict(r#"{"has_match": true, "analysis": 5}"#).is_none());
    assert!(parse_verdict("[]").is_none());
}

#[test]
fn collector_keeps_only_eligible_files() {
    let mut c = Collector::new(pats(&[".git", "node_modules"]));
    assert_eq!(c.on_entry(comps("README.md"), false, Some(12)), EntryAction::Read);
    assert!(c.on_content(Some(&b"hello world\n".to_vec())));
    assert_eq!(c.on_entry(comps(".git"), true, None), EntryAction::Skip);
    assert_eq!(c.on_entry(comps("src"), true, None), EntryAction::Descend);
    assert_eq!(c.on_entry(comps("src/big.txt"), false, Some(MAX_FILE_SIZE + 1)), EntryAction::Skip);
    assert_eq!(c.on_entry(comps("src/lib.rs"), false, Some(40)), EntryAction::Read);
    assert!(c.on_content(Some(&b"pub fn f() {}".to_vec())));
    assert_eq!(c.on_entry(comps("src/logo.png"), false, Some(500)), EntryAction::Read);
    assert!(!c.on_content(Some(&vec![0x89u8; 500])));
    assert_eq!(c.on_entry(comps("src/gone.rs"), false, Some(5)), EntryAction::Read);
    assert!(!c.on_content(None));
    assert_eq!(c.into_files(), vec![0, 4]);
}

#[test]
fn out_of_range_scores_leave_only_their_name_unresolved() {
    let entries = parse_file_scores(r#"[{"filename":"a.rs","score":1.5},{"filename":"b.rs","score":0.6},{"filename":"c.rs","score":-0.2},{"filename":"d.rs","score":1},{"filename":"e.rs","score":0}]"#);
    assert_eq!(entries.len(), 5);
    let got = merge_scores(&names(&["a.rs", "b.rs", "c.rs", "d.rs", "e.rs"]), &entries);
    assert_eq!(got, vec![Score::zero(), s(0.6), Score::zero(), s(1.0), s(0.0)]);
    let batch = score_batch(&names(&["a.rs", "b.rs"]), r#"{"filenames":[{"filename":"a.rs","score":7},{"filename":"b.rs","score":0.3}]}"#);
    assert_eq!(batch, vec![Score::zero(), s(0.3)]);
    assert!(s(1.0).is_in_unit_range());
    assert!(s(0.0).is_in_unit_range());
    assert!(s(-0.0).is_in_unit_range());
    assert!(!s(1.0000001).is_in_unit_range());
    assert!(!s(-0.1).is_in_unit_range());
}

#[test]
fn collector_gives_up_a_read_that_never_came() {
    let mut c = Collector::new(pats(&[]));
    assert_eq!(c.on_entry(comps("a.txt"), false, Some(3)), EntryAction::Read);
    assert_eq!(c.on_entry(comps("b.txt"), false, Some(3)), EntryAction::Read);
    assert!(c.on_content(Some(&b"abc".to_vec())));
    assert_eq!(c.into_files(), vec![1]);
}
