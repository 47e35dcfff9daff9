use vstd::prelude::*;

use crate::json::{field_of, get_field, json_of, parse_json, JsonValue};
use crate::score::Score;

verus! {

/// One entry of the oracle's scoring answer.
pub struct FileScore {
    pub filename: String,
    pub score: Score,
}

/// The oracle's judgment on one chunk of text.
pub struct Verdict {
    pub has_match: bool,
    pub analysis: Option<String>,
}

pub open spec fn file_score_view(e: FileScore) -> (Seq<char>, Score) {
    (e.filename@, e.score)
}

pub open spec fn file_scores_view(s: Seq<FileScore>) -> Seq<(Seq<char>, Score)> {
    s.map_values(|e: FileScore| file_score_view(e))
}

/// An object with a string field `filename` and a numeric field `score`.
pub open spec fn score_entry(v: JsonValue) -> Option<(Seq<char>, Score)> {
    match v {
        JsonValue::Object(f) => match (field_of(f@, "filename"@), field_of(f@, "score"@)) {
            (Some(JsonValue::Str(s)), Some(JsonValue::Number(Some(b)))) => Some((s@, Score { bits: b })),
            _ => None,
        },
        _ => None,
    }
}

/// Every element is a score entry; a single malformed one spoils the list.
pub open spec fn score_entries(a: Seq<JsonValue>) -> Option<Seq<(Seq<char>, Score)>> {
    if forall|i: int| 0 <= i < a.len() ==> (#[trigger] score_entry(a[i])) is Some {
        Some(Seq::new(a.len(), |i: int| score_entry(a[i])->Some_0))
    } else {
        None
    }
}

/// The shape `{"filenames": [entry, ...]}`.
pub open spec fn wrapped_scores(v: JsonValue) -> Option<Seq<(Seq<char>, Score)>> {
    match v {
        JsonValue::Object(f) => match field_of(f@, "filenames"@) {
            Some(JsonValue::Array(a)) => score_entries(a@),
            _ => None,
        },
        _ => None,
    }
}

/// The shape `[entry, ...]`.
pub open spec fn bare_scores(v: JsonValue) -> Option<Seq<(Seq<char>, Score)>> {
    match v {
        JsonValue::Array(a) => score_entries(a@),
        _ => None,
    }
}

/// The entries read from a scoring answer: the wrapped shape first, then the
/// bare one, and nothing when neither fits.
pub open spec fn scores_in(doc: Option<JsonValue>) -> Seq<(Seq<char>, Score)> {
    match doc {
        Some(v) => match wrapped_scores(v) {
            Some(s) => s,
            None => match bare_scores(v) {
                Some(s) => s,
                None => seq![],
            },
        },
        None => seq![],
    }
}

/// The verdict read from an answer `{"has_match": bool, "analysis": string | null}`;
/// `analysis` may be left out.
pub open spec fn verdict_in(doc: Option<JsonValue>) -> Option<(bool, Option<Seq<char>>)> {
    match doc {
        Some(JsonValue::Object(f)) => match field_of(f@, "has_match"@) {
            Some(JsonValue::Bool(b)) => match field_of(f@, "analysis"@) {
                None => Some((b, None)),
                Some(JsonValue::Null) => Some((b, None)),
                Some(JsonValue::Str(s)) => Some((b, Some(s@))),
                _ => None,
            },
            _ => None,
        },
        _ => None,
    }
}

pub open spec fn verdict_view(v: Verdict) -> (bool, Option<Seq<char>>) {
    (
        v.has_match,
        match v.analysis {
            Some(s) => Some(s@),
            None => None,
        },
    )
}

fn score_entry_from(v: &JsonValue) -> (r: Option<FileScore>)
    ensures
        match r {
            Some(e) => score_entry(*v) == Some(file_score_view(e)),
            None => score_entry(*v) is None,
        },
{
    match v {
        JsonValue::Object(f) => {
            let name = get_field(f, "filename");
            let score = get_field(f, "score");
            match (name, score) {
                (Some(JsonValue::Str(s)), Some(JsonValue::Number(Some(b)))) => {
                    Some(FileScore { filename: s.clone(), score: Score::from_bits(*b) })
                },
                _ => None,
            }
        },
        _ => None,
    }
}

fn score_entries_from(a: &Vec<JsonValue>) -> (r: Option<Vec<FileScore>>)
    ensures
        match r {
            Some(s) => score_entries(a@) == Some(file_scores_view(s@)),
            None => score_entries(a@) is None,
        },
{
    let mut out: Vec<FileScore> = Vec::new();
    let mut i: usize = 0;
    while i < a.len()
        invariant
            i <= a@.len(),
            out@.len() == i,
            forall|j: int| 0 <= j < i ==> score_entry(a@[j]) == Some(#[trigger] file_score_view(out@[j])),
        decreases a@.len() - i,
    {
        match score_entry_from(&a[i]) {
            Some(e) => out.push(e),
            None => {
                assert(score_entry(a@[i as int]) is None);
                return None;
            },
        }
        i = i + 1;
    }
    assert forall|j: int| 0 <= j < a@.len() implies (#[trigger] score_entry(a@[j])) is Some by {
        assert(score_entry(a@[j]) == Some(file_score_view(out@[j])));
    }
    assert(file_scores_view(out@) =~= Seq::new(a@.len(), |j: int| score_entry(a@[j])->Some_0));
    Some(out)
}

/// Reads the scoring entries out of a parsed answer, accepting either shape.
pub fn scores_from_document(doc: &Option<JsonValue>) -> (r: Vec<FileScore>)
    ensures
        file_scores_view(r@) == scores_in(*doc),
{
    match doc {
        Some(v) => {
            let wrapped = match v {
                JsonValue::Object(f) => match get_field(f, "filenames") {
                    Some(JsonValue::Array(a)) => score_entries_from(a),
                    _ => None,
                },
                _ => None,
            };
            match wrapped {
                Some(s) => s,
                None => {
                    let bare = match v {
                        JsonValue::Array(a) => score_entries_from(a),
                        _ => None,
                    };
                    match bare {
                        Some(s) => s,
                        None => {
                            let empty: Vec<FileScore> = Vec::new();
                            assert(file_scores_view(empty@) =~= seq![]);
                            empty
                        },
                    }
                },
            }
        },
        None => {
            let empty: Vec<FileScore> = Vec::new();
            assert(file_scores_view(empty@) =~= seq![]);
            empty
        },
    }
}

/// Parses the oracle's scoring answer; text that fits neither shape gives no
/// entries, never an error.
pub fn parse_file_scores(text: &str) -> (r: Vec<FileScore>)
    ensures
        file_scores_view(r@) == scores_in(json_of(text@)),
{
    let doc = parse_json(text);
    scores_from_document(&doc)
}

/// Reads a verdict out of a parsed answer.
pub fn verdict_from_document(doc: &Option<JsonValue>) -> (r: Option<Verdict>)
    ensures
        match r {
            Some(v) => verdict_in(*doc) == Some(verdict_view(v)),
            None => verdict_in(*doc) is None,
        },
{
    match doc {
        Some(JsonValue::Object(f)) => match get_field(f, "has_match") {
            Some(JsonValue::Bool(b)) => match get_field(f, "analysis") {
                None => Some(Verdict { has_match: *b, analysis: None }),
                Some(JsonValue::Null) => Some(Verdict { has_match: *b, analysis: None }),
                Some(JsonValue::Str(s)) => Some(Verdict { has_match: *b, analysis: Some(s.clone()) }),
                _ => None,
            },
            _ => None,
        },
        _ => None,
    }
}

/// Parses the oracle's answer on one chunk; `None` where it is malformed.
pub fn parse_verdict(text: &str) -> (r: Option<Verdict>)
    ensures
        match r {
            Some(v) => verdict_in(json_of(text@)) == Some(verdict_view(v)),
            None => verdict_in(json_of(text@)) is None,
        },
{
    let doc = parse_json(text);
    verdict_from_document(&doc)
}

} // verus!
