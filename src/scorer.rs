use vstd::prelude::*;

use crate::json::json_of;
use crate::response::{file_scores_view, parse_file_scores, scores_in, FileScore};
use crate::score::Score;

verus! {

/// How many files one request to the oracle scores at most.
pub const BATCH_SIZE: usize = 100;

/// The score of the first entry named `name`; zero where none is, or where
/// that entry's score lies outside 0 to 1, which leaves the name unresolved.
pub open spec fn score_for(name: Seq<char>, entries: Seq<(Seq<char>, Score)>) -> Score
    decreases entries.len(),
{
    if entries.len() == 0 {
        Score { bits: 0 }
    } else if entries[0].0 == name {
        if entries[0].1.in_unit_range() {
            entries[0].1
        } else {
            Score { bits: 0 }
        }
    } else {
        score_for(name, entries.drop_first())
    }
}

/// The scores of a batch's names, position by position.
pub open spec fn merged_scores(names: Seq<Seq<char>>, entries: Seq<(Seq<char>, Score)>) -> Seq<Score> {
    Seq::new(names.len(), |i: int| score_for(names[i], entries))
}

/// The scores that one answer text gives to a batch.
pub open spec fn batch_scores(names: Seq<Seq<char>>, text: Seq<char>) -> Seq<Score> {
    merged_scores(names, scores_in(json_of(text)))
}

pub open spec fn names_view(names: Seq<String>) -> Seq<Seq<char>> {
    names.map_values(|s: String| s@)
}

/// Whatever the entries say, a merged score lies between 0 and 1.
pub proof fn lemma_score_for_in_range(name: Seq<char>, entries: Seq<(Seq<char>, Score)>)
    ensures
        score_for(name, entries).in_unit_range(),
    decreases entries.len(),
{
    if entries.len() > 0 && entries[0].0 != name {
        lemma_score_for_in_range(name, entries.drop_first());
    }
}

/// Every score of a batch lies between 0 and 1, whatever the answer text.
pub proof fn lemma_batch_scores_in_range(names: Seq<Seq<char>>, text: Seq<char>)
    ensures
        forall|i: int| 0 <= i < names.len() ==> (#[trigger] batch_scores(names, text)[i]).in_unit_range(),
{
    assert forall|i: int| 0 <= i < names.len() implies (#[trigger] batch_scores(names, text)[i]).in_unit_range() by {
        lemma_score_for_in_range(names[i], scores_in(json_of(text)));
    }
}

fn find_score(name: &String, entries: &Vec<FileScore>) -> (r: Score)
    ensures
        r == score_for(name@, file_scores_view(entries@)),
        r.in_unit_range(),
{
    proof {
        lemma_score_for_in_range(name@, file_scores_view(entries@));
    }
    let mut i: usize = 0;
    assert(file_scores_view(entries@).skip(0) =~= file_scores_view(entries@));
    while i < entries.len()
        invariant
            i <= entries@.len(),
            score_for(name@, file_scores_view(entries@)) == score_for(
                name@,
                file_scores_view(entries@).skip(i as int),
            ),
        decreases entries@.len() - i,
    {
        assert(file_scores_view(entries@).skip(i as int).drop_first() =~= file_scores_view(
            entries@,
        ).skip(i as int + 1));
        if entries[i].filename == *name {
            if entries[i].score.is_in_unit_range() {
                return entries[i].score;
            }
            return Score::zero();
        }
        i = i + 1;
    }
    Score::zero()
}

/// Gives each name the score of the first entry with exactly that name, and
/// zero where the answer has none: the result lines up with `names`.
pub fn merge_scores(names: &Vec<String>, entries: &Vec<FileScore>) -> (r: Vec<Score>)
    ensures
        r@ == merged_scores(names_view(names@), file_scores_view(entries@)),
        forall|i: int| 0 <= i < r@.len() ==> (#[trigger] r@[i]).in_unit_range(),
{
    let mut out: Vec<Score> = Vec::new();
    let mut i: usize = 0;
    while i < names.len()
        invariant
            i <= names@.len(),
            out@ =~= merged_scores(names_view(names@), file_scores_view(entries@)).take(i as int),
            forall|k: int| 0 <= k < out@.len() ==> (#[trigger] out@[k]).in_unit_range(),
        decreases names@.len() - i,
    {
        let s = find_score(&names[i], entries);
        out.push(s);
        i = i + 1;
        assert(out@ =~= merged_scores(names_view(names@), file_scores_view(entries@)).take(
            i as int,
        ));
    }
    assert(merged_scores(names_view(names@), file_scores_view(entries@)).take(names@.len() as int)
        =~= merged_scores(names_view(names@), file_scores_view(entries@)));
    out
}

/// Scores one batch from the oracle's answer text. An answer that cannot be
/// read scores the whole batch zero; it is never an error.
pub fn score_batch(names: &Vec<String>, text: &str) -> (r: Vec<Score>)
    ensures
        r@ == batch_scores(names_view(names@), text@),
        r@.len() == names@.len(),
        forall|i: int| 0 <= i < r@.len() ==> (#[trigger] r@[i]).in_unit_range(),
{
    let entries = parse_file_scores(text);
    merge_scores(names, &entries)
}

/// The scoring of a list of files, one batch of names at a time. The caller
/// asks the oracle about `next_batch` and hands its answer to `record_answer`
/// until no batch is left.
pub struct ScoringPass {
    names: Vec<String>,
    scores: Vec<Score>,
}

impl ScoringPass {
    pub closed spec fn names(&self) -> Seq<Seq<char>> {
        names_view(self.names@)
    }

    pub closed spec fn scores(&self) -> Seq<Score> {
        self.scores@
    }

    /// The scores are those of a prefix of whole batches, each between 0 and 1.
    pub open spec fn wf(&self) -> bool {
        &&& self.scores().len() <= self.names().len()
        &&& forall|k: int| 0 <= k < self.scores().len() ==> (#[trigger] self.scores()[k]).in_unit_range()
        &&& (self.scores().len() as int % BATCH_SIZE as int == 0 || self.scores().len() == self.names().len())
    }

    pub open spec fn is_done(&self) -> bool {
        self.scores().len() == self.names().len()
    }

    /// The end of the batch that comes next.
    pub open spec fn batch_end(&self) -> int {
        if self.scores().len() + BATCH_SIZE as int <= self.names().len() {
            self.scores().len() + BATCH_SIZE as int
        } else {
            self.names().len() as int
        }
    }

    /// A pass over the display names of the files, none scored yet.
    pub fn new(names: Vec<String>) -> (r: ScoringPass)
        ensures
            r.wf(),
            r.names() == names_view(names@),
            r.scores() == Seq::<Score>::empty(),
    {
        ScoringPass { names, scores: Vec::new() }
    }

    pub fn done(&self) -> (r: bool)
        ensures
            r == self.is_done(),
    {
        self.scores.len() == self.names.len()
    }

    /// The names of the next batch: up to `BATCH_SIZE` of them, in order;
    /// `None` when every file has a score.
    pub fn next_batch(&self) -> (r: Option<Vec<String>>)
        requires
            self.wf(),
        ensures
            self.is_done() ==> r is None,
            !self.is_done() ==> r is Some && names_view(r->Some_0@) == self.names().subrange(
                self.scores().len() as int,
                self.batch_end(),
            ),
    {
        if self.scores.len() >= self.names.len() {
            return None;
        }
        let start = self.scores.len();
        let end = if self.names.len() - start >= BATCH_SIZE {
            start + BATCH_SIZE
        } else {
            self.names.len()
        };
        let mut batch: Vec<String> = Vec::new();
        let mut i: usize = start;
        while i < end
            invariant
                start <= i <= end <= self.names@.len(),
                batch@ =~= self.names@.subrange(start as int, i as int),
            decreases end - i,
        {
            batch.push(self.names[i].clone());
            i = i + 1;
            assert(batch@ =~= self.names@.subrange(start as int, i as int));
        }
        assert(names_view(batch@) =~= names_view(self.names@).subrange(start as int, end as int));
        Some(batch)
    }

    /// Takes the oracle's answer on the batch that `next_batch` gave, and
    /// appends one score per name of it: zero for a name that the answer
    /// leaves out, and for every name where the answer cannot be read.
    pub fn record_answer(&mut self, text: &str)
        requires
            old(self).wf(),
            !old(self).is_done(),
        ensures
            final(self).wf(),
            final(self).names() == old(self).names(),
            final(self).scores() == old(self).scores() + batch_scores(
                old(self).names().subrange(old(self).scores().len() as int, old(self).batch_end()),
                text@,
            ),
            final(self).scores().len() == old(self).batch_end(),
            forall|k: int| 0 <= k < final(self).scores().len() ==> (#[trigger] final(self).scores()[k]).in_unit_range(),
    {
        let batch = self.next_batch();
        let batch = match batch {
            Some(b) => b,
            None => Vec::new(),
        };
        let got = score_batch(&batch, text);
        let mut i: usize = 0;
        let ghost before = self.scores@;
        while i < got.len()
            invariant
                i <= got@.len(),
                self.names == old(self).names,
                self.scores@ == before + got@.take(i as int),
                forall|k: int| 0 <= k < before.len() ==> (#[trigger] before[k]).in_unit_range(),
                forall|k: int| 0 <= k < got@.len() ==> (#[trigger] got@[k]).in_unit_range(),
            decreases got@.len() - i,
        {
            self.scores.push(got[i]);
            i = i + 1;
            assert(self.scores@ =~= before + got@.take(i as int));
        }
        assert(got@.take(got@.len() as int) =~= got@);
        proof {
            let n = self.scores@.len() as int;
            let s = old(self).scores@.len() as int;
            if s + BATCH_SIZE as int <= old(self).names().len() {
                assert(n == s + BATCH_SIZE as int);
                assert((s + BATCH_SIZE as int) % (BATCH_SIZE as int) == 0) by {
                    assert(s % (BATCH_SIZE as int) == 0);
                }
            }
        }
    }

    /// The scores, one for each name, in the order of the names.
    pub fn into_scores(self) -> (r: Vec<Score>)
        requires
            self.wf(),
        ensures
            r@ == self.scores(),
            forall|k: int| 0 <= k < r@.len() ==> (#[trigger] r@[k]).in_unit_range(),
    {
        self.scores
    }
}

/// Every name that an answer leaves out scores zero; an answer that cannot
/// be read at all scores the whole batch zero.
pub proof fn lemma_unanswered_names_score_zero(names: Seq<Seq<char>>, text: Seq<char>)
    ensures
        batch_scores(names, text).len() == names.len(),
        scores_in(json_of(text)) == Seq::<(Seq<char>, Score)>::empty() ==> forall|i: int|
            0 <= i < names.len() ==> #[trigger] batch_scores(names, text)[i] == (Score { bits: 0 }),
{
}

} // verus!
