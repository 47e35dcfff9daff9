use vstd::prelude::*;

use crate::score::Score;

verus! {

/// How many collect-and-score attempts a ranking pass makes at most.
pub const MAX_SORT_TRY_COUNT: usize = 3;

/// A collected file, by its position in the collected list, with its score.
#[derive(Clone, Copy, Debug, PartialEq, Eq, Structural)]
pub struct Candidate {
    pub file: usize,
    pub score: Score,
}

/// `a` comes before `b`: a higher score, or the same score and collected earlier.
pub open spec fn precedes(a: Candidate, b: Candidate) -> bool {
    a.score.rank() > b.score.rank() || (a.score.rank() == b.score.rank() && a.file < b.file)
}

/// `r` holds each of the `scores` once, with its position, highest score
/// first and, among equal scores, in the order of collection.
pub open spec fn is_stable_ranking(scores: Seq<Score>, r: Seq<Candidate>) -> bool {
    &&& r.len() == scores.len()
    &&& forall|k: int| 0 <= k < r.len() ==> (#[trigger] r[k]).file < scores.len() && r[k].score == scores[r[k].file as int]
    &&& forall|a: int, b: int| 0 <= a < b < r.len() ==> precedes(#[trigger] r[a], #[trigger] r[b])
}

/// Sorts the scores of the collected files, highest first; equal scores keep
/// the order in which the files were collected.
pub fn rank_candidates(scores: &Vec<Score>) -> (r: Vec<Candidate>)
    ensures
        is_stable_ranking(scores@, r@),
        forall|a: int, b: int| 0 <= a < b < r@.len() ==> (#[trigger] r@[a]).file != (#[trigger] r@[b]).file,
{
    let mut out: Vec<Candidate> = Vec::new();
    let mut i: usize = 0;
    while i < scores.len()
        invariant
            i <= scores@.len(),
            out@.len() == i,
            forall|k: int| 0 <= k < out@.len() ==> (#[trigger] out@[k]).file < i && out@[k].score == scores@[out@[k].file as int],
            forall|a: int, b: int| 0 <= a < b < out@.len() ==> precedes(#[trigger] out@[a], #[trigger] out@[b]),
        decreases scores@.len() - i,
    {
        let c = Candidate { file: i, score: scores[i] };
        let mut j: usize = 0;
        while j < out.len() && out[j].score.at_least(&c.score)
            invariant
                j <= out@.len(),
                forall|k: int| 0 <= k < j ==> (#[trigger] out@[k]).score.rank() >= c.score.rank(),
            decreases out@.len() - j,
        {
            j = j + 1;
        }
        proof {
            assert forall|k: int| j <= k < out@.len() implies (#[trigger] out@[k]).score.rank() < c.score.rank() by {
                if k > j {
                    assert(precedes(out@[j as int], out@[k]));
                }
            }
        }
        let ghost prev = out@;
        out.insert(j, c);
        assert(out@ =~= prev.insert(j as int, c));
        proof {
            assert forall|a: int, b: int| 0 <= a < b < out@.len() implies precedes(#[trigger] out@[a], #[trigger] out@[b]) by {
                if b < j {
                    assert(precedes(prev[a], prev[b]));
                } else if b == j {
                    assert(out@[a] == prev[a]);
                } else if a == j {
                    assert(out@[b] == prev[b - 1]);
                } else if a < j {
                    assert(out@[b] == prev[b - 1]);
                } else {
                    assert(precedes(prev[a - 1], prev[b - 1]));
                }
            }
        }
        i = i + 1;
    }
    proof {
        assert forall|a: int, b: int| 0 <= a < b < out@.len() implies (#[trigger] out@[a]).file != (#[trigger] out@[b]).file by {
            assert(precedes(out@[a], out@[b]));
        }
    }
    out
}

/// Whether any candidate scored above zero.
pub fn any_positive(ranked: &Vec<Candidate>) -> (r: bool)
    ensures
        r == exists|k: int| 0 <= k < ranked@.len() && (#[trigger] ranked@[k]).score.rank() > 0,
{
    let mut i: usize = 0;
    while i < ranked.len()
        invariant
            i <= ranked@.len(),
            forall|k: int| 0 <= k < i ==> (#[trigger] ranked@[k]).score.rank() <= 0,
        decreases ranked@.len() - i,
    {
        if ranked[i].score.is_positive() {
            return true;
        }
        i = i + 1;
    }
    false
}

pub open spec fn has_positive(ranked: Seq<Candidate>) -> bool {
    exists|k: int| 0 <= k < ranked.len() && (#[trigger] ranked[k]).score.rank() > 0
}

/// What a ranking pass does with the ranking of one attempt, made after
/// `tries` earlier all-zero attempts: `Some` ends the pass with that result,
/// `None` asks for another attempt.
pub open spec fn retry_step(tries: nat, ranked: Seq<Candidate>) -> Option<Seq<Candidate>> {
    if ranked.len() == 0 {
        Some(seq![])
    } else if has_positive(ranked) {
        Some(ranked)
    } else if tries + 1 >= MAX_SORT_TRY_COUNT {
        Some(seq![])
    } else {
        None
    }
}

/// The result of a ranking pass whose attempts rank as `attempts`, in order,
/// after `tries` earlier all-zero attempts; `None` where the attempts run out first.
pub open spec fn retry_outcome(tries: nat, attempts: Seq<Seq<Candidate>>) -> Option<Seq<Candidate>>
    decreases attempts.len(),
{
    if attempts.len() == 0 {
        None
    } else {
        match retry_step(tries, attempts[0]) {
            Some(r) => Some(r),
            None => retry_outcome(tries + 1, attempts.drop_first()),
        }
    }
}

/// The decisions of a ranking pass: the caller collects and scores the files,
/// hands the ranking to `on_attempt`, and goes again while it answers `None`.
pub struct RankRetry {
    tries: usize,
}

impl RankRetry {
    pub closed spec fn tries(&self) -> nat {
        self.tries as nat
    }

    pub fn new() -> (r: RankRetry)
        ensures
            r.tries() == 0,
    {
        RankRetry { tries: 0 }
    }

    /// No ranking yet has ended the pass and an attempt is left.
    pub open spec fn wf(&self) -> bool {
        self.tries() < MAX_SORT_TRY_COUNT
    }

    /// Decides on one attempt's ranking: an empty collection ends the pass
    /// with nothing, a positive score ends it with the ranking, and an
    /// all-zero ranking asks for another attempt until the last, which ends
    /// the pass with nothing.
    pub fn on_attempt(&mut self, ranked: Vec<Candidate>) -> (r: Option<Vec<Candidate>>)
        requires
            old(self).wf(),
        ensures
            retry_step(old(self).tries(), ranked@) == match r {
                Some(v) => Some(v@),
                None => None::<Seq<Candidate>>,
            },
            r is None ==> final(self).tries() == old(self).tries() + 1 && final(self).wf(),
    {
        if ranked.len() == 0 {
            let empty: Vec<Candidate> = Vec::new();
            assert(empty@ =~= seq![]);
            return Some(empty);
        }
        if any_positive(&ranked) {
            return Some(ranked);
        }
        self.tries = self.tries + 1;
        if self.tries >= MAX_SORT_TRY_COUNT {
            let empty: Vec<Candidate> = Vec::new();
            assert(empty@ =~= seq![]);
            Some(empty)
        } else {
            None
        }
    }
}

/// A ranking pass makes at most three attempts: whatever the attempts after
/// the third would rank, the result is the same.
pub proof fn lemma_retry_bounded(attempts: Seq<Seq<Candidate>>)
    requires
        attempts.len() >= MAX_SORT_TRY_COUNT,
    ensures
        retry_outcome(0, attempts) is Some,
        retry_outcome(0, attempts) == retry_outcome(0, attempts.take(MAX_SORT_TRY_COUNT as int)),
{
    reveal_with_fuel(retry_outcome, 4);
    let t = attempts.take(3);
    assert(t.drop_first() =~= attempts.drop_first().take(2));
    assert(t.drop_first().drop_first() =~= attempts.drop_first().drop_first().take(1));
    assert(attempts.drop_first().drop_first()[0] == attempts[2]);
    assert(t.drop_first().drop_first()[0] == attempts[2]);
}

/// Three attempts that all rank some files at zero end the pass with an
/// empty result, not an error.
pub proof fn lemma_all_zero_gives_empty(attempts: Seq<Seq<Candidate>>)
    requires
        attempts.len() >= MAX_SORT_TRY_COUNT,
        forall|k: int| 0 <= k < MAX_SORT_TRY_COUNT ==> (#[trigger] attempts[k]).len() > 0 && !has_positive(attempts[k]),
    ensures
        retry_outcome(0, attempts) == Some(Seq::<Candidate>::empty()),
{
    reveal_with_fuel(retry_outcome, 4);
    assert(attempts.drop_first()[0] == attempts[1]);
    assert(attempts.drop_first().drop_first()[0] == attempts[2]);
}

/// The first attempt that gives some file a positive score ends the pass with
/// its ranking, provided the attempts before it ranked files all at zero.
pub proof fn lemma_first_positive_is_returned(attempts: Seq<Seq<Candidate>>, k: int)
    requires
        0 <= k < MAX_SORT_TRY_COUNT,
        k < attempts.len(),
        has_positive(attempts[k]),
        forall|j: int| 0 <= j < k ==> (#[trigger] attempts[j]).len() > 0 && !has_positive(attempts[j]),
    ensures
        retry_outcome(0, attempts) == Some(attempts[k]),
        attempts[k].len() > 0,
{
    reveal_with_fuel(retry_outcome, 4);
    assert(attempts[k].len() > 0);
    if k >= 1 {
        assert(attempts.drop_first()[k - 1] == attempts[k]);
        assert(attempts.drop_first()[0] == attempts[1]);
        if k >= 2 {
            assert(attempts.drop_first().drop_first()[0] == attempts[2]);
        }
    }
}

} // verus!
