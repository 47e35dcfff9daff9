use vstd::prelude::*;

use vstd::utf8::{decode_utf8, valid_utf8};

use crate::json::json_of;
use crate::response::{parse_verdict, verdict_in};

verus! {

/// How many characters one chunk holds at most.
pub const CHUNK_SIZE: usize = 2000;

/// The text that std's lossy UTF-8 decoding gives for some bytes.
pub uninterp spec fn lossy_text(bytes: Seq<u8>) -> Seq<char>;

/// Relies on String::from_utf8_lossy: decodes the bytes, putting U+FFFD in
/// place of each invalid sequence; well-formed UTF-8 decodes unchanged.
#[verifier::external_body]
fn decode_lossy(bytes: &[u8]) -> (r: String)
    ensures
        r@ == lossy_text(bytes@),
        valid_utf8(bytes@) ==> r@ == decode_utf8(bytes@),
{
    String::from_utf8_lossy(bytes).into_owned()
}

/// The text cut into consecutive pieces of `CHUNK_SIZE` characters, the last
/// one shorter where the length is no multiple of it.
pub open spec fn chunks_of(s: Seq<char>) -> Seq<Seq<char>>
    decreases s.len(),
{
    if s.len() == 0 {
        seq![]
    } else if s.len() <= CHUNK_SIZE {
        seq![s]
    } else {
        seq![s.take(CHUNK_SIZE as int)] + chunks_of(s.skip(CHUNK_SIZE as int))
    }
}

pub open spec fn strings_view(v: Seq<String>) -> Seq<Seq<char>> {
    v.map_values(|s: String| s@)
}

/// Cuts a text into chunks of at most `CHUNK_SIZE` characters, in order.
pub fn chunk_text(text: &str) -> (r: Vec<String>)
    ensures
        strings_view(r@) == chunks_of(text@),
{
    let n = text.unicode_len();
    let mut out: Vec<String> = Vec::new();
    let mut pos: usize = 0;
    assert(text@.skip(0) =~= text@);
    while pos < n
        invariant
            n == text@.len(),
            pos <= n,
            strings_view(out@) + chunks_of(text@.skip(pos as int)) == chunks_of(text@),
        decreases n - pos,
    {
        let end: usize = if n - pos > CHUNK_SIZE {
            pos + CHUNK_SIZE
        } else {
            n
        };
        let piece = text.substring_char(pos, end);
        let ghost rest = text@.skip(pos as int);
        let ghost prev = out@;
        out.push(piece.to_string());
        proof {
            broadcast use vstd::string::to_string_from_display_ensures_for_str;

            assert(strings_view(out@) =~= strings_view(prev).push(piece@));
            if end == n {
                assert(rest =~= piece@);
                assert(text@.skip(end as int) =~= seq![]);
                assert(chunks_of(rest) =~= seq![piece@]);
            } else {
                assert(rest.take(CHUNK_SIZE as int) =~= piece@);
                assert(rest.skip(CHUNK_SIZE as int) =~= text@.skip(end as int));
            }
            assert(strings_view(out@) + chunks_of(text@.skip(end as int)) =~= strings_view(prev)
                + chunks_of(rest));
        }
        pos = end;
    }
    assert(text@.skip(n as int) =~= seq![]);
    assert(strings_view(out@) =~= strings_view(out@) + chunks_of(text@.skip(n as int)));
    out
}

/// Putting the chunks back together gives the text; every chunk but the last
/// holds exactly `CHUNK_SIZE` characters, and the last one at least one.
pub proof fn lemma_chunks_round_trip(s: Seq<char>)
    ensures
        chunks_of(s).flatten() == s,
        forall|i: int| 0 <= i < chunks_of(s).len() - 1 ==> (#[trigger] chunks_of(s)[i]).len() == CHUNK_SIZE,
        chunks_of(s).len() > 0 ==> 0 < chunks_of(s).last().len() <= CHUNK_SIZE,
        chunks_of(s).len() * CHUNK_SIZE >= s.len(),
    decreases s.len(),
{
    if s.len() == 0 {
        assert(chunks_of(s).flatten() =~= s);
    } else if s.len() <= CHUNK_SIZE {
        seq![s].lemma_flatten_one_element();
    } else {
        let rest = s.skip(CHUNK_SIZE as int);
        lemma_chunks_round_trip(rest);
        let c = chunks_of(s);
        assert(c.drop_first() =~= chunks_of(rest));
        assert(c.first() == s.take(CHUNK_SIZE as int));
        assert(s =~= s.take(CHUNK_SIZE as int) + rest);
        assert forall|i: int| 0 <= i < c.len() - 1 implies (#[trigger] c[i]).len() == CHUNK_SIZE by {
            if i > 0 {
                assert(c[i] == chunks_of(rest)[i - 1]);
            }
        }
        assert(c.last() == chunks_of(rest).last());
    }
}

/// The content check of one file: its text in chunks, asked about one chunk
/// at a time, until the oracle confirms a match or the chunks run out.
pub struct ChunkScan {
    chunks: Vec<String>,
    next: usize,
    found: Option<Option<String>>,
}

impl ChunkScan {
    pub closed spec fn chunks(&self) -> Seq<Seq<char>> {
        strings_view(self.chunks@)
    }

    proof fn lemma_chunk_count(&self)
        ensures
            self.chunks().len() == self.chunks@.len(),
    {
    }

    /// How many chunks the oracle has been asked about.
    pub closed spec fn asked(&self) -> nat {
        self.next as nat
    }

    /// The explanation of the confirmed match, once there is one.
    pub closed spec fn found(&self) -> Option<Option<Seq<char>>> {
        match self.found {
            Some(Some(s)) => Some(Some(s@)),
            Some(None) => Some(None),
            None => None,
        }
    }

    pub open spec fn wf(&self) -> bool {
        self.asked() <= self.chunks().len()
    }

    pub open spec fn is_finished(&self) -> bool {
        self.found() is Some || self.asked() == self.chunks().len()
    }

    /// A scan of a file's bytes, decoded leniently: invalid sequences are
    /// replaced, never an error.
    pub fn new(content: &Vec<u8>) -> (r: ChunkScan)
        ensures
            r.wf(),
            r.chunks() == chunks_of(lossy_text(content@)),
            valid_utf8(content@) ==> r.chunks() == chunks_of(decode_utf8(content@)),
            r.asked() == 0,
            r.found() is None,
    {
        let text = decode_lossy(content.as_slice());
        let chunks = chunk_text(text.as_str());
        ChunkScan { chunks, next: 0, found: None }
    }

    /// A scan of a text that is already decoded.
    pub fn from_text(text: &str) -> (r: ChunkScan)
        ensures
            r.wf(),
            r.chunks() == chunks_of(text@),
            r.asked() == 0,
            r.found() is None,
    {
        let chunks = chunk_text(text);
        ChunkScan { chunks, next: 0, found: None }
    }

    /// The chunk to ask the oracle about next; `None` once a match is
    /// confirmed or every chunk has been asked about.
    pub fn next_chunk(&self) -> (r: Option<&String>)
        requires
            self.wf(),
        ensures
            self.is_finished() ==> r is None,
            !self.is_finished() ==> r is Some && r->Some_0@ == self.chunks()[self.asked() as int],
    {
        proof {
            self.lemma_chunk_count();
        }
        if self.found.is_some() || self.next >= self.chunks.len() {
            None
        } else {
            Some(&self.chunks[self.next])
        }
    }

    /// Takes the oracle's answer on the chunk that `next_chunk` gave, `None`
    /// where the call failed. A readable verdict with `has_match` ends the
    /// scan with its explanation; anything else moves on to the next chunk.
    pub fn record_answer(&mut self, answer: Option<&str>)
        requires
            old(self).wf(),
            !old(self).is_finished(),
        ensures
            final(self).wf(),
            final(self).chunks() == old(self).chunks(),
            final(self).asked() == old(self).asked() + 1,
            match answer {
                Some(text) => match verdict_in(json_of(text@)) {
                    Some((true, analysis)) => final(self).found() == Some(analysis),
                    _ => final(self).found() is None,
                },
                None => final(self).found() is None,
            },
            final(self).found() is Some ==> final(self).is_finished(),
    {
        proof {
            self.lemma_chunk_count();
        }
        if self.next < self.chunks.len() {
            self.next = self.next + 1;
        }
        if let Some(text) = answer {
            if let Some(v) = parse_verdict(text) {
                if v.has_match {
                    self.found = Some(v.analysis);
                }
            }
        }
    }

    pub fn finished(&self) -> (r: bool)
        requires
            self.wf(),
        ensures
            r == self.is_finished(),
    {
        proof {
            self.lemma_chunk_count();
        }
        self.found.is_some() || self.next >= self.chunks.len()
    }

    /// The explanation of the confirmed match: `Some` once the oracle has
    /// confirmed one, holding its explanation where it gave one.
    pub fn into_match(self) -> (r: Option<Option<String>>)
        ensures
            match r {
                Some(Some(s)) => self.found() == Some(Some(s@)),
                Some(None) => self.found() == Some(None::<Seq<char>>),
                None => self.found() is None,
            },
    {
        self.found
    }

    /// How many chunks the oracle has been asked about.
    pub fn chunks_asked(&self) -> (r: usize)
        ensures
            r == self.asked(),
    {
        self.next
    }

    pub fn chunk_count(&self) -> (r: usize)
        ensures
            r == self.chunks().len(),
    {
        proof {
            self.lemma_chunk_count();
        }
        self.chunks.len()
    }
}

} // verus!
