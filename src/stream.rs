//! Reading a streamed reply: a sequence of body chunks, each meant to hold
//! one JSON object `{"response": text, "done": flag}`. The texts are joined
//! in arrival order until a chunk reports `done`; chunks that do not decode
//! to that shape are skipped.

use vstd::prelude::*;
use crate::json::{Fragment, decode_fragment, fragment_fields};

verus! {

/// The model of a decoded chunk: its text and its `done` member, if boolean.
pub type FragmentView = Option<(Seq<char>, Option<bool>)>;

/// The model of a reader: the text gathered so far, and whether a chunk has
/// reported the end.
pub type ReadState = (Seq<char>, bool);

pub open spec fn fragment_view(f: Option<Fragment>) -> FragmentView {
    match f {
        Some(x) => Some(x@),
        None => None,
    }
}

/// One chunk read in state `acc`: nothing changes once done, or when the
/// chunk lacks a boolean `done`; else its text is appended and its flag kept.
pub open spec fn step(acc: ReadState, frag: FragmentView) -> ReadState {
    if acc.1 {
        acc
    } else {
        match frag {
            Some((s, Some(d))) => (acc.0 + s, d),
            _ => acc,
        }
    }
}

/// The state after reading `frags` in order from `acc`.
pub open spec fn fold_from(acc: ReadState, frags: Seq<FragmentView>) -> ReadState
    decreases frags.len(),
{
    if frags.len() == 0 {
        acc
    } else {
        fold_from(step(acc, frags[0]), frags.drop_first())
    }
}

pub open spec fn start_state() -> ReadState {
    (Seq::<char>::empty(), false)
}

pub open spec fn decoded(chunks: Seq<Seq<u8>>) -> Seq<FragmentView> {
    chunks.map_values(|c: Seq<u8>| fragment_fields(c))
}

/// The state after reading the chunks `chunks` from the start.
pub open spec fn stream_state(chunks: Seq<Seq<u8>>) -> ReadState {
    fold_from(start_state(), decoded(chunks))
}

/// The text a reader returns for the chunks `chunks`.
pub open spec fn stream_text(chunks: Seq<Seq<u8>>) -> Seq<char> {
    stream_state(chunks).0
}

/// Accumulates the text of a streamed reply, chunk by chunk.
pub struct StreamReader {
    text: String,
    done: bool,
}

impl View for StreamReader {
    type V = ReadState;

    closed spec fn view(&self) -> ReadState {
        (self.text@, self.done)
    }
}

impl StreamReader {
    pub fn new() -> (r: StreamReader)
        ensures
            r@ == start_state(),
    {
        StreamReader { text: String::new(), done: false }
    }

    /// Takes in one chunk that has already been decoded (`None`: it did not
    /// decode).
    pub fn feed_fragment(&mut self, frag: Option<Fragment>)
        ensures
            final(self)@ == step(old(self)@, fragment_view(frag)),
    {
        if self.done {
            return;
        }
        match frag {
            Some(f) => match f.done {
                Some(d) => {
                    self.text.append(f.response.as_str());
                    self.done = d;
                },
                None => {},
            },
            None => {},
        }
    }

    /// Takes in one chunk of the body; returns whether the reply is complete.
    pub fn feed(&mut self, chunk: &[u8]) -> (done: bool)
        ensures
            final(self)@ == step(old(self)@, fragment_fields(chunk@)),
            done == final(self)@.1,
    {
        if self.done {
            return true;
        }
        let frag = match decode_fragment(chunk) {
            Ok(f) => f,
            Err(_) => None,
        };
        self.feed_fragment(frag);
        self.done
    }

    pub fn is_done(&self) -> (r: bool)
        ensures
            r == self@.1,
    {
        self.done
    }

    /// The text gathered so far.
    pub fn text(&self) -> (r: String)
        ensures
            r@ == self@.0,
    {
        self.text.clone()
    }

    pub fn into_text(self) -> (r: String)
        ensures
            r@ == self@.0,
    {
        self.text
    }
}

/// The text of a streamed reply whose body arrived as `chunks`.
pub fn read_stream(chunks: &Vec<Vec<u8>>) -> (r: String)
    ensures
        r@ == stream_text(chunks@.map_values(|c: Vec<u8>| c@)),
{
    let ghost all = chunks@.map_values(|c: Vec<u8>| c@);
    let n = chunks.len();
    let mut reader = StreamReader::new();
    let mut i: usize = 0;
    assert(decoded(all).subrange(0, n as int) =~= decoded(all));
    while i < n
        invariant
            n == chunks@.len(),
            all == chunks@.map_values(|c: Vec<u8>| c@),
            i <= n,
            fold_from(start_state(), decoded(all)) == fold_from(
                reader@,
                decoded(all).subrange(i as int, n as int),
            ),
        decreases n - i,
    {
        let ghost rest = decoded(all).subrange(i as int, n as int);
        assert(rest.drop_first() =~= decoded(all).subrange(i + 1, n as int));
        assert(rest[0] == fragment_fields(chunks@[i as int]@));
        if reader.feed(chunks[i].as_slice()) {
            proof {
                lemma_done_absorbs(reader@, decoded(all).subrange(i + 1, n as int));
            }
            return reader.into_text();
        }
        i = i + 1;
    }
    reader.into_text()
}

/// The text gathered from chunks that have already been decoded, in order.
pub fn collect_fragments(frags: Vec<Option<Fragment>>) -> (r: String)
    ensures
        r@ == fold_from(start_state(), frags@.map_values(|f: Option<Fragment>| fragment_view(f))).0,
{
    let ghost all = frags@.map_values(|f: Option<Fragment>| fragment_view(f));
    let ghost n = frags@.len();
    let mut reader = StreamReader::new();
    let mut rest = frags;
    assert(all.subrange(0, n as int) =~= all);
    while rest.len() > 0
        invariant
            all.len() == n,
            all == frags@.map_values(|f: Option<Fragment>| fragment_view(f)),
            rest@.len() <= n,
            rest@ == frags@.subrange(n - rest@.len(), n as int),
            fold_from(start_state(), all) == fold_from(
                reader@,
                all.subrange(n - rest@.len(), n as int),
            ),
        decreases rest@.len(),
    {
        let ghost k = n - rest@.len();
        let ghost tail = all.subrange(k, n as int);
        assert(tail.drop_first() =~= all.subrange(k + 1, n as int));
        assert(rest@[0] == frags@[k]);
        let f = rest.remove(0);
        assert(rest@ =~= frags@.subrange(n - rest@.len(), n as int));
        reader.feed_fragment(f);
    }
    reader.into_text()
}

/// Once a reader is done, no further fragment changes its state.
pub proof fn lemma_done_absorbs(acc: ReadState, frags: Seq<FragmentView>)
    requires
        acc.1,
    ensures
        fold_from(acc, frags) == acc,
    decreases frags.len(),
{
    if frags.len() > 0 {
        lemma_done_absorbs(step(acc, frags[0]), frags.drop_first());
    }
}

/// Reading `a` then `b` is reading `a + b`.
pub proof fn lemma_fold_concat(acc: ReadState, a: Seq<FragmentView>, b: Seq<FragmentView>)
    ensures
        fold_from(acc, a + b) == fold_from(fold_from(acc, a), b),
    decreases a.len(),
{
    if a.len() > 0 {
        assert((a + b).drop_first() =~= a.drop_first() + b);
        lemma_fold_concat(step(acc, a[0]), a.drop_first(), b);
    }
}

proof fn lemma_fold_one(acc: ReadState, frags: Seq<FragmentView>)
    requires
        frags.len() == 1,
    ensures
        fold_from(acc, frags) == step(acc, frags[0]),
{
    assert(frags.drop_first().len() == 0);
    assert(fold_from(step(acc, frags[0]), frags.drop_first()) == step(acc, frags[0]));
}

proof fn lemma_decoded_concat(a: Seq<Seq<u8>>, b: Seq<Seq<u8>>)
    ensures
        decoded(a + b) == decoded(a) + decoded(b),
{
    assert(decoded(a + b) =~= decoded(a) + decoded(b));
}

/// A stream of one chunk `{"response": s, "done": true}` reads as exactly `s`.
pub proof fn lemma_single_final_chunk(chunk: Seq<u8>, s: Seq<char>)
    requires
        fragment_fields(chunk) == Some((s, Some(true))),
    ensures
        stream_text(seq![chunk]) == s,
        stream_state(seq![chunk]).1,
{
    let d = decoded(seq![chunk]);
    assert(d[0] == fragment_fields(chunk));
    lemma_fold_one(start_state(), d);
    assert(Seq::<char>::empty() + s =~= s);
}

/// Once the chunks read so far report the end, whatever follows is not read.
pub proof fn lemma_ignores_after_done(read: Seq<Seq<u8>>, rest: Seq<Seq<u8>>)
    requires
        stream_state(read).1,
    ensures
        stream_state(read + rest) == stream_state(read),
{
    lemma_decoded_concat(read, rest);
    lemma_fold_concat(start_state(), decoded(read), decoded(rest));
    lemma_done_absorbs(stream_state(read), decoded(rest));
}

/// Chunks with texts `a` (not done) then `b` (done) read as `a + b`, whatever
/// chunks follow them.
pub proof fn lemma_two_chunks_then_stop(
    first: Seq<u8>,
    second: Seq<u8>,
    rest: Seq<Seq<u8>>,
    a: Seq<char>,
    b: Seq<char>,
)
    requires
        fragment_fields(first) == Some((a, Some(false))),
        fragment_fields(second) == Some((b, Some(true))),
    ensures
        stream_text(seq![first, second] + rest) == a + b,
{
    let pair = seq![first, second];
    let d = decoded(pair);
    assert(d[0] == fragment_fields(first));
    assert(d[1] == fragment_fields(second));
    assert(d =~= seq![d[0]] + seq![d[1]]);
    lemma_fold_concat(start_state(), seq![d[0]], seq![d[1]]);
    lemma_fold_one(start_state(), seq![d[0]]);
    lemma_fold_one(step(start_state(), d[0]), seq![d[1]]);
    assert(Seq::<char>::empty() + a =~= a);
    assert(stream_state(pair) == (a + b, true));
    lemma_ignores_after_done(pair, rest);
}

/// A chunk that does not decode to a reply object with a boolean `done` is
/// skipped: the chunks around it read as if it were not there.
pub proof fn lemma_skips_undecodable(pre: Seq<Seq<u8>>, bad: Seq<u8>, post: Seq<Seq<u8>>)
    requires
        !(fragment_fields(bad) matches Some((_, Some(_)))),
    ensures
        stream_state(pre + seq![bad] + post) == stream_state(pre + post),
{
    lemma_decoded_concat(pre + seq![bad], post);
    lemma_decoded_concat(pre, seq![bad]);
    lemma_decoded_concat(pre, post);
    let s = stream_state(pre);
    lemma_fold_concat(start_state(), decoded(pre) + decoded(seq![bad]), decoded(post));
    lemma_fold_concat(start_state(), decoded(pre), decoded(seq![bad]));
    lemma_fold_concat(start_state(), decoded(pre), decoded(post));
    let one = decoded(seq![bad]);
    assert(one[0] == fragment_fields(bad));
    lemma_fold_one(s, one);
}

} // verus!
