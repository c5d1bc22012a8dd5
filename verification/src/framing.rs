//! Framing of a chunked byte stream into lines of text.

use vstd::prelude::*;
use crate::fields::{
    lemma_split_concat, lemma_split_nonempty, lemma_split_step, lemma_split_without_separator,
    split_on, texts,
};

verus! {

/// The line feed that ends a line.
pub const LINE_FEED: u8 = 10;

/// The carriage return that may precede the line feed.
pub const CARRIAGE_RETURN: u8 = 13;

/// The text that lossy UTF-8 decoding makes of `bytes`: valid sequences decode
/// to their characters, each invalid one to the replacement character.
pub uninterp spec fn lossy_text(bytes: Seq<u8>) -> Seq<char>;

/// Decodes bytes to text with `String::from_utf8_lossy`. Nothing is proved of
/// the decoding itself: the contract only gives its result the name
/// `lossy_text`, a function of the bytes alone, and it never fails.
#[verifier::external_body]
fn decode_lossy(bytes: &[u8]) -> (text: String)
    ensures
        text@ == lossy_text(bytes@),
{
    String::from_utf8_lossy(bytes).into_owned()
}

/// A line without the carriage return that may end it.
pub open spec fn strip_cr(line: Seq<u8>) -> Seq<u8> {
    if line.len() > 0 && line.last() == 13u8 {
        line.drop_last()
    } else {
        line
    }
}

/// The lines of a byte stream that a line feed has ended, in order, each
/// without its line feed and without a carriage return before it.
pub open spec fn complete_lines(stream: Seq<u8>) -> Seq<Seq<u8>> {
    split_on(stream, 10u8).drop_last().map_values(|line: Seq<u8>| strip_cr(line))
}

/// What follows the last line feed of a byte stream: the start of a line that
/// is not complete yet.
pub open spec fn partial_line(stream: Seq<u8>) -> Seq<u8> {
    split_on(stream, 10u8).last()
}

/// The views of a sequence of byte vectors.
pub open spec fn byte_lines(v: Seq<Vec<u8>>) -> Seq<Seq<u8>> {
    v.map_values(|line: Vec<u8>| line@)
}

/// The text of each of a sequence of lines.
pub open spec fn lossy_texts(lines: Seq<Seq<u8>>) -> Seq<Seq<char>> {
    lines.map_values(|line: Seq<u8>| lossy_text(line))
}

/// Decodes each line to text; bytes that are not valid UTF-8 are replaced, so
/// no line is lost and no line fails.
pub fn lines_to_text(raw: &Vec<Vec<u8>>) -> (lines: Vec<String>)
    ensures
        texts(lines@) == lossy_texts(byte_lines(raw@)),
{
    let mut lines: Vec<String> = Vec::new();
    let mut i: usize = 0;
    while i < raw.len()
        invariant
            i <= raw.len(),
            lines.len() == i,
            forall|k: int| 0 <= k < i ==> (#[trigger] lines[k])@ == lossy_text(raw[k]@),
        decreases raw.len() - i,
    {
        lines.push(decode_lossy(raw[i].as_slice()));
        i += 1;
    }
    assert(texts(lines@) =~= lossy_texts(byte_lines(raw@)));
    lines
}

/// Collects the bytes of a stream that arrives in chunks and hands out its
/// lines as they become complete. The bytes after the last line feed wait here
/// for the rest of their line.
pub struct SentenceBuffer {
    pending: Vec<u8>,
}

impl View for SentenceBuffer {
    type V = Seq<u8>;

    /// The bytes of the line that is not complete yet.
    closed spec fn view(&self) -> Seq<u8> {
        self.pending@
    }
}

impl SentenceBuffer {
    /// The pending bytes hold no line feed.
    pub open spec fn wf(&self) -> bool {
        forall|i: int| 0 <= i < self@.len() ==> self@[i] != 10u8
    }

    /// A buffer with nothing pending.
    pub fn new() -> (buffer: SentenceBuffer)
        ensures
            buffer.wf(),
            buffer@ == Seq::<u8>::empty(),
    {
        SentenceBuffer { pending: Vec::new() }
    }

    /// The number of bytes that wait for the rest of their line.
    pub fn pending_len(&self) -> (n: usize)
        ensures
            n == self@.len(),
    {
        self.pending.len()
    }

    /// Takes in a chunk and returns, as bytes, the lines that it completes.
    /// The stream so far is what was pending followed by the chunk; its
    /// unfinished last line stays pending.
    pub fn frame(&mut self, bytes: &[u8]) -> (lines: Vec<Vec<u8>>)
        requires
            old(self).wf(),
        ensures
            final(self).wf(),
            byte_lines(lines@) == complete_lines(old(self)@ + bytes@),
            final(self)@ == partial_line(old(self)@ + bytes@),
    {
        let ghost start = self@;
        let ghost mut raw: Seq<Seq<u8>> = Seq::empty();
        let mut lines: Vec<Vec<u8>> = Vec::new();
        let mut i: usize = 0;
        proof {
            lemma_split_without_separator(start, 10u8);
            assert(start + bytes@.take(0) =~= start);
            assert(raw.push(start) =~= seq![start]);
            assert(byte_lines(lines@) =~= raw.map_values(|line: Seq<u8>| strip_cr(line)));
        }
        while i < bytes.len()
            invariant
                i <= bytes.len(),
                self.wf(),
                split_on(start + bytes@.take(i as int), 10u8) == raw.push(self@),
                byte_lines(lines@) == raw.map_values(|line: Seq<u8>| strip_cr(line)),
            decreases bytes.len() - i,
        {
            let b: u8 = bytes[i];
            proof {
                lemma_split_step(start + bytes@.take(i as int), 10u8, raw, self@, b);
                assert((start + bytes@.take(i as int)).push(b) =~= start + bytes@.take(i + 1));
            }
            if b == LINE_FEED {
                let mut line: Vec<u8> = Vec::new();
                core::mem::swap(&mut line, &mut self.pending);
                let ghost whole = line@;
                let ghost before = lines@;
                let n: usize = line.len();
                if n > 0 && line[n - 1] == CARRIAGE_RETURN {
                    line.pop();
                }
                assert(line@ =~= strip_cr(whole));
                lines.push(line);
                proof {
                    let strip = |line: Seq<u8>| strip_cr(line);
                    assert(byte_lines(lines@) =~= byte_lines(before).push(strip_cr(whole)));
                    assert(raw.push(whole).map_values(strip) =~= raw.map_values(strip).push(
                        strip_cr(whole),
                    ));
                    raw = raw.push(whole);
                }
            } else {
                self.pending.push(b);
            }
            i += 1;
        }
        proof {
            assert(bytes@.take(i as int) =~= bytes@);
            assert(raw.push(self@).drop_last() =~= raw);
        }
        lines
    }

    /// Takes in a chunk and returns the text of the lines that it completes.
    pub fn feed(&mut self, bytes: &[u8]) -> (lines: Vec<String>)
        requires
            old(self).wf(),
        ensures
            final(self).wf(),
            texts(lines@) == lossy_texts(complete_lines(old(self)@ + bytes@)),
            final(self)@ == partial_line(old(self)@ + bytes@),
    {
        let raw = self.frame(bytes);
        lines_to_text(&raw)
    }
}

/// How a stream is cut into chunks does not matter: feeding `first` and then
/// `second` yields, together, the lines that feeding both at once yields, and
/// leaves the same bytes pending. In particular a line that is split between
/// two chunks comes out once and whole.
pub proof fn lemma_chunking_is_immaterial(pending: Seq<u8>, first: Seq<u8>, second: Seq<u8>)
    ensures
        complete_lines(pending + first) + complete_lines(partial_line(pending + first) + second)
            == complete_lines(pending + (first + second)),
        partial_line(partial_line(pending + first) + second) == partial_line(
            pending + (first + second),
        ),
{
    let stream = pending + first;
    lemma_split_concat(stream, second, 10u8);
    lemma_split_nonempty(partial_line(stream) + second, 10u8);
    assert(stream + second =~= pending + (first + second));
    let done = split_on(stream, 10u8).drop_last();
    let tail = split_on(partial_line(stream) + second, 10u8);
    let strip = |line: Seq<u8>| strip_cr(line);
    assert((done + tail).drop_last() =~= done + tail.drop_last());
    assert((done + tail.drop_last()).map_values(strip) =~= done.map_values(strip)
        + tail.drop_last().map_values(strip));
}

/// A chunk without a line feed completes no line: it only adds to what is
/// pending.
pub proof fn lemma_chunk_without_line_feed(pending: Seq<u8>, chunk: Seq<u8>)
    requires
        forall|i: int| 0 <= i < pending.len() ==> pending[i] != 10u8,
        forall|i: int| 0 <= i < chunk.len() ==> chunk[i] != 10u8,
    ensures
        complete_lines(pending + chunk) == Seq::<Seq<u8>>::empty(),
        partial_line(pending + chunk) == pending + chunk,
{
    lemma_split_without_separator(pending + chunk, 10u8);
    assert(complete_lines(pending + chunk) =~= Seq::<Seq<u8>>::empty());
}

} // verus!
