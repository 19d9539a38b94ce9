//! Text sinks: where printed text goes, and what a print that succeeds or fails has done to one.
use std::fmt;

use vstd::prelude::*;

use crate::columns::{columns, lemma_columns_concat, lemma_columns_none};

verus! {

/// The error of a sink that takes no more text. It carries nothing, so only whether there is one
/// is ever of interest.
#[verifier::external_type_specification]
#[verifier::external_body]
pub struct ExFmtError(fmt::Error);

/// What there is to know of a sink at some moment.
#[verifier::ext_equal]
pub struct Sink {
    /// All that was written to it so far.
    pub written: Seq<char>,
    /// Whether it takes every write.
    pub infallible: bool,
    /// For each write that failed so far, in order, all that was written to it by then.
    pub failures: Seq<Seq<char>>,
}

/// Printing `text` took a sink from `before` to `after`.
///
/// A print that went well has written `text`, and no write of it failed. One that did not has
/// written some part of it from its start. One write of it failed, after which nothing more was
/// written, and that happens only on a sink that is not infallible.
pub open spec fn emitted(before: Sink, after: Sink, ok: bool, text: Seq<char>) -> bool {
    &&& after.infallible == before.infallible
    &&& ok ==> {
        &&& after.written == before.written + text
        &&& after.failures == before.failures
    }
    &&& !ok ==> {
        &&& !before.infallible
        &&& exists|k: int|
            0 <= k <= text.len() && after.written == before.written + #[trigger] text.take(k)
        &&& after.failures == before.failures.push(after.written)
    }
}

/// The text if it is wanted, and nothing otherwise.
pub open spec fn text_if(wanted: bool, text: Seq<char>) -> Seq<char> {
    if wanted {
        text
    } else {
        Seq::empty()
    }
}

/// Somewhere to print to.
pub trait Write {
    /// The state of the sink.
    spec fn sink(&self) -> Sink;

    /// Writes a string.
    fn write_str(&mut self, s: &str) -> (r: fmt::Result)
        ensures
            emitted(old(self).sink(), final(self).sink(), r is Ok, s@),
    ;

    /// Writes a character.
    fn write_char(&mut self, c: char) -> (r: fmt::Result)
        ensures
            emitted(old(self).sink(), final(self).sink(), r is Ok, seq![c]),
    ;
}

/// `String::push` adds the character at the end of the string.
pub assume_specification[ std::string::String::push ](s: &mut std::string::String, c: char)
    ensures
        final(s)@ == old(s)@.push(c),
;

impl Write for String {
    open spec fn sink(&self) -> Sink {
        Sink { written: self@, infallible: true, failures: Seq::empty() }
    }

    fn write_str(&mut self, s: &str) -> (r: fmt::Result) {
        self.append(s);
        Ok(())
    }

    fn write_char(&mut self, c: char) -> (r: fmt::Result) {
        let ghost before = self@;
        self.push(c);
        assert(self@ =~= before + seq![c]);
        Ok(())
    }
}

/// A print that goes well adds its text to what was written, and nothing else. A print fails
/// exactly when a write of it failed, and has then added some part of its text from the start.
/// Nothing is written after that write, and a sink that takes every write never makes a print fail,
/// whatever is printed.
pub proof fn lemma_print_fails_with_write(before: Sink, after: Sink, ok: bool, text: Seq<char>)
    requires
        emitted(before, after, ok, text),
    ensures
        ok ==> after.written == before.written + text,
        !ok ==> before.written.is_prefix_of(after.written) && after.written.is_prefix_of(
            before.written + text,
        ),
        !ok <==> after.failures.len() > before.failures.len(),
        !ok ==> after.failures == before.failures.push(after.written),
        before.infallible ==> ok,
        after.infallible == before.infallible,
{
    if !ok {
        let k = choose|k: int|
            0 <= k <= text.len() && after.written == before.written + #[trigger] text.take(k);
        assert(after.written =~= (before.written + text).take(before.written.len() + k));
        assert(before.written =~= after.written.take(before.written.len() as int));
    }
}

/// Printing nothing leaves a sink as it was.
pub proof fn lemma_emitted_nothing(sink: Sink)
    ensures
        emitted(sink, sink, true, Seq::empty()),
{
    assert(sink.written + Seq::<char>::empty() =~= sink.written);
}

/// A print that is under way.
pub struct Progress {
    /// The sink before the print.
    pub start: Sink,
    /// The sink now.
    pub now: Sink,
    /// What was printed so far.
    pub done: Seq<char>,
    /// What is still to be printed.
    pub left: Seq<char>,
}

impl Progress {
    /// What is to be printed in all.
    pub open spec fn total(self) -> Seq<char> {
        self.done + self.left
    }

    /// All went well so far.
    pub open spec fn ok(self) -> bool {
        emitted(self.start, self.now, true, self.done)
    }
}

/// Begins a print.
pub proof fn begin(sink: Sink, text: Seq<char>) -> (p: Progress)
    ensures
        p == (Progress { start: sink, now: sink, done: Seq::empty(), left: text }),
        p.ok(),
        p.total() == text,
        columns(p.done) == 0,
{
    lemma_columns_none(Seq::empty());
    assert(sink.written + Seq::<char>::empty() =~= sink.written);
    assert(Seq::<char>::empty() + text =~= text);
    Progress { start: sink, now: sink, done: Seq::empty(), left: text }
}

/// Goes on with a print: either its next piece went well too, or the whole print is left
/// unfinished.
pub proof fn advance(
    p: Progress,
    after: Sink,
    ok: bool,
    piece: Seq<char>,
    rest: Seq<char>,
) -> (q: Progress)
    requires
        p.ok(),
        emitted(p.now, after, ok, piece),
        p.left == piece + rest,
    ensures
        q == (Progress { start: p.start, now: after, done: p.done + piece, left: rest }),
        q.total() == p.total(),
        ok ==> q.ok(),
        !ok ==> emitted(p.start, after, false, p.total()),
        columns(q.done) == columns(p.done) + columns(piece),
        columns(q.done) + columns(rest) == columns(p.total()),
{
    let done = p.done + piece;
    lemma_columns_concat(p.done, piece);
    lemma_columns_concat(done, rest);
    assert(p.total() =~= done + rest);
    if ok {
        assert(p.start.written + done =~= p.start.written + p.done + piece);
    } else {
        let k = choose|k: int|
            0 <= k <= piece.len() && after.written == p.now.written + #[trigger] piece.take(k);
        assert(p.total().take(p.done.len() + k) =~= p.done + piece.take(k));
        assert(p.start.written + (p.done + piece.take(k)) =~= p.start.written + p.done + piece.take(
            k,
        ));
    }
    Progress { start: p.start, now: after, done, left: rest }
}

/// Goes on with a print of which one piece is left: either it went well too, and the print is
/// done, or the print is left unfinished.
pub proof fn finish(p: Progress, after: Sink, ok: bool, piece: Seq<char>)
    requires
        p.ok(),
        emitted(p.now, after, ok, piece),
        p.left == piece,
    ensures
        emitted(p.start, after, ok, p.total()),
        columns(p.total()) == columns(p.done) + columns(piece),
{
    assert(piece =~= piece + Seq::empty());
    let q = advance(p, after, ok, piece, Seq::empty());
    assert(q.done =~= p.total());
}

/// Three texts side by side, from the right.
pub proof fn regroup3(a: Seq<char>, b: Seq<char>, c: Seq<char>)
    ensures
        a + b + c == a + (b + c),
{
    assert(a + b + c =~= a + (b + c));
}

/// Four texts side by side, from the right.
pub proof fn regroup4(a: Seq<char>, b: Seq<char>, c: Seq<char>, d: Seq<char>)
    ensures
        a + b + c + d == a + (b + (c + d)),
{
    assert(a + b + c + d =~= a + (b + (c + d)));
}

/// Five texts side by side, from the right.
pub proof fn regroup5(a: Seq<char>, b: Seq<char>, c: Seq<char>, d: Seq<char>, e: Seq<char>)
    ensures
        a + b + c + d + e == a + (b + (c + (d + e))),
{
    assert(a + b + c + d + e =~= a + (b + (c + (d + e))));
}

/// Prints a character if it is wanted.
pub fn write_if<W: Write>(buf: &mut W, wanted: bool, c: char) -> (r: fmt::Result)
    ensures
        emitted(old(buf).sink(), final(buf).sink(), r is Ok, text_if(wanted, seq![c])),
{
    proof {
        lemma_emitted_nothing(buf.sink());
    }
    if wanted {
        buf.write_char(c)
    } else {
        Ok(())
    }
}

} // verus!
