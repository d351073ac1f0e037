use vstd::prelude::*;

use crate::lines::{feed_byte, feed_bytes, lemma_feed_bytes_snoc, lines_of, split_start, strip_cr,
    SplitState};

verus! {

/// Which output stream of the bridge a line arrived on.
#[derive(Clone, Copy, PartialEq, Eq, Structural, Debug)]
pub enum StreamKind {
    Stdout,
    Stderr,
}

/// One line event: the stream it arrived on, the payload without its
/// terminator, and the line's rank on that stream, counted from zero.
pub struct OutputLine {
    pub stream: StreamKind,
    pub text: Vec<u8>,
    pub sequence: u64,
}

#[verifier::ext_equal]
pub struct OutputLineView {
    pub stream: StreamKind,
    pub text: Seq<u8>,
    pub sequence: int,
}

impl View for OutputLine {
    type V = OutputLineView;

    open spec fn view(&self) -> OutputLineView {
        OutputLineView {
            stream: self.stream,
            text: self.text@,
            sequence: self.sequence as int,
        }
    }
}

/// Drains one of the bridge's output streams. The reader that owns the
/// operating-system pipe feeds raw chunks in as they arrive; the forwarder
/// hands back the lines completed by each chunk, as ordered events. It never
/// refuses a chunk, so a slow or broken event sink cannot stop the pipe from
/// being drained.
pub struct StreamForwarder {
    kind: StreamKind,
    buf: Vec<u8>,
    next_seq: u64,
    history: Ghost<Seq<u8>>,
}

impl StreamForwarder {
    /// All bytes this forwarder has consumed from its stream.
    pub closed spec fn history(&self) -> Seq<u8> {
        self.history@
    }

    /// The stream this forwarder announces on its events.
    pub closed spec fn stream(&self) -> StreamKind {
        self.kind
    }

    /// The pending partial line and the event counter agree with the bytes
    /// consumed so far.
    pub closed spec fn wf(&self) -> bool {
        &&& self.buf@ == feed_bytes(split_start(), self.history@).buf
        &&& self.next_seq as int == lines_of(self.history@).len()
    }

    pub fn new(kind: StreamKind) -> (f: Self)
        ensures
            f.wf(),
            f.stream() == kind,
            f.history() == Seq::<u8>::empty(),
    {
        let f = StreamForwarder {
            kind,
            buf: Vec::new(),
            next_seq: 0,
            history: Ghost(Seq::empty()),
        };
        proof {
            assert(feed_bytes(split_start(), Seq::<u8>::empty()) == split_start());
        }
        f
    }

    /// How many lines this forwarder has delivered so far.
    pub fn delivered(&self) -> (n: u64)
        requires
            self.wf(),
        ensures
            n as int == lines_of(self.history()).len(),
    {
        self.next_seq
    }

    /// Consumes one chunk of stream bytes and returns the newly completed
    /// lines, in the order they ended on the stream, each stamped with the
    /// stream kind and its per-stream rank. Bytes after the last terminator
    /// stay pending until a later chunk completes their line.
    pub fn accept(&mut self, chunk: &Vec<u8>) -> (events: Vec<OutputLine>)
        requires
            old(self).wf(),
            lines_of(old(self).history()).len() + chunk@.len() <= u64::MAX,
        ensures
            final(self).wf(),
            final(self).stream() == old(self).stream(),
            final(self).history() == old(self).history() + chunk@,
            ({
                let before = lines_of(old(self).history());
                let after = lines_of(old(self).history() + chunk@);
                &&& before.len() <= after.len()
                &&& events@.len() == after.len() - before.len()
                &&& forall|i: int|
                    0 <= i < events@.len() ==> events@[i]@ == (OutputLineView {
                        stream: old(self).stream(),
                        text: after[before.len() + i],
                        sequence: before.len() + i,
                    })
            }),
    {
        let ghost base = self.history@;
        let ghost before = lines_of(base);
        let mut events: Vec<OutputLine> = Vec::new();
        let mut j: usize = 0;
        while j < chunk.len()
            invariant
                j <= chunk.len(),
                self.kind == old(self).kind,
                self.history@ == base + chunk@.take(j as int),
                self.wf(),
                before == lines_of(base),
                before.len() + chunk@.len() <= u64::MAX,
                base == old(self).history@,
                ({
                    let after = lines_of(self.history@);
                    &&& before.len() <= after.len()
                    &&& after.len() <= before.len() + j
                    &&& events@.len() == after.len() - before.len()
                    &&& forall|i: int|
                        0 <= i < events@.len() ==> events@[i]@ == (OutputLineView {
                            stream: self.kind,
                            text: after[before.len() + i],
                            sequence: before.len() + i,
                        })
                }),
            decreases chunk.len() - j,
        {
            let b = chunk[j];
            let ghost st = feed_bytes(split_start(), self.history@);
            proof {
                lemma_feed_bytes_snoc(split_start(), self.history@, b);
                assert((base + chunk@.take(j as int)).push(b) =~= base + chunk@.take(
                    j as int + 1,
                ));
            }
            if b == 10u8 {
                if self.buf.len() > 0 && self.buf[self.buf.len() - 1] == 13u8 {
                    self.buf.pop();
                }
                proof {
                    assert(self.buf@ =~= strip_cr(st.buf));
                }
                let mut text: Vec<u8> = Vec::new();
                core::mem::swap(&mut text, &mut self.buf);
                let line = OutputLine { stream: self.kind, text, sequence: self.next_seq };
                events.push(line);
                self.next_seq = self.next_seq + 1;
            } else {
                self.buf.push(b);
            }
            proof {
                self.history@ = self.history@ + seq![b];
                assert(self.history@ =~= base + chunk@.take(j as int + 1));
                assert(feed_bytes(split_start(), self.history@) == feed_byte(st, b));
            }
            j = j + 1;
        }
        proof {
            assert(chunk@.take(chunk@.len() as int) =~= chunk@);
        }
        events
    }
}

} // verus!
