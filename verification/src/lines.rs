use vstd::prelude::*;

verus! {

/// One command as framed for the bridge: the payload followed by a single
/// line-feed byte.
pub open spec fn encoded_line(data: Seq<u8>) -> Seq<u8> {
    data + seq![10u8]
}

/// A whole sequence of payloads as framed on a stream, one terminator each.
pub open spec fn encoded_lines(ls: Seq<Seq<u8>>) -> Seq<u8>
    decreases ls.len(),
{
    if ls.len() == 0 {
        Seq::empty()
    } else {
        encoded_line(ls[0]) + encoded_lines(ls.drop_first())
    }
}

/// A payload that travels as exactly one line: no terminator inside it, and no
/// trailing carriage return that delivery would strip.
pub open spec fn line_clean(l: Seq<u8>) -> bool {
    &&& forall|i: int| 0 <= i < l.len() ==> l[i] != 10u8
    &&& l.len() > 0 ==> l[l.len() - 1] != 13u8
}

/// Frames one command: appends the line terminator. The result is what goes to
/// the child's input stream, as a single block.
pub fn encode_line(data: &Vec<u8>) -> (out: Vec<u8>)
    ensures
        out@ == encoded_line(data@),
{
    let mut out: Vec<u8> = vstd::slice::slice_to_vec(data.as_slice());
    out.push(10u8);
    proof {
        assert(out@ =~= encoded_line(data@));
    }
    out
}

/// State of one line reader: the complete lines delivered so far, and the
/// bytes of the line still in progress.
#[verifier::ext_equal]
pub struct SplitState {
    pub done: Seq<Seq<u8>>,
    pub buf: Seq<u8>,
}

/// A reader that has seen nothing yet.
pub open spec fn split_start() -> SplitState {
    SplitState { done: Seq::empty(), buf: Seq::empty() }
}

/// A complete line as delivered: a trailing carriage return is dropped, the
/// way a line reader treats network-style line endings.
pub open spec fn strip_cr(line: Seq<u8>) -> Seq<u8> {
    if line.len() > 0 && line[line.len() - 1] == 13u8 {
        line.drop_last()
    } else {
        line
    }
}

/// How one byte advances a line reader: a line feed completes the pending
/// line, any other byte extends it.
pub open spec fn feed_byte(st: SplitState, b: u8) -> SplitState {
    if b == 10u8 {
        SplitState { done: st.done.push(strip_cr(st.buf)), buf: Seq::empty() }
    } else {
        SplitState { done: st.done, buf: st.buf.push(b) }
    }
}

/// A line reader consuming a run of bytes, left to right.
pub open spec fn feed_bytes(st: SplitState, s: Seq<u8>) -> SplitState
    decreases s.len(),
{
    if s.len() == 0 {
        st
    } else {
        feed_bytes(feed_byte(st, s[0]), s.drop_first())
    }
}

/// The complete lines contained in a stream prefix.
pub open spec fn lines_of(s: Seq<u8>) -> Seq<Seq<u8>> {
    feed_bytes(split_start(), s).done
}

pub proof fn lemma_feed_bytes_snoc(st: SplitState, s: Seq<u8>, b: u8)
    ensures
        feed_bytes(st, s.push(b)) == feed_byte(feed_bytes(st, s), b),
    decreases s.len(),
{
    if s.len() == 0 {
        assert(s.push(b)[0] == b);
        assert(s.push(b).drop_first() =~= Seq::<u8>::empty());
        assert(feed_bytes(st, s) == st);
        assert(feed_bytes(st, s.push(b)) == feed_bytes(feed_byte(st, b), s.push(b).drop_first()));
        assert(feed_bytes(feed_byte(st, b), s.push(b).drop_first()) == feed_byte(st, b));
    } else {
        assert(s.push(b)[0] == s[0]);
        assert(s.push(b).drop_first() =~= s.drop_first().push(b));
        lemma_feed_bytes_snoc(feed_byte(st, s[0]), s.drop_first(), b);
        assert(feed_bytes(st, s.push(b)) == feed_bytes(feed_byte(st, s[0]), s.drop_first().push(b)));
        assert(feed_bytes(st, s) == feed_bytes(feed_byte(st, s[0]), s.drop_first()));
    }
}

pub proof fn lemma_feed_bytes_concat(st: SplitState, a: Seq<u8>, b: Seq<u8>)
    ensures
        feed_bytes(st, a + b) == feed_bytes(feed_bytes(st, a), b),
    decreases a.len(),
{
    if a.len() == 0 {
        assert(a + b =~= b);
    } else {
        assert((a + b).drop_first() =~= a.drop_first() + b);
        lemma_feed_bytes_concat(feed_byte(st, a[0]), a.drop_first(), b);
    }
}

/// Bytes with no line feed in them only extend the line in progress.
pub proof fn lemma_feed_newline_free(st: SplitState, s: Seq<u8>)
    requires
        forall|i: int| 0 <= i < s.len() ==> s[i] != 10u8,
    ensures
        feed_bytes(st, s) == (SplitState { done: st.done, buf: st.buf + s }),
    decreases s.len(),
{
    if s.len() == 0 {
        assert(st.buf + s =~= st.buf);
    } else {
        lemma_feed_newline_free(feed_byte(st, s[0]), s.drop_first());
        assert(st.buf.push(s[0]) + s.drop_first() =~= st.buf + s);
    }
}

pub proof fn lemma_feed_bytes_one(st: SplitState, b: u8)
    ensures
        feed_bytes(st, seq![b]) == feed_byte(st, b),
{
    assert(seq![b].drop_first() =~= Seq::<u8>::empty());
    assert(feed_bytes(feed_byte(st, b), Seq::<u8>::empty()) == feed_byte(st, b));
}

pub proof fn lemma_encoded_lines_two(a: Seq<u8>, b: Seq<u8>)
    ensures
        encoded_lines(seq![a, b]) == encoded_line(a) + encoded_line(b),
{
    let pair = seq![a, b];
    assert(pair.drop_first() =~= seq![b]);
    assert(seq![b].drop_first() =~= Seq::<Seq<u8>>::empty());
    assert(encoded_lines(Seq::<Seq<u8>>::empty()) =~= Seq::<u8>::empty());
    assert(encoded_lines(seq![b]) =~= encoded_line(b));
    assert(encoded_lines(pair) =~= encoded_line(a) + encoded_line(b));
}

/// Law: a reader with no line in progress, given a stream of framed payloads,
/// delivers exactly those payloads, in order, with the terminators removed —
/// no line is lost, duplicated, split or merged.
pub proof fn lemma_lines_round_trip(st: SplitState, ls: Seq<Seq<u8>>)
    requires
        st.buf.len() == 0,
        forall|i: int| 0 <= i < ls.len() ==> #[trigger] line_clean(ls[i]),
    ensures
        feed_bytes(st, encoded_lines(ls)) == (SplitState { done: st.done + ls, buf: Seq::empty() }),
    decreases ls.len(),
{
    if ls.len() == 0 {
        assert(st.done + ls =~= st.done);
        assert(st.buf =~= Seq::<u8>::empty());
    } else {
        let l = ls[0];
        assert(line_clean(l));
        lemma_feed_bytes_concat(st, encoded_line(l), encoded_lines(ls.drop_first()));
        lemma_feed_bytes_concat(st, l, seq![10u8]);
        lemma_feed_newline_free(st, l);
        let after_payload = SplitState { done: st.done, buf: st.buf + l };
        assert(st.buf + l =~= l);
        assert(strip_cr(l) =~= l);
        lemma_feed_bytes_one(after_payload, 10u8);
        let after_line = feed_bytes(st, encoded_line(l));
        assert(after_line.done =~= st.done.push(l));
        assert(after_line.buf =~= Seq::<u8>::empty());
        lemma_lines_round_trip(after_line, ls.drop_first());
        assert(st.done.push(l) + ls.drop_first() =~= st.done + ls);
    }
}

/// Law: the stream that framed payloads produce decodes back to those
/// payloads.
pub proof fn lemma_lines_of_encoded(ls: Seq<Seq<u8>>)
    requires
        forall|i: int| 0 <= i < ls.len() ==> #[trigger] line_clean(ls[i]),
    ensures
        lines_of(encoded_lines(ls)) == ls,
{
    lemma_lines_round_trip(split_start(), ls);
    assert(split_start().done + ls =~= ls);
}

/// Law: two commands framed one after the other — in whichever order the lock
/// granted — arrive as exactly those two lines, never interleaved into one.
pub proof fn lemma_no_interleaving(a: Seq<u8>, b: Seq<u8>)
    requires
        line_clean(a),
        line_clean(b),
    ensures
        lines_of(encoded_line(a) + encoded_line(b)) == seq![a, b],
        lines_of(encoded_line(b) + encoded_line(a)) == seq![b, a],
{
    lemma_encoded_lines_two(a, b);
    lemma_lines_of_encoded(seq![a, b]);
    lemma_encoded_lines_two(b, a);
    lemma_lines_of_encoded(seq![b, a]);
}

} // verus!
