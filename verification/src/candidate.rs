use vstd::prelude::*;

verus! {

/// A concrete (program, arguments) pair considered for spawning. Programs,
/// arguments and paths are byte strings, the form in which the operating
/// system receives them.
pub struct SpawnCandidate {
    pub program: Vec<u8>,
    pub args: Vec<Vec<u8>>,
}

/// A candidate as the contracts see it.
#[verifier::ext_equal]
pub struct CandidateModel {
    pub program: Seq<u8>,
    pub args: Seq<Seq<u8>>,
}

impl View for SpawnCandidate {
    type V = CandidateModel;

    open spec fn view(&self) -> CandidateModel {
        CandidateModel { program: self.program@, args: self.args.deep_view() }
    }
}

impl DeepView for SpawnCandidate {
    type V = CandidateModel;

    open spec fn deep_view(&self) -> CandidateModel {
        self@
    }
}

/// The separators recognised in the override command line: the six ASCII
/// whitespace bytes. The override travels as raw bytes, and this split is
/// deliberately byte-level: multi-byte (non-ASCII) white space is ordinary
/// word content here, so a command line must separate its words with plain
/// spaces, tabs or line breaks.
pub open spec fn is_space(b: u8) -> bool {
    b == 32 || b == 9 || b == 10 || b == 13 || b == 11 || b == 12
}

pub fn byte_is_space(b: u8) -> (r: bool)
    ensures
        r == is_space(b),
{
    b == 32 || b == 9 || b == 10 || b == 13 || b == 11 || b == 12
}

/// State of a whitespace split: the words completed so far and the word still
/// being read.
#[verifier::ext_equal]
pub struct WordsState {
    pub words: Seq<Seq<u8>>,
    pub cur: Seq<u8>,
}

pub open spec fn words_start() -> WordsState {
    WordsState { words: Seq::empty(), cur: Seq::empty() }
}

/// How one byte advances a whitespace split: a separator closes the word in
/// progress, if any; any other byte extends it.
pub open spec fn words_byte(st: WordsState, b: u8) -> WordsState {
    if is_space(b) {
        if st.cur.len() > 0 {
            WordsState { words: st.words.push(st.cur), cur: Seq::empty() }
        } else {
            st
        }
    } else {
        WordsState { words: st.words, cur: st.cur.push(b) }
    }
}

pub open spec fn words_bytes(st: WordsState, s: Seq<u8>) -> WordsState
    decreases s.len(),
{
    if s.len() == 0 {
        st
    } else {
        words_bytes(words_byte(st, s[0]), s.drop_first())
    }
}

/// The whitespace-separated words of a byte string, in order; runs of
/// separators count as one, and separators at either end are dropped.
pub open spec fn split_ws(s: Seq<u8>) -> Seq<Seq<u8>> {
    let end = words_bytes(words_start(), s);
    if end.cur.len() > 0 {
        end.words.push(end.cur)
    } else {
        end.words
    }
}

pub proof fn lemma_words_bytes_snoc(st: WordsState, s: Seq<u8>, b: u8)
    ensures
        words_bytes(st, s.push(b)) == words_byte(words_bytes(st, s), b),
    decreases s.len(),
{
    if s.len() == 0 {
        assert(s.push(b)[0] == b);
        assert(s.push(b).drop_first() =~= Seq::<u8>::empty());
        assert(words_bytes(st, s) == st);
        assert(words_bytes(st, s.push(b)) == words_bytes(words_byte(st, b), s.push(b).drop_first()));
        assert(words_bytes(words_byte(st, b), s.push(b).drop_first()) == words_byte(st, b));
    } else {
        assert(s.push(b)[0] == s[0]);
        assert(s.push(b).drop_first() =~= s.drop_first().push(b));
        lemma_words_bytes_snoc(words_byte(st, s[0]), s.drop_first(), b);
        assert(words_bytes(st, s.push(b)) == words_bytes(words_byte(st, s[0]), s.drop_first().push(
            b,
        )));
        assert(words_bytes(st, s) == words_bytes(words_byte(st, s[0]), s.drop_first()));
    }
}

/// Splits the override command line on ASCII whitespace (see `is_space`): the
/// first word names the program, the remaining words are its arguments, in
/// order. A value with no word in it overrides nothing.
pub fn parse_dev_cmd(line: &Vec<u8>) -> (r: Option<SpawnCandidate>)
    ensures
        split_ws(line@).len() == 0 ==> r is None,
        split_ws(line@).len() > 0 ==> (match r {
            Some(c) => c@.program == split_ws(line@)[0] && c@.args == split_ws(line@).skip(1),
            None => false,
        }),
{
    let ghost target = split_ws(line@);
    let mut words: Vec<Vec<u8>> = Vec::new();
    let mut cur: Vec<u8> = Vec::new();
    let mut i: usize = 0;
    while i < line.len()
        invariant
            i <= line.len(),
            words.deep_view() == words_bytes(words_start(), line@.take(i as int)).words,
            cur@ == words_bytes(words_start(), line@.take(i as int)).cur,
        decreases line.len() - i,
    {
        let b = line[i];
        let ghost st = words_bytes(words_start(), line@.take(i as int));
        proof {
            lemma_words_bytes_snoc(words_start(), line@.take(i as int), b);
            assert(line@.take(i as int).push(b) =~= line@.take(i as int + 1));
        }
        if byte_is_space(b) {
            if cur.len() > 0 {
                let mut word: Vec<u8> = Vec::new();
                core::mem::swap(&mut word, &mut cur);
                words.push(word);
                proof {
                    assert(words.deep_view() =~~= st.words.push(word@));
                }
            }
        } else {
            cur.push(b);
        }
        i = i + 1;
    }
    proof {
        assert(line@.take(line@.len() as int) =~= line@);
    }
    if cur.len() > 0 {
        let ghost st = words_bytes(words_start(), line@);
        words.push(cur);
        proof {
            assert(words.deep_view() =~~= st.words.push(st.cur));
        }
    }
    proof {
        assert(words.deep_view() =~~= target);
    }
    if words.len() == 0 {
        None
    } else {
        let program = words.remove(0);
        let c = SpawnCandidate { program, args: words };
        proof {
            assert(c@.args =~~= target.skip(1));
        }
        Some(c)
    }
}

} // verus!
