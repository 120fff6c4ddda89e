use vstd::prelude::*;

verus! {

/// A byte that separates words: space, tab, carriage return or newline.
pub open spec fn is_space(b: u8) -> bool {
    b == 0x20u8 || b == 0x09u8 || b == 0x0Du8 || b == 0x0Au8
}

/// The number of `\n` bytes in `s`.
pub open spec fn newlines(s: Seq<u8>) -> nat
    decreases s.len(),
{
    if s.len() == 0 {
        0
    } else {
        newlines(s.drop_last()) + if s.last() == 0x0Au8 { 1nat } else { 0nat }
    }
}

/// Whether position `i` of `s` holds a whitespace byte that closes a word,
/// that is, one right after a non-whitespace byte.
pub open spec fn closes_word(s: Seq<u8>, i: int) -> bool {
    0 < i < s.len() && is_space(s[i]) && !is_space(s[i - 1])
}

/// The number of words of `s` that some whitespace byte closes: maximal runs
/// of non-whitespace bytes followed by whitespace. A run at the very end of
/// `s` with nothing after it is not counted.
pub open spec fn words(s: Seq<u8>) -> nat
    decreases s.len(),
{
    if s.len() == 0 {
        0
    } else {
        words(s.drop_last()) + if closes_word(s, s.len() - 1) { 1nat } else { 0nat }
    }
}

/// Whether `s` ends inside a word that nothing has closed yet.
pub open spec fn ends_in_word(s: Seq<u8>) -> bool {
    s.len() > 0 && !is_space(s.last())
}

/// The three counts of one input.
#[derive(Clone, Copy, Debug, PartialEq, Eq, Structural)]
pub struct CountResult {
    pub bytes: u64,
    pub lines: u64,
    pub words: u64,
}

/// The counts of `s`, as integers.
pub open spec fn tally(s: Seq<u8>) -> (nat, nat, nat) {
    (s.len(), newlines(s), words(s))
}

impl CountResult {
    pub open spec fn as_tuple(self) -> (nat, nat, nat) {
        (self.bytes as nat, self.lines as nat, self.words as nat)
    }
}

/// Neither count can exceed the number of bytes.
pub proof fn lemma_counts_bounded(s: Seq<u8>)
    ensures
        newlines(s) <= s.len(),
        words(s) <= s.len(),
    decreases s.len(),
{
    if s.len() > 0 {
        lemma_counts_bounded(s.drop_last());
    }
}

/// Streaming counter: takes input a chunk at a time and keeps the counts of
/// everything it was given so far.
pub struct Counter {
    bytes: u64,
    lines: u64,
    words: u64,
    in_word: bool,
    seen: Ghost<Seq<u8>>,
}

impl Counter {
    /// All bytes given to the counter so far, in order.
    pub closed spec fn seen(&self) -> Seq<u8> {
        self.seen@
    }

    /// The bytes, lines and words counted so far.
    pub closed spec fn counts(&self) -> (nat, nat, nat) {
        (self.bytes as nat, self.lines as nat, self.words as nat)
    }

    pub closed spec fn wf(&self) -> bool {
        &&& self.bytes as nat == self.seen@.len()
        &&& self.lines as nat == newlines(self.seen@)
        &&& self.words as nat == words(self.seen@)
        &&& self.in_word == ends_in_word(self.seen@)
    }

    pub fn new() -> (r: Counter)
        ensures
            r.wf(),
            r.seen() == Seq::<u8>::empty(),
    {
        Counter { bytes: 0, lines: 0, words: 0, in_word: false, seen: Ghost(Seq::empty()) }
    }

    /// The number of bytes given so far.
    pub fn bytes_seen(&self) -> (r: u64)
        requires
            self.wf(),
        ensures
            r as nat == self.seen().len(),
    {
        self.bytes
    }

    /// Takes the next chunk of input. The total must stay within `u64`.
    pub fn feed(&mut self, chunk: &[u8])
        requires
            old(self).wf(),
            old(self).seen().len() + chunk@.len() <= u64::MAX,
        ensures
            final(self).wf(),
            final(self).seen() == old(self).seen() + chunk@,
    {
        let ghost start = self.seen@;
        let n = chunk.len();
        let mut i: usize = 0;
        while i < n
            invariant
                self.wf(),
                n == chunk@.len(),
                i <= n,
                start.len() + n <= u64::MAX,
                self.seen@ == start + chunk@.subrange(0, i as int),
            decreases n - i,
        {
            let b = chunk[i];
            let ghost prev = self.seen@;
            let ghost next = start + chunk@.subrange(0, i + 1);
            assert(next.drop_last() =~= prev);
            assert(next.last() == b);
            proof {
                lemma_counts_bounded(prev);
            }
            self.bytes = self.bytes + 1;
            if b == 0x20u8 || b == 0x09u8 || b == 0x0Du8 || b == 0x0Au8 {
                if self.in_word {
                    self.words = self.words + 1;
                    self.in_word = false;
                }
                if b == 0x0Au8 {
                    self.lines = self.lines + 1;
                }
            } else {
                self.in_word = true;
            }
            self.seen = Ghost(next);
            i = i + 1;
        }
        assert(chunk@.subrange(0, n as int) =~= chunk@);
    }

    /// The counts of everything given so far.
    pub fn result(&self) -> (r: CountResult)
        requires
            self.wf(),
        ensures
            r.as_tuple() == self.counts(),
            r.as_tuple() == tally(self.seen()),
    {
        CountResult { bytes: self.bytes, lines: self.lines, words: self.words }
    }
}

/// Two counters that were given the same bytes hold the same counts, however
/// each split its input into chunks: counting a static input again gives the
/// result of the first count.
pub proof fn lemma_same_bytes_same_counts(a: &Counter, b: &Counter)
    requires
        a.wf(),
        b.wf(),
        a.seen() == b.seen(),
    ensures
        a.counts() == b.counts(),
        a.counts() == tally(a.seen()),
{
}

/// Counts the bytes, lines and words of a whole input in one pass.
pub fn count_all(data: &[u8]) -> (r: CountResult)
    requires
        data@.len() <= u64::MAX,
    ensures
        r.bytes == data@.len(),
        r.lines == newlines(data@),
        r.words == words(data@),
{
    let mut c = Counter::new();
    assert(Seq::<u8>::empty() + data@ =~= data@);
    c.feed(data);
    c.result()
}

} // verus!
