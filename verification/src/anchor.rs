//! Document chunking for retrieval: a text is cut into its
//! whitespace-separated words and the words are grouped into chunks.

use vstd::prelude::*;
use crate::bridge::{all_digits, digits_value};
use crate::text::{char_is_whitespace, is_whitespace, str_chars, string_from_chars};

verus! {

/// Errors of the retrieval pipeline.
#[derive(Debug, Clone, PartialEq, Eq)]
pub enum AnchorError {
    VectorStore(String),
}

impl AnchorError {
    /// The error's message text.
    pub fn message(&self) -> (r: String)
        ensures
            match self {
                AnchorError::VectorStore(m) => r@ == "vector store operation failed: "@ + m@,
            },
    {
        match self {
            AnchorError::VectorStore(m) => {
                let mut r = String::from_str("vector store operation failed: ");
                r.append(m.as_str());
                r
            },
        }
    }
}

/// One chunk of an indexed document: `document_id:index` and its text.
#[derive(Debug, Clone, PartialEq, Eq)]
pub struct AnchorChunk {
    pub id: String,
    pub text: String,
}

/// Scans `s` left to right: the words completed so far and the word in
/// progress.
pub open spec fn word_scan(s: Seq<char>) -> (Seq<Seq<char>>, Seq<char>)
    decreases s.len(),
{
    if s.len() == 0 {
        (seq![], seq![])
    } else {
        let (done, cur) = word_scan(s.drop_last());
        let c = s.last();
        if is_whitespace(c) {
            if cur.len() > 0 {
                (done.push(cur), seq![])
            } else {
                (done, seq![])
            }
        } else {
            (done, cur.push(c))
        }
    }
}

/// The maximal runs of non-whitespace characters of `s`, in order
/// (`str::split_whitespace`).
pub open spec fn split_whitespace(s: Seq<char>) -> Seq<Seq<char>> {
    let (done, cur) = word_scan(s);
    if cur.len() > 0 {
        done.push(cur)
    } else {
        done
    }
}

/// Consecutive groups of `n` words (at least one per group); the last
/// group may be shorter (`slice::chunks`).
pub open spec fn chunks_of(words: Seq<Seq<char>>, n: nat) -> Seq<Seq<Seq<char>>>
    decreases words.len(),
{
    let m: nat = if n == 0 { 1 } else { n };
    if words.len() == 0 {
        seq![]
    } else if words.len() <= m {
        seq![words]
    } else {
        seq![words.take(m as int)] + chunks_of(words.skip(m as int), n)
    }
}

/// Words joined by single spaces.
pub open spec fn join_words(ws: Seq<Seq<char>>) -> Seq<char>
    decreases ws.len(),
{
    if ws.len() == 0 {
        seq![]
    } else if ws.len() == 1 {
        ws[0]
    } else {
        join_words(ws.drop_last()) + seq![' '] + ws.last()
    }
}

/// The decimal digit for `d` in `0..10`.
pub open spec fn digit(d: nat) -> char {
    if d == 0 { '0' } else if d == 1 { '1' } else if d == 2 { '2' } else if d == 3 { '3' }
    else if d == 4 { '4' } else if d == 5 { '5' } else if d == 6 { '6' } else if d == 7 { '7' }
    else if d == 8 { '8' } else { '9' }
}

/// Decimal text of `n`, without leading zeros.
pub open spec fn decimal(n: nat) -> Seq<char>
    decreases n,
{
    if n < 10 {
        seq![digit(n)]
    } else {
        decimal(n / 10).push(digit(n % 10))
    }
}

/// The id of chunk `index` of a document.
pub open spec fn chunk_id(document_id: Seq<char>, index: nat) -> Seq<char> {
    document_id + seq![':'] + decimal(index)
}

/// The chunks of `text` for groups of `chunk_size` words: as many
/// chunks as groups, each holding its group joined by spaces.
pub open spec fn chunks_match(
    r: Seq<AnchorChunk>,
    document_id: Seq<char>,
    text: Seq<char>,
    chunk_size: nat,
) -> bool {
    let groups = chunks_of(split_whitespace(text), chunk_size);
    &&& r.len() == groups.len()
    &&& forall|k: int|
        0 <= k < r.len() ==> {
            &&& (#[trigger] r[k]).id@ == chunk_id(document_id, k as nat)
            &&& r[k].text@ == join_words(groups[k])
        }
}

fn digit_char(d: usize) -> (c: char)
    requires
        d < 10,
    ensures
        c == digit(d as nat),
{
    if d == 0 { '0' } else if d == 1 { '1' } else if d == 2 { '2' } else if d == 3 { '3' }
    else if d == 4 { '4' } else if d == 5 { '5' } else if d == 6 { '6' } else if d == 7 { '7' }
    else if d == 8 { '8' } else { '9' }
}

/// Decimal digits of `n`.
pub fn decimal_chars(n: usize) -> (r: Vec<char>)
    ensures
        r@ == decimal(n as nat),
    decreases n,
{
    if n < 10 {
        let mut r: Vec<char> = Vec::new();
        r.push(digit_char(n));
        proof {
            assert(r@ =~= seq![digit(n as nat)]);
        }
        r
    } else {
        let mut r = decimal_chars(n / 10);
        r.push(digit_char(n % 10));
        r
    }
}

/// The views of a list of character vectors.
pub open spec fn words_of(v: Seq<Vec<char>>) -> Seq<Seq<char>> {
    v.map_values(|w: Vec<char>| w@)
}

fn split_words(s: &Vec<char>) -> (r: Vec<Vec<char>>)
    ensures
        words_of(r@) == split_whitespace(s@),
{
    let mut done: Vec<Vec<char>> = Vec::new();
    let mut cur: Vec<char> = Vec::new();
    let mut i: usize = 0;
    proof {
        assert(s@.take(0) =~= seq![]);
        assert(words_of(done@) =~= seq![]);
    }
    while i < s.len()
        invariant
            i <= s@.len(),
            word_scan(s@.take(i as int)) == (words_of(done@), cur@),
        decreases s@.len() - i,
    {
        let c = s[i];
        proof {
            assert(s@.take(i + 1).drop_last() =~= s@.take(i as int));
            assert(s@.take(i + 1).last() == c);
        }
        if char_is_whitespace(c) {
            if cur.len() > 0 {
                let ghost before = done@;
                done.push(cur);
                proof {
                    assert(words_of(done@) =~= words_of(before).push(cur@));
                }
                cur = Vec::new();
            } else {
                cur = Vec::new();
            }
            proof {
                assert(cur@ =~= seq![]);
            }
        } else {
            cur.push(c);
        }
        i = i + 1;
    }
    proof {
        assert(s@.take(i as int) =~= s@);
    }
    if cur.len() > 0 {
        let ghost before = done@;
        done.push(cur);
        proof {
            assert(words_of(done@) =~= words_of(before).push(cur@));
        }
    }
    done
}

fn join_range(words: &Vec<Vec<char>>, start: usize, end: usize) -> (r: Vec<char>)
    requires
        start < end <= words@.len(),
    ensures
        r@ == join_words(words_of(words@).subrange(start as int, end as int)),
{
    let ghost w = words_of(words@);
    let mut out: Vec<char> = Vec::new();
    let mut j = start;
    while j < end
        invariant
            start <= j <= end <= words@.len(),
            w == words_of(words@),
            j > start ==> out@ == join_words(w.subrange(start as int, j as int)),
            j == start ==> out@ == Seq::<char>::empty(),
        decreases end - j,
    {
        let word = &words[j];
        proof {
            assert(w.subrange(start as int, j + 1).drop_last() =~= w.subrange(
                start as int,
                j as int,
            ));
            assert(w.subrange(start as int, j + 1).last() == word@);
        }
        let ghost before = out@;
        if j > start {
            out.push(' ');
        }
        let mut k: usize = 0;
        let ghost mid = out@;
        while k < word.len()
            invariant
                k <= word@.len(),
                out@ == mid + word@.take(k as int),
            decreases word@.len() - k,
        {
            out.push(word[k]);
            proof {
                assert(word@.take(k + 1) =~= word@.take(k as int).push(word@[k as int]));
            }
            k = k + 1;
        }
        proof {
            assert(word@.take(k as int) =~= word@);
            if j == start {
                assert(w.subrange(start as int, j + 1).len() == 1);
                assert(out@ =~= join_words(w.subrange(start as int, j + 1)));
            } else {
                assert(out@ =~= join_words(w.subrange(start as int, j + 1)));
            }
        }
        j = j + 1;
    }
    out
}

proof fn lemma_chunks_of_zero(words: Seq<Seq<char>>)
    ensures
        chunks_of(words, 0) == chunks_of(words, 1),
    decreases words.len(),
{
    if words.len() > 1 {
        lemma_chunks_of_zero(words.skip(1));
    }
}

proof fn lemma_chunks_step(words: Seq<Seq<char>>, start: int, n: nat)
    requires
        n > 0,
        0 <= start < words.len(),
    ensures
        ({
            let end = if start + n < words.len() { start + n } else { words.len() as int };
            chunks_of(words.skip(start), n) == seq![words.subrange(start, end)] + chunks_of(
                words.skip(end),
                n,
            )
        }),
{
    let rest = words.skip(start);
    let end = if start + n < words.len() { start + n } else { words.len() as int };
    if rest.len() <= n {
        assert(rest =~= words.subrange(start, end));
        assert(words.skip(end) =~= seq![]);
        assert(chunks_of(words.skip(end), n) =~= seq![]);
        assert(seq![rest] + seq![] =~= seq![rest]);
    } else {
        assert(rest.take(n as int) =~= words.subrange(start, end));
        assert(rest.skip(n as int) =~= words.skip(end));
    }
}

/// Cuts `text` into chunks of `chunk_size` words (at least one), joined
/// by single spaces, with ids `document_id:0`, `document_id:1`, ...
pub fn chunk_text(document_id: &str, text: &str, chunk_size: usize) -> (r: Vec<AnchorChunk>)
    ensures
        chunks_match(r@, document_id@, text@, chunk_size as nat),
{
    let n: usize = if chunk_size == 0 { 1 } else { chunk_size };
    let chars = str_chars(text);
    let words = split_words(&chars);
    let ghost w = words_of(words@);
    let ghost groups = chunks_of(w, chunk_size as nat);
    let mut out: Vec<AnchorChunk> = Vec::new();
    let mut start: usize = 0;
    let ghost mut done: Seq<Seq<Seq<char>>> = seq![];
    proof {
        assert(w.skip(0) =~= w);
        lemma_chunks_of_zero(w);
        assert(chunks_of(w, n as nat) == groups);
    }
    while start < words.len()
        invariant
            n > 0,
            n == (if chunk_size == 0 { 1 } else { chunk_size }),
            start <= words@.len(),
            w == words_of(words@),
            w == split_whitespace(text@),
            groups == chunks_of(w, n as nat),
            groups == done + chunks_of(w.skip(start as int), n as nat),
            out@.len() == done.len(),
            forall|k: int|
                0 <= k < out@.len() ==> {
                    &&& (#[trigger] out@[k]).id@ == chunk_id(document_id@, k as nat)
                    &&& out@[k].text@ == join_words(done[k])
                },
        decreases words@.len() - start,
    {
        let end = if n < words.len() - start { start + n } else { words.len() };
        proof {
            lemma_chunks_step(w, start as int, n as nat);
        }
        let joined = join_range(&words, start, end);
        let mut id = String::from_str(document_id);
        id.append(":");
        let index_digits = decimal_chars(out.len());
        let index_text = string_from_chars(index_digits);
        id.append(index_text.as_str());
        proof {
            reveal_strlit(":");
        }
        let chunk = AnchorChunk { id, text: string_from_chars(joined) };
        let ghost prev_done = done;
        let ghost prev_out = out@;
        out.push(chunk);
        proof {
            done = done.push(w.subrange(start as int, end as int));
            assert(prev_done + (seq![w.subrange(start as int, end as int)] + chunks_of(
                w.skip(end as int),
                n as nat,
            )) =~= done + chunks_of(w.skip(end as int), n as nat));
            assert forall|k: int| 0 <= k < out@.len() implies {
                &&& (#[trigger] out@[k]).id@ == chunk_id(document_id@, k as nat)
                &&& out@[k].text@ == join_words(done[k])
            } by {
                if k < prev_out.len() {
                    assert(out@[k] == prev_out[k]);
                }
            }
        }
        start = end;
    }
    proof {
        assert(w.skip(start as int) =~= seq![]);
        assert(done + seq![] =~= done);
    }
    out
}

// ---------------------------------------------------------------------
// Laws
// ---------------------------------------------------------------------

/// A word: non-empty and free of whitespace.
pub open spec fn is_word(w: Seq<char>) -> bool {
    w.len() > 0 && forall|i: int| 0 <= i < w.len() ==> !is_whitespace(#[trigger] w[i])
}

proof fn lemma_word_scan_words(s: Seq<char>)
    ensures
        forall|k: int| 0 <= k < word_scan(s).0.len() ==> is_word(#[trigger] word_scan(s).0[k]),
        forall|i: int| 0 <= i < word_scan(s).1.len() ==> !is_whitespace(#[trigger] word_scan(s).1[i]),
    decreases s.len(),
{
    if s.len() > 0 {
        lemma_word_scan_words(s.drop_last());
        let (done, cur) = word_scan(s.drop_last());
        let c = s.last();
        if !is_whitespace(c) {
            assert forall|i: int| 0 <= i < cur.push(c).len() implies !is_whitespace(
                #[trigger] cur.push(c)[i],
            ) by {
                if i < cur.len() {
                    assert(cur.push(c)[i] == cur[i]);
                }
            }
        } else if cur.len() > 0 {
            assert forall|k: int| 0 <= k < done.push(cur).len() implies is_word(
                #[trigger] done.push(cur)[k],
            ) by {
                if k < done.len() {
                    assert(done.push(cur)[k] == done[k]);
                }
            }
        }
    }
}

/// The words of a text are non-empty and hold no whitespace.
pub proof fn law_words_are_nonempty_and_whitespace_free(s: Seq<char>)
    ensures
        forall|k: int|
            0 <= k < split_whitespace(s).len() ==> is_word(#[trigger] split_whitespace(s)[k]),
{
    lemma_word_scan_words(s);
    let (done, cur) = word_scan(s);
    if cur.len() > 0 {
        assert forall|k: int| 0 <= k < done.push(cur).len() implies is_word(
            #[trigger] done.push(cur)[k],
        ) by {
            if k < done.len() {
                assert(done.push(cur)[k] == done[k]);
            }
        }
    }
}

/// Chunking loses, adds and reorders no word: the chunks laid end to end
/// are the words, and each chunk holds between one word and `n` words
/// (one word when `n` is zero).
pub proof fn law_chunks_keep_every_word(words: Seq<Seq<char>>, n: nat)
    ensures
        chunks_of(words, n).flatten() == words,
        forall|k: int|
            0 <= k < chunks_of(words, n).len() ==> 0 < (#[trigger] chunks_of(words, n)[k]).len()
                <= (if n == 0 { 1 } else { n }),
    decreases words.len(),
{
    let m: nat = if n == 0 { 1 } else { n };
    let c = chunks_of(words, n);
    if words.len() == 0 {
    } else if words.len() <= m {
        assert(c.drop_first() =~= seq![]);
        assert(c.first() == words);
        assert(c.drop_first().flatten() =~= Seq::<Seq<char>>::empty());
        assert(c.flatten() == c.first() + c.drop_first().flatten());
        assert(c.flatten() =~= words);
    } else {
        law_chunks_keep_every_word(words.skip(m as int), n);
        let rest = chunks_of(words.skip(m as int), n);
        assert(c.drop_first() =~= rest);
        assert(c.first() == words.take(m as int));
        assert(words.take(m as int) + words.skip(m as int) =~= words);
        assert forall|k: int| 0 <= k < c.len() implies 0 < (#[trigger] c[k]).len() <= m by {
            if k > 0 {
                assert(c[k] == rest[k - 1]);
            }
        }
    }
}

/// The id of a chunk counts it in base ten: its digits are decimal
/// digits, read back they give the chunk's index, and only the index 0
/// starts with `0`.
pub proof fn law_decimal_reads_back(n: nat)
    ensures
        all_digits(decimal(n)),
        digits_value(decimal(n)) == n,
        decimal(n)[0] == '0' ==> n == 0,
    decreases n,
{
    if n < 10 {
        let s = decimal(n);
        assert(s.drop_last() =~= Seq::<char>::empty());
        assert(digits_value(Seq::<char>::empty()) == 0);
    } else {
        law_decimal_reads_back(n / 10);
        let s = decimal(n);
        let d = (n % 10) as nat;
        assert(s.drop_last() =~= decimal(n / 10));
        assert(s.last() == digit(d));
        assert((digit(d) as int) - ('0' as int) == d);
        assert(n == (n / 10) * 10 + (n % 10)) by (nonlinear_arith);
        assert(s[0] == decimal(n / 10)[0]) by {
            lemma_decimal_nonempty(n / 10);
        }
        assert forall|i: int| 0 <= i < s.len() implies '0' <= #[trigger] s[i] && s[i] <= '9' by {
            if i < s.len() - 1 {
                assert(s[i] == decimal(n / 10)[i]);
            }
        }
    }
}

proof fn lemma_decimal_nonempty(n: nat)
    ensures
        decimal(n).len() >= 1,
        n >= 10 ==> decimal(n).len() >= 2,
    decreases n,
{
    if n >= 10 {
        lemma_decimal_nonempty(n / 10);
    }
}

proof fn lemma_decimal_injective(a: nat, b: nat)
    requires
        decimal(a) == decimal(b),
    ensures
        a == b,
    decreases a,
{
    lemma_decimal_nonempty(a);
    lemma_decimal_nonempty(b);
    if a < 10 && b < 10 {
        assert(decimal(a)[0] == digit(a));
        assert(decimal(b)[0] == digit(b));
    } else if a >= 10 && b >= 10 {
        assert(decimal(a).last() == digit(a % 10));
        assert(decimal(b).last() == digit(b % 10));
        assert(decimal(a).drop_last() =~= decimal(a / 10));
        assert(decimal(b).drop_last() =~= decimal(b / 10));
        lemma_decimal_injective(a / 10, b / 10);
        assert(a % 10 == b % 10);
    } else {
        assert(decimal(a).len() != decimal(b).len());
    }
}

/// Different chunks of a document get different ids.
pub proof fn law_chunk_ids_distinct(document_id: Seq<char>, j: nat, k: nat)
    requires
        j != k,
    ensures
        chunk_id(document_id, j) != chunk_id(document_id, k),
{
    if chunk_id(document_id, j) == chunk_id(document_id, k) {
        let n: int = document_id.len() as int + 1;
        assert(chunk_id(document_id, j).skip(n) =~= decimal(j));
        assert(chunk_id(document_id, k).skip(n) =~= decimal(k));
        lemma_decimal_injective(j, k);
    }
}

/// Entry points of the retrieval pipeline.
#[derive(Debug, Clone, Copy, Default)]
pub struct AnchorOrchestrator;

/// How the retrieval pipeline cuts documents: `chunk_size` words per
/// chunk, 32 unless set otherwise.
#[derive(Debug, Clone)]
pub struct AnchorPipeline {
    chunk_size: usize,
}

impl AnchorPipeline {
    /// Words per chunk.
    pub closed spec fn words_per_chunk(&self) -> nat {
        self.chunk_size as nat
    }

    pub fn new() -> (p: Self)
        ensures
            p.words_per_chunk() == 32,
    {
        AnchorPipeline { chunk_size: 32 }
    }

    /// The same pipeline with `chunk_size` words per chunk.
    pub fn with_chunk_size(self, chunk_size: usize) -> (p: Self)
        ensures
            p.words_per_chunk() == chunk_size,
    {
        AnchorPipeline { chunk_size }
    }

    pub fn chunk_size(&self) -> (n: usize)
        ensures
            n == self.words_per_chunk(),
    {
        self.chunk_size
    }

    /// The chunks under which a document is indexed.
    pub fn document_chunks(&self, document_id: &str, text: &str) -> (r: Vec<AnchorChunk>)
        ensures
            chunks_match(r@, document_id@, text@, self.words_per_chunk()),
    {
        chunk_text(document_id, text, self.chunk_size)
    }
}

impl Default for AnchorPipeline {
    fn default() -> (p: Self)
        ensures
            p.words_per_chunk() == 32,
    {
        AnchorPipeline::new()
    }
}

} // verus!
