use vstd::prelude::*;
use crate::random::random_below;
use crate::text::{char_len, is_typing_letter, push_char};

verus! {

/// Number of letter buckets, one per lowercase letter.
pub const LETTER_COUNT: usize = 26;

/// The lines of a text, split at each `'\n'`; a text without one is one line.
pub open spec fn lines(s: Seq<char>) -> Seq<Seq<char>>
    decreases s.len(),
{
    if s.len() == 0 {
        seq![Seq::empty()]
    } else {
        let prev = lines(s.drop_last());
        if s.last() == '\n' {
            prev.push(Seq::empty())
        } else {
            prev.update(prev.len() - 1, prev.last().push(s.last()))
        }
    }
}

/// Position of a lowercase letter in the alphabet.
pub open spec fn letter_index(c: char) -> int {
    c as int - 'a' as int
}

/// Whether a word belongs in bucket `k`: it starts with the `k`-th letter.
pub open spec fn has_initial(w: Seq<char>, k: int) -> bool {
    w.len() > 0 && is_typing_letter(w[0]) && letter_index(w[0]) == k
}

/// The words of `ws` that start with the `k`-th letter, in order.
pub open spec fn words_with_initial(ws: Seq<Seq<char>>, k: int) -> Seq<Seq<char>>
    decreases ws.len(),
{
    if ws.len() == 0 {
        Seq::empty()
    } else {
        let rest = words_with_initial(ws.drop_last(), k);
        if has_initial(ws.last(), k) {
            rest.push(ws.last())
        } else {
            rest
        }
    }
}

pub open spec fn bucket_view(v: Vec<String>) -> Seq<Seq<char>> {
    v@.map_values(|w: String| w@)
}

/// Number of non-empty buckets among the first `k`.
pub open spec fn count_nonempty(bs: Seq<Vec<String>>, k: int) -> nat
    decreases k,
{
    if k <= 0 {
        0
    } else {
        count_nonempty(bs, k - 1) + if bs[k - 1]@.len() > 0 {
            1nat
        } else {
            0nat
        }
    }
}

proof fn lemma_count_nonempty_bounds(bs: Seq<Vec<String>>, k: int)
    requires
        0 <= k,
    ensures
        count_nonempty(bs, k) <= k,
    decreases k,
{
    if k > 0 {
        lemma_count_nonempty_bounds(bs, k - 1);
    }
}

proof fn lemma_count_nonempty_positive(bs: Seq<Vec<String>>, k: int, j: int)
    requires
        0 <= j < k,
        bs[j]@.len() > 0,
    ensures
        count_nonempty(bs, k) > 0,
    decreases k,
{
    if k - 1 > j {
        lemma_count_nonempty_positive(bs, k - 1, j);
    }
}

proof fn lemma_count_nonempty_monotone(bs: Seq<Vec<String>>, j: int, k: int)
    requires
        0 <= j <= k,
    ensures
        count_nonempty(bs, j) <= count_nonempty(bs, k),
    decreases k - j,
{
    if j < k {
        lemma_count_nonempty_monotone(bs, j, k - 1);
    }
}

/// Two non-empty buckets with as many non-empty buckets before them are one.
proof fn lemma_nonempty_bucket_unique(bs: Seq<Vec<String>>, j: int, k: int)
    requires
        0 <= j < bs.len(),
        0 <= k < bs.len(),
        bs[j]@.len() > 0,
        bs[k]@.len() > 0,
        count_nonempty(bs, j) == count_nonempty(bs, k),
    ensures
        j == k,
{
    if j < k {
        lemma_count_nonempty_monotone(bs, j + 1, k);
    } else if k < j {
        lemma_count_nonempty_monotone(bs, k + 1, j);
    }
}

proof fn lemma_lines_nonempty(s: Seq<char>)
    ensures
        lines(s).len() >= 1,
    decreases s.len(),
{
    if s.len() > 0 {
        lemma_lines_nonempty(s.drop_last());
    }
}

/// Puts a line into the bucket of its initial letter, if it has one.
fn file_word(buckets: &mut Vec<Vec<String>>, word: String)
    requires
        old(buckets)@.len() == LETTER_COUNT,
    ensures
        final(buckets)@.len() == LETTER_COUNT,
        forall|j: int|
            0 <= j < LETTER_COUNT ==> #[trigger] bucket_view(final(buckets)@[j]) == if has_initial(
                word@,
                j,
            ) {
                bucket_view(old(buckets)@[j]).push(word@)
            } else {
                bucket_view(old(buckets)@[j])
            },
{
    let n = char_len(&word);
    if n > 0 {
        let c = word.as_str().get_char(0);
        if 'a' <= c && c <= 'z' {
            let k = (c as u32 - 'a' as u32) as usize;
            let ghost w = word@;
            buckets[k].push(word);
            proof {
                assert(bucket_view(buckets@[k as int]) =~= bucket_view(old(buckets)@[k as int]).push(w));
                assert(letter_index(c) == k);
            }
        }
    }
}

/// Why a word list cannot be used.
#[derive(Clone, Copy, Debug, PartialEq, Eq, Structural)]
pub enum WordBankError {
    /// No line of the list starts with a lowercase letter.
    EmptyCorpus,
}

/// The word list, one bucket of words per initial letter.
pub struct AvailableWords {
    pub buckets: Vec<Vec<String>>,
}

impl AvailableWords {
    /// The words of bucket `k`, in the order of the list.
    pub open spec fn bucket(&self, k: int) -> Seq<Seq<char>> {
        bucket_view(self.buckets@[k])
    }

    pub open spec fn wf(&self) -> bool {
        &&& self.buckets@.len() == LETTER_COUNT
        &&& exists|k: int| 0 <= k < LETTER_COUNT && self.buckets@[k]@.len() > 0
    }

    /// Whether `w` is one of the words of the bank.
    pub open spec fn holds(&self, w: Seq<char>) -> bool {
        exists|k: int, j: int|
            0 <= k < LETTER_COUNT && 0 <= j < self.bucket(k).len() && self.bucket(k)[j] == w
    }

    /// Reads a newline-separated word list: each line that starts with a
    /// lowercase letter goes, whole, into that letter's bucket; other lines are
    /// skipped. A list with no such line is refused.
    pub fn load(corpus: &str) -> (r: Result<AvailableWords, WordBankError>)
        ensures
            (exists|k: int|
                0 <= k < LETTER_COUNT && words_with_initial(lines(corpus@), k).len() > 0)
                <==> r is Ok,
            r matches Ok(b) ==> b.wf() && forall|k: int|
                0 <= k < LETTER_COUNT ==> #[trigger] b.bucket(k) == words_with_initial(
                    lines(corpus@),
                    k,
                ),
            r matches Err(e) ==> e == WordBankError::EmptyCorpus,
    {
        let mut buckets: Vec<Vec<String>> = Vec::new();
        let mut k: usize = 0;
        while k < LETTER_COUNT
            invariant
                k <= LETTER_COUNT,
                buckets@.len() == k,
                forall|j: int| 0 <= j < k ==> (#[trigger] buckets@[j])@.len() == 0,
            decreases LETTER_COUNT - k,
        {
            buckets.push(Vec::new());
            k = k + 1;
        }
        let mut current = String::new();
        let ghost mut seen: Seq<char> = Seq::empty();
        proof {
            assert forall|j: int| 0 <= j < LETTER_COUNT implies #[trigger] bucket_view(
                buckets@[j],
            ) == words_with_initial(lines(seen).drop_last(), j) by {
                assert(lines(seen).drop_last() =~= Seq::<Seq<char>>::empty());
                assert(bucket_view(buckets@[j]) =~= Seq::<Seq<char>>::empty());
            }
        }
        for c in it: corpus.chars()
            invariant
                buckets@.len() == LETTER_COUNT,
                seen == it.seq().subrange(0, it.index() as int),
                it.seq() == corpus@,
                lines(seen).len() >= 1,
                current@ == lines(seen).last(),
                forall|j: int|
                    0 <= j < LETTER_COUNT ==> #[trigger] bucket_view(buckets@[j])
                        == words_with_initial(lines(seen).drop_last(), j),
        {
            let ghost before = seen;
            proof {
                seen = seen.push(c);
                assert(seen.drop_last() =~= before);
                assert(seen == it.seq().subrange(0, it.index() + 1));
            }
            if c == '\n' {
                let ghost done = lines(before);
                proof {
                    assert(lines(seen) == done.push(Seq::<char>::empty()));
                    assert(lines(seen).drop_last() =~= done);
                    assert(done.drop_last().push(done.last()) =~= done);
                }
                file_word(&mut buckets, current);
                current = String::new();
                proof {
                    assert forall|j: int| 0 <= j < LETTER_COUNT implies #[trigger] bucket_view(
                        buckets@[j],
                    ) == words_with_initial(lines(seen).drop_last(), j) by {
                        assert(words_with_initial(done, j) == (if has_initial(done.last(), j) {
                            words_with_initial(done.drop_last(), j).push(done.last())
                        } else {
                            words_with_initial(done.drop_last(), j)
                        }));
                    }
                    lemma_lines_nonempty(seen);
                }
            } else {
                push_char(&mut current, c);
                proof {
                    let prev = lines(before);
                    assert(lines(seen) == prev.update(prev.len() - 1, prev.last().push(c)));
                    assert(lines(seen).drop_last() =~= prev.drop_last());
                }
            }
        }
        proof {
            assert(seen =~= corpus@);
        }
        let ghost done = lines(seen);
        file_word(&mut buckets, current);
        proof {
            assert forall|j: int| 0 <= j < LETTER_COUNT implies #[trigger] bucket_view(
                buckets@[j],
            ) == words_with_initial(done, j) by {
                assert(words_with_initial(done, j) == (if has_initial(done.last(), j) {
                    words_with_initial(done.drop_last(), j).push(done.last())
                } else {
                    words_with_initial(done.drop_last(), j)
                }));
            }
        }
        let mut k: usize = 0;
        while k < LETTER_COUNT
            invariant
                k <= LETTER_COUNT,
                buckets@.len() == LETTER_COUNT,
                done == lines(corpus@),
                forall|j: int| 0 <= j < k ==> (#[trigger] buckets@[j])@.len() == 0,
                forall|j: int|
                    0 <= j < LETTER_COUNT ==> #[trigger] bucket_view(buckets@[j])
                        == words_with_initial(done, j),
            decreases LETTER_COUNT - k,
        {
            if buckets[k].len() > 0 {
                let b = AvailableWords { buckets };
                proof {
                    assert(b.bucket(k as int) == words_with_initial(done, k as int));
                    assert(b.bucket(k as int).len() > 0);
                }
                return Ok(b);
            }
            k = k + 1;
        }
        proof {
            assert forall|j: int|
                0 <= j < LETTER_COUNT implies #[trigger] words_with_initial(done, j).len()
                == 0 by {
                assert(bucket_view(buckets@[j]) == words_with_initial(done, j));
            }
        }
        Err(WordBankError::EmptyCorpus)
    }

    /// Number of buckets that hold at least one word.
    pub fn nonempty_count(&self) -> (r: usize)
        requires
            self.wf(),
        ensures
            r == count_nonempty(self.buckets@, LETTER_COUNT as int),
            r > 0,
    {
        let mut n: usize = 0;
        let mut k: usize = 0;
        while k < LETTER_COUNT
            invariant
                k <= LETTER_COUNT,
                self.buckets@.len() == LETTER_COUNT,
                n == count_nonempty(self.buckets@, k as int),
            decreases LETTER_COUNT - k,
        {
            proof {
                lemma_count_nonempty_bounds(self.buckets@, k as int);
            }
            if self.buckets[k].len() > 0 {
                n = n + 1;
            }
            k = k + 1;
        }
        proof {
            let j = choose|j: int| 0 <= j < LETTER_COUNT && self.buckets@[j]@.len() > 0;
            lemma_count_nonempty_positive(self.buckets@, LETTER_COUNT as int, j);
        }
        n
    }

    /// The bucket that is the `r`-th non-empty one, counting from `a`.
    pub fn nth_nonempty_bucket(&self, r: usize) -> (k: usize)
        requires
            self.wf(),
            r < count_nonempty(self.buckets@, LETTER_COUNT as int),
        ensures
            k < LETTER_COUNT,
            self.buckets@[k as int]@.len() > 0,
            count_nonempty(self.buckets@, k as int) == r,
    {
        let mut seen: usize = 0;
        let mut k: usize = 0;
        while k < LETTER_COUNT
            invariant
                k <= LETTER_COUNT,
                self.buckets@.len() == LETTER_COUNT,
                seen == count_nonempty(self.buckets@, k as int),
                seen <= r,
                r < count_nonempty(self.buckets@, LETTER_COUNT as int),
            decreases LETTER_COUNT - k,
        {
            if self.buckets[k].len() > 0 {
                if seen == r {
                    return k;
                }
                seen = seen + 1;
            }
            k = k + 1;
        }
        k
    }

    /// The word that a letter draw in `0..nonempty_count()` and a word draw
    /// in the chosen bucket pick; `None` where a draw is out of range.
    pub fn pick_word(&self, letter_draw: usize, word_draw: usize) -> (w: Option<String>)
        requires
            self.wf(),
        ensures
            letter_draw >= count_nonempty(self.buckets@, LETTER_COUNT as int) ==> w is None,
            letter_draw < count_nonempty(self.buckets@, LETTER_COUNT as int) ==> exists|k: int|
                0 <= k < LETTER_COUNT && self.buckets@[k]@.len() > 0 && count_nonempty(
                    self.buckets@,
                    k,
                ) == letter_draw && (if word_draw < self.bucket(k).len() {
                    w == Some(self.buckets@[k]@[word_draw as int])
                } else {
                    w is None
                }),
    {
        let n = self.nonempty_count();
        if letter_draw >= n {
            return None;
        }
        let k = self.nth_nonempty_bucket(letter_draw);
        if word_draw < self.buckets[k].len() {
            Some(self.buckets[k][word_draw].clone())
        } else {
            None
        }
    }

    /// A random word of the bank: a letter drawn uniformly among those with
    /// words, then a word drawn uniformly from that letter's bucket.
    pub fn get_random_word(&self) -> (w: String)
        requires
            self.wf(),
        ensures
            self.holds(w@),
    {
        let n = self.nonempty_count();
        let letter_draw = random_below(n);
        let k = self.nth_nonempty_bucket(letter_draw);
        let word_draw = random_below(self.buckets[k].len());
        match self.pick_word(letter_draw, word_draw) {
            Some(w) => {
                proof {
                    let j = choose|j: int|
                        0 <= j < LETTER_COUNT && self.buckets@[j]@.len() > 0 && count_nonempty(
                            self.buckets@,
                            j,
                        ) == letter_draw && (if word_draw < self.bucket(j).len() {
                            Some(w) == Some(self.buckets@[j]@[word_draw as int])
                        } else {
                            false
                        });
                    assert(self.bucket(j)[word_draw as int] == w@);
                }
                w
            },
            None => {
                proof {
                    let j = choose|j: int|
                        0 <= j < LETTER_COUNT && self.buckets@[j]@.len() > 0 && count_nonempty(
                            self.buckets@,
                            j,
                        ) == letter_draw && (if word_draw < self.bucket(j).len() {
                            None::<String> == Some(self.buckets@[j]@[word_draw as int])
                        } else {
                            true
                        });
                    lemma_nonempty_bucket_unique(self.buckets@, j, k as int);
                }
                String::new()
            },
        }
    }
}

} // verus!
