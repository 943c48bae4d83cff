//! The input partitioner: tokenizes a document on whitespace and splits the
//! word sequence into at most `n` contiguous, balanced chunks, each rendered
//! as a space-joined string. No word is ever dropped, duplicated, split or
//! reordered.

use vstd::prelude::*;
use vstd::arithmetic::div_mod::lemma_fundamental_div_mod;
use crate::error::Error;
use crate::text::dec_rep;
use crate::text::push_char;
use crate::text::u64_to_dec;

verus! {

/// The characters on which the input text is tokenized: the Unicode
/// White_Space set (the controls TAB through CR, space, NEL, no-break
/// space, ogham space mark, the EN QUAD through HAIR SPACE range, the line
/// and paragraph separators, narrow no-break space, medium mathematical
/// space, and ideographic space).
pub open spec fn is_space(c: char) -> bool {
    ||| c == '\u{9}'
    ||| c == '\u{a}'
    ||| c == '\u{b}'
    ||| c == '\u{c}'
    ||| c == '\u{d}'
    ||| c == ' '
    ||| c == '\u{85}'
    ||| c == '\u{a0}'
    ||| c == '\u{1680}'
    ||| c == '\u{2000}'
    ||| c == '\u{2001}'
    ||| c == '\u{2002}'
    ||| c == '\u{2003}'
    ||| c == '\u{2004}'
    ||| c == '\u{2005}'
    ||| c == '\u{2006}'
    ||| c == '\u{2007}'
    ||| c == '\u{2008}'
    ||| c == '\u{2009}'
    ||| c == '\u{200a}'
    ||| c == '\u{2028}'
    ||| c == '\u{2029}'
    ||| c == '\u{202f}'
    ||| c == '\u{205f}'
    ||| c == '\u{3000}'
}

fn is_space_char(c: char) -> (b: bool)
    ensures
        b == is_space(c),
{
    c == '\u{9}' || c == '\u{a}' || c == '\u{b}' || c == '\u{c}' || c == '\u{d}' || c == ' '
        || c == '\u{85}' || c == '\u{a0}' || c == '\u{1680}' || c == '\u{2000}' || c == '\u{2001}'
        || c == '\u{2002}' || c == '\u{2003}' || c == '\u{2004}' || c == '\u{2005}' || c
        == '\u{2006}' || c == '\u{2007}' || c == '\u{2008}' || c == '\u{2009}' || c == '\u{200a}'
        || c == '\u{2028}' || c == '\u{2029}' || c == '\u{202f}' || c == '\u{205f}' || c
        == '\u{3000}'
}

/// Tokenization: scans `s` left to right with `cur` holding the word
/// accumulated so far; a whitespace character or the end of input flushes a
/// non-empty `cur` as one word.
pub open spec fn words_rec(s: Seq<char>, cur: Seq<char>) -> Seq<Seq<char>>
    decreases s.len(),
{
    if s.len() == 0 {
        if cur.len() == 0 {
            Seq::empty()
        } else {
            seq![cur]
        }
    } else if is_space(s[0]) {
        (if cur.len() == 0 {
            Seq::empty()
        } else {
            seq![cur]
        }) + words_rec(s.drop_first(), Seq::empty())
    } else {
        words_rec(s.drop_first(), cur.push(s[0]))
    }
}

/// The word sequence of a text.
pub open spec fn words_of(s: Seq<char>) -> Seq<Seq<char>> {
    words_rec(s, Seq::empty())
}

/// A well-formed word: non-empty and free of whitespace.
pub open spec fn wf_word(w: Seq<char>) -> bool {
    &&& w.len() > 0
    &&& forall|j: int| 0 <= j < w.len() ==> !is_space(w[j])
}

/// Every word of the sequence is well formed.
pub open spec fn wf_words(ws: Seq<Seq<char>>) -> bool {
    forall|k: int| 0 <= k < ws.len() ==> wf_word(#[trigger] ws[k])
}

/// Tokenization only produces well-formed words.
pub proof fn lemma_words_rec_wf(s: Seq<char>, cur: Seq<char>)
    requires
        forall|j: int| 0 <= j < cur.len() ==> !is_space(cur[j]),
    ensures
        wf_words(words_rec(s, cur)),
    decreases s.len(),
{
    if s.len() == 0 {
    } else if is_space(s[0]) {
        lemma_words_rec_wf(s.drop_first(), Seq::empty());
    } else {
        assert(forall|j: int| 0 <= j < cur.push(s[0]).len() ==> !is_space(cur.push(s[0])[j]));
        lemma_words_rec_wf(s.drop_first(), cur.push(s[0]));
    }
}

/// The words of any text are well formed.
pub proof fn lemma_words_of_wf(s: Seq<char>)
    ensures
        wf_words(words_of(s)),
{
    lemma_words_rec_wf(s, Seq::empty());
}

/// Words joined by single spaces: empty for no words, and no leading or
/// trailing separator.
pub open spec fn join_words(ws: Seq<Seq<char>>) -> Seq<char>
    decreases ws.len(),
{
    if ws.len() == 0 {
        Seq::empty()
    } else if ws.len() == 1 {
        ws[0]
    } else {
        ws[0] + seq![' '] + join_words(ws.drop_first())
    }
}

/// Appending one more word appends one space and the word.
pub proof fn lemma_join_push(ws: Seq<Seq<char>>, w: Seq<char>)
    requires
        ws.len() >= 1,
    ensures
        join_words(ws.push(w)) == join_words(ws) + seq![' '] + w,
    decreases ws.len(),
{
    if ws.len() == 1 {
        assert(ws.push(w).drop_first() =~= seq![w]);
        assert(join_words(seq![w]) == seq![w][0]);
        assert(join_words(ws.push(w)) =~= join_words(ws) + seq![' '] + w);
    } else {
        assert(ws.push(w).drop_first() =~= ws.drop_first().push(w));
        lemma_join_push(ws.drop_first(), w);
        assert(join_words(ws.push(w)) =~= join_words(ws) + seq![' '] + w);
    }
}

/// Scanning a whitespace-free word at the front of the input moves it into
/// the accumulator.
proof fn lemma_words_rec_word_prefix(w: Seq<char>, s: Seq<char>, cur: Seq<char>)
    requires
        forall|j: int| 0 <= j < w.len() ==> !is_space(w[j]),
    ensures
        words_rec(w + s, cur) == words_rec(s, cur + w),
    decreases w.len(),
{
    if w.len() == 0 {
        assert(w + s =~= s);
        assert(cur + w =~= cur);
    } else {
        assert((w + s)[0] == w[0]);
        assert((w + s).drop_first() =~= w.drop_first() + s);
        lemma_words_rec_word_prefix(w.drop_first(), s, cur.push(w[0]));
        assert(cur.push(w[0]) + w.drop_first() =~= cur + w);
    }
}

/// Tokenizing a space-joined sequence of well-formed words gives back
/// exactly those words.
pub proof fn lemma_words_of_join(g: Seq<Seq<char>>)
    requires
        wf_words(g),
    ensures
        words_of(join_words(g)) == g,
    decreases g.len(),
{
    if g.len() == 0 {
        assert(words_of(join_words(g)) =~= g);
    } else if g.len() == 1 {
        assert(g[0] + Seq::<char>::empty() =~= g[0]);
        lemma_words_rec_word_prefix(g[0], Seq::empty(), Seq::empty());
        assert(Seq::<char>::empty() + g[0] =~= g[0]);
        assert(words_rec(Seq::<char>::empty(), g[0]) =~= seq![g[0]]);
        assert(words_of(join_words(g)) =~= g);
    } else {
        let rest = seq![' '] + join_words(g.drop_first());
        assert(join_words(g) =~= g[0] + rest);
        lemma_words_rec_word_prefix(g[0], rest, Seq::empty());
        assert(Seq::<char>::empty() + g[0] =~= g[0]);
        assert(rest[0] == ' ');
        assert(rest.drop_first() =~= join_words(g.drop_first()));
        assert(words_rec(rest, g[0]) =~= seq![g[0]] + words_rec(join_words(g.drop_first()), Seq::empty()));
        assert(wf_words(g.drop_first()));
        lemma_words_of_join(g.drop_first());
        assert(words_of(join_words(g)) =~= seq![g[0]] + g.drop_first());
        assert(seq![g[0]] + g.drop_first() =~= g);
    }
}

/// Groups a word sequence into consecutive runs of `k` words; the final
/// group may be shorter.
pub open spec fn group_words(ws: Seq<Seq<char>>, k: nat) -> Seq<Seq<Seq<char>>>
    recommends
        k >= 1,
    decreases ws.len(),
    when k >= 1
{
    if ws.len() == 0 {
        Seq::empty()
    } else if ws.len() <= k {
        seq![ws]
    } else {
        seq![ws.take(k as int)] + group_words(ws.skip(k as int), k)
    }
}

/// Concatenation of a sequence of word groups.
pub open spec fn concat_groups(gs: Seq<Seq<Seq<char>>>) -> Seq<Seq<char>>
    decreases gs.len(),
{
    if gs.len() == 0 {
        Seq::empty()
    } else {
        gs[0] + concat_groups(gs.drop_first())
    }
}

/// Grouping loses, duplicates and reorders nothing: the groups concatenate
/// back to the original word sequence.
pub proof fn lemma_groups_concat(ws: Seq<Seq<char>>, k: nat)
    requires
        k >= 1,
    ensures
        concat_groups(group_words(ws, k)) == ws,
    decreases ws.len(),
{
    if ws.len() == 0 {
        assert(concat_groups(group_words(ws, k)) =~= ws);
    } else if ws.len() <= k {
        assert(group_words(ws, k) == seq![ws]);
        assert(seq![ws][0] == ws);
        assert(seq![ws].drop_first() =~= Seq::<Seq<Seq<char>>>::empty());
        assert(concat_groups(seq![ws].drop_first()) == Seq::<Seq<char>>::empty());
        assert(concat_groups(seq![ws]) == ws + Seq::<Seq<char>>::empty());
        assert(concat_groups(group_words(ws, k)) =~= ws);
    } else {
        let gs = group_words(ws, k);
        assert(gs.drop_first() =~= group_words(ws.skip(k as int), k));
        assert(gs[0] == ws.take(k as int));
        lemma_groups_concat(ws.skip(k as int), k);
        assert(concat_groups(group_words(ws, k)) =~= ws.take(k as int) + ws.skip(k as int));
        assert(ws.take(k as int) + ws.skip(k as int) =~= ws);
    }
}

/// If `ws` fits into `n` runs of `k` words, grouping yields at most `n` groups.
pub proof fn lemma_groups_count(ws: Seq<Seq<char>>, k: nat, n: nat)
    requires
        k >= 1,
        ws.len() <= n * k,
    ensures
        group_words(ws, k).len() <= n,
    decreases ws.len(),
{
    if ws.len() == 0 {
    } else if ws.len() <= k {
        assert(n >= 1) by {
            if n == 0 {
                assert(n * k == 0);
            }
        }
    } else {
        assert(n >= 1) by {
            if n == 0 {
                assert(n * k == 0);
            }
        }
        assert(ws.skip(k as int).len() <= (n - 1) * k) by {
            assert((n - 1) * k == n * k - k) by (nonlinear_arith);
        }
        lemma_groups_count(ws.skip(k as int), k, (n - 1) as nat);
    }
}

/// Every group is non-empty and holds at most `k` words.
pub proof fn lemma_groups_sizes(ws: Seq<Seq<char>>, k: nat)
    requires
        k >= 1,
    ensures
        forall|g: int| 0 <= g < group_words(ws, k).len()
            ==> 1 <= (#[trigger] group_words(ws, k)[g]).len() <= k,
    decreases ws.len(),
{
    if ws.len() == 0 {
    } else if ws.len() <= k {
    } else {
        lemma_groups_sizes(ws.skip(k as int), k);
        assert forall|g: int| 0 <= g < group_words(ws, k).len()
            implies 1 <= (#[trigger] group_words(ws, k)[g]).len() <= k by {
            if g >= 1 {
                assert(group_words(ws, k)[g] == group_words(ws.skip(k as int), k)[g - 1]);
            }
        }
    }
}

/// Grouping preserves well-formedness of the words.
pub proof fn lemma_groups_wf(ws: Seq<Seq<char>>, k: nat)
    requires
        k >= 1,
        wf_words(ws),
    ensures
        forall|g: int| 0 <= g < group_words(ws, k).len()
            ==> wf_words(#[trigger] group_words(ws, k)[g]),
    decreases ws.len(),
{
    if ws.len() == 0 {
    } else if ws.len() <= k {
    } else {
        assert(wf_words(ws.skip(k as int))) by {
            assert(forall|j: int| 0 <= j < ws.skip(k as int).len()
                ==> #[trigger] ws.skip(k as int)[j] == ws[j + k]);
        }
        lemma_groups_wf(ws.skip(k as int), k);
        assert forall|g: int| 0 <= g < group_words(ws, k).len()
            implies wf_words(#[trigger] group_words(ws, k)[g]) by {
            if g == 0 {
                assert(forall|j: int| 0 <= j < ws.take(k as int).len()
                    ==> #[trigger] ws.take(k as int)[j] == ws[j]);
            } else {
                assert(group_words(ws, k)[g] == group_words(ws.skip(k as int), k)[g - 1]);
            }
        }
    }
}

/// Ceiling division: the least `q` with `q * b >= a`.
pub open spec fn ceil_div(a: nat, b: nat) -> nat
    recommends
        b >= 1,
{
    (((a + b - 1) as int) / (b as int)) as nat
}

/// `ceil_div(a, b) * b` covers `a`, and the quotient is positive when `a` is.
pub proof fn lemma_ceil_div_bound(a: nat, b: nat)
    requires
        b >= 1,
    ensures
        a <= ceil_div(a, b) * b,
        a >= 1 ==> ceil_div(a, b) >= 1,
{
    lemma_fundamental_div_mod((a + b - 1) as int, b as int);
    assert(ceil_div(a, b) * b == b * ceil_div(a, b)) by (nonlinear_arith);
    if a >= 1 && ceil_div(a, b) == 0 {
        assert(a + b - 1 == b * (((a + b - 1) as int) / (b as int)) + (a + b - 1) % (b as int));
    }
}

/// The word groups of `partition(text, n)`, before joining.
pub open spec fn partition_groups(text: Seq<char>, n: nat) -> Seq<Seq<Seq<char>>> {
    group_words(words_of(text), ceil_div(words_of(text).len(), n))
}

/// The chunk strings of `partition(text, n)`: each group space-joined.
pub open spec fn partition_chunks(text: Seq<char>, n: nat) -> Seq<Seq<char>> {
    partition_groups(text, n).map_values(|g: Seq<Seq<char>>| join_words(g))
}

/// The message carried by the validation error for too few words.
pub open spec fn cannot_split_msg(wc: nat, n: nat) -> Seq<char> {
    "cannot split input of "@ + dec_rep(wc) + " words into "@ + dec_rep(n) + " subtasks"@
}

/// Law: for every text and every `1 <= n <=` word count, the partition has
/// at most `n` chunks, none of them empty; each chunk's own word sequence
/// is exactly its word group; and the groups concatenate, in order, to the
/// original word sequence of the text.
pub proof fn lemma_partition_covers(text: Seq<char>, n: nat)
    requires
        1 <= n <= words_of(text).len(),
    ensures
        partition_chunks(text, n).len() <= n,
        forall|c: int|
            0 <= c < partition_chunks(text, n).len() ==> (#[trigger] partition_chunks(text, n)[c]).len() > 0,
        partition_chunks(text, n).map_values(|c: Seq<char>| words_of(c)) == partition_groups(
            text,
            n,
        ),
        concat_groups(partition_groups(text, n)) == words_of(text),
{
    let ws = words_of(text);
    let k = ceil_div(ws.len(), n);
    lemma_ceil_div_bound(ws.len(), n);
    assert(ws.len() <= n * k) by {
        assert(k * n == n * k) by (nonlinear_arith);
        assert(ws.len() <= ceil_div(ws.len(), n) * n) by {
            lemma_ceil_div_bound(ws.len(), n);
        }
    }
    lemma_groups_count(ws, k, n);
    lemma_groups_concat(ws, k);
    lemma_words_of_wf(text);
    lemma_groups_wf(ws, k);
    lemma_groups_sizes(ws, k);
    let gs = partition_groups(text, n);
    assert forall|g: int| 0 <= g < gs.len() implies words_of(
        #[trigger] partition_chunks(text, n)[g],
    ) == gs[g] by {
        lemma_words_of_join(gs[g]);
    }
    assert forall|c: int|
        0 <= c < partition_chunks(text, n).len() implies (#[trigger] partition_chunks(text, n)[c]).len()
        > 0 by {
        let g = gs[c];
        assert(g.len() >= 1);
        assert(wf_word(g[0]));
        if g.len() == 1 {
            assert(join_words(g) == g[0]);
        } else {
            assert(join_words(g) == g[0] + seq![' '] + join_words(g.drop_first()));
        }
    }
    assert(partition_chunks(text, n).map_values(|c: Seq<char>| words_of(c)) =~= gs);
}

/// Splits a text into its whitespace-separated words, each non-empty and
/// free of whitespace.
#[verifier::loop_isolation(false)]
pub fn split_words(text: &str) -> (words: Vec<String>)
    ensures
        words@.map_values(|w: String| w@) == words_of(text@),
        wf_words(words@.map_values(|w: String| w@)),
{
    let n: usize = text.unicode_len();
    let mut words: Vec<String> = Vec::new();
    let mut cur: String = String::new();
    let mut i: usize = 0;
    proof {
        assert(text@.skip(0) =~= text@);
        assert(words@.map_values(|w: String| w@) =~= Seq::<Seq<char>>::empty());
        assert(words@.map_values(|w: String| w@) + words_rec(text@.skip(0), cur@) =~= words_of(
            text@,
        ));
    }
    while i < n
        invariant
            i <= n,
            words_of(text@) == words@.map_values(|w: String| w@) + words_rec(
                text@.skip(i as int),
                cur@,
            ),
        decreases n - i,
    {
        let c: char = text.get_char(i);
        let ghost s_i = text@.skip(i as int);
        proof {
            assert(s_i.len() > 0);
            assert(s_i[0] == text@[i as int]);
            assert(s_i.drop_first() =~= text@.skip(i as int + 1));
        }
        if is_space_char(c) {
            if !cur.as_str().is_empty() {
                let ghost prev_words = words@;
                let ghost prev_cur = cur@;
                words.push(cur);
                cur = String::new();
                proof {
                    assert(words_rec(s_i, prev_cur) == seq![prev_cur] + words_rec(
                        text@.skip(i as int + 1),
                        Seq::<char>::empty(),
                    ));
                    assert(words@.map_values(|w: String| w@) =~= prev_words.map_values(
                        |w: String| w@,
                    ).push(prev_cur));
                    assert(words@.map_values(|w: String| w@) + words_rec(
                        text@.skip(i as int + 1),
                        cur@,
                    ) =~= prev_words.map_values(|w: String| w@) + words_rec(s_i, prev_cur));
                }
            } else {
                proof {
                    assert(cur@ =~= Seq::<char>::empty());
                    assert(words_rec(s_i, cur@) == Seq::<Seq<char>>::empty() + words_rec(
                        text@.skip(i as int + 1),
                        Seq::<char>::empty(),
                    ));
                    assert(Seq::<Seq<char>>::empty() + words_rec(
                        text@.skip(i as int + 1),
                        cur@,
                    ) =~= words_rec(text@.skip(i as int + 1), cur@));
                }
            }
        } else {
            let ghost prev_cur = cur@;
            push_char(&mut cur, c);
            proof {
                assert(words_rec(s_i, prev_cur) == words_rec(text@.skip(i as int + 1), cur@));
            }
        }
        i = i + 1;
    }
    proof {
        assert(text@.skip(n as int) =~= Seq::<char>::empty());
    }
    if !cur.as_str().is_empty() {
        let ghost prev_words = words@;
        let ghost prev_cur = cur@;
        words.push(cur);
        proof {
            assert(words_rec(Seq::<char>::empty(), prev_cur) == seq![prev_cur]);
            assert(words@.map_values(|w: String| w@) =~= prev_words.map_values(
                |w: String| w@,
            ).push(prev_cur));
            assert(words@.map_values(|w: String| w@) =~= words_of(text@));
        }
    } else {
        proof {
            assert(cur@ =~= Seq::<char>::empty());
            assert(words_rec(Seq::<char>::empty(), cur@) == Seq::<Seq<char>>::empty());
            assert(words@.map_values(|w: String| w@) =~= words_of(text@));
        }
    }
    proof {
        lemma_words_of_wf(text@);
    }
    words
}

/// Counts the whitespace-separated words of a text.
pub fn word_count(text: &str) -> (c: usize)
    ensures
        c == words_of(text@).len(),
{
    let words: Vec<String> = split_words(text);
    words.len()
}

/// `map_values` with `join_words` distributes over concatenation.
proof fn lemma_map_join_concat(a: Seq<Seq<Seq<char>>>, b: Seq<Seq<Seq<char>>>)
    ensures
        (a + b).map_values(|g: Seq<Seq<char>>| join_words(g)) == a.map_values(
            |g: Seq<Seq<char>>| join_words(g),
        ) + b.map_values(|g: Seq<Seq<char>>| join_words(g)),
{
    assert((a + b).map_values(|g: Seq<Seq<char>>| join_words(g)) =~= a.map_values(
        |g: Seq<Seq<char>>| join_words(g),
    ) + b.map_values(|g: Seq<Seq<char>>| join_words(g)));
}

/// Law: partitioning is deterministic. The contract of `partition` pins
/// the views of the chunks it returns to `partition_chunks(text, n)`, a
/// function of the text and the chunk count alone, so two calls with
/// identical arguments yield identical chunk sequences.
pub proof fn lemma_partition_deterministic(
    text: Seq<char>,
    n: nat,
    r1: Seq<Seq<char>>,
    r2: Seq<Seq<char>>,
)
    requires
        r1 == partition_chunks(text, n),
        r2 == partition_chunks(text, n),
    ensures
        r1 == r2,
{
}

/// Splits `text` into at most `n` balanced, word-preserving chunks.
///
/// Tokenizes on whitespace, computes the ceiling of word count over `n` as
/// the chunk size, and joins each consecutive run of that many words with
/// single spaces; the final chunk may be shorter. Pure and deterministic:
/// the result is pinned to `partition_chunks(text@, n)`. Fails with a
/// validation error exactly when the text has fewer than `n` words.
#[verifier::loop_isolation(false)]
pub fn partition(text: &str, n: usize) -> (r: Result<Vec<String>, Error>)
    requires
        n >= 1,
    ensures
        n <= words_of(text@).len() ==> (r matches Ok(chunks) && chunks@.map_values(
            |c: String| c@,
        ) == partition_chunks(text@, n as nat) && chunks@.len() <= n),
        n > words_of(text@).len() ==> (r matches Err(e) && e matches Error::Validation {
            detail,
        } && detail@ == cannot_split_msg(words_of(text@).len(), n as nat)),
{
    let words: Vec<String> = split_words(text);
    let wc: usize = words.len();
    let ghost ws: Seq<Seq<char>> = words@.map_values(|w: String| w@);
    if wc < n {
        let mut detail: String = String::from_str("cannot split input of ");
        let a: String = u64_to_dec(wc as u64);
        detail.append(a.as_str());
        detail.append(" words into ");
        let b: String = u64_to_dec(n as u64);
        detail.append(b.as_str());
        detail.append(" subtasks");
        proof {
            assert(detail@ =~= cannot_split_msg(words_of(text@).len(), n as nat));
        }
        return Err(Error::Validation { detail });
    }
    let k: usize = (wc - 1) / n + 1;
    proof {
        lemma_fundamental_div_mod((wc - 1) as int, n as int);
        lemma_fundamental_div_mod((wc + n - 1) as int, n as int);
        assert(k == ceil_div(wc as nat, n as nat)) by {
            let q1 = ((wc - 1) as int) / (n as int);
            let q2 = ((wc + n - 1) as int) / (n as int);
            assert(n * q1 + ((wc - 1) as int) % (n as int) == wc - 1);
            assert(n * q2 + ((wc + n - 1) as int) % (n as int) == wc + n - 1);
            assert(n * (q1 + 1) == n * q1 + n) by (nonlinear_arith);
            assert(n * q2 <= wc + n - 1 < n * (q2 + 1)) by (nonlinear_arith)
                requires
                    n >= 1,
                    n * q2 + ((wc + n - 1) as int) % (n as int) == wc + n - 1,
                    0 <= ((wc + n - 1) as int) % (n as int) < n,
            ;
            assert(n * (q1 + 1) <= wc + n - 1 < n * (q1 + 2)) by (nonlinear_arith)
                requires
                    n >= 1,
                    n * q1 + ((wc - 1) as int) % (n as int) == wc - 1,
                    0 <= ((wc - 1) as int) % (n as int) < n,
            ;
            assert(q2 == q1 + 1) by (nonlinear_arith)
                requires
                    n >= 1,
                    n * q2 <= wc + n - 1 < n * (q2 + 1),
                    n * (q1 + 1) <= wc + n - 1 < n * (q1 + 2),
            ;
        }
    }
    let ghost gk: nat = k as nat;
    let mut chunks: Vec<String> = Vec::new();
    let mut i: usize = 0;
    proof {
        assert(ws.skip(0) =~= ws);
        assert(chunks@.map_values(|c: String| c@) =~= Seq::<Seq<char>>::empty());
        assert(chunks@.map_values(|c: String| c@) + group_words(ws.skip(0), gk).map_values(
            |g: Seq<Seq<char>>| join_words(g),
        ) =~= group_words(ws, gk).map_values(|g: Seq<Seq<char>>| join_words(g)));
    }
    while i < wc
        invariant
            i <= wc,
            group_words(ws, gk).map_values(|g: Seq<Seq<char>>| join_words(g)) == chunks@.map_values(
                |c: String| c@,
            ) + group_words(ws.skip(i as int), gk).map_values(|g: Seq<Seq<char>>| join_words(g)),
        decreases wc - i,
    {
        let rem: usize = wc - i;
        let step: usize = if k < rem {
            k
        } else {
            rem
        };
        let end: usize = i + step;
        let mut s: String = (&words[i]).clone();
        proof {
            assert(s@ == ws[i as int]);
            assert(ws.subrange(i as int, i as int + 1) =~= seq![ws[i as int]]);
            assert(join_words(ws.subrange(i as int, i as int + 1)) == ws[i as int]);
        }
        let mut j: usize = i + 1;
        while j < end
            invariant
                i + 1 <= j <= end,
                s@ == join_words(ws.subrange(i as int, j as int)),
            decreases end - j,
        {
            s.append(" ");
            s.append(words[j].as_str());
            proof {
                reveal_strlit(" ");
                assert(" "@ =~= seq![' ']);
                let sub = ws.subrange(i as int, j as int);
                assert(sub.len() >= 1);
                lemma_join_push(sub, ws[j as int]);
                assert(sub.push(ws[j as int]) =~= ws.subrange(i as int, j as int + 1));
                assert(s@ =~= join_words(ws.subrange(i as int, j as int + 1)));
            }
            j = j + 1;
        }
        let ghost prev_chunks = chunks@;
        chunks.push(s);
        proof {
            let tail = ws.skip(i as int);
            let jw = |g: Seq<Seq<char>>| join_words(g);
            if tail.len() <= gk {
                assert(end == wc);
                assert(ws.subrange(i as int, end as int) =~= tail);
                assert(group_words(tail, gk) == seq![tail]);
                assert(ws.skip(end as int) =~= Seq::<Seq<char>>::empty());
                assert(seq![tail].map_values(jw) =~= seq![join_words(tail)]);
                assert(group_words(ws.skip(end as int), gk).map_values(jw)
                    =~= Seq::<Seq<char>>::empty());
            } else {
                assert(end == i + k);
                assert(tail.take(gk as int) =~= ws.subrange(i as int, end as int));
                assert(tail.skip(gk as int) =~= ws.skip(end as int));
                assert(group_words(tail, gk) == seq![ws.subrange(i as int, end as int)]
                    + group_words(ws.skip(end as int), gk));
                lemma_map_join_concat(
                    seq![ws.subrange(i as int, end as int)],
                    group_words(ws.skip(end as int), gk),
                );
                assert(seq![ws.subrange(i as int, end as int)].map_values(jw)
                    =~= seq![join_words(ws.subrange(i as int, end as int))]);
            }
            assert(chunks@.map_values(|c: String| c@) =~= prev_chunks.map_values(|c: String| c@)
                .push(s@));
            assert(group_words(ws, gk).map_values(jw) =~= chunks@.map_values(|c: String| c@)
                + group_words(ws.skip(end as int), gk).map_values(jw));
        }
        i = end;
    }
    proof {
        assert(ws.skip(wc as int) =~= Seq::<Seq<char>>::empty());
        assert(group_words(ws.skip(wc as int), gk).map_values(|g: Seq<Seq<char>>| join_words(g))
            =~= Seq::<Seq<char>>::empty());
        assert(chunks@.map_values(|c: String| c@) =~= partition_chunks(text@, n as nat));
        lemma_partition_covers(text@, n as nat);
    }
    Ok(chunks)
}

} // verus!
