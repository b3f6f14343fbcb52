//! Word-bounded chunking of article content for embedding.

use vstd::prelude::*;
use crate::text::{chars_of, is_white_space, is_whitespace, len_utf8, lemma_utf8_len_concat, lemma_utf8_len_push, lemma_utf8_len_single, push_char, utf8_len};

verus! {

/// Splitting a text at white space, read left to right: the words completed so far
/// and the (possibly empty) word in progress.
pub open spec fn split_state(s: Seq<char>) -> (Seq<Seq<char>>, Seq<char>)
    decreases s.len(),
{
    if s.len() == 0 {
        (seq![], seq![])
    } else {
        let (done, cur) = split_state(s.drop_last());
        let c = s.last();
        if is_white_space(c) {
            if cur.len() > 0 {
                (done.push(cur), seq![])
            } else {
                (done, seq![])
            }
        } else {
            (done, cur.push(c))
        }
    }
}

/// The maximal runs of non-white-space characters of `s`, in order
/// (what `str::split_whitespace` yields).
pub open spec fn words(s: Seq<char>) -> Seq<Seq<char>> {
    let (done, cur) = split_state(s);
    if cur.len() > 0 {
        done.push(cur)
    } else {
        done
    }
}

/// Greedy packing of words into chunks: the chunks closed so far and the open chunk.
/// A word joins the open chunk, after one space, unless that would take the open chunk
/// past `max` bytes; then the open chunk is closed and the word opens the next one.
pub open spec fn pack_state(ws: Seq<Seq<char>>, max: nat) -> (Seq<Seq<char>>, Seq<char>)
    decreases ws.len(),
{
    if ws.len() == 0 {
        (seq![], seq![])
    } else {
        let (done, cur) = pack_state(ws.drop_last(), max);
        let w = ws.last();
        if cur.len() == 0 {
            (done, w)
        } else if utf8_len(cur) + 1 + utf8_len(w) > max {
            (done.push(cur), w)
        } else {
            (done, cur + seq![' '] + w)
        }
    }
}

/// The chunks of `text` for a limit of `max` bytes per chunk.
pub open spec fn chunks_of(text: Seq<char>, max: nat) -> Seq<Seq<char>> {
    let (done, cur) = pack_state(words(text), max);
    if cur.len() > 0 {
        done.push(cur)
    } else {
        done
    }
}

/// Joins the given pieces with one space between neighbours.
pub open spec fn join_spaced(pieces: Seq<Seq<char>>) -> Seq<char>
    decreases pieces.len(),
{
    if pieces.len() == 0 {
        seq![]
    } else if pieces.len() == 1 {
        pieces[0]
    } else {
        join_spaced(pieces.drop_last()) + seq![' '] + pieces.last()
    }
}

/// No character of `s` is white space.
pub open spec fn no_white_space(s: Seq<char>) -> bool {
    forall|i: int| 0 <= i < s.len() ==> !is_white_space(#[trigger] s[i])
}

/// `n` saturated just above `max`: the exact value while it is at most `max`.
pub open spec fn saturated(n: nat, max: nat) -> nat {
    if n > max {
        (max + 1) as nat
    } else {
        n
    }
}

/// The words found by `split_state` are non-empty and hold no white space.
proof fn lemma_split_state_words(s: Seq<char>)
    ensures
        forall|k: int|
            0 <= k < split_state(s).0.len() ==> (#[trigger] split_state(s).0[k]).len() > 0
                && no_white_space(split_state(s).0[k]),
        no_white_space(split_state(s).1),
    decreases s.len(),
{
    if s.len() > 0 {
        lemma_split_state_words(s.drop_last());
        let (done, cur) = split_state(s.drop_last());
        let c = s.last();
        if !is_white_space(c) {
            assert forall|i: int| 0 <= i < cur.push(c).len() implies !is_white_space(
                #[trigger] cur.push(c)[i],
            ) by {
                if i < cur.len() {
                    assert(cur.push(c)[i] == cur[i]);
                }
            }
        } else if cur.len() > 0 {
            assert forall|k: int| 0 <= k < done.push(cur).len() implies (
            #[trigger] done.push(cur)[k]).len() > 0 && no_white_space(done.push(cur)[k]) by {
                if k < done.len() {
                    assert(done.push(cur)[k] == done[k]);
                }
            }
        }
    }
}

/// Every word of a text is non-empty and holds no white space.
pub proof fn lemma_words_shape(s: Seq<char>)
    ensures
        forall|k: int|
            0 <= k < words(s).len() ==> (#[trigger] words(s)[k]).len() > 0 && no_white_space(
                words(s)[k],
            ),
{
    lemma_split_state_words(s);
    let (done, cur) = split_state(s);
    if cur.len() > 0 {
        assert forall|k: int| 0 <= k < done.push(cur).len() implies (
        #[trigger] done.push(cur)[k]).len() > 0 && no_white_space(done.push(cur)[k]) by {
            if k < done.len() {
                assert(done.push(cur)[k] == done[k]);
            }
        }
    }
}

/// The shape of a chunk: non-empty, and within `max` bytes unless it is one word
/// that is itself longer.
pub open spec fn chunk_shape(c: Seq<char>, max: nat) -> bool {
    &&& c.len() > 0
    &&& (utf8_len(c) <= max || no_white_space(c))
}

/// Packing keeps every chunk well shaped, and joining the chunks gives back the
/// words joined.
proof fn lemma_pack_state(ws: Seq<Seq<char>>, max: nat)
    requires
        forall|k: int| 0 <= k < ws.len() ==> (#[trigger] ws[k]).len() > 0 && no_white_space(ws[k]),
    ensures
        forall|k: int|
            0 <= k < pack_state(ws, max).0.len() ==> chunk_shape(
                #[trigger] pack_state(ws, max).0[k],
                max,
            ),
        ws.len() > 0 ==> chunk_shape(pack_state(ws, max).1, max),
        ws.len() == 0 ==> pack_state(ws, max).1.len() == 0 && pack_state(ws, max).0.len() == 0,
        ws.len() > 0 ==> join_spaced(pack_state(ws, max).0.push(pack_state(ws, max).1))
            == join_spaced(ws),
    decreases ws.len(),
{
    if ws.len() > 0 {
        let prefix = ws.drop_last();
        assert forall|k: int| 0 <= k < prefix.len() implies (#[trigger] prefix[k]).len() > 0
            && no_white_space(prefix[k]) by {
            assert(prefix[k] == ws[k]);
        }
        lemma_pack_state(prefix, max);
        let (done, cur) = pack_state(prefix, max);
        let w = ws.last();
        assert(w == ws[ws.len() - 1]);
        if cur.len() == 0 {
            assert(prefix.len() == 0);
            assert(ws =~= seq![w]);
            assert(done.push(w) =~= seq![w]);
        } else if utf8_len(cur) + 1 + utf8_len(w) > max {
            assert forall|k: int| 0 <= k < done.push(cur).len() implies chunk_shape(
                #[trigger] done.push(cur)[k],
                max,
            ) by {
                if k < done.len() {
                    assert(done.push(cur)[k] == done[k]);
                }
            }
            let d2 = done.push(cur).push(w);
            assert(d2.drop_last() =~= done.push(cur));
            assert(ws.drop_last() =~= prefix);
        } else {
            let merged = cur + seq![' '] + w;
            lemma_utf8_len_concat(cur, seq![' ']);
            lemma_utf8_len_concat(cur + seq![' '], w);
            lemma_utf8_len_single(' ');
            assert(vstd::utf8::encode_scalar(' ' as u32).len() == 1);
            assert(utf8_len(merged) <= max);
            assert(merged.len() > 0);
            assert(done.push(merged).drop_last() =~= done);
            assert(done.push(cur).drop_last() =~= done);
            assert(ws.drop_last() =~= prefix);
            if done.len() == 0 {
                assert(done.push(merged) =~= seq![merged]);
                assert(done.push(cur) =~= seq![cur]);
                assert(join_spaced(done.push(merged)) == merged);
                assert(join_spaced(done.push(cur)) == cur);
            } else {
                assert(join_spaced(done.push(merged)) == join_spaced(done) + seq![' '] + merged);
                assert(join_spaced(done.push(cur)) == join_spaced(done) + seq![' '] + cur);
                assert(join_spaced(done) + seq![' '] + merged =~= (join_spaced(done) + seq![' ']
                    + cur) + seq![' '] + w);
            }
        }
    }
}

/// What every chunk of `chunk_text` is: non-empty and at most `max` bytes long, unless
/// it is a single word longer than `max`.
pub proof fn law_chunks_bounded(text: Seq<char>, max: nat)
    ensures
        forall|k: int|
            0 <= k < chunks_of(text, max).len() ==> chunk_shape(
                #[trigger] chunks_of(text, max)[k],
                max,
            ),
{
    lemma_words_shape(text);
    let ws = words(text);
    lemma_pack_state(ws, max);
    let (done, cur) = pack_state(ws, max);
    if cur.len() > 0 {
        assert forall|k: int| 0 <= k < done.push(cur).len() implies chunk_shape(
            #[trigger] done.push(cur)[k],
            max,
        ) by {
            if k < done.len() {
                assert(done.push(cur)[k] == done[k]);
            }
        }
    }
}

/// Chunking loses, adds and reorders no word: the chunks joined with single spaces are
/// the words of the text joined with single spaces.
pub proof fn law_chunks_keep_words(text: Seq<char>, max: nat)
    ensures
        join_spaced(chunks_of(text, max)) == join_spaced(words(text)),
{
    lemma_words_shape(text);
    let ws = words(text);
    lemma_pack_state(ws, max);
    let (done, cur) = pack_state(ws, max);
    if ws.len() == 0 {
        assert(chunks_of(text, max) =~= Seq::<Seq<char>>::empty());
    }
}

/// The text of `c` before its first space: all of `c` if it holds no space.
pub open spec fn first_word(c: Seq<char>) -> Seq<char>
    decreases c.len(),
{
    if c.len() == 0 {
        seq![]
    } else if c[0] == ' ' {
        seq![]
    } else {
        seq![c[0]] + first_word(c.drop_first())
    }
}

proof fn lemma_first_word_of_word(w: Seq<char>)
    requires
        no_white_space(w),
    ensures
        first_word(w) == w,
    decreases w.len(),
{
    if w.len() > 0 {
        assert(!is_white_space(w[0]));
        let rest = w.drop_first();
        assert forall|i: int| 0 <= i < rest.len() implies !is_white_space(#[trigger] rest[i]) by {
            assert(rest[i] == w[i + 1]);
        }
        lemma_first_word_of_word(rest);
        assert(seq![w[0]] + rest =~= w);
    }
}

proof fn lemma_first_word_concat(a: Seq<char>, b: Seq<char>)
    ensures
        first_word(a + seq![' '] + b) == first_word(a),
    decreases a.len(),
{
    let s = a + seq![' '] + b;
    if a.len() == 0 {
        assert(s[0] == ' ');
    } else {
        assert(s[0] == a[0]);
        assert(s.drop_first() =~= a.drop_first() + seq![' '] + b);
        lemma_first_word_concat(a.drop_first(), b);
    }
}

/// Packing closes a chunk only when the next word would not fit in it: every closed
/// chunk, one space and the first word of the chunk after it exceed `max` bytes.
proof fn lemma_pack_greedy(ws: Seq<Seq<char>>, max: nat)
    requires
        forall|k: int| 0 <= k < ws.len() ==> (#[trigger] ws[k]).len() > 0 && no_white_space(ws[k]),
    ensures
        forall|k: int|
            0 <= k < pack_state(ws, max).0.len() ==> utf8_len(#[trigger] pack_state(ws, max).0[k]) + 1
                + utf8_len(first_word(pack_state(ws, max).0.push(pack_state(ws, max).1)[k + 1])) > max,
    decreases ws.len(),
{
    if ws.len() > 0 {
        let prefix = ws.drop_last();
        assert forall|k: int| 0 <= k < prefix.len() implies (#[trigger] prefix[k]).len() > 0
            && no_white_space(prefix[k]) by {
            assert(prefix[k] == ws[k]);
        }
        lemma_pack_greedy(prefix, max);
        lemma_pack_state(prefix, max);
        let (done, cur) = pack_state(prefix, max);
        let w = ws.last();
        assert(w == ws[ws.len() - 1]);
        if cur.len() == 0 {
        } else if utf8_len(cur) + 1 + utf8_len(w) > max {
            lemma_first_word_of_word(w);
            let d2 = done.push(cur);
            assert forall|k: int| 0 <= k < d2.len() implies utf8_len(#[trigger] d2[k]) + 1
                + utf8_len(first_word(d2.push(w)[k + 1])) > max by {
                if k < done.len() {
                    assert(d2[k] == done[k]);
                    assert(d2.push(w)[k + 1] == done.push(cur)[k + 1]);
                } else {
                    assert(d2[k] == cur);
                    assert(d2.push(w)[k + 1] == w);
                }
            }
        } else {
            let merged = cur + seq![' '] + w;
            lemma_first_word_concat(cur, w);
            assert forall|k: int| 0 <= k < done.len() implies utf8_len(#[trigger] done[k]) + 1
                + utf8_len(first_word(done.push(merged)[k + 1])) > max by {
                if k + 1 < done.len() {
                    assert(done.push(merged)[k + 1] == done.push(cur)[k + 1]);
                } else {
                    assert(done.push(merged)[k + 1] == merged);
                    assert(done.push(cur)[k + 1] == cur);
                }
            }
        }
    }
}

/// Chunks are as long as they can be: a chunk is closed only when the next word does
/// not fit in it, so for every chunk but the last, its byte length, one space and the
/// byte length of the first word of the next chunk exceed `max`.
pub proof fn law_chunks_greedy(text: Seq<char>, max: nat)
    ensures
        forall|k: int|
            0 <= k < chunks_of(text, max).len() - 1 ==> utf8_len(#[trigger] chunks_of(text, max)[k])
                + 1 + utf8_len(first_word(chunks_of(text, max)[k + 1])) > max,
{
    lemma_words_shape(text);
    let ws = words(text);
    lemma_pack_greedy(ws, max);
    lemma_pack_state(ws, max);
    let (done, cur) = pack_state(ws, max);
    let c = chunks_of(text, max);
    if cur.len() > 0 {
        assert forall|k: int| 0 <= k < c.len() - 1 implies utf8_len(#[trigger] c[k]) + 1 + utf8_len(
            first_word(c[k + 1]),
        ) > max by {
            assert(c[k] == done[k]);
        }
    }
}

proof fn lemma_pack_fits(ws: Seq<Seq<char>>, max: nat)
    requires
        ws.len() > 0,
        forall|k: int| 0 <= k < ws.len() ==> (#[trigger] ws[k]).len() > 0 && no_white_space(ws[k]),
        utf8_len(join_spaced(ws)) <= max,
    ensures
        pack_state(ws, max) == (Seq::<Seq<char>>::empty(), join_spaced(ws)),
    decreases ws.len(),
{
    let prefix = ws.drop_last();
    let w = ws.last();
    if ws.len() == 1 {
        assert(prefix.len() == 0);
        assert(w == ws[0]);
        assert(pack_state(prefix, max) == (Seq::<Seq<char>>::empty(), Seq::<char>::empty()));
        assert(join_spaced(ws) == w);
    } else {
        assert forall|k: int| 0 <= k < prefix.len() implies (#[trigger] prefix[k]).len() > 0
            && no_white_space(prefix[k]) by {
            assert(prefix[k] == ws[k]);
        }
        lemma_utf8_len_concat(join_spaced(prefix), seq![' ']);
        lemma_utf8_len_concat(join_spaced(prefix) + seq![' '], w);
        lemma_utf8_len_single(' ');
        assert(vstd::utf8::encode_scalar(' ' as u32).len() == 1);
        assert(join_spaced(ws) == join_spaced(prefix) + seq![' '] + w);
        lemma_pack_fits(prefix, max);
        lemma_pack_state(prefix, max);
        assert(join_spaced(prefix).len() > 0);
        assert(utf8_len(join_spaced(prefix)) + 1 + utf8_len(w) <= max);
    }
}

/// A text whose words, joined with single spaces, fit in `max` bytes gives exactly one
/// chunk: those words joined with single spaces.
pub proof fn law_short_text_is_one_chunk(text: Seq<char>, max: nat)
    requires
        words(text).len() > 0,
        utf8_len(join_spaced(words(text))) <= max,
    ensures
        chunks_of(text, max) == seq![join_spaced(words(text))],
{
    lemma_words_shape(text);
    lemma_pack_fits(words(text), max);
    lemma_pack_state(words(text), max);
    assert(Seq::<Seq<char>>::empty().push(join_spaced(words(text))) =~= seq![join_spaced(words(text))]);
}

/// A text with no words has no chunks.
pub proof fn law_blank_text_has_no_chunks(text: Seq<char>, max: nat)
    requires
        forall|i: int| 0 <= i < text.len() ==> is_white_space(#[trigger] text[i]),
    ensures
        chunks_of(text, max).len() == 0,
{
    lemma_blank_split_state(text);
    lemma_pack_state(words(text), max);
}

proof fn lemma_blank_split_state(s: Seq<char>)
    requires
        forall|i: int| 0 <= i < s.len() ==> is_white_space(#[trigger] s[i]),
    ensures
        split_state(s).0.len() == 0,
        split_state(s).1.len() == 0,
    decreases s.len(),
{
    if s.len() > 0 {
        let p = s.drop_last();
        assert forall|i: int| 0 <= i < p.len() implies is_white_space(#[trigger] p[i]) by {
            assert(p[i] == s[i]);
        }
        lemma_blank_split_state(p);
        assert(is_white_space(s[s.len() - 1]));
    }
}

/// Adds a finished word to the packing state held in `chunks` and the open chunk
/// `current` with its saturated byte count `current_n`; returns the new open chunk
/// and its count.
fn pack_word(
    chunks: &mut Vec<String>,
    current: String,
    current_n: u128,
    word: String,
    word_n: u128,
    max_chars: usize,
    Ghost(ws): Ghost<Seq<Seq<char>>>,
) -> (next: (String, u128))
    requires
        pack_state(ws, max_chars as nat) == (old(chunks)@.map_values(|s: String| s@), current@),
        current_n == saturated(utf8_len(current@), max_chars as nat),
        word_n == saturated(utf8_len(word@), max_chars as nat),
    ensures
        pack_state(ws.push(word@), max_chars as nat) == (final(chunks)@.map_values(
            |s: String| s@,
        ), next.0@),
        next.1 == saturated(utf8_len(next.0@), max_chars as nat),
{
    assert(ws.push(word@).drop_last() =~= ws);
    if current.as_str().is_empty() {
        (word, word_n)
    } else if current_n + 1 + word_n > max_chars as u128 {
        let ghost old_chunks = chunks@;
        let ghost closed = current@;
        chunks.push(current);
        assert(chunks@.map_values(|s: String| s@) =~= old_chunks.map_values(|s: String| s@).push(
            closed,
        ));
        (word, word_n)
    } else {
        let ghost cur = current@;
        proof {
            lemma_utf8_len_concat(cur, seq![' ']);
            lemma_utf8_len_concat(cur + seq![' '], word@);
            lemma_utf8_len_single(' ');
            assert(vstd::utf8::encode_scalar(' ' as u32).len() == 1);
        }
        let mut merged = current;
        push_char(&mut merged, ' ');
        merged.append(word.as_str());
        assert(merged@ =~= cur + seq![' '] + word@);
        (merged, current_n + 1 + word_n)
    }
}

/// Splits `text` into word-bounded chunks no longer than `max_chars` bytes, so that
/// each chunk stays within an embedding model's context window. Words are the maximal
/// runs of non-white-space characters; within a chunk they are separated by one space.
/// A single word longer than `max_chars` forms a chunk of its own.
pub fn chunk_text(text: &str, max_chars: usize) -> (chunks: Vec<String>)
    ensures
        chunks@.map_values(|s: String| s@) == chunks_of(text@, max_chars as nat),
{
    let ghost max = max_chars as nat;
    let v = chars_of(text);
    let mut chunks: Vec<String> = Vec::new();
    let mut current = String::new();
    let mut current_n: u128 = 0;
    let mut word = String::new();
    let mut word_n: u128 = 0;
    let ghost mut done: Seq<Seq<char>> = seq![];
    assert(v@.take(0) =~= Seq::<char>::empty());
    assert(chunks@.map_values(|s: String| s@) =~= Seq::<Seq<char>>::empty());
    let mut i: usize = 0;
    while i < v.len()
        invariant
            v@ == text@,
            0 <= i <= v.len(),
            split_state(v@.take(i as int)) == (done, word@),
            pack_state(done, max) == (chunks@.map_values(|s: String| s@), current@),
            current_n == saturated(utf8_len(current@), max),
            word_n == saturated(utf8_len(word@), max),
            max == max_chars as nat,
        decreases v.len() - i,
    {
        let c = v[i];
        assert(v@.take(i + 1).drop_last() =~= v@.take(i as int));
        assert(v@.take(i + 1).last() == c);
        if is_whitespace(c) {
            if !word.as_str().is_empty() {
                let ghost w = word@;
                let (next, next_n) = pack_word(&mut chunks, current, current_n, word, word_n, max_chars, Ghost(done));
                current = next;
                current_n = next_n;
                proof {
                    done = done.push(w);
                }
                word = String::new();
                word_n = 0;
            }
        } else {
            let ghost old_word = word@;
            push_char(&mut word, c);
            proof {
                lemma_utf8_len_push(old_word, c);
            }
            let n = len_utf8(c) as u128;
            if word_n <= max_chars as u128 {
                if word_n + n > max_chars as u128 {
                    word_n = max_chars as u128 + 1;
                } else {
                    word_n = word_n + n;
                }
            }
        }
        i = i + 1;
    }
    assert(v@.take(v.len() as int) =~= v@);
    if !word.as_str().is_empty() {
        let (next, next_n) = pack_word(&mut chunks, current, current_n, word, word_n, max_chars, Ghost(done));
        current = next;
        current_n = next_n;
    }
    if !current.as_str().is_empty() {
        let ghost old_chunks = chunks@;
        chunks.push(current);
        assert(chunks@.map_values(|s: String| s@) =~= old_chunks.map_values(|s: String| s@).push(
            current@,
        ));
    }
    chunks
}

} // verus!
