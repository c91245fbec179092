//! Sets of feed identifiers, written as text.
//!
//! A feed set is written as words separated by white space. A word is a
//! number (`7`), an inclusive range (`1-105`), or either behind `!`, which
//! takes the identifiers out again: `1-105 !89 107`.
use crate::decimal::{parse_u32, read_u32};
use crate::Error;
use vstd::prelude::*;
use vstd::string::StringSliceAdditionalSpecFns;

verus! {

/// An inclusive range of feed identifiers.
#[derive(Clone, Copy, Debug)]
pub struct Span {
    pub lo: u32,
    pub hi: u32,
}

/// Whether `b` is ASCII white space.
pub open spec fn is_space(b: u8) -> bool {
    b == 32 || 9 <= b <= 13
}

/// The number of bytes at the front of `s` that are no white space.
pub open spec fn word_len(s: Seq<u8>) -> nat
    decreases s.len(),
{
    if s.len() == 0 || is_space(s[0]) {
        0
    } else {
        1 + word_len(s.skip(1))
    }
}

/// The words of `s`: its longest runs of bytes that are no white space, in
/// order.
pub open spec fn words(s: Seq<u8>) -> Seq<Seq<u8>>
    decreases s.len(),
    via words_decreases
{
    if s.len() == 0 {
        Seq::empty()
    } else if is_space(s[0]) {
        words(s.skip(1))
    } else {
        seq![s.take(word_len(s) as int)] + words(s.skip(word_len(s) as int))
    }
}

#[via_fn]
proof fn words_decreases(s: Seq<u8>) {
    lemma_word_len_bound(s);
}

/// A word is no longer than the text it starts.
pub proof fn lemma_word_len_bound(s: Seq<u8>)
    ensures
        word_len(s) <= s.len(),
    decreases s.len(),
{
    if s.len() > 0 {
        lemma_word_len_bound(s.skip(1));
    }
}

/// The position of the first hyphen in `t`, or the length of `t` where it
/// holds none.
pub open spec fn first_dash(t: Seq<u8>) -> int
    decreases t.len(),
{
    if t.len() == 0 || t[0] == 45 {
        0
    } else {
        1 + first_dash(t.skip(1))
    }
}

/// Reads `t` as a number, which stands for itself alone, or as two numbers
/// with a hyphen between them, of which the first is not the greater.
pub open spec fn parse_span(t: Seq<u8>) -> Option<Span> {
    match parse_u32(t) {
        Some(n) => Some(Span { lo: n, hi: n }),
        None => {
            let i = first_dash(t);
            if i < t.len() {
                match (parse_u32(t.take(i)), parse_u32(t.skip(i + 1))) {
                    (Some(lo), Some(hi)) => if lo <= hi {
                        Some(Span { lo, hi })
                    } else {
                        None
                    },
                    _ => None,
                }
            } else {
                None
            }
        },
    }
}

/// Whether `word` takes identifiers out of the set: it starts with `!`.
pub open spec fn is_removal(word: Seq<u8>) -> bool {
    word.len() > 0 && word[0] == 33
}

/// `word` without the `!` that may stand in front of it.
pub open spec fn stem(word: Seq<u8>) -> Seq<u8> {
    if is_removal(word) {
        word.skip(1)
    } else {
        word
    }
}

/// Whether `word` follows the grammar.
pub open spec fn well_written(word: Seq<u8>) -> bool {
    parse_span(stem(word)) is Some
}

/// Whether `id` lies in the range that `word` names.
pub open spec fn covers(word: Seq<u8>, id: int) -> bool {
    parse_span(stem(word)) matches Some(span) && span.lo <= id <= span.hi
}

/// Whether one of `words` puts `id` into the set.
pub open spec fn adds(words: Seq<Seq<u8>>, id: int) -> bool {
    exists|i: int| 0 <= i < words.len() && !is_removal(#[trigger] words[i]) && covers(words[i], id)
}

/// Whether one of `words` takes `id` out of the set.
pub open spec fn removes(words: Seq<Seq<u8>>, id: int) -> bool {
    exists|i: int| 0 <= i < words.len() && is_removal(#[trigger] words[i]) && covers(words[i], id)
}

/// Whether `id` belongs to the set that `words` describe: some word puts it
/// in and none takes it out.
pub open spec fn selects(words: Seq<Seq<u8>>, id: int) -> bool {
    adds(words, id) && !removes(words, id)
}

/// A feed set depends on which words are said, not on how often or in what
/// order: two lists that hold the same words select the same identifiers.
pub proof fn lemma_same_words_same_set(a: Seq<Seq<u8>>, b: Seq<Seq<u8>>, id: int)
    requires
        forall|w: Seq<u8>| a.contains(w) <==> b.contains(w),
    ensures
        selects(a, id) == selects(b, id),
{
    lemma_words_carry_over(a, b, id);
    lemma_words_carry_over(b, a, id);
}

/// What the words of `a` put in or take out, the words of `b` do too, where
/// `b` holds every word of `a`.
proof fn lemma_words_carry_over(a: Seq<Seq<u8>>, b: Seq<Seq<u8>>, id: int)
    requires
        forall|w: Seq<u8>| a.contains(w) ==> b.contains(w),
    ensures
        adds(a, id) ==> adds(b, id),
        removes(a, id) ==> removes(b, id),
{
    if adds(a, id) {
        let i = choose|i: int| 0 <= i < a.len() && !is_removal(#[trigger] a[i]) && covers(a[i], id);
        assert(a.contains(a[i]));
        let j = choose|j: int| 0 <= j < b.len() && b[j] == a[i];
        assert(!is_removal(b[j]) && covers(b[j], id));
    }
    if removes(a, id) {
        let i = choose|i: int| 0 <= i < a.len() && is_removal(#[trigger] a[i]) && covers(a[i], id);
        assert(a.contains(a[i]));
        let j = choose|j: int| 0 <= j < b.len() && b[j] == a[i];
        assert(is_removal(b[j]) && covers(b[j], id));
    }
}

/// Whether `words[k]` is the first word that does not follow the grammar.
pub open spec fn first_bad(words: Seq<Seq<u8>>, k: int) -> bool {
    &&& 0 <= k < words.len()
    &&& !well_written(words[k])
    &&& forall|i: int| 0 <= i < k ==> well_written(#[trigger] words[i])
}

/// The bytes of each of `args`.
pub open spec fn texts(args: Seq<&str>) -> Seq<Seq<u8>> {
    args.map_values(|a: &str| a.spec_bytes())
}

/// Whether `id` lies in one of `spans`.
pub open spec fn in_any(spans: Seq<Span>, id: int) -> bool {
    exists|i: int| 0 <= i < spans.len() && (#[trigger] spans[i]).lo <= id <= spans[i].hi
}

/// Whether `s` rises strictly from each item to the next.
pub open spec fn strictly_rising(s: Seq<u32>) -> bool {
    forall|i: int, j: int| 0 <= i < j < s.len() ==> s[i] < s[j]
}

/// The least identifier from `from` on that lies in one of `spans`.
fn next_in(spans: &Vec<Span>, from: u32) -> (next: Option<u32>)
    ensures
        match next {
            Some(m) => {
                &&& from <= m
                &&& in_any(spans@, m as int)
                &&& forall|id: int| from <= id < m ==> !in_any(spans@, id)
            },
            None => forall|id: int| from <= id ==> !in_any(spans@, id),
        },
{
    let mut best: Option<u32> = None;
    let mut i: usize = 0;
    while i < spans.len()
        invariant
            i <= spans@.len(),
            match best {
                Some(m) => {
                    &&& from <= m
                    &&& in_any(spans@.take(i as int), m as int)
                    &&& forall|id: int| from <= id < m ==> !in_any(spans@.take(i as int), id)
                },
                None => forall|id: int| from <= id ==> !in_any(spans@.take(i as int), id),
            },
        decreases spans@.len() - i,
    {
        let span: Span = spans[i];
        let ghost before = spans@.take(i as int);
        let ghost after = spans@.take(i + 1);
        let ghost old_best = best;
        assert(after[i as int] == span);
        assert forall|id: int| in_any(after, id) <==> (in_any(before, id) || span.lo <= id
            <= span.hi) by {
            if in_any(after, id) {
                let k = choose|k: int| 0 <= k < after.len() && (#[trigger] after[k]).lo <= id
                    <= after[k].hi;
                if k < i {
                    assert(before[k] == after[k]);
                }
            }
            if in_any(before, id) {
                let k = choose|k: int| 0 <= k < before.len() && (#[trigger] before[k]).lo <= id
                    <= before[k].hi;
                assert(after[k] == before[k]);
            }
        }
        if span.hi >= from && span.lo <= span.hi {
            let first: u32 = if span.lo > from {
                span.lo
            } else {
                from
            };
            match best {
                Some(m) => {
                    if first < m {
                        best = Some(first);
                    }
                },
                None => {
                    best = Some(first);
                },
            }
        }
        i = i + 1;
    }
    assert(spans@.take(i as int) =~= spans@);
    best
}

/// Where `id` lies in one of `spans`, the upper end of such a span.
fn end_in(spans: &Vec<Span>, id: u32) -> (end: Option<u32>)
    ensures
        match end {
            Some(hi) => id <= hi && forall|x: int| id <= x <= hi ==> in_any(spans@, x),
            None => !in_any(spans@, id as int),
        },
{
    let mut i: usize = 0;
    while i < spans.len()
        invariant
            i <= spans@.len(),
            forall|k: int| 0 <= k < i ==> !((#[trigger] spans@[k]).lo <= id <= spans@[k].hi),
        decreases spans@.len() - i,
    {
        let span: Span = spans[i];
        if span.lo <= id && id <= span.hi {
            assert forall|x: int| id <= x <= span.hi implies in_any(spans@, x) by {
                assert(spans@[i as int].lo <= x <= spans@[i as int].hi);
            }
            return Some(span.hi);
        }
        i = i + 1;
    }
    None
}

/// The identifiers that lie in one of `added` and in none of `removed`,
/// in rising order.
fn select(added: &Vec<Span>, removed: &Vec<Span>) -> (out: Vec<u32>)
    ensures
        strictly_rising(out@),
        forall|id: u32|
            out@.contains(id) <==> in_any(added@, id as int) && !in_any(removed@, id as int),
{
    let mut out: Vec<u32> = Vec::new();
    let mut from: u64 = 0;
    while from <= u32::MAX as u64
        invariant
            from <= u32::MAX + 1,
            strictly_rising(out@),
            forall|k: int| 0 <= k < out@.len() ==> #[trigger] out@[k] < from,
            forall|id: u32|
                id < from ==> (out@.contains(id) <==> in_any(added@, id as int) && !in_any(
                    removed@,
                    id as int,
                )),
        ensures
            strictly_rising(out@),
            forall|id: u32|
                out@.contains(id) <==> in_any(added@, id as int) && !in_any(removed@, id as int),
        decreases u32::MAX + 1 - from,
    {
        let ghost before = out@;
        let ghost start = from;
        match next_in(added, from as u32) {
            None => {
                assert forall|id: u32|
                    out@.contains(id) <==> in_any(added@, id as int) && !in_any(
                        removed@,
                        id as int,
                    ) by {
                    if id >= from {
                        if out@.contains(id) {
                            let k = choose|k: int| 0 <= k < out@.len() && out@[k] == id;
                            assert(out@[k] < from);
                        }
                    }
                }
                break ;
            },
            Some(m) => {
                match end_in(removed, m) {
                    Some(hi) => {
                        from = hi as u64 + 1;
                    },
                    None => {
                        out.push(m);
                        from = m as u64 + 1;
                        assert(out@[before.len() as int] == m);
                        assert forall|i: int, j: int| 0 <= i < j < out@.len() implies out@[i]
                            < out@[j] by {
                            if j == before.len() {
                                assert(out@[i] == before[i]);
                            } else {
                                assert(out@[i] == before[i]);
                                assert(out@[j] == before[j]);
                            }
                        }
                    },
                }
                assert forall|k: int| 0 <= k < out@.len() implies #[trigger] out@[k] < from by {
                    if k < before.len() {
                        assert(out@[k] == before[k]);
                    }
                }
                assert forall|id: u32| id < from implies (out@.contains(id) <==> in_any(
                    added@,
                    id as int,
                ) && !in_any(removed@, id as int)) by {
                    if out@.contains(id) {
                        let k = choose|k: int| 0 <= k < out@.len() && out@[k] == id;
                        if k < before.len() {
                            assert(before[k] == id);
                            assert(before.contains(id));
                        }
                    }
                    if before.contains(id) {
                        let k = choose|k: int| 0 <= k < before.len() && before[k] == id;
                        assert(out@[k] == id);
                    }
                    if id < start {
                    } else if id < m {
                        assert(!in_any(added@, id as int));
                    } else {
                    }
                }
            },
        }
    }
    out
}

/// `word` without its first byte, which is an ASCII character.
fn behind_first<'a>(word: &'a str) -> (rest: &'a str)
    requires
        word.spec_bytes().len() > 0,
        word.spec_bytes()[0] < 128,
    ensures
        rest.spec_bytes() == word.spec_bytes().skip(1),
{
    proof {
        let bytes = word.spec_bytes();
        vstd::utf8::encode_utf8_valid_utf8(word@);
        reveal_with_fuel(vstd::utf8::is_char_boundary, 2);
        assert(vstd::utf8::is_char_boundary(bytes, 1));
    }
    let (_, rest) = word.split_at(1);
    rest
}

/// Where the first hyphen stands in a word.
proof fn lemma_first_dash(t: Seq<u8>, n: int)
    requires
        0 <= n <= t.len(),
        forall|i: int| 0 <= i < n ==> #[trigger] t[i] != 45,
        n < t.len() ==> t[n] == 45,
    ensures
        first_dash(t) == n,
    decreases n,
{
    if n > 0 {
        let r = t.skip(1);
        assert forall|i: int| 0 <= i < n - 1 implies #[trigger] r[i] != 45 by {
            assert(r[i] == t[i + 1]);
        }
        if n < t.len() {
            assert(r[n - 1] == t[n]);
        }
        lemma_first_dash(r, n - 1);
    }
}

/// Reads a word, without `!`, as a range of identifiers.
fn read_span(word: &[u8]) -> (out: Option<Span>)
    ensures
        out == parse_span(word@),
{
    match read_u32(word) {
        Some(n) => {
            return Some(Span { lo: n, hi: n });
        },
        None => {},
    }
    let len: usize = word.len();
    let mut i: usize = 0;
    while i < len && word[i] != 45
        invariant
            i <= len,
            len == word@.len(),
            forall|k: int| 0 <= k < i ==> #[trigger] word@[k] != 45,
        decreases len - i,
    {
        i = i + 1;
    }
    proof {
        lemma_first_dash(word@, i as int);
    }
    if i == len {
        return None;
    }
    let head = vstd::slice::slice_subrange(word, 0, i);
    let tail = vstd::slice::slice_subrange(word, i + 1, len);
    assert(head@ =~= word@.take(i as int));
    assert(tail@ =~= word@.skip(i + 1));
    match (read_u32(head), read_u32(tail)) {
        (Some(lo), Some(hi)) => {
            if lo <= hi {
                Some(Span { lo, hi })
            } else {
                None
            }
        },
        _ => None,
    }
}

/// A set of feed identifiers. It holds them in strictly rising order, so
/// that none occurs twice.
pub struct Feeds {
    feeds: Vec<u32>,
}

impl View for Feeds {
    type V = Seq<u32>;

    closed spec fn view(&self) -> Seq<u32> {
        self.feeds@
    }
}

impl Feeds {
    #[verifier::type_invariant]
    spec fn rising(self) -> bool {
        strictly_rising(self.feeds@)
    }

    /// Reads a feed set from text, the words separated by white space.
    ///
    /// Fails on the first word that is neither a number nor a range, and
    /// names it.
    pub fn from_str(arg: &str) -> (out: Result<Feeds, Error>)
        ensures
            match out {
                Ok(feeds) => {
                    &&& forall|i: int|
                        0 <= i < words(arg.spec_bytes()).len() ==> well_written(
                            #[trigger] words(arg.spec_bytes())[i],
                        )
                    &&& strictly_rising(feeds@)
                    &&& forall|id: u32|
                        feeds@.contains(id) <==> selects(words(arg.spec_bytes()), id as int)
                },
                Err(e) => exists|k: int|
                    {
                        &&& first_bad(words(arg.spec_bytes()), k)
                        &&& e matches Error::InvalidArgument(word)
                        &&& vstd::utf8::encode_utf8(word@) == stem(words(arg.spec_bytes())[k])
                    },
            },
    {
        let args = split_words(arg);
        Feeds::from_strs(args.as_slice())
    }

    /// Reads a feed set from its words.
    ///
    /// Fails on the first word that is neither a number nor a range, and
    /// names it.
    pub fn from_strs(args: &[&str]) -> (out: Result<Feeds, Error>)
        ensures
            match out {
                Ok(feeds) => {
                    &&& forall|i: int|
                        0 <= i < args@.len() ==> well_written(#[trigger] texts(args@)[i])
                    &&& strictly_rising(feeds@)
                    &&& forall|id: u32| feeds@.contains(id) <==> selects(texts(args@), id as int)
                },
                Err(e) => exists|k: int|
                    {
                        &&& first_bad(texts(args@), k)
                        &&& e matches Error::InvalidArgument(word)
                        &&& vstd::utf8::encode_utf8(word@) == stem(texts(args@)[k])
                    },
            },
    {
        let ghost ws = texts(args@);
        let mut added: Vec<Span> = Vec::new();
        let mut removed: Vec<Span> = Vec::new();
        let mut i: usize = 0;
        while i < args.len()
            invariant
                i <= args@.len(),
                ws == texts(args@),
                forall|k: int| 0 <= k < i ==> well_written(#[trigger] ws[k]),
                forall|id: int| in_any(added@, id) <==> adds(ws.take(i as int), id),
                forall|id: int| in_any(removed@, id) <==> removes(ws.take(i as int), id),
            decreases args@.len() - i,
        {
            let arg: &str = args[i];
            let bytes = arg.as_bytes();
            assert(ws[i as int] == arg.spec_bytes());
            let negated: bool = bytes.len() > 0 && bytes[0] == 33;
            let word: &str = if negated {
                behind_first(arg)
            } else {
                arg
            };
            assert(word.spec_bytes() == stem(ws[i as int]));
            let span = match read_span(word.as_bytes()) {
                Some(span) => span,
                None => {
                    let name = word.to_owned();
                    assert(first_bad(ws, i as int));
                    return Err(Error::InvalidArgument(name));
                },
            };
            let ghost before = ws.take(i as int);
            let ghost after = ws.take(i + 1);
            let ghost old_added = added@;
            let ghost old_removed = removed@;
            if negated {
                removed.push(span);
            } else {
                added.push(span);
            }
            proof {
                assert(after =~= before.push(ws[i as int]));
                lemma_one_more_word(before, ws[i as int]);
                lemma_in_any_one_more(old_added, span);
                lemma_in_any_one_more(old_removed, span);
                assert forall|id: int| in_any(added@, id) <==> adds(after, id) by {
                    assert(in_any(old_added, id) <==> adds(before, id));
                }
                assert forall|id: int| in_any(removed@, id) <==> removes(after, id) by {
                    assert(in_any(old_removed, id) <==> removes(before, id));
                }
            }
            i = i + 1;
        }
        assert(ws.take(i as int) =~= ws);
        let feeds = select(&added, &removed);
        Ok(Feeds { feeds })
    }

    /// The identifiers of the set, in rising order.
    pub fn as_slice(&self) -> (ids: &[u32])
        ensures
            ids@ == self@,
            strictly_rising(ids@),
    {
        proof {
            use_type_invariant(self);
        }
        self.feeds.as_slice()
    }

    /// The identifiers of the set, in rising order.
    pub fn into_vec(self) -> (ids: Vec<u32>)
        ensures
            ids@ == self@,
            strictly_rising(ids@),
    {
        proof {
            use_type_invariant(&self);
        }
        self.feeds
    }

    /// The number of identifiers in the set.
    pub fn len(&self) -> (n: usize)
        ensures
            n == self@.len(),
    {
        self.feeds.len()
    }
}

/// What one more word adds to a feed set, and what it takes out.
proof fn lemma_one_more_word(words: Seq<Seq<u8>>, word: Seq<u8>)
    ensures
        forall|id: int|
            adds(words.push(word), id) <==> (adds(words, id) || (!is_removal(word) && covers(
                word,
                id,
            ))),
        forall|id: int|
            removes(words.push(word), id) <==> (removes(words, id) || (is_removal(word) && covers(
                word,
                id,
            ))),
{
    let more = words.push(word);
    assert(more[words.len() as int] == word);
    assert forall|id: int|
        adds(more, id) <==> (adds(words, id) || (!is_removal(word) && covers(word, id))) by {
        if adds(more, id) {
            let k = choose|k: int|
                0 <= k < more.len() && !is_removal(#[trigger] more[k]) && covers(more[k], id);
            if k < words.len() {
                assert(words[k] == more[k]);
            }
        }
        if adds(words, id) {
            let k = choose|k: int|
                0 <= k < words.len() && !is_removal(#[trigger] words[k]) && covers(words[k], id);
            assert(more[k] == words[k]);
        }
    }
    assert forall|id: int|
        removes(more, id) <==> (removes(words, id) || (is_removal(word) && covers(word, id))) by {
        if removes(more, id) {
            let k = choose|k: int|
                0 <= k < more.len() && is_removal(#[trigger] more[k]) && covers(more[k], id);
            if k < words.len() {
                assert(words[k] == more[k]);
            }
        }
        if removes(words, id) {
            let k = choose|k: int|
                0 <= k < words.len() && is_removal(#[trigger] words[k]) && covers(words[k], id);
            assert(more[k] == words[k]);
        }
    }
}

/// The identifiers of a list of spans with one more span.
proof fn lemma_in_any_one_more(spans: Seq<Span>, span: Span)
    ensures
        forall|id: int|
            in_any(spans.push(span), id) <==> (in_any(spans, id) || span.lo <= id <= span.hi),
{
    let more = spans.push(span);
    assert forall|id: int| in_any(more, id) <==> (in_any(spans, id) || span.lo <= id
        <= span.hi) by {
        if in_any(more, id) {
            let k = choose|k: int| 0 <= k < more.len() && (#[trigger] more[k]).lo <= id
                <= more[k].hi;
            if k < spans.len() {
                assert(spans[k] == more[k]);
            }
        }
        if in_any(spans, id) {
            let k = choose|k: int| 0 <= k < spans.len() && (#[trigger] spans[k]).lo <= id
                <= spans[k].hi;
            assert(more[k] == spans[k]);
        }
        if span.lo <= id <= span.hi {
            assert(more[spans.len() as int] == span);
        }
    }
}

/// Splits `text` into its words.
pub fn split_words<'a>(text: &'a str) -> (out: Vec<&'a str>)
    ensures
        texts(out@) == words(text.spec_bytes()),
{
    let mut out: Vec<&'a str> = Vec::new();
    let mut rest: &'a str = text;
    loop
        invariant
            words(text.spec_bytes()) == texts(out@) + words(rest.spec_bytes()),
        ensures
            texts(out@) == words(text.spec_bytes()),
        decreases rest.spec_bytes().len(),
    {
        let bytes = rest.as_bytes();
        let len: usize = bytes.len();
        if len == 0 {
            assert(texts(out@) + Seq::<Seq<u8>>::empty() =~= texts(out@));
            break ;
        }
        if is_space_byte(bytes[0]) {
            rest = behind_first(rest);
            continue ;
        }
        let mut n: usize = 1;
        while n < len && !is_space_byte(bytes[n])
            invariant
                1 <= n <= len,
                len == bytes@.len(),
                forall|k: int| 0 <= k < n ==> !is_space(#[trigger] bytes@[k]),
            decreases len - n,
        {
            n = n + 1;
        }
        proof {
            lemma_word_len(bytes@, n as int);
            vstd::utf8::encode_utf8_valid_utf8(rest@);
            if n < len {
                vstd::utf8::is_char_boundary_iff_not_is_continuation_byte(bytes@, n as int);
            } else {
                vstd::utf8::is_char_boundary_start_end_of_seq(bytes@);
            }
        }
        let (word, tail) = rest.split_at(n);
        proof {
            let before = out@;
            assert(word.spec_bytes() =~= bytes@.take(n as int));
            assert(tail.spec_bytes() =~= bytes@.skip(n as int));
            assert(texts(before.push(word)) =~= texts(before) + seq![word.spec_bytes()]);
            assert(texts(before) + (seq![word.spec_bytes()] + words(tail.spec_bytes())) =~= texts(
                before.push(word),
            ) + words(tail.spec_bytes()));
        }
        out.push(word);
        rest = tail;
    }
    out
}

/// Tells whether `b` is ASCII white space.
fn is_space_byte(b: u8) -> (space: bool)
    ensures
        space == is_space(b),
{
    b == 32 || (9 <= b && b <= 13)
}

/// Where the first word of a text ends.
proof fn lemma_word_len(s: Seq<u8>, n: int)
    requires
        0 <= n <= s.len(),
        forall|i: int| 0 <= i < n ==> !is_space(#[trigger] s[i]),
        n < s.len() ==> is_space(s[n]),
    ensures
        word_len(s) == n,
    decreases n,
{
    if n > 0 {
        let r = s.skip(1);
        assert forall|i: int| 0 <= i < n - 1 implies !is_space(#[trigger] r[i]) by {
            assert(r[i] == s[i + 1]);
        }
        if n < s.len() {
            assert(r[n - 1] == s[n]);
        }
        lemma_word_len(r, n - 1);
    }
}

} // verus!
