//! Longest-match tokenisation against a symbol vocabulary, and the framing of
//! the matched ids between the two sentinels under a length limit.

use vstd::prelude::*;
use vstd::hash_map::StringHashMap;
use vstd::string::StrSliceExecFns;
use crate::text::{char_is_whitespace, chars_of, is_whitespace, string_of};

verus! {

/// The reserved symbol whose id opens and closes every token sequence.
pub open spec fn sentinel() -> Seq<char> {
    seq!['$']
}

/// The length limit of a tokenizer that is given none.
pub const DEFAULT_MAX_LENGTH: usize = 512;

/// Why a tokenizer could not be built or a text not be encoded.
#[derive(Debug, Clone, Copy, PartialEq, Eq, Structural)]
pub enum TokenizeError {
    /// The vocabulary has no symbol `"$"`.
    MissingSentinel,
    /// The transcription engine produced nothing for the text.
    NoPhonemes,
}

/// A table from symbols to ids. A symbol is a short string, measured in
/// characters.
pub struct Vocabulary {
    ids: StringHashMap<i64>,
    longest: usize,
    empty: bool,
}

impl View for Vocabulary {
    type V = Map<Seq<char>, i64>;

    closed spec fn view(&self) -> Map<Seq<char>, i64> {
        self.ids@
    }
}

/// Every symbol of `vocab` has at most `bound` characters.
pub open spec fn symbols_within(vocab: Map<Seq<char>, i64>, bound: nat) -> bool {
    forall|k: Seq<char>| #[trigger] vocab.contains_key(k) ==> k.len() <= bound
}

/// `n` is the number of characters of the longest symbol of `vocab`, or 1
/// where `vocab` has no symbol.
pub open spec fn is_longest_symbol(vocab: Map<Seq<char>, i64>, n: nat) -> bool {
    &&& symbols_within(vocab, n)
    &&& if vocab.dom() =~= Set::<Seq<char>>::empty() {
        n == 1
    } else {
        exists|k: Seq<char>| #[trigger] vocab.contains_key(k) && k.len() == n
    }
}

impl Vocabulary {
    #[verifier::type_invariant]
    closed spec fn wf(&self) -> bool {
        &&& self.empty <==> self.ids@.dom() =~= Set::<Seq<char>>::empty()
        &&& is_longest_symbol(self.ids@, self.longest as nat)
    }

    /// The length in characters of the longest symbol, or 1 without symbols.
    pub closed spec fn longest_symbol(&self) -> nat {
        self.longest as nat
    }

    /// The vocabulary without symbols.
    pub fn new() -> (vocab: Vocabulary)
        ensures
            vocab@ == Map::<Seq<char>, i64>::empty(),
            vocab.longest_symbol() == 1,
    {
        Vocabulary { ids: StringHashMap::new(), longest: 1, empty: true }
    }

    /// Gives `symbol` the id `id`, in place of an earlier id of that symbol.
    pub fn insert(&mut self, symbol: &str, id: i64)
        ensures
            final(self)@ == old(self)@.insert(symbol@, id),
    {
        let mut taken = Vocabulary::new();
        core::mem::swap(self, &mut taken);
        proof {
            use_type_invariant(&taken);
        }
        let n = symbol.unicode_len();
        let Vocabulary { ids, longest, empty } = taken;
        let ghost before = ids@;
        let ghost was = longest as nat;
        let longest = if empty || n > longest {
            n
        } else {
            longest
        };
        let mut ids = ids;
        ids.insert(symbol.to_owned(), id);
        proof {
            let after = ids@;
            assert(after == before.insert(symbol@, id));
            assert(after.contains_key(symbol@));
            assert(!(after.dom() =~= Set::<Seq<char>>::empty()));
            assert forall|k: Seq<char>| #[trigger] after.contains_key(k) implies k.len()
                <= longest by {
                if k != symbol@ {
                    assert(before.contains_key(k));
                }
            }
            if longest != n {
                let w = choose|k: Seq<char>| #[trigger] before.contains_key(k) && k.len() == was;
                assert(after.contains_key(w));
            }
        }
        *self = Vocabulary { ids, longest, empty: false };
    }

    /// The id of `symbol`, if it has one.
    pub fn get(&self, symbol: &str) -> (id: Option<i64>)
        ensures
            id == if self@.contains_key(symbol@) {
                Some(self@[symbol@])
            } else {
                None
            },
    {
        match self.ids.get(symbol) {
            Some(id) => Some(*id),
            None => None,
        }
    }

    /// The length in characters of the longest symbol, or 1 without symbols.
    pub fn max_token_chars(&self) -> (n: usize)
        ensures
            n == self.longest_symbol(),
            is_longest_symbol(self@, n as nat),
    {
        proof {
            use_type_invariant(self);
        }
        self.longest
    }
}

/// The length of the longest prefix of `s` that is a symbol of `vocab` and has
/// between 1 and `limit` characters; 0 where there is none.
pub open spec fn longest_prefix(vocab: Map<Seq<char>, i64>, s: Seq<char>, limit: nat) -> nat
    decreases limit,
{
    if limit == 0 {
        0
    } else if limit <= s.len() && vocab.contains_key(s.take(limit as int)) {
        limit
    } else {
        longest_prefix(vocab, s, (limit - 1) as nat)
    }
}

/// The ids of `s` under longest-match segmentation: at each position the
/// longest symbol that begins there gives its id and is passed over; where no
/// symbol begins, one character is passed over and gives nothing.
pub open spec fn token_ids(vocab: Map<Seq<char>, i64>, s: Seq<char>) -> Seq<i64>
    decreases s.len(),
{
    if s.len() == 0 {
        Seq::empty()
    } else {
        let n = longest_prefix(vocab, s, s.len());
        if 0 < n <= s.len() {
            seq![vocab[s.take(n as int)]] + token_ids(vocab, s.skip(n as int))
        } else {
            token_ids(vocab, s.skip(1))
        }
    }
}

/// The characters of `s` that longest-match segmentation passes over without
/// an id and that are not whitespace, in order.
pub open spec fn unknown_symbols(vocab: Map<Seq<char>, i64>, s: Seq<char>) -> Seq<char>
    decreases s.len(),
{
    if s.len() == 0 {
        Seq::empty()
    } else {
        let n = longest_prefix(vocab, s, s.len());
        if 0 < n <= s.len() {
            unknown_symbols(vocab, s.skip(n as int))
        } else if is_whitespace(s[0]) {
            unknown_symbols(vocab, s.skip(1))
        } else {
            seq![s[0]] + unknown_symbols(vocab, s.skip(1))
        }
    }
}

/// The sequence handed to the model: `inner` between the two sentinels, cut
/// at its end so that the whole has at most `max_length` ids. The sentinels are
/// never cut, so a limit below 2 still gives the two of them.
pub open spec fn framed(bos: i64, eos: i64, inner: Seq<i64>, max_length: nat) -> Seq<i64> {
    if inner.len() + 2 <= max_length {
        seq![bos] + inner + seq![eos]
    } else if max_length >= 2 {
        seq![bos] + inner.take(max_length - 2) + seq![eos]
    } else {
        seq![bos, eos]
    }
}

/// The result of [`longest_prefix`] is a symbol's length, and no longer
/// prefix within the limit is a symbol.
pub proof fn lemma_longest_prefix(vocab: Map<Seq<char>, i64>, s: Seq<char>, limit: nat)
    ensures
        longest_prefix(vocab, s, limit) <= limit,
        longest_prefix(vocab, s, limit) > 0 ==> longest_prefix(vocab, s, limit) <= s.len()
            && vocab.contains_key(s.take(longest_prefix(vocab, s, limit) as int)),
        forall|n: nat|
            longest_prefix(vocab, s, limit) < n <= limit && n <= s.len() ==> !vocab.contains_key(
                #[trigger] s.take(n as int),
            ),
    decreases limit,
{
    if limit > 0 && !(limit <= s.len() && vocab.contains_key(s.take(limit as int))) {
        lemma_longest_prefix(vocab, s, (limit - 1) as nat);
    }
}

/// A prefix that is a symbol, with no longer one up to `limit`, is the
/// longest prefix.
pub proof fn lemma_longest_prefix_found(
    vocab: Map<Seq<char>, i64>,
    s: Seq<char>,
    limit: nat,
    found: nat,
)
    requires
        found <= limit,
        found > 0 ==> found <= s.len() && vocab.contains_key(s.take(found as int)),
        forall|n: nat|
            found < n <= limit && n <= s.len() ==> !vocab.contains_key(#[trigger] s.take(n as int)),
    ensures
        longest_prefix(vocab, s, limit) == found,
    decreases limit,
{
    if limit > found {
        lemma_longest_prefix_found(vocab, s, (limit - 1) as nat, found);
    }
}

/// Finds the longest symbol of `vocab` that begins at `at`, by trying the
/// candidate lengths from the longest possible down to 1.
pub fn longest_match(vocab: &Vocabulary, chars: &[char], at: usize) -> (hit: Option<(usize, i64)>)
    ensures
        at >= chars@.len() ==> hit is None,
        at < chars@.len() ==> ({
            let rest = chars@.skip(at as int);
            let n = longest_prefix(vocab@, rest, rest.len());
            match hit {
                Some((len, id)) => 0 < len <= rest.len() && len == n && id == vocab@[rest.take(
                    len as int,
                )],
                None => n == 0,
            }
        }),
{
    if at >= chars.len() {
        return None;
    }
    let ghost rest = chars@.skip(at as int);
    let bound = vocab.max_token_chars();
    let remaining = chars.len() - at;
    let mut len: usize = if bound < remaining {
        bound
    } else {
        remaining
    };
    while len >= 1
        invariant
            at < chars.len(),
            rest == chars@.skip(at as int),
            len <= rest.len(),
            forall|n: nat|
                len < n <= rest.len() ==> !vocab@.contains_key(#[trigger] rest.take(n as int)),
        decreases len,
    {
        let candidate = string_of(slice_subrange(chars, at, at + len));
        proof {
            assert(candidate@ =~= rest.take(len as int));
        }
        match vocab.get(candidate.as_str()) {
            Some(id) => {
                proof {
                    lemma_longest_prefix_found(vocab@, rest, rest.len(), len as nat);
                }
                return Some((len, id));
            },
            None => {
                len -= 1;
            },
        }
    }
    proof {
        lemma_longest_prefix_found(vocab@, rest, rest.len(), 0);
    }
    None
}

/// The ids of a phoneme string and the characters it could not place.
pub struct Tokenization {
    /// The ids of the matched symbols, in order.
    pub ids: Vec<i64>,
    /// The characters passed over that are not whitespace, in order.
    pub unknown: Vec<char>,
}

/// Segments `chars` by longest match and gives the ids of the symbols found,
/// with the characters that no symbol covers and that are not whitespace.
pub fn tokenize(vocab: &Vocabulary, chars: &[char]) -> (out: Tokenization)
    ensures
        out.ids@ == token_ids(vocab@, chars@),
        out.unknown@ == unknown_symbols(vocab@, chars@),
{
    let mut ids: Vec<i64> = Vec::new();
    let mut unknown: Vec<char> = Vec::new();
    let mut i: usize = 0;
    proof {
        assert(chars@.skip(0) =~= chars@);
        assert(ids@ + token_ids(vocab@, chars@) =~= token_ids(vocab@, chars@));
        assert(unknown@ + unknown_symbols(vocab@, chars@) =~= unknown_symbols(vocab@, chars@));
    }
    while i < chars.len()
        invariant
            i <= chars.len(),
            ids@ + token_ids(vocab@, chars@.skip(i as int)) == token_ids(vocab@, chars@),
            unknown@ + unknown_symbols(vocab@, chars@.skip(i as int)) == unknown_symbols(
                vocab@,
                chars@,
            ),
        decreases chars.len() - i,
    {
        let ghost rest = chars@.skip(i as int);
        let ghost ids_before = ids@;
        let ghost unknown_before = unknown@;
        match longest_match(vocab, chars, i) {
            Some((len, id)) => {
                ids.push(id);
                proof {
                    assert(rest.skip(len as int) =~= chars@.skip(i + len));
                    assert(ids@ + token_ids(vocab@, rest.skip(len as int)) =~= ids_before + (
                    seq![id] + token_ids(vocab@, rest.skip(len as int))));
                }
                i += len;
            },
            None => {
                let c = chars[i];
                let blank = char_is_whitespace(c);
                if !blank {
                    unknown.push(c);
                }
                proof {
                    assert(rest.skip(1) =~= chars@.skip(i + 1));
                    assert(rest[0] == c);
                    if !blank {
                        assert(unknown@ + unknown_symbols(vocab@, rest.skip(1)) =~= unknown_before
                            + (seq![c] + unknown_symbols(vocab@, rest.skip(1))));
                    }
                }
                i += 1;
            },
        }
    }
    proof {
        assert(chars@.skip(i as int).len() == 0);
    }
    Tokenization { ids, unknown }
}

/// Puts `inner` between the sentinels and cuts its end to fit `max_length`.
pub fn frame(bos: i64, eos: i64, inner: &[i64], max_length: usize) -> (out: Vec<i64>)
    ensures
        out@ == framed(bos, eos, inner@, max_length as nat),
{
    let keep: usize = if max_length < 2 {
        0
    } else if inner.len() <= max_length - 2 {
        inner.len()
    } else {
        max_length - 2
    };
    let mut out: Vec<i64> = Vec::new();
    out.push(bos);
    let mut i: usize = 0;
    while i < keep
        invariant
            i <= keep <= inner.len(),
            out@ == seq![bos] + inner@.take(i as int),
        decreases keep - i,
    {
        out.push(inner[i]);
        proof {
            assert(out@ =~= seq![bos] + inner@.take(i + 1));
        }
        i += 1;
    }
    out.push(eos);
    proof {
        if inner@.len() + 2 <= max_length {
            assert(inner@.take(keep as int) =~= inner@);
        }
        assert(out@ =~= framed(bos, eos, inner@, max_length as nat));
    }
    out
}

/// The sentinels survive framing, and the limit is kept wherever it leaves
/// room for the two of them.
pub proof fn lemma_framed_sentinels(bos: i64, eos: i64, inner: Seq<i64>, max_length: nat)
    ensures
        framed(bos, eos, inner, max_length).len() >= 2,
        framed(bos, eos, inner, max_length).first() == bos,
        framed(bos, eos, inner, max_length).last() == eos,
        max_length >= 2 ==> framed(bos, eos, inner, max_length).len() <= max_length,
{
}

/// A sequence that fits is framed whole: it has two ids more than `inner`,
/// and `inner` stands between the sentinels.
pub proof fn lemma_framed_fits(bos: i64, eos: i64, inner: Seq<i64>, max_length: nat)
    requires
        inner.len() + 2 <= max_length,
    ensures
        framed(bos, eos, inner, max_length).len() == inner.len() + 2,
        framed(bos, eos, inner, max_length).subrange(1, inner.len() as int + 1) == inner,
{
    assert(framed(bos, eos, inner, max_length).subrange(1, inner.len() as int + 1) =~= inner);
}

/// The truncation law: a sequence that does not fit keeps the first
/// `max_length - 2` inner ids between the sentinels and has exactly
/// `max_length` ids. Nothing is cut from the front.
pub proof fn lemma_framed_truncates(bos: i64, eos: i64, inner: Seq<i64>, max_length: nat)
    requires
        max_length >= 2,
        inner.len() > max_length - 2,
    ensures
        framed(bos, eos, inner, max_length) == seq![bos] + inner.take(max_length - 2) + seq![eos],
        framed(bos, eos, inner, max_length).len() == max_length,
        forall|i: int|
            0 <= i < max_length - 2 ==> #[trigger] framed(bos, eos, inner, max_length)[i + 1]
                == inner[i],
{
}

/// Longest match never depends on the bound used to search, as long as no
/// symbol is longer than the bound.
pub proof fn lemma_longest_prefix_bounded(
    vocab: Map<Seq<char>, i64>,
    s: Seq<char>,
    bound: nat,
)
    requires
        symbols_within(vocab, bound),
    ensures
        longest_prefix(vocab, s, s.len()) == longest_prefix(
            vocab,
            s,
            if bound < s.len() {
                bound
            } else {
                s.len()
            },
        ),
{
    let limit = if bound < s.len() {
        bound
    } else {
        s.len()
    };
    lemma_longest_prefix(vocab, s, limit);
    let found = longest_prefix(vocab, s, limit);
    assert forall|n: nat| found < n <= s.len() && n <= s.len() implies !vocab.contains_key(
        #[trigger] s.take(n as int),
    ) by {
        if n > limit {
            assert(s.take(n as int).len() == n);
        }
    }
    lemma_longest_prefix_found(vocab, s, s.len(), found);
}

/// Two encodings of one phoneme string under one vocabulary, one pair of
/// sentinels and one limit are the same sequence, id for id.
pub proof fn lemma_encoding_is_determined(
    vocab: Map<Seq<char>, i64>,
    bos: i64,
    eos: i64,
    phonemes: Seq<char>,
    max_length: nat,
    first: Seq<i64>,
    second: Seq<i64>,
)
    requires
        first == framed(bos, eos, token_ids(vocab, phonemes), max_length),
        second == framed(bos, eos, token_ids(vocab, phonemes), max_length),
    ensures
        first == second,
{
}

/// A vocabulary with its sentinel and a default length limit: what turns a
/// phoneme string into the token sequence of the model.
pub struct Tokenizer {
    vocab: Vocabulary,
    bos_id: i64,
    eos_id: i64,
    model_max_length: usize,
}

impl Tokenizer {
    #[verifier::type_invariant]
    closed spec fn wf(&self) -> bool {
        &&& self.vocab@.contains_key(sentinel())
        &&& self.bos_id == self.vocab@[sentinel()]
        &&& self.eos_id == self.bos_id
    }

    /// The vocabulary that the tokenizer matches against.
    pub closed spec fn vocabulary(&self) -> Map<Seq<char>, i64> {
        self.vocab@
    }

    /// The id that opens a token sequence.
    pub closed spec fn bos(&self) -> i64 {
        self.bos_id
    }

    /// The id that closes a token sequence.
    pub closed spec fn eos(&self) -> i64 {
        self.eos_id
    }

    /// The length limit used where a call gives none.
    pub closed spec fn max_length(&self) -> nat {
        self.model_max_length as nat
    }

    /// The limit that a call with `max_length` works under.
    pub open spec fn limit(&self, max_length: Option<usize>) -> nat {
        match max_length {
            Some(n) => n as nat,
            None => self.max_length(),
        }
    }

    /// The token sequence of a phoneme string under `max_length`.
    pub open spec fn encoding(&self, phonemes: Seq<char>, max_length: Option<usize>) -> Seq<i64> {
        framed(
            self.bos(),
            self.eos(),
            token_ids(self.vocabulary(), phonemes),
            self.limit(max_length),
        )
    }

    /// A tokenizer over `vocab` with the default length limit. The vocabulary
    /// must hold the symbol `"$"`, whose id becomes both sentinels.
    pub fn new(vocab: Vocabulary) -> (made: Result<Tokenizer, TokenizeError>)
        ensures
            match made {
                Ok(t) => {
                    &&& vocab@.contains_key(sentinel())
                    &&& t.vocabulary() == vocab@
                    &&& t.bos() == vocab@[sentinel()]
                    &&& t.eos() == vocab@[sentinel()]
                    &&& t.max_length() == DEFAULT_MAX_LENGTH
                },
                Err(e) => !vocab@.contains_key(sentinel()) && e == TokenizeError::MissingSentinel,
            },
    {
        proof {
            reveal_strlit("$");
            assert("$"@ =~= sentinel());
        }
        match vocab.get("$") {
            Some(id) => Ok(
                Tokenizer { vocab, bos_id: id, eos_id: id, model_max_length: DEFAULT_MAX_LENGTH },
            ),
            None => Err(TokenizeError::MissingSentinel),
        }
    }

    /// The id that opens a token sequence: the id of `"$"`.
    pub fn bos_id(&self) -> (id: i64)
        ensures
            id == self.bos(),
            self.vocabulary().contains_key(sentinel()),
            id == self.vocabulary()[sentinel()],
    {
        proof {
            use_type_invariant(self);
        }
        self.bos_id
    }

    /// The id that closes a token sequence: the same as the one that opens it.
    pub fn eos_id(&self) -> (id: i64)
        ensures
            id == self.eos(),
            id == self.bos(),
    {
        proof {
            use_type_invariant(self);
        }
        self.eos_id
    }

    /// The length limit used where a call gives none.
    pub fn model_max_length(&self) -> (n: usize)
        ensures
            n == self.max_length(),
    {
        self.model_max_length
    }

    /// The vocabulary that the tokenizer matches against.
    pub fn vocab(&self) -> (vocab: &Vocabulary)
        ensures
            vocab@ == self.vocabulary(),
    {
        &self.vocab
    }

    /// The ids of the symbols of `phonemes` under longest-match segmentation.
    pub fn tokenize_longest(&self, phonemes: &str) -> (ids: Vec<i64>)
        ensures
            ids@ == token_ids(self.vocabulary(), phonemes@),
    {
        let chars = chars_of(phonemes);
        tokenize(&self.vocab, chars.as_slice()).ids
    }

    /// The ids of the symbols of `phonemes`, with the characters that no
    /// symbol covers and that are not whitespace.
    pub fn tokenize_with_unknown(&self, phonemes: &str) -> (out: Tokenization)
        ensures
            out.ids@ == token_ids(self.vocabulary(), phonemes@),
            out.unknown@ == unknown_symbols(self.vocabulary(), phonemes@),
    {
        let chars = chars_of(phonemes);
        tokenize(&self.vocab, chars.as_slice())
    }

    /// Puts `inner` between the sentinels and cuts its end to fit
    /// `max_length`, or the tokenizer's own limit where none is given.
    pub fn frame_ids(&self, inner: &[i64], max_length: Option<usize>) -> (out: Vec<i64>)
        ensures
            out@ == framed(self.bos(), self.eos(), inner@, self.limit(max_length)),
            out@.len() >= 2,
            out@.first() == self.bos(),
            out@.last() == self.eos(),
            self.limit(max_length) >= 2 ==> out@.len() <= self.limit(max_length),
            inner@.len() + 2 <= self.limit(max_length) ==> out@.len() == inner@.len() + 2,
    {
        let limit = match max_length {
            Some(n) => n,
            None => self.model_max_length,
        };
        frame(self.bos_id, self.eos_id, inner, limit)
    }

    /// Encodes a phoneme string: its ids between the two sentinels, cut at
    /// the end to fit `max_length`, or the tokenizer's own limit where none is
    /// given. Both sentinels are always there.
    pub fn encode_phonemes(&self, phonemes: &str, max_length: Option<usize>) -> (out: Vec<i64>)
        ensures
            out@ == self.encoding(phonemes@, max_length),
            out@.len() >= 2,
            out@.first() == self.bos(),
            out@.last() == self.eos(),
            self.limit(max_length) >= 2 ==> out@.len() <= self.limit(max_length),
            token_ids(self.vocabulary(), phonemes@).len() + 2 <= self.limit(max_length)
                ==> out@.len() == token_ids(self.vocabulary(), phonemes@).len() + 2,
    {
        let inner = self.tokenize_longest(phonemes);
        self.frame_ids(inner.as_slice(), max_length)
    }
}

/// The part of `s` from `from` up to `to`.
fn slice_subrange(s: &[char], from: usize, to: usize) -> (out: &[char])
    requires
        from <= to <= s.len(),
    ensures
        out@ == s@.subrange(from as int, to as int),
{
    &s[from..to]
}

} // verus!
