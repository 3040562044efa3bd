//! The content strategies and the admission controller.
//!
//! Every strategy except the static one wraps each generated unit in
//! `"<p>\n" ... "\n</p>\n"`, and the very first unit of a stream carries the
//! configured prefix in front of it. A strategy produces one unit per call;
//! the surrounding binary runs that call in a worker and pushes the units
//! through a bounded channel until the consumer goes away.

use vstd::prelude::*;
use rand::rngs::SmallRng;
use crate::chain::Chain;
use crate::chain::chain_matches;
use crate::chain::tokens_spec;
use crate::config::GeneratorConfig;
use crate::rng;
use crate::session::PermitPool;
use crate::session::Session;
use crate::session::SessionPhase;

verus! {

/// Size of wrapping a string in a `"<p>\n{yourstring}\n</p>\n"`.
/// `generator.chunk_size` must be larger than this.
pub const P_TAG_SIZE: usize = 10;

/// The byte `<`.
pub const LT: u8 = 60;

/// The byte `>`.
pub const GT: u8 = 62;

/// The byte `/`.
pub const SLASH: u8 = 47;

/// The byte `p`.
pub const LETTER_P: u8 = 112;

/// The byte `\n`.
pub const NL: u8 = 10;

/// The bytes of one generated unit once it is wrapped in paragraph tags.
pub open spec fn wrap_spec(body: Seq<u8>) -> Seq<u8> {
    seq![LT, LETTER_P, GT, NL] + body + seq![NL, LT, SLASH, LETTER_P, GT, NL]
}

/// Wraps one generated unit in paragraph tags.
pub fn wrap_chunk(body: &Vec<u8>) -> (r: Vec<u8>)
    ensures
        r@ == wrap_spec(body@),
        r@.len() == body@.len() + P_TAG_SIZE,
{
    let mut r: Vec<u8> = Vec::new();
    r.push(LT);
    r.push(LETTER_P);
    r.push(GT);
    r.push(NL);
    r.extend_from_slice(body.as_slice());
    r.push(NL);
    r.push(LT);
    r.push(SLASH);
    r.push(LETTER_P);
    r.push(GT);
    r.push(NL);
    proof {
        assert(r@ =~= wrap_spec(body@));
    }
    r
}

/// The first message of a stream: the configured prefix, then the first
/// generated chunk.
pub fn compose_first(prefix: &Vec<u8>, chunk: &Vec<u8>) -> (r: Vec<u8>)
    ensures
        r@ == prefix@ + chunk@,
{
    let mut r: Vec<u8> = Vec::new();
    r.extend_from_slice(prefix.as_slice());
    r.extend_from_slice(chunk.as_slice());
    proof {
        assert(r@ =~= prefix@ + chunk@);
    }
    r
}

/// The heuristic average corpus-word length, in bytes, used to guess how
/// many words are still needed to fill a chunk.
pub const AVG_TOKEN_LEN: usize = 5;

/// Whether a byte is an ASCII alphanumeric character: `0-9`, `A-Z`, `a-z`.
pub open spec fn is_ascii_alphanumeric_byte(b: u8) -> bool {
    (48 <= b && b <= 57) || (65 <= b && b <= 90) || (97 <= b && b <= 122)
}

/// The concatenation of a sequence of words, in order.
pub open spec fn concat_words(ws: Seq<Seq<u8>>) -> Seq<u8>
    decreases ws.len(),
{
    if ws.len() == 0 {
        Seq::empty()
    } else {
        concat_words(ws.drop_last()) + ws.last()
    }
}

/// Generates `chunk_size` of completely random text.
#[derive(Clone, Debug)]
pub struct Random {
    /// The exact size of every emitted unit, wrapping included.
    pub chunk_size: usize,
}

impl Random {
    /// A random strategy that emits units of exactly `chunk_size` bytes.
    pub fn new(chunk_size: usize) -> (r: Self)
        ensures
            r.chunk_size == chunk_size,
    {
        Random { chunk_size }
    }

    /// One wrapped unit of random alphanumeric text. Its size is exactly
    /// `chunk_size`: stable sizing is this strategy's contract, and the
    /// payload holds nothing but ASCII alphanumeric characters.
    pub fn next_chunk(&self, rng_state: &mut SmallRng) -> (r: Vec<u8>)
        requires
            self.chunk_size >= P_TAG_SIZE,
        ensures
            r@.len() == self.chunk_size,
            exists|body: Seq<u8>|
                r@ == wrap_spec(body) && body.len() == self.chunk_size - P_TAG_SIZE && (forall|
                    i: int,
                |
                    0 <= i < body.len() ==> is_ascii_alphanumeric_byte(#[trigger] body[i])),
    {
        let body = rng::sample_alphanumeric(rng_state, self.chunk_size - P_TAG_SIZE);
        let r = wrap_chunk(&body);
        proof {
            assert(r@ == wrap_spec(body@) && body@.len() == self.chunk_size - P_TAG_SIZE && (
            forall|i: int|
                0 <= i < body@.len() ==> is_ascii_alphanumeric_byte(#[trigger] body@[i])));
        }
        r
    }
}

impl Default for Random {
    /// A random strategy sized by the default configuration.
    fn default() -> (r: Self)
        ensures
            r.chunk_size == 16384,
    {
        let config = GeneratorConfig::default();
        Random::new(config.chunk_size)
    }
}

/// A generator strategy that always returns the same bytes.
#[derive(Clone, Debug)]
pub struct Static {
    /// The raw file bytes replayed verbatim forever, with no wrapping: the
    /// operator controls the exact bytes.
    pub data: Vec<u8>,
}

impl Static {
    /// A static strategy replaying `data`.
    pub fn new(data: Vec<u8>) -> (r: Self)
        ensures
            r.data@ == data@,
    {
        Static { data }
    }

    /// One unit: the configured bytes, unchanged.
    pub fn next_chunk(&self) -> (r: Vec<u8>)
        ensures
            r@ == self.data@,
    {
        let mut r: Vec<u8> = Vec::new();
        r.extend_from_slice(self.data.as_slice());
        proof {
            assert(r@ =~= self.data@);
        }
        r
    }
}

/// A generator strategy using Markov chains to generate text. Due to the
/// nature of Markov chains, each generated unit may not be exactly
/// `chunk_size`, and might be a bit larger.
#[derive(Clone, Debug)]
pub struct MarkovChain {
    /// Chain used to generate responses, built once and then read-only.
    pub chain: Chain,
    /// The target size of an emitted unit.
    pub chunk_size: usize,
}

impl MarkovChain {
    /// Builds the strategy from corpus bytes, constructing the transition
    /// table once.
    pub fn new(chunk_size: usize, corpus: &Vec<u8>) -> (r: Self)
        ensures
            r.chunk_size == chunk_size,
            r.chain.wf(),
            chain_matches(r.chain, tokens_spec(corpus@)),
            r.chain.has_keys() <==> tokens_spec(corpus@).len() >= 2,
    {
        MarkovChain { chain: Chain::from_text(corpus), chunk_size }
    }

    /// One wrapped unit of generated prose, or `None` when the corpus holds
    /// no transition at all. The unit sits within the tolerance band: less
    /// than `AVG_TOKEN_LEN` bytes under the target, and above it by at most
    /// one corpus word; an oversized word cuts the unit short rather than
    /// looping to hit the target exactly.
    pub fn next_chunk(&self, rng_state: &mut SmallRng) -> (r: Option<Vec<u8>>)
        requires
            self.chunk_size >= P_TAG_SIZE,
            self.chain.wf(),
        ensures
            (r is Some) <==> self.chain.has_keys(),
            r matches Some(c) ==> c@.len() + AVG_TOKEN_LEN > self.chunk_size && c@.len()
                <= self.chunk_size + self.chain.max_word_len() && (exists|ws: Seq<Seq<u8>>|
                c@ == wrap_spec(concat_words(ws)) && (forall|k: int|
                    0 <= k < ws.len() ==> self.chain.is_word(#[trigger] ws[k]))),
    {
        if !self.chain.has_transitions() {
            return None;
        }
        let desired = self.chunk_size - P_TAG_SIZE;
        let mut result: Vec<u8> = Vec::new();
        let ghost mut words_used: Seq<Seq<u8>> = Seq::empty();
        proof {
            assert(result@ =~= concat_words(words_used));
        }
        while result.len() < desired
            invariant_except_break
                self.chain.wf(),
                self.chain.has_keys(),
                self.chunk_size >= P_TAG_SIZE,
                desired == self.chunk_size - P_TAG_SIZE,
                result@.len() <= desired,
            invariant
                result@ == concat_words(words_used),
                forall|k: int|
                    0 <= k < words_used.len() ==> self.chain.is_word(#[trigger] words_used[k]),
            ensures
                result@.len() + AVG_TOKEN_LEN > desired,
                result@.len() <= desired + self.chain.max_word_len(),
                result@ == concat_words(words_used),
                forall|k: int|
                    0 <= k < words_used.len() ==> self.chain.is_word(#[trigger] words_used[k]),
            decreases desired - result@.len(),
        {
            let size_left = desired - result.len();
            let likely = size_left / AVG_TOKEN_LEN;
            if likely == 0 {
                break;
            }
            let toks = match self.chain.generate(rng_state, likely) {
                Some(t) => t,
                None => {
                    break;
                },
            };
            let ghost start_len = result@.len();
            let mut current: usize = 0;
            let mut cut = false;
            let mut k: usize = 0;
            while k < toks.len() && !cut
                invariant
                    self.chain.wf(),
                    toks@.len() == likely,
                    forall|m: int|
                        0 <= m < toks@.len() ==> 1 <= (#[trigger] toks@[m])@.len()
                            <= self.chain.max_word_len(),
                    forall|m: int|
                        0 <= m < toks@.len() ==> self.chain.is_word((#[trigger] toks@[m])@),
                    k <= toks@.len(),
                    size_left == desired - start_len,
                    desired == self.chunk_size - P_TAG_SIZE,
                    self.chunk_size >= P_TAG_SIZE,
                    result@ == concat_words(words_used),
                    forall|kk: int|
                        0 <= kk < words_used.len() ==> self.chain.is_word(
                            #[trigger] words_used[kk],
                        ),
                    !cut ==> current <= size_left && result@.len() == start_len + current,
                    cut ==> result@.len() > start_len + size_left && result@.len() <= start_len
                        + size_left + self.chain.max_word_len(),
                    k > 0 ==> result@.len() > start_len,
                    result@.len() >= start_len,
                decreases toks@.len() - k,
            {
                let t = &toks[k];
                result.extend_from_slice(t.as_slice());
                proof {
                    let prev = words_used;
                    words_used = words_used.push(t@);
                    assert(words_used.drop_last() =~= prev);
                    assert(result@ == concat_words(words_used));
                }
                if t.len() > size_left - current {
                    cut = true;
                } else {
                    current = current + t.len();
                }
                k += 1;
            }
            if cut {
                break;
            }
        }
        let c = wrap_chunk(&result);
        proof {
            assert(c@ == wrap_spec(concat_words(words_used)) && (forall|k: int|
                0 <= k < words_used.len() ==> self.chain.is_word(#[trigger] words_used[k])));
        }
        Some(c)
    }
}

/// Static-strategy law: a stream of the static strategy delivers the
/// configured bytes alone. Its first message is the prefix followed by those
/// bytes, and any two later units are identical to them, so the whole
/// stream after the first message repeats one buffer verbatim.
pub proof fn lemma_static_stream(
    s: Static,
    prefix: Seq<u8>,
    first: Seq<u8>,
    later: Seq<u8>,
    later2: Seq<u8>,
)
    requires
        first == prefix + s.data@,
        later == s.data@,
        later2 == s.data@,
    ensures
        later2 == later,
        first == prefix + later,
{
}

/// Container for generator strategies: a closed set of three, dispatched at
/// the point a unit is requested.
#[derive(Clone, Debug)]
pub enum GeneratorStrategyContainer {
    /// Pseudo-random alphanumeric text, exactly sized.
    Random(Random),
    /// Markov-chain prose, approximately sized.
    MarkovChain(MarkovChain),
    /// A fixed payload replayed forever.
    Static(Static),
}

impl GeneratorStrategyContainer {
    /// What a usable strategy looks like: sizes leave room for the wrapping
    /// and the chain is consistent.
    pub open spec fn wf(&self) -> bool {
        match self {
            GeneratorStrategyContainer::Random(g) => g.chunk_size >= P_TAG_SIZE,
            GeneratorStrategyContainer::MarkovChain(m) => m.chunk_size >= P_TAG_SIZE
                && m.chain.wf(),
            GeneratorStrategyContainer::Static(_) => true,
        }
    }

    /// One generated unit, by whichever strategy stands here. Only a Markov
    /// chain without transitions can decline.
    pub fn next_chunk(&self, rng_state: &mut SmallRng) -> (r: Option<Vec<u8>>)
        requires
            self.wf(),
        ensures
            match self {
                GeneratorStrategyContainer::Random(g) => r matches Some(c) && c@.len()
                    == g.chunk_size && (exists|body: Seq<u8>|
                    c@ == wrap_spec(body) && body.len() == g.chunk_size - P_TAG_SIZE && (forall|
                        i: int,
                    |
                        0 <= i < body.len() ==> is_ascii_alphanumeric_byte(#[trigger] body[i]))),
                GeneratorStrategyContainer::MarkovChain(m) => ((r is Some)
                    <==> m.chain.has_keys()) && (r matches Some(c) ==> c@.len() + AVG_TOKEN_LEN
                    > m.chunk_size && c@.len() <= m.chunk_size + m.chain.max_word_len() && (
                exists|ws: Seq<Seq<u8>>|
                    c@ == wrap_spec(concat_words(ws)) && (forall|k: int|
                        0 <= k < ws.len() ==> m.chain.is_word(#[trigger] ws[k])))),
                GeneratorStrategyContainer::Static(s) => r matches Some(c) && c@ == s.data@,
            },
    {
        match self {
            GeneratorStrategyContainer::Random(g) => Some(g.next_chunk(rng_state)),
            GeneratorStrategyContainer::MarkovChain(m) => m.next_chunk(rng_state),
            GeneratorStrategyContainer::Static(s) => Some(s.next_chunk()),
        }
    }
}

/// The admission controller: it owns the permit pool and the configuration,
/// and turns "give me a stream" requests into sessions. Built once at
/// startup and shared; no more than `max_concurrent` sessions generate at
/// once.
pub struct Generator {
    /// The pool that bounds concurrent generation.
    pub permits: PermitPool,
    /// The configuration every session reads its ceilings from.
    pub config: GeneratorConfig,
}

impl Generator {
    /// Builds the controller, sizing the pool from the configuration.
    pub fn from_config(config: GeneratorConfig) -> (r: Generator)
        ensures
            r.permits.wf(),
            r.permits.limit == config.max_concurrent(),
            r.permits.available == r.permits.limit,
            r.config == config,
    {
        let permits = PermitPool::new(config.max_concurrent());
        Generator { permits, config }
    }

    /// Admits one session if a permit is free, else refuses: the caller
    /// must wait for some session to end. A permit is taken before any byte
    /// is generated.
    pub fn try_begin(&mut self) -> (r: Option<Session>)
        requires
            old(self).permits.wf(),
        ensures
            final(self).config == old(self).config,
            final(self).permits.wf(),
            final(self).permits.limit == old(self).permits.limit,
            (r is Some) == old(self).permits.can_admit(),
            r is Some ==> final(self).permits.available == old(self).permits.available - 1,
            r matches Some(s) ==> s.wf() && s.phase == SessionPhase::Admitted && s.bytes_written
                == 0 && s.time_limit == old(self).config.time_limit && s.size_limit == old(
                self,
            ).config.size_limit,
            r is None ==> *final(self) == *old(self),
    {
        if self.permits.try_acquire() {
            Some(Session::new(&self.config))
        } else {
            None
        }
    }

    /// Releases a finished session's permit. Called on every exit path:
    /// limit breach, disconnect, and exhaustion alike.
    pub fn end_session(&mut self)
        requires
            old(self).permits.wf(),
            old(self).permits.outstanding() > 0,
        ensures
            final(self).config == old(self).config,
            final(self).permits.wf(),
            final(self).permits.limit == old(self).permits.limit,
            final(self).permits.available == old(self).permits.available + 1,
            final(self).permits.can_admit(),
    {
        self.permits.release();
    }
}

} // verus!
