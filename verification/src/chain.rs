//! The Markov-chain corpus model: a word-transition table built once from a
//! seed text, read-only afterwards, and shared by every concurrent
//! generation.
//!
//! The corpus is tokenized on whitespace and every adjacent pair of tokens
//! becomes one weighted transition: duplicates in a successor list encode
//! frequency. Every token that appears as a key has at least one successor,
//! so a random walk never dead-ends except at the corpus end, where it
//! restarts from a random key.

use vstd::prelude::*;
use rand::rngs::SmallRng;
use crate::rng;

verus! {

/// Whitespace for tokenization: space, tab, line feed, carriage return.
pub open spec fn is_space(b: u8) -> bool {
    b == 32 || b == 9 || b == 10 || b == 13
}

fn is_space_byte(b: u8) -> (r: bool)
    ensures
        r == is_space(b),
{
    b == 32 || b == 9 || b == 10 || b == 13
}

/// The whitespace-separated tokens of a byte string, in order.
pub open spec fn tokens_spec(s: Seq<u8>) -> Seq<Seq<u8>>
    decreases s.len(),
{
    if s.len() == 0 {
        Seq::empty()
    } else {
        let rest = tokens_spec(s.drop_last());
        let b = s.last();
        if is_space(b) {
            rest
        } else if s.len() >= 2 && !is_space(s[s.len() - 2]) {
            rest.update(rest.len() - 1, rest.last().push(b))
        } else {
            rest.push(seq![b])
        }
    }
}

/// Every token is nonempty, and a text that ends in a non-space byte has at
/// least one token.
pub proof fn lemma_tokens_spec_wf(s: Seq<u8>)
    ensures
        forall|i: int|
            0 <= i < tokens_spec(s).len() ==> (#[trigger] tokens_spec(s)[i]).len() >= 1,
        s.len() >= 1 && !is_space(s.last()) ==> tokens_spec(s).len() >= 1,
    decreases s.len(),
{
    if s.len() == 0 {
    } else {
        lemma_tokens_spec_wf(s.drop_last());
        let rest = tokens_spec(s.drop_last());
        let b = s.last();
        if is_space(b) {
        } else if s.len() >= 2 && !is_space(s[s.len() - 2]) {
            assert(s.drop_last().last() == s[s.len() - 2]);
            assert(rest.len() >= 1);
            let r = rest.update(rest.len() - 1, rest.last().push(b));
            assert(forall|i: int|
                0 <= i < r.len() ==> (#[trigger] r[i]).len() >= 1) by {
                assert(forall|i: int|
                    0 <= i < r.len() && i != r.len() - 1 ==> r[i] == rest[i]);
            }
        } else {
        }
    }
}

/// Splits a text into its whitespace-separated tokens.
pub fn tokenize(text: &Vec<u8>) -> (r: Vec<Vec<u8>>)
    ensures
        r.deep_view() == tokens_spec(text@),
{
    let mut toks: Vec<Vec<u8>> = Vec::new();
    let mut i: usize = 0;
    while i < text.len()
        invariant
            i <= text@.len(),
            toks.deep_view() == tokens_spec(text@.take(i as int)),
        decreases text@.len() - i,
    {
        let b = text[i];
        proof {
            assert(text@.take(i + 1).drop_last() =~= text@.take(i as int));
            assert(text@.take(i + 1).last() == text@[i as int]);
        }
        if is_space_byte(b) {
            proof {
                assert(toks.deep_view() =~~= tokens_spec(text@.take(i + 1)));
            }
        } else if i > 0 && !is_space_byte(text[i - 1]) {
            proof {
                lemma_tokens_spec_wf(text@.take(i as int));
                assert(text@.take(i as int).last() == text@[i - 1]);
                assert(toks.deep_view().len() >= 1);
            }
            let ghost prev = toks.deep_view();
            let mut lastv = toks.pop().unwrap();
            lastv.push(b);
            toks.push(lastv);
            proof {
                assert(toks.deep_view() =~~= prev.update(
                    prev.len() - 1,
                    prev.last().push(b),
                ));
                assert(toks.deep_view() =~~= tokens_spec(text@.take(i + 1)));
            }
        } else {
            let mut t: Vec<u8> = Vec::new();
            t.push(b);
            let ghost tv = t@;
            toks.push(t);
            proof {
                assert(tv =~= seq![text@[i as int]]);
                assert(toks.deep_view() =~~= tokens_spec(text@.take(i + 1)));
            }
        }
        i += 1;
    }
    proof {
        assert(text@.take(text@.len() as int) =~= text@);
        assert(views_of(toks@) =~~= toks.deep_view());
    }
    toks
}

/// The views of a sequence of byte vectors.
pub open spec fn views_of(ws: Seq<Vec<u8>>) -> Seq<Seq<u8>> {
    Seq::new(ws.len(), |i: int| ws[i]@)
}

fn bytes_eq(a: &Vec<u8>, b: &Vec<u8>) -> (r: bool)
    ensures
        r == (a@ == b@),
{
    if a.len() != b.len() {
        return false;
    }
    let mut j: usize = 0;
    while j < a.len()
        invariant
            j <= a@.len(),
            a@.len() == b@.len(),
            forall|k: int| 0 <= k < j ==> a@[k] == b@[k],
        decreases a@.len() - j,
    {
        if a[j] != b[j] {
            return false;
        }
        j += 1;
    }
    proof {
        assert(a@ =~= b@);
    }
    true
}

fn copy_bytes(v: &Vec<u8>) -> (r: Vec<u8>)
    ensures
        r@ == v@,
{
    let mut r: Vec<u8> = Vec::new();
    r.extend_from_slice(v.as_slice());
    proof {
        assert(r@ =~= v@);
    }
    r
}

/// The distinct words of a token sequence, in order of first appearance.
pub open spec fn uniq_words(toks: Seq<Seq<u8>>) -> Seq<Seq<u8>>
    decreases toks.len(),
{
    if toks.len() == 0 {
        Seq::empty()
    } else {
        let rest = uniq_words(toks.drop_last());
        if rest.contains(toks.last()) {
            rest
        } else {
            rest.push(toks.last())
        }
    }
}

/// The successor ids a corpus, given as word ids, assigns to the word `a`:
/// one entry for each adjacent pair starting with `a`, in corpus order, so
/// duplicates encode frequency.
pub open spec fn successors_of(ids: Seq<usize>, a: usize) -> Seq<usize>
    decreases ids.len(),
{
    if ids.len() < 2 {
        Seq::empty()
    } else {
        let rest = successors_of(ids.drop_last(), a);
        if ids[ids.len() - 2] == a {
            rest.push(ids.last())
        } else {
            rest
        }
    }
}

proof fn lemma_successors_push(ids: Seq<usize>, x: usize, a: usize)
    ensures
        successors_of(ids.push(x), a) == if ids.len() >= 1 && ids[ids.len() - 1] == a {
            successors_of(ids, a).push(x)
        } else {
            successors_of(ids, a)
        },
{
    let p = ids.push(x);
    assert(p.drop_last() =~= ids);
    if ids.len() == 0 {
        assert(p.len() < 2);
    } else {
        assert(p[p.len() - 2] == ids[ids.len() - 1]);
        assert(p.last() == x);
    }
}

proof fn lemma_successors_absent(ids: Seq<usize>, a: usize)
    requires
        forall|k: int| 0 <= k < ids.len() ==> ids[k] != a,
    ensures
        successors_of(ids, a).len() == 0,
    decreases ids.len(),
{
    if ids.len() < 2 {
    } else {
        lemma_successors_absent(ids.drop_last(), a);
    }
}

proof fn lemma_successors_first(ids: Seq<usize>)
    requires
        ids.len() >= 2,
    ensures
        successors_of(ids, ids[0]).len() >= 1,
    decreases ids.len(),
{
    if ids.len() == 2 {
    } else {
        lemma_successors_first(ids.drop_last());
        assert(ids.drop_last()[0] == ids[0]);
    }
}

/// Chain-invariant law: a corpus of at least two tokens always leaves the
/// chain with at least one key, so a random walk can always restart and
/// generation never dead-ends.
pub proof fn lemma_chain_no_dead_end(c: Chain, toks: Seq<Seq<u8>>)
    requires
        c.wf(),
        chain_matches(c, toks),
        toks.len() >= 2,
    ensures
        c.has_keys(),
{
    lemma_successors_first(c.ids@);
    let a = c.ids@[0];
    assert(c.succ@[a as int]@ == successors_of(c.ids@, a));
    assert(c.succ@[a as int]@.len() > 0);
    assert(c.keys@.contains(a));
}

fn find_word(words: &Vec<Vec<u8>>, t: &Vec<u8>) -> (r: Option<usize>)
    ensures
        match r {
            Some(j) => j < words@.len() && words@[j as int]@ == t@,
            None => forall|k: int| 0 <= k < words@.len() ==> words@[k]@ != t@,
        },
{
    let mut j: usize = 0;
    while j < words.len()
        invariant
            j <= words@.len(),
            forall|k: int| 0 <= k < j ==> words@[k]@ != t@,
        decreases words@.len() - j,
    {
        if bytes_eq(&words[j], t) {
            return Some(j);
        }
        j += 1;
    }
    None
}

fn push_at(v: &mut Vec<Vec<usize>>, j: usize, x: usize)
    requires
        j < old(v)@.len(),
    ensures
        final(v)@.len() == old(v)@.len(),
        final(v)@[j as int]@ == old(v)@[j as int]@.push(x),
        forall|k: int| 0 <= k < old(v)@.len() && k != j ==> final(v)@[k]@ == old(v)@[k]@,
{
    let ghost before = v@;
    let mut inner = v.remove(j);
    inner.push(x);
    let ghost innerval = inner;
    v.insert(j, inner);
    proof {
        assert(v@ =~= before.update(j as int, innerval));
    }
}

/// The word-transition table. `words` holds each distinct corpus token once,
/// `ids` is the corpus rewritten as indices into `words`, `succ[a]` lists
/// the successors the corpus assigns to word `a`, and `keys` lists the words
/// that have at least one successor.
#[derive(Clone, Debug)]
pub struct Chain {
    /// Each distinct token of the corpus, in order of first appearance.
    pub words: Vec<Vec<u8>>,
    /// The corpus, token by token, as indices into `words`.
    pub ids: Vec<usize>,
    /// For each word, its successors, duplicates encoding frequency.
    pub succ: Vec<Vec<usize>>,
    /// The words that have at least one successor.
    pub keys: Vec<usize>,
}

impl Chain {
    /// The table is internally consistent: `succ` holds exactly the
    /// transitions of the corpus `ids` spells, and `keys` holds exactly the
    /// words with a successor, so a walk from any key cannot dead-end.
    pub open spec fn wf(&self) -> bool {
        &&& self.succ@.len() == self.words@.len()
        &&& forall|k: int| 0 <= k < self.ids@.len() ==> (#[trigger] self.ids@[k])
            < self.words@.len()
        &&& forall|a: int|
            0 <= a < self.succ@.len() ==> (#[trigger] self.succ@[a])@ == successors_of(
                self.ids@,
                a as usize,
            )
        &&& forall|a: int, m: int|
            0 <= a < self.succ@.len() && 0 <= m < self.succ@[a]@.len() ==> (
            #[trigger] self.succ@[a]@[m]) < self.words@.len()
        &&& forall|k: int|
            0 <= k < self.keys@.len() ==> (#[trigger] self.keys@[k]) < self.words@.len()
                && self.succ@[self.keys@[k] as int]@.len() > 0
        &&& forall|a: int|
            0 <= a < self.succ@.len() && (#[trigger] self.succ@[a])@.len() > 0
                ==> self.keys@.contains(a as usize)
        &&& forall|x: int| 0 <= x < self.words@.len() ==> (#[trigger] self.words@[x])@.len() >= 1
        &&& forall|x: int, y: int|
            0 <= x < y < self.words@.len() ==> self.words@[x]@ != self.words@[y]@
    }

    /// Whether any word has a successor; a corpus of at least two tokens
    /// always yields one.
    pub open spec fn has_keys(&self) -> bool {
        self.keys@.len() > 0
    }

    /// Whether `w` is a word of the corpus the chain was built from.
    pub open spec fn is_word(&self, w: Seq<u8>) -> bool {
        exists|j: int| 0 <= j < self.words@.len() && self.words@[j]@ == w
    }

    /// The length of the longest corpus word.
    pub open spec fn max_word_len(&self) -> nat {
        max_len_of(self.words@)
    }

    /// Whether the corpus assigns a transition from word `a` to word `b`.
    pub open spec fn has_edge(&self, a: Seq<u8>, b: Seq<u8>) -> bool {
        exists|i: int, m: int|
            0 <= i < self.words@.len() && self.words@[i]@ == a && 0 <= m
                < self.succ@[i]@.len() && self.words@[self.succ@[i]@[m] as int]@ == b
    }

    /// Whether `a` is a corpus word with no successor: only the corpus's
    /// last word can be one, and there the walk restarts.
    pub open spec fn has_no_successor(&self, a: Seq<u8>) -> bool {
        exists|i: int|
            0 <= i < self.words@.len() && self.words@[i]@ == a && self.succ@[i]@.len() == 0
    }
}

/// The length of the longest byte vector of a sequence.
pub open spec fn max_len_of(ws: Seq<Vec<u8>>) -> nat
    decreases ws.len(),
{
    if ws.len() == 0 {
        0
    } else {
        let rest = max_len_of(ws.drop_last());
        if ws.last()@.len() > rest {
            ws.last()@.len()
        } else {
            rest
        }
    }
}

proof fn lemma_max_len_of(ws: Seq<Vec<u8>>, j: int)
    requires
        0 <= j < ws.len(),
    ensures
        ws[j]@.len() <= max_len_of(ws),
    decreases ws.len(),
{
    if j == ws.len() - 1 {
    } else {
        lemma_max_len_of(ws.drop_last(), j);
        assert(ws.drop_last()[j] == ws[j]);
    }
}

/// The chain a given token sequence determines.
pub open spec fn chain_matches(c: Chain, toks: Seq<Seq<u8>>) -> bool {
    &&& c.ids@.len() == toks.len()
    &&& forall|k: int|
        0 <= k < toks.len() ==> (#[trigger] c.ids@[k]) < c.words@.len()
            && c.words@[c.ids@[k] as int]@ == toks[k]
    &&& views_of(c.words@) == uniq_words(toks)
}

/// Looks the token up among the words seen so far, appending it (with a
/// fresh, still successor-less `succ` entry) when it is new.
fn intern(words: &mut Vec<Vec<u8>>, succ: &mut Vec<Vec<usize>>, t: &Vec<u8>) -> (id: usize)
    requires
        old(succ)@.len() == old(words)@.len(),
    ensures
        final(succ)@.len() == final(words)@.len(),
        id < final(words)@.len(),
        final(words)@[id as int]@ == t@,
        forall|k: int| 0 <= k < old(words)@.len() ==> final(words)@[k] == old(words)@[k],
        forall|a: int| 0 <= a < old(succ)@.len() ==> final(succ)@[a] == old(succ)@[a],
        views_of(old(words)@).contains(t@) ==> final(words)@ == old(words)@ && final(succ)@
            == old(succ)@,
        !views_of(old(words)@).contains(t@) ==> id == old(words)@.len() && final(words)@.len()
            == old(words)@.len() + 1 && final(succ)@[id as int]@ == Seq::<usize>::empty(),
        views_of(final(words)@) == if views_of(old(words)@).contains(t@) {
            views_of(old(words)@)
        } else {
            views_of(old(words)@).push(t@)
        },
{
    proof {
        assert(forall|k: int|
            0 <= k < old(words)@.len() ==> views_of(old(words)@)[k] == old(words)@[k]@);
    }
    match find_word(words, t) {
        Some(j) => {
            proof {
                assert(views_of(words@)[j as int] == t@);
                assert(views_of(words@).contains(t@));
            }
            j
        },
        None => {
            let w = copy_bytes(t);
            words.push(w);
            succ.push(Vec::new());
            proof {
                assert(!views_of(old(words)@).contains(t@));
                assert(views_of(words@) =~= views_of(old(words)@).push(t@));
            }
            words.len() - 1
        },
    }
}

impl Chain {
    /// Builds the transition table from a tokenized corpus: every adjacent
    /// pair `(token[i], token[i+1])` becomes one weighted transition. The
    /// table is fully determined by the tokens.
    pub fn from_tokens(toks: &Vec<Vec<u8>>) -> (c: Chain)
        requires
            forall|k: int| 0 <= k < toks@.len() ==> (#[trigger] toks@[k])@.len() >= 1,
        ensures
            c.wf(),
            chain_matches(c, views_of(toks@)),
            c.has_keys() <==> toks@.len() >= 2,
    {
        let ghost tv = views_of(toks@);
        let mut words: Vec<Vec<u8>> = Vec::new();
        let mut ids: Vec<usize> = Vec::new();
        let mut succ: Vec<Vec<usize>> = Vec::new();
        let mut keys: Vec<usize> = Vec::new();
        let mut i: usize = 0;
        proof {
            assert(views_of(words@) =~= uniq_words(tv.take(0)));
        }
        while i < toks.len()
            invariant
                forall|k: int| 0 <= k < toks@.len() ==> (#[trigger] toks@[k])@.len() >= 1,
                tv == views_of(toks@),
                i <= toks@.len(),
                ids@.len() == i,
                succ@.len() == words@.len(),
                views_of(words@) == uniq_words(tv.take(i as int)),
                forall|k: int|
                    0 <= k < i ==> (#[trigger] ids@[k]) < words@.len()
                        && words@[ids@[k] as int]@ == tv[k],
                forall|a: int|
                    0 <= a < succ@.len() ==> (#[trigger] succ@[a])@ == successors_of(
                        ids@,
                        a as usize,
                    ),
                forall|a: int, m: int|
                    0 <= a < succ@.len() && 0 <= m < succ@[a]@.len() ==> (
                    #[trigger] succ@[a]@[m]) < words@.len(),
                forall|k: int|
                    0 <= k < keys@.len() ==> (#[trigger] keys@[k]) < words@.len()
                        && succ@[keys@[k] as int]@.len() > 0,
                forall|a: int|
                    0 <= a < succ@.len() && (#[trigger] succ@[a])@.len() > 0
                        ==> keys@.contains(a as usize),
                forall|x: int| 0 <= x < words@.len() ==> (#[trigger] words@[x])@.len() >= 1,
                forall|x: int, y: int|
                    0 <= x < y < words@.len() ==> words@[x]@ != words@[y]@,
                keys@.len() > 0 <==> i >= 2,
            decreases toks@.len() - i,
        {
            let ghost words0 = words@;
            let ghost ids0 = ids@;
            let ghost succ0 = succ@;
            proof {
                assert(tv.take(i + 1).drop_last() =~= tv.take(i as int));
                assert(tv.take(i + 1).last() == toks@[i as int]@);
                assert(tv[i as int] == toks@[i as int]@);
            }
            let id = intern(&mut words, &mut succ, &toks[i]);
            proof {
                assert(forall|k: int|
                    0 <= k < words0.len() ==> views_of(words0)[k] == words0[k]@);
                // The word table now matches the distinct words of the
                // first i + 1 tokens.
                assert(views_of(words@) =~= uniq_words(tv.take(i + 1)));
                // A fresh word differs from every word already present.
                if !views_of(words0).contains(tv[i as int]) {
                    let ghost ti = tv[i as int];
                    assert forall|x: int|
                        0 <= x < words0.len() implies (#[trigger] words@[x])@ != ti by {
                        assert(words@[x] == words0[x]);
                        assert(views_of(words0)[x] == words0[x]@);
                        if words0[x]@ == tv[i as int] {
                            assert(views_of(words0).contains(tv[i as int]));
                        }
                    }
                }
                // Every successor list still describes the ids written so
                // far: a freshly interned word occurs in none of them.
                if !views_of(words0).contains(tv[i as int]) {
                    assert(forall|k: int| 0 <= k < ids0.len() ==> ids0[k] != id);
                    lemma_successors_absent(ids0, id);
                    assert(succ@[id as int]@ == successors_of(ids0, id));
                }
                assert(forall|a: int|
                    0 <= a < succ@.len() ==> (#[trigger] succ@[a])@ == successors_of(
                        ids0,
                        a as usize,
                    ));
            }
            ids.push(id);
            proof {
                assert(ids@.drop_last() =~= ids0);
                assert(forall|k: int| 0 <= k < ids0.len() ==> ids@[k] == ids0[k]);
                assert(ids@[i as int] == id);
            }
            if i > 0 {
                let prev = ids[i - 1];
                proof {
                    assert(ids0[i - 1] == prev);
                    assert forall|a: int| 0 <= a < succ@.len() implies #[trigger] successors_of(
                        ids@,
                        a as usize,
                    ) == (if a == prev as int {
                        successors_of(ids0, a as usize).push(id)
                    } else {
                        successors_of(ids0, a as usize)
                    }) by {
                        lemma_successors_push(ids0, id, a as usize);
                        assert(succ.len() == succ@.len());
                        assert(a <= usize::MAX as int);
                        assert(ids@ == ids0.push(id));
                        assert(ids0.len() == i);
                        assert(ids0[ids0.len() - 1] == prev);
                    }
                }
                let ghost keys0 = keys@;
                let ghost succ_mid = succ@;
                let was_empty = succ[prev].len() == 0;
                push_at(&mut succ, prev, id);
                if was_empty {
                    keys.push(prev);
                }
                proof {
                    assert forall|a: int|
                        0 <= a < succ@.len() && a != prev as int implies (#[trigger] succ@[a])@
                        == successors_of(ids@, a as usize) by {
                        assert(succ@[a]@ == succ_mid[a]@);
                        assert(succ_mid[a]@ == successors_of(ids0, a as usize));
                    }
                    assert(succ@[prev as int]@ == successors_of(ids@, prev));
                    assert(succ@[prev as int]@.len() > 0);
                    if was_empty {
                        assert(keys@ == keys0.push(prev));
                        assert(keys@[keys@.len() - 1] == prev);
                        assert(keys@.contains(prev));
                    } else {
                        assert(succ_mid[prev as int]@.len() > 0);
                        assert(keys0.contains(prev));
                        assert(keys@.contains(prev));
                    }
                    assert forall|k: int|
                        0 <= k < keys0.len() implies keys@.contains(#[trigger] keys0[k]) by {
                        assert(keys@[k] == keys0[k]);
                    }
                }
            } else {
                proof {
                    assert forall|a: int| 0 <= a < succ@.len() implies (#[trigger] succ@[a])@
                        == successors_of(ids@, a as usize) by {
                        lemma_successors_push(ids0, id, a as usize);
                        assert(succ.len() == succ@.len());
                        assert(a <= usize::MAX as int);
                        assert(ids@ == ids0.push(id));
                    }
                }
            }
            i += 1;
        }
        proof {
            assert(tv.take(toks@.len() as int) =~= tv);
        }
        Chain { words, ids, succ, keys }
    }

    /// Builds the chain straight from corpus bytes.
    pub fn from_text(corpus: &Vec<u8>) -> (c: Chain)
        ensures
            c.wf(),
            chain_matches(c, tokens_spec(corpus@)),
            c.has_keys() <==> tokens_spec(corpus@).len() >= 2,
    {
        let toks = tokenize(corpus);
        proof {
            lemma_tokens_spec_wf(corpus@);
            assert(views_of(toks@) =~~= toks.deep_view());
            assert(forall|k: int|
                0 <= k < toks@.len() ==> (#[trigger] toks@[k])@ == views_of(toks@)[k]);
        }
        Chain::from_tokens(&toks)
    }

    /// Whether the chain holds any transition at all.
    pub fn has_transitions(&self) -> (r: bool)
        ensures
            r == self.has_keys(),
    {
        self.keys.len() > 0
    }

    /// A random walk over the chain. Returns exactly `n` corpus words, or
    /// `None` when the chain holds no transition at all. From any key the
    /// walk never dead-ends; at a word without successors (the corpus end)
    /// it restarts from a random key. Consecutive output words follow a
    /// transition, except across such a restart.
    pub fn generate(&self, rng: &mut SmallRng, n: usize) -> (r: Option<Vec<Vec<u8>>>)
        requires
            self.wf(),
        ensures
            (r is Some) <==> self.has_keys(),
            r matches Some(v) ==> v@.len() == n && forall|k: int|
                0 <= k < v@.len() ==> self.is_word(#[trigger] v@[k]@) && 1 <= v@[k]@.len()
                    <= self.max_word_len(),
            r matches Some(v) ==> forall|k: int|
                0 <= k < v@.len() - 1 ==> self.has_edge(#[trigger] v@[k]@, v@[k + 1]@)
                    || self.has_no_successor(v@[k]@),
    {
        if self.keys.len() == 0 {
            return None;
        }
        let mut cur: usize = self.keys[rng::rand_below(rng, self.keys.len())];
        let mut out: Vec<Vec<u8>> = Vec::new();
        while out.len() < n
            invariant
                self.wf(),
                self.keys@.len() > 0,
                cur < self.words@.len(),
                out@.len() <= n,
                forall|k: int|
                    0 <= k < out@.len() ==> self.is_word(#[trigger] out@[k]@) && 1 <= out@[k]@.len()
                        <= self.max_word_len(),
                out@.len() >= 1 ==> out@[out@.len() - 1]@ == self.words@[cur as int]@,
                forall|k: int|
                    0 <= k < out@.len() - 1 ==> self.has_edge(#[trigger] out@[k]@, out@[k + 1]@)
                        || self.has_no_successor(out@[k]@),
            decreases n - out@.len(),
        {
            let ghost c0 = cur;
            let ghost out0 = out@;
            if self.succ[cur].len() == 0 {
                cur = self.keys[rng::rand_below(rng, self.keys.len())];
            }
            let m = rng::rand_below(rng, self.succ[cur].len());
            let nxt = self.succ[cur][m];
            let w = copy_bytes(&self.words[nxt]);
            proof {
                lemma_max_len_of(self.words@, nxt as int);
            }
            out.push(w);
            proof {
                // The new last pair: either the previous word was the
                // corpus end and the walk restarted, or the new word is one
                // of its successors.
                if out0.len() >= 1 {
                    if self.succ@[c0 as int]@.len() == 0 {
                        assert(self.has_no_successor(out0[out0.len() - 1]@));
                    } else {
                        assert(self.words@[cur as int]@ == out0[out0.len() - 1]@);
                        assert(self.has_edge(out0[out0.len() - 1]@, out@[out@.len() - 1]@));
                    }
                }
                assert(forall|k: int| 0 <= k < out0.len() ==> out@[k] == out0[k]);
            }
            cur = nxt;
        }
        Some(out)
    }
}

} // verus!
