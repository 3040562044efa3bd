use pandoras_pot::chain::Chain;
use pandoras_pot::chain::tokenize;
use rand::SeedableRng;
use rand::rngs::SmallRng;

fn words_of(text: &str) -> Vec<Vec<u8>> {
    tokenize(&text.as_bytes().to_vec())
}

#[test]
fn tokenize_simple() {
    let toks = words_of("hello world");
    assert_eq!(toks, vec![b"hello".to_vec(), b"world".to_vec()]);
}

#[test]
fn tokenize_collapses_whitespace() {
    let toks = words_of("  a\t\nb  \r\nc ");
    assert_eq!(toks, vec![b"a".to_vec(), b"b".to_vec(), b"c".to_vec()]);
}

#[test]
fn tokenize_empty_and_blank() {
    assert!(words_of("").is_empty());
    assert!(words_of(" \t\n ").is_empty());
}

#[test]
fn chain_from_repeated_bigram_has_keys() {
    let corpus = b"a b a b a b".to_vec();
    let chain = Chain::from_text(&corpus);
    assert!(chain.has_transitions());
}

#[test]
fn chain_single_word_has_no_keys() {
    let corpus = b"hello".to_vec();
    let chain = Chain::from_text(&corpus);
    assert!(!chain.has_transitions());
    let mut rng = SmallRng::from_os_rng();
    assert!(chain.generate(&mut rng, 3).is_none());
}

#[test]
fn chain_empty_corpus_has_no_keys() {
    let chain = Chain::from_text(&Vec::new());
    assert!(!chain.has_transitions());
}

#[test]
fn generate_returns_requested_count() {
    let corpus = b"a b a b a b".to_vec();
    let chain = Chain::from_text(&corpus);
    let mut rng = SmallRng::from_os_rng();
    for n in [1usize, 2, 5, 40] {
        let out = chain.generate(&mut rng, n).expect("chain has transitions");
        assert_eq!(out.len(), n);
        for w in &out {
            assert!(w == b"a" || w == b"b");
        }
    }
}

#[test]
fn generate_never_dead_ends() {
    // The corpus ends in a word that also appears earlier, and a second one
    // whose only role is ending the text: the walk must restart there.
    let corpus = b"one two one two stop".to_vec();
    let chain = Chain::from_text(&corpus);
    let mut rng = SmallRng::from_os_rng();
    for _ in 0..200 {
        let out = chain.generate(&mut rng, 8).expect("chain has transitions");
        assert_eq!(out.len(), 8);
    }
}
