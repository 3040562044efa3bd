use pandoras_pot::config::GeneratorConfig;
use pandoras_pot::config::GeneratorType;
use pandoras_pot::generator::GeneratorStrategyContainer;
use pandoras_pot::generator::MarkovChain;
use pandoras_pot::generator::P_TAG_SIZE;
use pandoras_pot::generator::Random;
use pandoras_pot::generator::Static;
use pandoras_pot::generator::compose_first;
use pandoras_pot::generator::wrap_chunk;
use rand::SeedableRng;
use rand::rngs::SmallRng;

#[test]
fn p_tag_overhead_is_ten() {
    assert_eq!(P_TAG_SIZE, "<p>\n\n</p>\n".len());
}

#[test]
fn wrap_chunk_exact_bytes() {
    let wrapped = wrap_chunk(&b"hi".to_vec());
    assert_eq!(wrapped, b"<p>\nhi\n</p>\n".to_vec());
    assert_eq!(wrapped.len(), 2 + P_TAG_SIZE);
}

#[test]
fn compose_first_concatenates() {
    let first = compose_first(&b"<html>".to_vec(), &b"body".to_vec());
    assert_eq!(first, b"<html>body".to_vec());
}

#[test]
fn random_chunk_is_exactly_chunk_size() {
    let mut rng = SmallRng::from_os_rng();
    for size in [P_TAG_SIZE, 20, 64, 1024] {
        let strategy = Random::new(size);
        let chunk = strategy.next_chunk(&mut rng);
        assert_eq!(chunk.len(), size);
        assert!(chunk.starts_with(b"<p>\n"));
        assert!(chunk.ends_with(b"\n</p>\n"));
        for b in &chunk[4..size - 6] {
            assert!(b.is_ascii_alphanumeric());
        }
    }
}

#[test]
fn random_default_uses_default_chunk_size() {
    let strategy = Random::default();
    assert_eq!(strategy.chunk_size, GeneratorConfig::default().chunk_size);
}

#[test]
fn static_chunks_repeat_data() {
    let msg = b"I'm the real slim shady".to_vec();
    let strategy = Static::new(msg.clone());
    let first = compose_first(&b"<!DOCTYPE html><html><body>".to_vec(), &strategy.next_chunk());
    let mut expected_first = b"<!DOCTYPE html><html><body>".to_vec();
    expected_first.extend_from_slice(&msg);
    assert_eq!(first, expected_first);
    for _ in 0..1000 {
        assert_eq!(strategy.next_chunk(), msg);
    }
}

#[test]
fn markov_chunk_within_band() {
    let mut rng = SmallRng::from_os_rng();
    let corpus = b"a b a b a b".to_vec();
    let strategy = MarkovChain::new(20, &corpus);
    // Every corpus word is one byte long, so a unit sits within
    // (chunk_size - 5, chunk_size + 1].
    for _ in 0..200 {
        let chunk = strategy.next_chunk(&mut rng).expect("corpus has transitions");
        assert!(chunk.len() > 20 - 5, "chunk too small: {}", chunk.len());
        assert!(chunk.len() <= 20 + 1, "chunk too large: {}", chunk.len());
        assert!(chunk.starts_with(b"<p>\n"));
        assert!(chunk.ends_with(b"\n</p>\n"));
    }
}

#[test]
fn markov_chunk_none_without_transitions() {
    let mut rng = SmallRng::from_os_rng();
    let strategy = MarkovChain::new(20, &b"lonely".to_vec());
    assert!(strategy.next_chunk(&mut rng).is_none());
}

#[test]
fn markov_minimal_chunk_size_still_produces() {
    let mut rng = SmallRng::from_os_rng();
    let corpus = b"I am but a little chain. I do chain things.".to_vec();
    // Startup validation refuses a chunk of exactly the tag overhead, but
    // the strategy itself stays total there: the unit is the bare wrapping.
    let strategy = MarkovChain::new(P_TAG_SIZE, &corpus);
    let chunk = strategy.next_chunk(&mut rng).expect("corpus has transitions");
    assert_eq!(chunk, b"<p>\n\n</p>\n".to_vec());
}

#[test]
fn container_dispatches_by_variant() {
    let mut rng = SmallRng::from_os_rng();
    let random = GeneratorStrategyContainer::Random(Random::new(32));
    assert_eq!(random.next_chunk(&mut rng).unwrap().len(), 32);

    let fixed = GeneratorStrategyContainer::Static(Static::new(b"{}".to_vec()));
    assert_eq!(fixed.next_chunk(&mut rng).unwrap(), b"{}".to_vec());

    let markov = GeneratorStrategyContainer::MarkovChain(MarkovChain::new(
        20,
        &b"a b a b a b".to_vec(),
    ));
    assert!(markov.next_chunk(&mut rng).is_some());
}

#[test]
fn strategy_from_config_type() {
    // The startup path: the configured variant decides the strategy.
    let config = GeneratorConfig::default();
    let strategy = match &config.generator_type {
        GeneratorType::Random => {
            GeneratorStrategyContainer::Random(Random::new(config.chunk_size))
        }
        GeneratorType::MarkovChain(_) => unreachable!(),
        GeneratorType::Static(_) => unreachable!(),
    };
    let mut rng = SmallRng::from_os_rng();
    assert_eq!(
        strategy.next_chunk(&mut rng).unwrap().len(),
        config.chunk_size
    );
}
