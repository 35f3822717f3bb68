use madsim::buggify;
use madsim::production;
use madsim::rand::GlobalRng;

#[test]
fn buggify() {
    let mut rng = GlobalRng::new_with_seed(0);
    assert!(
        !buggify::is_enabled(&rng),
        "buggify should be disabled by default"
    );

    buggify::enable(&mut rng);
    assert!(buggify::is_enabled(&rng));

    let count = (0..1000).filter(|_| buggify::buggify(&mut rng, None)).count();
    assert!((200..300).contains(&count)); // 25%

    let count = (0..1000)
        .filter(|_| buggify::buggify_with_prob(&mut rng, 1, 10, None))
        .count();
    assert!((50..150).contains(&count)); // 10%

    buggify::disable(&mut rng);
    assert!(!buggify::is_enabled(&rng));

    for _ in 0..10 {
        assert!(!buggify::buggify(&mut rng, None));
        assert!(!buggify::buggify_with_prob(&mut rng, 1, 1, None));
    }
}

#[test]
fn buggify_with_certain_probability_fires() {
    let mut rng = GlobalRng::new_with_seed(7);
    buggify::enable(&mut rng);
    for _ in 0..10 {
        assert!(buggify::buggify_with_prob(&mut rng, 1, 1, None));
        assert!(!buggify::buggify_with_prob(&mut rng, 0, 1, None));
    }
}

#[test]
fn production_buggify_never_fires() {
    production::enable();
    assert!(!production::is_enabled());
    assert!(!production::buggify());
    assert!(!production::buggify_with_prob(1, 1));
    production::disable();
}

#[test]
fn enabled_buggify_draws_once_and_logs_it() {
    let mut rng = GlobalRng::new_with_seed(3);
    rng.enable_log();
    let _ = buggify::buggify(&mut rng, None);
    assert_eq!(rng.take_log().unwrap().0.len(), 0);
    buggify::enable(&mut rng);
    rng.enable_log();
    let _ = buggify::buggify(&mut rng, None);
    let _ = madsim::rand::random(&mut rng, None);
    assert_eq!(rng.take_log().unwrap().0.len(), 2);
}
