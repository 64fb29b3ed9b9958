use horocal::cal::horo::mood_from_draw;
use horocal::{Horo, Mood};

fn mood_of_index(i: u8) -> Mood {
    match i {
        0 => Mood::Worst,
        1 => Mood::Bad,
        2 => Mood::Normal,
        3 => Mood::Good,
        _ => Mood::Best,
    }
}

#[test]
fn seed_finalizer_matches_splitmix64() {
    let mut h = Horo::new(0);
    assert_eq!(h.rand(), 0x6661260e8cc57df4);
}

#[test]
fn rand_is_one_xorshift_step() {
    let mut a = Horo::new(0);
    let mut b = Horo::new(0);
    let first = a.rand();
    let second = a.rand();
    assert_eq!(b.rand(), first);
    assert_ne!(first, second);
    assert_eq!(b.rand(), second);
}

#[test]
fn same_seed_gives_same_moods() {
    let mut a = Horo::new(2024);
    let mut b = Horo::new(2024);
    let xs = a.draw(500);
    let ys = b.draw(500);
    assert_eq!(xs.len(), 500);
    assert_eq!(xs, ys);
}

#[test]
fn draws_in_parts_equal_draws_at_once() {
    let mut a = Horo::new(7);
    let mut b = Horo::new(7);
    let mut parts = a.draw(3);
    parts.extend(a.draw(4));
    assert_eq!(parts, b.draw(7));
}

#[test]
fn known_mood_stream() {
    let mut h = Horo::new(0);
    let expected: Vec<Mood> = [2u8, 2, 1, 3, 2].iter().map(|i| mood_of_index(*i)).collect();
    assert_eq!(h.draw(5), expected);
    let mut y = Horo::new(2024);
    let expected: Vec<Mood> =
        [2u8, 1, 2, 2, 2, 2, 1, 2, 2, 1].iter().map(|i| mood_of_index(*i)).collect();
    assert_eq!(y.draw(10), expected);
}

#[test]
fn every_draw_has_a_mood() {
    let mut h = Horo::new(12345);
    for _ in 0..10000 {
        assert!(h.next().is_some());
    }
}

#[test]
fn bucket_edges() {
    let m = u64::MAX as u128;
    let edge = |per_mille: u128| ((per_mille * m + 999) / 1000) as u64;
    assert_eq!(mood_from_draw(0), Mood::Worst);
    assert_eq!(mood_from_draw(edge(21) - 1), Mood::Worst);
    assert_eq!(mood_from_draw(edge(21)), Mood::Bad);
    assert_eq!(mood_from_draw(edge(157) - 1), Mood::Bad);
    assert_eq!(mood_from_draw(edge(157)), Mood::Normal);
    assert_eq!(mood_from_draw(u64::MAX / 2), Mood::Normal);
    assert_eq!(mood_from_draw(edge(839) - 1), Mood::Normal);
    assert_eq!(mood_from_draw(edge(839)), Mood::Good);
    assert_eq!(mood_from_draw(edge(975) - 1), Mood::Good);
    assert_eq!(mood_from_draw(edge(975)), Mood::Best);
    assert_eq!(mood_from_draw(u64::MAX), Mood::Best);
}

#[test]
fn mood_colors() {
    assert_eq!(Mood::Worst.color_code(), 91);
    assert_eq!(Mood::Bad.color_code(), 31);
    assert_eq!(Mood::Normal.color_code(), 0);
    assert_eq!(Mood::Good.color_code(), 32);
    assert_eq!(Mood::Best.color_code(), 92);
    assert_eq!(Mood::Worst.escape(), "\u{1b}[91m");
    assert_eq!(Mood::Bad.escape(), "\u{1b}[31m");
    assert_eq!(Mood::Normal.escape(), "\u{1b}[0m");
    assert_eq!(Mood::Good.escape(), "\u{1b}[32m");
    assert_eq!(Mood::Best.escape(), "\u{1b}[92m");
}
