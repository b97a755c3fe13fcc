use time_spent::{classify, Bucket, Rating, TimeSpent, TimeSpents};

#[test]
fn classifier_boundaries() {
    assert_eq!(classify(0), Bucket::UltraBullet);
    assert_eq!(classify(29), Bucket::UltraBullet);
    assert_eq!(classify(30), Bucket::Bullet);
    assert_eq!(classify(179), Bucket::Bullet);
    assert_eq!(classify(180), Bucket::Blitz);
    assert_eq!(classify(479), Bucket::Blitz);
    assert_eq!(classify(480), Bucket::Rapid);
    assert_eq!(classify(1499), Bucket::Rapid);
    assert_eq!(classify(1500), Bucket::Classical);
    assert_eq!(classify(u64::MAX), Bucket::Classical);
}

#[test]
fn time_spent_add_game_sums() {
    let mut t = TimeSpent::zero();
    t.add_game(100, 180, Rating(1500));
    t.add_game(50, 180, Rating(1600));
    assert_eq!(t.nb_games, 2);
    assert_eq!(t.total_rating, Rating(3100));
    assert_eq!(t.time_spent_exact, 150);
    assert_eq!(t.time_spent_approximate, 360);
}

#[test]
fn empty_bucket_renders_empty_cells() {
    assert_eq!(TimeSpent::zero().to_csv(), ",,,");
}

#[test]
fn bucket_renders_count_approx_exact() {
    let mut t = TimeSpent::zero();
    t.add_game(1234, 180, Rating(1500));
    assert_eq!(t.to_csv(), ",1,180,1234");
}

#[test]
fn time_spents_add_game_picks_the_bucket() {
    let mut ts = TimeSpents::new();
    ts.add_game(300, 480, Rating(2000));
    ts.add_game(10, 15, Rating(1000));
    assert_eq!(ts.rapid.nb_games, 1);
    assert_eq!(ts.rapid.time_spent_exact, 300);
    assert_eq!(ts.ultrabullet.nb_games, 1);
    assert_eq!(ts.bullet.nb_games, 0);
    assert_eq!(ts.blitz.nb_games, 0);
    assert_eq!(ts.classical.nb_games, 0);
    assert_eq!(ts.get_bucket(Bucket::Rapid).time_spent_approximate, 480);
    assert_eq!(ts.to_csv(), ",1,15,10,,,,,,,1,480,300,,,");
}

#[test]
fn large_figures_render_in_full() {
    let mut t = TimeSpent::zero();
    t.add_game(u64::MAX, 1500, Rating(0));
    assert_eq!(t.to_csv(), ",1,1500,18446744073709551615");
}
