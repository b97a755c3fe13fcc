use time_spent::{Game, Players, Rating, Tc};

#[test]
fn game_duration_calculation() {
    let mut g = Game::new();
    g.first_two_clocks.push(60);
    g.first_two_clocks.push(60);
    g.last_two_clocks.push(60);
    g.last_two_clocks.push(60);
    g.tc = Tc::new((60, 2));
    g.plies = 2;
    let (_, d) = g.game_duration();
    assert_eq!(d.unwrap(), 4)
}

#[test]
fn test_sliding_window_clock() {
    let mut game = Game::new();
    game.acc_comment("[%clk 0:00:01]");
    game.acc_comment("[%clk 0:00:02]");
    game.acc_comment("[%clk 0:00:03]");
    assert_eq!(game.first_two_clocks.into_inner().unwrap(), [1, 2]);
    assert_eq!(game.last_two_clocks.into_inner().unwrap(), [2, 3]);
}

#[test]
fn first_readings_stay_after_many_comments() {
    let mut game = Game::new();
    for c in ["[%clk 0:01:00]", "[%clk 0:00:59]", "[%clk 0:00:50]", "[%clk 0:00:40]", "[%clk 0:00:30]"] {
        game.acc_comment(c);
    }
    assert_eq!(game.first_two_clocks.as_slice(), &[60, 59]);
    assert_eq!(game.last_two_clocks.as_slice(), &[40, 30]);
    assert!(!game.unreadable);
}

#[test]
fn one_reading_fills_both_windows() {
    let mut game = Game::new();
    game.acc_comment("[%clk 0:00:07]");
    assert_eq!(game.first_two_clocks.as_slice(), &[7]);
    assert_eq!(game.last_two_clocks.as_slice(), &[7]);
}

#[test]
fn unreadable_comment_marks_game_and_keeps_windows() {
    let mut game = Game::new();
    game.acc_comment("[%clk 0:00:07]");
    game.acc_comment("just text");
    assert!(game.unreadable);
    assert_eq!(game.first_two_clocks.as_slice(), &[7]);
    assert_eq!(game.last_two_clocks.as_slice(), &[7]);
}

#[test]
fn duration_underflow_is_absent() {
    let mut g = Game::new();
    for c in ["[%clk 0:01:00]", "[%clk 0:01:00]", "[%clk 0:01:30]", "[%clk 0:01:30]"] {
        g.acc_comment(c);
    }
    g.tc = Tc::new((60, 0));
    g.plies = 4;
    assert_eq!(g.game_duration().1, None);
}

#[test]
fn duration_exact_zero_when_balanced() {
    let mut g = Game::new();
    for c in ["[%clk 0:01:00]", "[%clk 0:01:00]", "[%clk 0:01:01]", "[%clk 0:01:01]"] {
        g.acc_comment(c);
    }
    g.tc = Tc::new((60, 1));
    g.plies = 2;
    assert_eq!(g.game_duration().1, Some(0));
}

#[test]
fn players_names_and_ratings() {
    let mut p = Players::new();
    p.add_name(b"White", "alice".to_string());
    p.add_name(b"Black", "bob".to_string());
    p.add_rating(b"WhiteElo", "1500".to_string());
    p.add_rating(b"BlackElo", "?".to_string());
    let [w, b] = p.into_iter();
    assert_eq!(w.0, "alice");
    assert_eq!(w.1, Rating(1500));
    assert_eq!(b.0, "bob");
    assert_eq!(b.1, Rating(0));
}

#[test]
fn rating_add_assign() {
    let mut r = Rating(1200);
    r.add_assign(Rating(1300));
    assert_eq!(r, Rating(2500));
}
