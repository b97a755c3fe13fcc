use time_spent::{classify_header, GameOutcome, HeaderKey, PgnVisitor, Rating, Tc};

fn start(v: &mut PgnVisitor, white: &str, black: &str, tc: &str) -> bool {
    v.begin_game();
    v.header(b"White", white);
    v.header(b"Black", black);
    v.header(b"WhiteElo", "1500");
    v.header(b"BlackElo", "1700");
    v.header(b"TimeControl", tc);
    v.end_headers()
}

fn moves(v: &mut PgnVisitor, clocks: &[&str]) {
    for c in clocks {
        v.san();
        v.comment(c);
    }
}

fn find<'a>(v: &'a PgnVisitor, name: &str) -> Option<&'a time_spent::TimeSpents> {
    (0..v.user_count()).map(|i| v.row(i)).find(|(n, _)| n.as_str() == name).map(|(_, t)| t)
}

#[test]
fn two_game_stream_counts_only_the_readable_game() {
    let mut v = PgnVisitor::new();
    assert!(!start(&mut v, "alice", "bob", "60+2"));
    moves(&mut v, &["[%clk 0:01:00]", "[%clk 0:01:00]", "[%clk 0:00:50]", "[%clk 0:00:40]"]);
    assert_eq!(v.end_game(), GameOutcome::Recorded);

    assert!(!start(&mut v, "carol", "dave", "60+2"));
    moves(&mut v, &["[%clk 0:01:00]", "[%clk 0:01:00]", "garbage", "[%clk 0:00:40]"]);
    assert_eq!(v.end_game(), GameOutcome::Unreadable);

    assert_eq!(v.games, 2);
    assert_eq!(v.user_count(), 2);
    // 60 + 60 + 4 * 2 - (50 + 40) = 38; average time 60 + 40 * 2 = 140: bullet.
    for name in ["alice", "bob"] {
        let t = find(&v, name).unwrap();
        assert_eq!(t.bullet.nb_games, 1);
        assert_eq!(t.bullet.time_spent_exact, 38);
        assert_eq!(t.bullet.time_spent_approximate, 140);
        assert_eq!(t.ultrabullet.nb_games + t.blitz.nb_games + t.rapid.nb_games + t.classical.nb_games, 0);
    }
    assert_eq!(find(&v, "alice").unwrap().bullet.total_rating, Rating(1500));
    assert_eq!(find(&v, "bob").unwrap().bullet.total_rating, Rating(1700));
    assert!(find(&v, "carol").is_none());
    assert!(find(&v, "dave").is_none());
}

#[test]
fn inconsistent_game_leaves_totals_but_is_seen() {
    let mut v = PgnVisitor::new();
    start(&mut v, "alice", "bob", "60+0");
    moves(&mut v, &["[%clk 0:01:00]", "[%clk 0:01:00]", "[%clk 0:00:40]", "[%clk 0:00:35]"]);
    assert_eq!(v.end_game(), GameOutcome::Recorded);
    start(&mut v, "alice", "bob", "60+0");
    moves(&mut v, &["[%clk 0:01:00]", "[%clk 0:01:00]", "[%clk 0:01:15]", "[%clk 0:01:15]"]);
    assert_eq!(v.end_game(), GameOutcome::Inconsistent);
    assert_eq!(v.games, 2);
    let t = find(&v, "alice").unwrap();
    assert_eq!(t.bullet.nb_games, 1);
    assert_eq!(t.bullet.time_spent_exact, 45);
}

#[test]
fn game_count_matches_participations() {
    let mut v = PgnVisitor::new();
    for (w, b) in [("alice", "bob"), ("bob", "carol"), ("alice", "carol"), ("alice", "alice")] {
        start(&mut v, w, b, "180+0");
        moves(&mut v, &["[%clk 0:03:00]", "[%clk 0:03:00]", "[%clk 0:02:50]", "[%clk 0:02:40]"]);
        assert_eq!(v.end_game(), GameOutcome::Recorded);
    }
    assert_eq!(find(&v, "alice").unwrap().blitz.nb_games, 4);
    assert_eq!(find(&v, "bob").unwrap().blitz.nb_games, 2);
    assert_eq!(find(&v, "carol").unwrap().blitz.nb_games, 2);
    assert_eq!(v.user_count(), 3);
}

#[test]
fn short_game_is_not_recorded() {
    let mut v = PgnVisitor::new();
    start(&mut v, "alice", "bob", "60+0");
    moves(&mut v, &["[%clk 0:01:00]", "[%clk 0:01:00]", "[%clk 0:00:50]"]);
    assert_eq!(v.end_game(), GameOutcome::TooShort);
    assert_eq!(v.user_count(), 0);
}

#[test]
fn missing_time_control_skips_the_body() {
    let mut v = PgnVisitor::new();
    assert!(start(&mut v, "alice", "bob", "-"));
    assert_eq!(v.end_game(), GameOutcome::NoTimeControl);
    assert!(start(&mut v, "alice", "bob", "abc"));
    assert_eq!(v.game.tc, Tc::none());
    assert_eq!(v.end_game(), GameOutcome::NoTimeControl);
    assert_eq!(v.user_count(), 0);
}

#[test]
fn undecodable_header_makes_game_unreadable() {
    let mut v = PgnVisitor::new();
    start(&mut v, "alice", "bob", "60+0");
    v.header_undecodable();
    moves(&mut v, &["[%clk 0:01:00]", "[%clk 0:01:00]", "[%clk 0:00:50]", "[%clk 0:00:40]"]);
    assert_eq!(v.end_game(), GameOutcome::Unreadable);
}

#[test]
fn huge_time_control_is_too_large() {
    let mut v = PgnVisitor::new();
    start(&mut v, "alice", "bob", "0+18446744073709551615");
    moves(&mut v, &["[%clk 0:01:00]", "[%clk 0:01:00]", "[%clk 0:00:50]", "[%clk 0:00:40]"]);
    assert_eq!(v.end_game(), GameOutcome::TooLarge);
}

#[test]
fn variations_are_skipped_and_progress_ticks() {
    let mut v = PgnVisitor::new();
    assert!(v.begin_variation());
    let mut ticks = 0;
    for _ in 0..20_000 {
        if v.begin_game() {
            ticks += 1;
        }
        v.end_game();
    }
    assert_eq!(ticks, 2);
    assert_eq!(v.games, 20_000);
}

#[test]
fn headers_fill_the_game() {
    let mut v = PgnVisitor::new();
    v.begin_game();
    v.header(b"Site", "https://example.org/abc");
    v.header(b"Event", "ignored");
    v.header(b"TimeControl", "300+5");
    v.header(b"White", "w");
    v.header(b"Black", "b");
    assert_eq!(v.game.link, "https://example.org/abc");
    assert_eq!(v.game.tc, Tc::new((300, 5)));
    assert_eq!(v.game.players.white.username, "w");
    assert_eq!(v.game.players.black.username, "b");
    assert_eq!(classify_header(b"WhiteElo"), HeaderKey::WhiteElo);
    assert_eq!(classify_header(b"BlackElo"), HeaderKey::BlackElo);
    assert_eq!(classify_header(b"white"), HeaderKey::Other);
}

#[test]
fn malformed_time_control_skips_the_game() {
    let mut v = PgnVisitor::new();
    start(&mut v, "alice", "bob", "60+0");
    v.header(b"TimeControl", "abc");
    assert!(v.game.unreadable);
    moves(&mut v, &["[%clk 0:01:00]", "[%clk 0:01:00]", "[%clk 0:00:50]", "[%clk 0:00:40]"]);
    assert_eq!(v.end_game(), GameOutcome::Unreadable);
    assert_eq!(v.user_count(), 0);

    start(&mut v, "alice", "bob", "-");
    assert!(!v.game.unreadable);
    assert_eq!(v.end_game(), GameOutcome::NoTimeControl);
}

#[test]
fn name_headers_keep_ratings() {
    let mut v = PgnVisitor::new();
    v.begin_game();
    v.header(b"WhiteElo", "1500");
    v.header(b"White", "alice");
    v.header(b"BlackElo", "1700");
    v.header(b"Black", "bob");
    assert_eq!(v.game.players.white.rating, Rating(1500));
    assert_eq!(v.game.players.black.rating, Rating(1700));
}
