use slippi_stats::app_state::IdType;
use slippi_stats::app_state::Page;
use slippi_stats::app_state::TemplateApp;
use slippi_stats::catalog::Character;
use slippi_stats::catalog::Stage;
use slippi_stats::identity::Id;
use slippi_stats::identity::identity_matches;
use slippi_stats::replay::EndPlayer;
use slippi_stats::replay::Match;
use slippi_stats::replay::NetIdentity;
use slippi_stats::replay::Outcome;
use slippi_stats::replay::Participant;
use slippi_stats::replay::get_player_from_port;
use slippi_stats::replay::get_winner;
use slippi_stats::scan::corpus_from_results;
use slippi_stats::scan::is_replay_name;
use slippi_stats::wins::Sort;
use slippi_stats::wins::get_total_wins;
use slippi_stats::wins::get_total_wins_per_character;
use slippi_stats::wins::wins_by_character;

fn player(character: u8, code: &str, name: &str) -> Participant {
    Participant {
        character,
        netplay: Some(NetIdentity { code: code.to_string(), name: name.to_string() }),
    }
}

fn anonymous(character: u8) -> Participant {
    Participant { character, netplay: None }
}

fn won_by_first(p0: Participant, p1: Participant) -> Match {
    Match {
        players: vec![p0, p1],
        end: Some(Outcome {
            players: Some(vec![
                EndPlayer { port: 0, placement: 0 },
                EndPlayer { port: 1, placement: 1 },
            ]),
        }),
    }
}

#[test]
fn unknown_ids_map_to_unknown() {
    assert_eq!(Character::from_id(33), Character::Unknown);
    assert_eq!(Character::from_id(255), Character::Unknown);
    assert_eq!(Character::from_id(2), Character::Fox);
    assert_eq!(Character::from_id(32), Character::Popo);
    assert_eq!(Stage::from_id(21), Stage::NotStage);
    assert_eq!(Stage::from_id(9999), Stage::NotStage);
    assert_eq!(Stage::from_id(32), Stage::FinalDestination);
}

#[test]
fn character_names() {
    assert_eq!(Character::Fox.name(), "Fox");
    assert_eq!(Character::MrGameAndWatch.name(), "Mr. Game and Watch");
    assert_eq!(Character::Unknown.name(), "UNKNOWN");
}

#[test]
fn ports_outside_range_resolve_to_nobody() {
    let m = won_by_first(player(2, "AAA#111", "ace"), player(9, "BBB#222", "bee"));
    assert!(get_player_from_port(&m, 4).is_none());
    assert!(get_player_from_port(&m, 99).is_none());
    assert!(get_player_from_port(&m, 0).is_some());
    // a valid port with no participant behind it is also nobody
    assert!(get_player_from_port(&m, 3).is_none());
}

#[test]
fn match_without_outcome_has_no_winner() {
    let m = Match {
        players: vec![player(2, "AAA#111", "ace")],
        end: None,
    };
    assert!(get_winner(&m).is_none());
}

#[test]
fn outcome_without_records_has_no_winner() {
    let m = Match {
        players: vec![player(2, "AAA#111", "ace")],
        end: Some(Outcome { players: None }),
    };
    assert!(get_winner(&m).is_none());
    let m2 = Match {
        players: vec![player(2, "AAA#111", "ace")],
        end: Some(Outcome { players: Some(vec![EndPlayer { port: 0, placement: 1 }]) }),
    };
    assert!(get_winner(&m2).is_none());
}

#[test]
fn winner_resolved_through_port() {
    let m = Match {
        players: vec![player(2, "AAA#111", "ace"), player(9, "BBB#222", "bee")],
        end: Some(Outcome {
            players: Some(vec![
                EndPlayer { port: 0, placement: 1 },
                EndPlayer { port: 1, placement: 0 },
            ]),
        }),
    };
    let w = get_winner(&m).unwrap();
    assert_eq!(w.character, 9);
}

#[test]
fn code_query_matches_case_insensitively() {
    let a = won_by_first(player(2, "ABC#123", "ace"), player(9, "XYZ#000", "bee"));
    let b = won_by_first(player(9, "XYZ#000", "bee"), player(2, "ABC#123", "ace"));
    let c = won_by_first(player(20, "XYZ#000", "bee"), player(2, "ABC#123", "ace"));
    let corpus = vec![a, b, c];
    let q = Id::Code("abc#123".to_string());
    assert_eq!(get_total_wins(&corpus, &q), 1);
}

#[test]
fn code_query_ignores_name_field() {
    let p = player(2, "ABC#123", "ace");
    assert!(!identity_matches(&p, &Id::Code("ace".to_string())));
    assert!(identity_matches(&p, &Id::Nickname("ACE".to_string())));
    assert!(!identity_matches(&p, &Id::Nickname("abc#123".to_string())));
    assert!(!identity_matches(&anonymous(2), &Id::Code("abc#123".to_string())));
}

#[test]
fn fullwidth_identity_matches_ascii_query() {
    // stored code written in full-width forms, as Shift JIS decoding yields
    let p = player(2, "\u{ff21}\u{ff22}\u{ff23}\u{ff03}\u{ff11}\u{ff12}\u{ff13}", "ace");
    assert!(identity_matches(&p, &Id::Code("abc#123".to_string())));
    let q = player(2, "AAA#1", "na\u{3000}me\u{2019}");
    assert!(identity_matches(&q, &Id::Nickname("na me'".to_string())));
}

#[test]
fn ranked_report_count_desc_with_tie_break() {
    // five wins for the query with characters Fox, Fox, Falco, Marth, Fox
    let chars = [2u8, 2, 20, 9, 2];
    let corpus: Vec<Match> = chars
        .iter()
        .map(|&c| won_by_first(player(c, "AAA#111", "ace"), anonymous(5)))
        .collect();
    let q = Id::Code("aaa#111".to_string());
    let report = get_total_wins_per_character(&corpus, &q, Sort::CountDesc);
    // equal counts fall back to alphabetical order by display name
    assert_eq!(report, "Fox: 3\nFalco: 1\nMarth: 1");
    let report_asc = get_total_wins_per_character(&corpus, &q, Sort::CountAsc);
    assert_eq!(report_asc, "Falco: 1\nMarth: 1\nFox: 3");
    let alpha = get_total_wins_per_character(&corpus, &q, Sort::AlphabeticalAsc);
    assert_eq!(alpha, "Falco: 1\nFox: 3\nMarth: 1");
    let alpha_desc = get_total_wins_per_character(&corpus, &q, Sort::AlphabeticalDesc);
    assert_eq!(alpha_desc, "Marth: 1\nFox: 3\nFalco: 1");
}

#[test]
fn report_counts_sum_to_total_for_every_ordering() {
    let chars = [2u8, 2, 20, 9, 33, 33, 7];
    let mut corpus: Vec<Match> = chars
        .iter()
        .map(|&c| won_by_first(player(c, "AAA#111", "ace"), anonymous(5)))
        .collect();
    // matches the query does not win, and a match with no decision
    corpus.push(won_by_first(player(3, "ZZZ#999", "zed"), player(2, "AAA#111", "ace")));
    corpus.push(Match { players: vec![player(2, "AAA#111", "ace")], end: None });
    let q = Id::Code("AAA#111".to_string());
    let total = get_total_wins(&corpus, &q);
    assert_eq!(total, 7);
    for sort in [Sort::AlphabeticalAsc, Sort::AlphabeticalDesc, Sort::CountAsc, Sort::CountDesc] {
        let entries = wins_by_character(&corpus, &q, &sort);
        let sum: usize = entries.iter().map(|e| e.count).sum();
        assert_eq!(sum, total);
    }
}

#[test]
fn unknown_characters_are_reported_as_unknown() {
    let corpus = vec![won_by_first(player(200, "AAA#111", "ace"), anonymous(5))];
    let q = Id::Nickname("ACE".to_string());
    let report = get_total_wins_per_character(&corpus, &q, Sort::CountDesc);
    assert_eq!(report, "UNKNOWN: 1");
}

#[test]
fn report_renders_multi_digit_counts() {
    let mut corpus = Vec::new();
    for _ in 0..12 {
        corpus.push(won_by_first(player(2, "AAA#111", "ace"), anonymous(5)));
    }
    let q = Id::Code("aaa#111".to_string());
    assert_eq!(get_total_wins(&corpus, &q), 12);
    let report = get_total_wins_per_character(&corpus, &q, Sort::CountDesc);
    assert_eq!(report, "Fox: 12");
}

#[test]
fn empty_corpus_yields_zero_and_empty_report() {
    let corpus: Vec<Match> = Vec::new();
    let q = Id::Code("aaa#111".to_string());
    assert_eq!(get_total_wins(&corpus, &q), 0);
    let report = get_total_wins_per_character(&corpus, &q, Sort::AlphabeticalAsc);
    assert_eq!(report, "");
}

#[test]
fn total_is_order_independent() {
    let a = won_by_first(player(2, "AAA#111", "ace"), anonymous(5));
    let b = won_by_first(player(9, "ZZZ#999", "zed"), anonymous(5));
    let c = won_by_first(player(20, "AAA#111", "ace"), anonymous(5));
    let one = vec![a, b, c];
    let a2 = won_by_first(player(2, "AAA#111", "ace"), anonymous(5));
    let b2 = won_by_first(player(9, "ZZZ#999", "zed"), anonymous(5));
    let c2 = won_by_first(player(20, "AAA#111", "ace"), anonymous(5));
    let two = vec![c2, a2, b2];
    let q = Id::Code("aaa#111".to_string());
    assert_eq!(get_total_wins(&one, &q), get_total_wins(&two, &q));
    assert_eq!(get_total_wins(&one, &q), 2);
    assert_eq!(
        get_total_wins_per_character(&one, &q, Sort::CountDesc),
        get_total_wins_per_character(&two, &q, Sort::CountDesc)
    );
}

#[test]
fn corrupt_files_are_dropped_not_fatal() {
    let good = won_by_first(player(2, "AAA#111", "ace"), anonymous(5));
    let results = vec![None, Some(good)];
    let corpus = corpus_from_results(results);
    assert_eq!(corpus.len(), 1);
    assert_eq!(get_total_wins(&corpus, &Id::Code("aaa#111".to_string())), 1);
}

#[test]
fn scanning_twice_yields_equal_results() {
    let build = || {
        vec![
            Some(won_by_first(player(2, "AAA#111", "ace"), anonymous(5))),
            None,
            Some(won_by_first(player(9, "AAA#111", "ace"), anonymous(5))),
        ]
    };
    let one = corpus_from_results(build());
    let two = corpus_from_results(build());
    let q = Id::Code("aaa#111".to_string());
    assert_eq!(one.len(), two.len());
    assert_eq!(get_total_wins(&one, &q), get_total_wins(&two, &q));
    assert_eq!(
        get_total_wins_per_character(&one, &q, Sort::AlphabeticalAsc),
        get_total_wins_per_character(&two, &q, Sort::AlphabeticalAsc)
    );
}

#[test]
fn replay_extension_filter() {
    assert!(is_replay_name("game.slp"));
    assert!(is_replay_name("a.b.slp"));
    assert!(!is_replay_name(".slp"));
    assert!(!is_replay_name("slp"));
    assert!(!is_replay_name("game.SLP"));
    assert!(!is_replay_name("game.slp.bak"));
}

#[test]
fn fresh_session_state() {
    let app = TemplateApp::default();
    assert!(app.page == Page::Home);
    assert!(app.id_type == IdType::Nickname);
    assert!(app.identity_input.is_empty());
    assert!(app.games.is_empty());
    assert!(app.slippi_path.is_none());
    assert!(!app.show_win_popup);
    assert!(app.total_wins.is_none());
}
