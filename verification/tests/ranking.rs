//! Scoring, ranking, candidate merging and the end-to-end pipeline on
//! concrete values.

use game_rec::cb_filtering::{calc_profile_mat, create_feature_mat, Profile, RatedGame};
use game_rec::game_rec::{collect_similar_games, merge_candidates, pair_ratings, rank_games,
    recommend, score_candidates, score_rows};
use game_rec::igdb::Game;
use game_rec::vocab::Vocabulary;
use game_rec::RecError;

fn g(id: u64, genres: Vec<u64>) -> Game {
    Game {
        id,
        name: String::new(),
        genres,
        themes: vec![],
        player_perspectives: vec![],
        first_release_date: 0,
        similar_games: vec![],
    }
}

fn named(id: u64, name: &str) -> Game {
    Game {
        id,
        name: name.to_string(),
        genres: vec![],
        themes: vec![],
        player_perspectives: vec![],
        first_release_date: 0,
        similar_games: vec![],
    }
}

fn vocab2() -> Vocabulary {
    Vocabulary { genres: vec![100, 200], themes: vec![], perspectives: vec![] }
}

fn rated2() -> Vec<RatedGame> {
    vec![
        RatedGame { game: g(1, vec![100]), rating: 2 },
        RatedGame { game: g(2, vec![200]), rating: 1 },
    ]
}

#[test]
fn two_genre_scenario_scores_and_order() {
    // Vocabulary {100 -> col 0, 200 -> col 1}; ratings 2 and 1 give the
    // profile [2/3, 1/3]; candidate scores are 2/3, 1/3 and 1, ranked
    // as the both-genre game, then the first-genre game, then the other.
    let vocab = vocab2();
    let candidates = vec![g(10, vec![100]), g(11, vec![200]), g(12, vec![100, 200])];
    let out = recommend(&vocab, &rated2(), candidates).unwrap();
    assert_eq!(out.len(), 3);

    assert_eq!(out[0].game.id, 12);
    assert_eq!(out[0].score_num, 3);
    assert_eq!(out[0].score_den, 3);
    assert_eq!(out[0].index, 2);

    assert_eq!(out[1].game.id, 10);
    assert_eq!(out[1].score_num, 2);
    assert_eq!(out[1].score_den, 3);
    assert_eq!(out[1].index, 0);

    assert_eq!(out[2].game.id, 11);
    assert_eq!(out[2].score_num, 1);
    assert_eq!(out[2].score_den, 3);
    assert_eq!(out[2].index, 1);
}

#[test]
fn an_extra_recognized_feature_never_lowers_the_score() {
    let vocab = vocab2();
    let candidates = vec![g(10, vec![200]), g(11, vec![100, 200])];
    let out = recommend(&vocab, &rated2(), candidates).unwrap();
    // Profile is non-negative, so the candidate with the extra genre wins.
    assert_eq!(out[0].game.id, 11);
    assert_eq!(out[1].game.id, 10);
    assert!(out[0].score_num >= out[1].score_num);
}

#[test]
fn equal_scores_keep_input_order() {
    let vocab = vocab2();
    let candidates = vec![g(10, vec![100]), g(11, vec![100]), g(12, vec![100])];
    let out = recommend(&vocab, &rated2(), candidates).unwrap();
    assert_eq!(out.len(), 3);
    assert_eq!(out[0].index, 0);
    assert_eq!(out[1].index, 1);
    assert_eq!(out[2].index, 2);
    assert!(out[0].score_num == out[1].score_num && out[1].score_num == out[2].score_num);
}

#[test]
fn ranking_is_descending_under_a_negative_total() {
    let vocab = vocab2();
    let rated = vec![RatedGame { game: g(1, vec![100]), rating: -1 }];
    // Profile: weights [-1, 0], total -1; the scores are -1/-1 = 1 for a
    // game carrying the feature and 0/-1 = 0 for one without it.
    let candidates = vec![g(10, vec![]), g(11, vec![100])];
    let out = recommend(&vocab, &rated, candidates).unwrap();
    assert_eq!(out[0].game.id, 11);
    assert_eq!(out[0].score_num, -1);
    assert_eq!(out[0].score_den, -1);
    assert_eq!(out[1].game.id, 10);
    assert_eq!(out[1].score_num, 0);
}

#[test]
fn recommend_with_no_candidates_is_an_empty_ranking() {
    let vocab = vocab2();
    let out = recommend(&vocab, &rated2(), vec![]).unwrap();
    assert!(out.is_empty());
}

#[test]
fn recommend_without_signal_is_underdetermined() {
    let vocab = vocab2();
    let r = recommend(&vocab, &vec![], vec![g(10, vec![100])]);
    assert_eq!(r, Err(RecError::UnderdeterminedProfile));
}

#[test]
fn rank_games_sorts_by_score_then_input_order() {
    let games = vec![g(1, vec![]), g(2, vec![]), g(3, vec![])];
    let out = rank_games(games, vec![1, 3, 3], 3);
    assert_eq!(out[0].game.id, 2);
    assert_eq!(out[1].game.id, 3);
    assert_eq!(out[2].game.id, 1);
}

#[test]
fn score_rows_rejects_mismatched_dimensions() {
    let vocab = vocab2();
    let mat = create_feature_mat(&vocab, &vec![g(1, vec![100])]);
    let profile = Profile { weights: vec![1, 1, 1], total: 3 };
    assert_eq!(score_rows(&mat, &profile), Err(RecError::DimensionMismatch));
}

#[test]
fn score_rows_multiplies_rows_with_the_profile() {
    let vocab = vocab2();
    let mat = create_feature_mat(&vocab, &vec![g(1, vec![100]), g(2, vec![100, 200])]);
    let profile = calc_profile_mat(&vocab, &rated2()).unwrap();
    let nums = score_rows(&mat, &profile).unwrap();
    assert_eq!(nums, vec![2, 3]);
}

#[test]
fn score_candidates_ranks_against_a_given_profile() {
    let vocab = vocab2();
    let profile = Profile { weights: vec![2, 1], total: 3 };
    let candidates = vec![g(10, vec![200]), g(11, vec![100, 200])];
    let out = score_candidates(&vocab, &profile, candidates).unwrap();
    assert_eq!(out[0].game.id, 11);
    assert_eq!(out[0].score_num, 3);
    assert_eq!(out[1].game.id, 10);
    assert_eq!(out[1].score_num, 1);
}

#[test]
fn score_candidates_rejects_a_profile_of_the_wrong_dimension() {
    let vocab = vocab2();
    let profile = Profile { weights: vec![3], total: 3 };
    let r = score_candidates(&vocab, &profile, vec![g(10, vec![100])]);
    assert_eq!(r, Err(RecError::DimensionMismatch));
}

#[test]
fn merging_a_known_id_keeps_one_entry_and_the_first_occurrence() {
    let main = vec![named(1, "one"), named(2, "two")];
    let similar = vec![named(2, "again"), named(3, "three")];
    let merged = merge_candidates(main, similar);
    assert_eq!(merged.len(), 3);
    assert_eq!(merged[0].id, 1);
    assert_eq!(merged[1].id, 2);
    assert_eq!(merged[1].name, "two");
    assert_eq!(merged[2].id, 3);
}

#[test]
fn collect_similar_games_flattens_and_dedups() {
    let mut q1 = named(1, "q1");
    q1.similar_games = vec![named(4, "four"), named(5, "five")];
    let mut q2 = named(2, "q2");
    q2.similar_games = vec![named(5, "five again"), named(6, "six")];
    let pool = collect_similar_games(vec![q1, q2]);
    assert_eq!(pool.len(), 3);
    assert_eq!(pool[0].id, 4);
    assert_eq!(pool[1].id, 5);
    assert_eq!(pool[1].name, "five");
    assert_eq!(pool[2].id, 6);
}

#[test]
fn pair_ratings_takes_the_first_rating_of_a_repeated_id() {
    let games = vec![g(1, vec![])];
    let ratings = vec![(1u64, 4i64), (1u64, 8i64)];
    let rated = pair_ratings(games, &ratings);
    assert_eq!(rated[0].rating, 4);
}

#[test]
fn pair_ratings_matches_each_game_to_its_rating() {
    let games = vec![g(1, vec![]), g(2, vec![])];
    let ratings = vec![(2u64, 7i64), (1u64, 9i64)];
    let rated = pair_ratings(games, &ratings);
    assert_eq!(rated.len(), 2);
    assert_eq!(rated[0].game.id, 1);
    assert_eq!(rated[0].rating, 9);
    assert_eq!(rated[1].game.id, 2);
    assert_eq!(rated[1].rating, 7);
}
