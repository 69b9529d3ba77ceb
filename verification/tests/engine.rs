//! Encoder, vocabulary, profile-builder and helper behaviour on concrete
//! values.

use game_rec::cb_filtering::{calc_profile_mat, create_feature_mat, create_feature_set, RatedGame};
use game_rec::igdb::{auth_is_valid, Game};
use game_rec::util::{comma_sep, u64_to_string};
use game_rec::vocab::{Family, Vocabulary};
use game_rec::RecError;

fn g(id: u64, genres: Vec<u64>, themes: Vec<u64>, perspectives: Vec<u64>) -> Game {
    Game {
        id,
        name: String::new(),
        genres,
        themes,
        player_perspectives: perspectives,
        first_release_date: 0,
        similar_games: vec![],
    }
}

fn vocab2() -> Vocabulary {
    Vocabulary { genres: vec![100, 200], themes: vec![], perspectives: vec![] }
}

fn row_sum(row: &Vec<bool>) -> usize {
    row.iter().filter(|b| **b).count()
}

#[test]
fn encode_zero_items_gives_zero_rows() {
    let vocab = Vocabulary::igdb();
    let mat = create_feature_mat(&vocab, &vec![]);
    assert_eq!(mat.rows.len(), 0);
    assert_eq!(mat.cols, 52);
}

#[test]
fn encode_single_item_column_sum_counts_recognized_ids() {
    let vocab = Vocabulary::igdb();
    // genre 5 and theme 1 are in the vocabulary; 9999 is not.
    let games = vec![g(1, vec![5, 9999], vec![1], vec![7])];
    let mat = create_feature_mat(&vocab, &games);
    assert_eq!(mat.rows.len(), 1);
    assert_eq!(mat.rows[0].len(), 52);
    assert_eq!(row_sum(&mat.rows[0]), 3);
}

#[test]
fn encode_unknown_ids_are_ignored_without_error() {
    let vocab = Vocabulary::igdb();
    let games = vec![g(1, vec![9999], vec![12345], vec![888])];
    let mat = create_feature_mat(&vocab, &games);
    assert_eq!(row_sum(&mat.rows[0]), 0);
}

#[test]
fn encode_is_deterministic() {
    let vocab = Vocabulary::igdb();
    let games = vec![g(1, vec![5, 12], vec![1, 17], vec![2])];
    let a = create_feature_mat(&vocab, &games);
    let b = create_feature_mat(&vocab, &games);
    assert_eq!(a.rows, b.rows);
}

#[test]
fn vocabulary_columns_are_family_offset_plus_position() {
    let vocab = Vocabulary::igdb();
    assert_eq!(vocab.len(), 52);
    assert_eq!(vocab.column_of(Family::Genre, 2), Some(0));
    assert_eq!(vocab.column_of(Family::Genre, 4), Some(1));
    assert_eq!(vocab.column_of(Family::Genre, 36), Some(22));
    assert_eq!(vocab.column_of(Family::Theme, 1), Some(23));
    assert_eq!(vocab.column_of(Family::Theme, 44), Some(44));
    assert_eq!(vocab.column_of(Family::Perspective, 1), Some(45));
    assert_eq!(vocab.column_of(Family::Perspective, 7), Some(51));
    assert_eq!(vocab.column_of(Family::Genre, 3), None);
    assert_eq!(vocab.column_of(Family::Perspective, 8), None);
}

#[test]
fn profile_of_empty_rated_list_is_underdetermined() {
    let vocab = Vocabulary::igdb();
    let r = calc_profile_mat(&vocab, &vec![]);
    assert_eq!(r, Err(RecError::UnderdeterminedProfile));
}

#[test]
fn profile_of_all_zero_ratings_is_underdetermined() {
    let vocab = vocab2();
    let rated = vec![
        RatedGame { game: g(1, vec![100], vec![], vec![]), rating: 0 },
        RatedGame { game: g(2, vec![200], vec![], vec![]), rating: 0 },
    ];
    let r = calc_profile_mat(&vocab, &rated);
    assert_eq!(r, Err(RecError::UnderdeterminedProfile));
}

#[test]
fn profile_without_recognized_features_is_underdetermined() {
    let vocab = vocab2();
    let rated = vec![RatedGame { game: g(1, vec![999], vec![], vec![]), rating: 5 }];
    let r = calc_profile_mat(&vocab, &rated);
    assert_eq!(r, Err(RecError::UnderdeterminedProfile));
}

#[test]
fn profile_weights_sum_to_total() {
    let vocab = vocab2();
    let rated = vec![
        RatedGame { game: g(1, vec![100], vec![], vec![]), rating: 2 },
        RatedGame { game: g(2, vec![200], vec![], vec![]), rating: 1 },
    ];
    let p = calc_profile_mat(&vocab, &rated).unwrap();
    assert_eq!(p.weights, vec![2, 1]);
    assert_eq!(p.total, 3);
    let sum: i128 = p.weights.iter().sum();
    assert_eq!(sum, p.total);
}

#[test]
fn profile_divides_by_the_signed_sum() {
    let vocab = vocab2();
    let rated = vec![
        RatedGame { game: g(1, vec![100], vec![], vec![]), rating: -2 },
        RatedGame { game: g(2, vec![200], vec![], vec![]), rating: 1 },
    ];
    let p = calc_profile_mat(&vocab, &rated).unwrap();
    assert_eq!(p.weights, vec![-2, 1]);
    assert_eq!(p.total, -1);
    let sum: i128 = p.weights.iter().sum();
    assert_eq!(sum, p.total);
}

#[test]
fn feature_set_unions_and_dedups_per_family() {
    let games = vec![
        g(1, vec![5, 12], vec![1], vec![2]),
        g(2, vec![12, 8], vec![17, 1], vec![]),
    ];
    let fs = create_feature_set(&games);
    assert_eq!(fs.genres, vec![5, 12, 8]);
    assert_eq!(fs.themes, vec![1, 17]);
    assert_eq!(fs.perspectives, vec![2]);
}

#[test]
fn feature_set_of_no_games_is_empty() {
    let fs = create_feature_set(&vec![]);
    assert_eq!(fs.genres, Vec::<u64>::new());
    assert_eq!(fs.themes, Vec::<u64>::new());
    assert_eq!(fs.perspectives, Vec::<u64>::new());
}

#[test]
fn comma_sep_joins_with_comma_and_space() {
    assert_eq!(comma_sep(&vec![1, 2, 3]), "1, 2, 3");
}

#[test]
fn comma_sep_of_empty_list_is_empty() {
    assert_eq!(comma_sep(&vec![]), "");
}

#[test]
fn comma_sep_of_one_value_has_no_separator() {
    assert_eq!(comma_sep(&vec![7]), "7");
}

#[test]
fn u64_renders_in_decimal() {
    assert_eq!(u64_to_string(0), "0");
    assert_eq!(u64_to_string(10), "10");
    assert_eq!(u64_to_string(1234567890), "1234567890");
    assert_eq!(u64_to_string(u64::MAX), "18446744073709551615");
}

#[test]
fn auth_validity_compares_elapsed_to_expiry() {
    assert!(auth_is_valid(10, 3600));
    assert!(!auth_is_valid(3600, 3600));
    assert!(!auth_is_valid(5000, 3600));
}
