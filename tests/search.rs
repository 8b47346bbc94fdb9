use std::cmp::Ordering;

use pokedex::pokedex::{search_by_name, validate_records, Entity, LoadError, MatchScore, PokeMatch};

fn toy_dataset() -> Vec<Entity<u16>> {
    vec![
        Entity { name: String::from("Charizard"), data: 6 },
        Entity { name: String::from("Charmander"), data: 4 },
        Entity { name: String::from("Squirtle"), data: 7 },
    ]
}

fn similarity(m: &PokeMatch<u16>) -> f64 {
    f64::from_bits(m.score.similarity_bits)
}

fn score(distance: usize, similarity: f64) -> MatchScore {
    MatchScore { distance, similarity_bits: similarity.to_bits() }
}

#[test]
fn single_match() {
    let results = search_by_name(toy_dataset(), "x", 1);
    assert_eq!(results.len(), 1);
}

#[test]
fn multiple_matches() {
    let results = search_by_name(toy_dataset(), "x", 3);
    assert_eq!(results.len(), 3);
}

#[test]
fn exact_match() {
    let result = &search_by_name(toy_dataset(), "charizard", 1)[0];
    assert_eq!(result.pokemon.name, "Charizard");
    assert_eq!(similarity(result), 1.0);
    assert_eq!(result.score.distance, 0);
}

#[test]
fn close_match() {
    let result = &search_by_name(toy_dataset(), "charzad", 1)[0];
    assert_eq!(result.pokemon.name, "Charizard");
    assert_eq!(similarity(result), 0.9555555555555555);
    assert_eq!(result.score.distance, 2);
}

#[test]
fn loose_match() {
    let result = &search_by_name(toy_dataset(), "char", 1)[0];
    assert_eq!(result.pokemon.name, "Charizard");
    assert_eq!(similarity(result), 0.888888888888889);
    assert_eq!(result.score.distance, 5);
}

#[test]
fn match_compare_equal() {
    let a = score(1, 1.0);
    let b = score(1, 1.0);
    assert_eq!(MatchScore::compare(&a, &b), Ordering::Equal);
}

#[test]
fn match_compare_similarity_is_highest_priority() {
    let a = score(1, 0.75);
    let b = score(2, 0.25);
    assert_eq!(MatchScore::compare(&a, &b), Ordering::Less);
    assert_eq!(MatchScore::compare(&b, &a), Ordering::Greater);
}

#[test]
fn match_compare_distance_is_tie_breaker() {
    let a = score(2, 0.5);
    let b = score(1, 0.5);
    assert_eq!(MatchScore::compare(&b, &a), Ordering::Less);
    assert_eq!(MatchScore::compare(&a, &b), Ordering::Greater);
}

#[test]
fn query_is_compared_in_lower_case() {
    let result = &search_by_name(toy_dataset(), "CHARIZARD", 1)[0];
    assert_eq!(result.pokemon.data, 6);
    assert_eq!(similarity(result), 1.0);
    assert_eq!(result.score.distance, 0);
}

#[test]
fn empty_dataset_gives_empty_result() {
    let results = search_by_name(Vec::<Entity<u16>>::new(), "anything", 5);
    assert!(results.is_empty());
}

#[test]
fn empty_query_scores_name_length() {
    let results = search_by_name(toy_dataset(), "", 3);
    assert_eq!(results.len(), 3);
    for m in &results {
        assert_eq!(m.score.distance, m.pokemon.name.chars().count());
        assert_eq!(similarity(m), 0.0);
    }
    assert_eq!(results[0].pokemon.name, "Squirtle");
    assert_eq!(results[1].pokemon.name, "Charizard");
    assert_eq!(results[2].pokemon.name, "Charmander");
}

#[test]
fn limit_zero_gives_empty_result() {
    let results = search_by_name(toy_dataset(), "charizard", 0);
    assert_eq!(results.len(), 0);
}

#[test]
fn limit_beyond_dataset_gives_all_sorted() {
    let results = search_by_name(toy_dataset(), "char", 10);
    assert_eq!(results.len(), 3);
    let names: Vec<&str> = results.iter().map(|m| m.pokemon.name.as_str()).collect();
    assert_eq!(names, vec!["Charizard", "Charmander", "Squirtle"]);
    for pair in results.windows(2) {
        assert_ne!(MatchScore::compare(&pair[0].score, &pair[1].score), Ordering::Greater);
    }
}

#[test]
fn equal_scores_keep_input_order() {
    let entities = vec![
        Entity { name: String::from("Squirtle"), data: 1 },
        Entity { name: String::from("Charmander"), data: 2 },
        Entity { name: String::from("Squirtle"), data: 3 },
        Entity { name: String::from("Charmander"), data: 4 },
    ];
    let results = search_by_name(entities, "char", 4);
    let order: Vec<u16> = results.iter().map(|m| m.pokemon.data).collect();
    assert_eq!(order, vec![2, 4, 1, 3]);
}

#[test]
fn score_of_identical_strings() {
    let s = MatchScore::new("pikachu", "pikachu");
    assert_eq!(s.distance, 0);
    assert_eq!(f64::from_bits(s.similarity_bits), 1.0);
}

#[test]
fn score_distance_is_symmetric() {
    let a = MatchScore::new("kitten", "sitting");
    let b = MatchScore::new("sitting", "kitten");
    assert_eq!(a.distance, 3);
    assert_eq!(b.distance, 3);
}

#[test]
fn score_of_two_empty_strings() {
    let s = MatchScore::new("", "");
    assert_eq!(s.distance, 0);
    assert_eq!(f64::from_bits(s.similarity_bits), 0.0);
}

#[test]
fn score_of_disjoint_strings() {
    let s = MatchScore::new("abc", "xyz");
    assert_eq!(s.distance, 3);
    assert_eq!(f64::from_bits(s.similarity_bits), 0.0);
}

#[test]
fn validate_accepts_named_records() {
    let checked = validate_records(toy_dataset()).unwrap();
    assert_eq!(checked.len(), 3);
    assert_eq!(checked[2].name, "Squirtle");
}

#[test]
fn validate_rejects_first_empty_name() {
    let entities = vec![
        Entity { name: String::from("Charizard"), data: 6 },
        Entity { name: String::new(), data: 0 },
        Entity { name: String::new(), data: 1 },
    ];
    let err = validate_records(entities).err().unwrap();
    assert_eq!(err, LoadError::EmptyName { row: 1 });
}
