use pokedex::join::{filter, filter_and_map, not_empty, optional_empty};
use pokedex::pokedex::{EggCycleStats, PokemonStatus};
use pokedex::print::Printer;
use pokedex::sprite;
use pokedex::sprite::{slug_base, sprite_url};

#[test]
fn sprite_name_slug() {
    assert_eq!(sprite::sprite_name_slug("Magneton"), "magneton");
}

#[test]
fn sprite_name_slug_dot() {
    assert_eq!(sprite::sprite_name_slug("Mr. Mime"), "mr-mime");
}

#[test]
fn sprite_name_slug_colon() {
    assert_eq!(sprite::sprite_name_slug("Type: Null"), "type-null");
}

#[test]
fn sprite_name_slug_apos() {
    assert_eq!(sprite::sprite_name_slug("Farfetch'd"), "farfetchd");
}

#[test]
fn sprite_name_slug_accent() {
    assert_eq!(sprite::sprite_name_slug("Flab\u{e9}b\u{e9}"), "flabebe");
}

#[test]
fn sprite_name_slug_female() {
    assert_eq!(sprite::sprite_name_slug("Nidoran\u{2640}"), "nidoran-f");
}

#[test]
fn sprite_name_slug_male() {
    assert_eq!(sprite::sprite_name_slug("Nidoran\u{2642}"), "nidoran-m");
}

#[test]
fn sprite_name_slug_mega() {
    assert_eq!(sprite::sprite_name_slug("Mega Steelix"), "steelix-mega");
}

#[test]
fn sprite_name_slug_mega_x() {
    assert_eq!(sprite::sprite_name_slug("Mega Charizard X"), "charizard-mega-x");
}

#[test]
fn sprite_name_slug_mega_y() {
    assert_eq!(sprite::sprite_name_slug("Mega Mewtwo Y"), "mewtwo-mega-y");
}

#[test]
fn slug_base_keeps_case_and_maps_characters() {
    assert_eq!(slug_base("mega mr. mime"), "mega-mr-mime");
    assert_eq!(slug_base("Abc"), "Abc");
}

#[test]
fn sprite_url_wraps_slug() {
    assert_eq!(
        sprite_url("Mr. Mime"),
        "https://raw.githubusercontent.com/itsjavi/pokemon-assets/master/assets/img/pokemon/mr-mime.png"
    );
}

#[test]
fn egg_cycle_stats() {
    let stats = EggCycleStats::new(17);
    assert_eq!(stats.cycles, 17);
    assert_eq!(stats.max_steps, 4369);
    assert_eq!(stats.min_steps, 4113);
}

#[test]
fn egg_cycle_stats_single_cycle() {
    let stats = EggCycleStats::new(1);
    assert_eq!(stats.max_steps, 257);
    assert_eq!(stats.min_steps, 1);
}

#[test]
fn status_display_names() {
    assert_eq!(PokemonStatus::Normal.display_name(), "Normal");
    assert_eq!(PokemonStatus::Legendary.display_name(), "Legendary");
    assert_eq!(PokemonStatus::SubLegendary.display_name(), "Legendary");
    assert_eq!(PokemonStatus::Mythical.display_name(), "Mythical");
}

#[test]
fn not_empty_checks_text() {
    assert!(not_empty(String::from("Fire")));
    assert!(!not_empty(String::new()));
}

#[test]
fn optional_empty_maps_empty_to_none() {
    assert_eq!(optional_empty(""), None);
    assert_eq!(optional_empty("Slow"), Some("Slow"));
}

#[test]
fn filter_and_map_joins_kept_values() {
    let joined = filter_and_map(vec!["Fire", "", "Flying"], " | ", not_empty, |s| s.to_uppercase());
    assert_eq!(joined, "FIRE | FLYING");
}

#[test]
fn filter_and_map_with_nothing_kept() {
    let joined = filter_and_map(vec!["", ""], " | ", not_empty, |s| s);
    assert_eq!(joined, "");
}

#[test]
fn filter_joins_kept_values() {
    assert_eq!(filter(vec!["Monster", "Dragon"], ", ", not_empty), "Monster, Dragon");
    assert_eq!(filter(vec!["", "Dragon"], ", ", not_empty), "Dragon");
}

#[test]
fn center_pads_both_sides() {
    let printer = Printer { width: 6 };
    assert_eq!(printer.center("ab"), "  ab  ");
    let printer = Printer { width: 5 };
    assert_eq!(printer.center("ab"), " ab  ");
}

#[test]
fn center_leaves_wide_text() {
    let printer = Printer { width: 3 };
    assert_eq!(printer.center("abcdef"), "abcdef");
}
