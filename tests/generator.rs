use random_generator::{
    parse_custom_list, parse_numbers_file, validate_config, GeneratorConfig, GeneratorMode,
    RandomGenerator, RandomGeneratorError,
};
use std::collections::HashSet;

fn sorted(v: &[i64]) -> Vec<i64> {
    let mut s = v.to_vec();
    s.sort();
    s
}

#[test]
fn test_basic_generation() {
    let mut random_gen = RandomGenerator::new();
    random_gen.set_num_to_generate(5).unwrap();
    random_gen.generate_numbers().unwrap();
    assert_eq!(random_gen.get_numbers().len(), 5);
}

#[test]
fn test_no_duplicates() {
    let mut random_gen = RandomGenerator::new();
    random_gen.set_num_to_generate(10).unwrap();
    random_gen.set_allow_duplicates(false).unwrap();
    random_gen.generate_numbers().unwrap();

    let numbers = random_gen.get_numbers();
    let mut unique = HashSet::new();
    for &num in numbers {
        assert!(unique.insert(num), "repeated number: {}", num);
    }
}

#[test]
fn test_bounds_validation() {
    let mut random_gen = RandomGenerator::new();
    // 100 does not exceed the default upper bound of 1024, so it is accepted.
    assert!(random_gen.set_lower_bound(100).is_ok());
    assert!(random_gen.set_upper_bound(-100).is_err());
    assert!(random_gen.set_lower_bound(2000).is_err());
}

#[test]
fn test_custom_list_generation() {
    let mut random_gen = RandomGenerator::new();
    // List mode needs a non-empty list, so the list comes first.
    random_gen.set_custom_list_input("1,2,3,4,5".to_string()).unwrap();
    random_gen.set_mode(GeneratorMode::CustomList).unwrap();
    random_gen.set_num_to_generate(3).unwrap();
    random_gen.generate_numbers().unwrap();

    assert_eq!(random_gen.get_numbers().len(), 3);

    let numbers = random_gen.get_numbers();
    for &num in numbers {
        assert!(num >= 1 && num <= 5, "number {} is not in the list", num);
    }
}

#[test]
fn default_single_number() {
    let mut g = RandomGenerator::new();
    assert_eq!(g.get_bounds(), (0, 1024));
    assert_eq!(g.get_settings(), (1, false));
    g.generate_numbers().unwrap();
    let n = g.get_numbers();
    assert_eq!(n.len(), 1);
    assert!(n[0] >= 0 && n[0] <= 1024);
}

#[test]
fn full_permutation() {
    let mut g = RandomGenerator::new();
    g.set_lower_bound(1).unwrap();
    g.set_upper_bound(5).unwrap();
    g.set_num_to_generate(5).unwrap();
    g.generate_numbers().unwrap();
    assert_eq!(sorted(g.get_numbers()), vec![1, 2, 3, 4, 5]);
}

#[test]
fn too_many_rejected() {
    let mut g = RandomGenerator::new();
    g.set_lower_bound(1).unwrap();
    g.set_upper_bound(5).unwrap();
    assert_eq!(g.set_num_to_generate(6), Err(RandomGeneratorError::TooManyNumbers));
    assert_eq!(g.get_settings(), (1, false));
    let mut config = GeneratorConfig::default();
    config.lower_bound = 1;
    config.upper_bound = 5;
    config.num_to_generate = 6;
    assert_eq!(validate_config(&config), Err(RandomGeneratorError::TooManyNumbers));
    assert!(matches!(RandomGenerator::with_config(config), Err(RandomGeneratorError::TooManyNumbers)));
}

#[test]
fn list_without_repeats() {
    let mut g = RandomGenerator::new();
    g.set_custom_list_input("1,2,3,4,5".to_string()).unwrap();
    g.set_mode(GeneratorMode::CustomList).unwrap();
    g.set_num_to_generate(3).unwrap();
    g.generate_numbers().unwrap();
    let n = g.get_numbers().to_vec();
    assert_eq!(n.len(), 3);
    let set: HashSet<i64> = n.iter().copied().collect();
    assert_eq!(set.len(), 3);
    assert!(n.iter().all(|x| (1..=5).contains(x)));
}

#[test]
fn bad_list_token() {
    let mut g = RandomGenerator::new();
    g.set_custom_list_input("7 8".to_string()).unwrap();
    assert_eq!(
        g.set_custom_list_input("1,2,x,4".to_string()),
        Err(RandomGeneratorError::InvalidInputFormat)
    );
    assert_eq!(g.get_config().custom_list, vec![7, 8]);
    assert_eq!(g.get_custom_list_input(), "1,2,x,4");
}

#[test]
fn save_empty_and_load_bad_file() {
    let mut g = RandomGenerator::new();
    assert_eq!(g.save_numbers_text(), None);
    g.load_numbers_text("4\n5\n").unwrap();
    assert_eq!(g.get_numbers(), &[4, 5]);
    assert_eq!(g.load_numbers_text("3\n7\nbad\n"), Err(RandomGeneratorError::InvalidData));
    assert_eq!(g.get_numbers(), &[4, 5]);
}

#[test]
fn round_trip_save_clear_load() {
    let mut g = RandomGenerator::new();
    g.set_lower_bound(-50).unwrap();
    g.set_upper_bound(50).unwrap();
    g.set_num_to_generate(40).unwrap();
    g.generate_numbers().unwrap();
    let before = g.get_numbers().to_vec();
    let text = g.save_numbers_text().unwrap();
    g.clear_numbers();
    assert!(g.get_numbers().is_empty());
    g.load_numbers_text(&text).unwrap();
    assert_eq!(g.get_numbers(), before.as_slice());
}

#[test]
fn clear_empties_any_result() {
    let mut g = RandomGenerator::new();
    g.clear_numbers();
    assert!(g.get_numbers().is_empty());
    g.set_num_to_generate(20).unwrap();
    g.generate_numbers().unwrap();
    g.clear_numbers();
    assert!(g.get_numbers().is_empty());
    assert_eq!(g.get_settings(), (20, false));
}

#[test]
fn lower_bound_above_upper_is_rejected_unchanged() {
    let mut g = RandomGenerator::new();
    assert_eq!(g.set_lower_bound(1025), Err(RandomGeneratorError::InvalidBounds));
    assert_eq!(g.get_bounds(), (0, 1024));
    assert_eq!(g.set_upper_bound(-1), Err(RandomGeneratorError::InvalidBounds));
    assert_eq!(g.set_lower_bound(1024), Ok(()));
    assert_eq!(g.get_bounds(), (1024, 1024));
}

#[test]
fn with_duplicates_fills_count_within_range() {
    let mut g = RandomGenerator::new();
    g.set_lower_bound(3).unwrap();
    g.set_upper_bound(4).unwrap();
    g.set_allow_duplicates(true).unwrap();
    g.set_num_to_generate(100).unwrap();
    g.generate_numbers().unwrap();
    let n = g.get_numbers();
    assert_eq!(n.len(), 100);
    assert!(n.iter().all(|&x| x == 3 || x == 4));
    assert!(n.contains(&3) && n.contains(&4));
}

#[test]
fn draws_are_spread_over_the_range() {
    let mut g = RandomGenerator::new();
    g.set_allow_duplicates(true).unwrap();
    g.set_num_to_generate(60).unwrap();
    g.generate_numbers().unwrap();
    let n = g.get_numbers();
    assert!(n.iter().any(|&x| x != n[0]));
    assert!(n.iter().any(|&x| x != 1024));
}

#[test]
fn list_with_duplicates_draws_members() {
    let mut g = RandomGenerator::new();
    g.set_custom_list_input("10; 20".to_string()).unwrap();
    g.set_mode(GeneratorMode::CustomList).unwrap();
    g.set_allow_duplicates(true).unwrap();
    g.set_num_to_generate(30).unwrap();
    g.generate_numbers().unwrap();
    let n = g.get_numbers();
    assert_eq!(n.len(), 30);
    assert!(n.iter().all(|&x| x == 10 || x == 20));
}

#[test]
fn sparse_request_uses_distinct_values() {
    let mut g = RandomGenerator::new();
    g.set_lower_bound(i64::MIN).unwrap();
    g.set_upper_bound(i64::MAX).unwrap();
    g.set_num_to_generate(200).unwrap();
    g.generate_numbers().unwrap();
    let n = g.get_numbers();
    let set: HashSet<i64> = n.iter().copied().collect();
    assert_eq!(set.len(), 200);
}

#[test]
fn sparse_list_request_uses_distinct_positions() {
    let mut g = RandomGenerator::new();
    let text: Vec<String> = (0..100).map(|i| (i * 3).to_string()).collect();
    g.set_custom_list_input(text.join(",")).unwrap();
    g.set_mode(GeneratorMode::CustomList).unwrap();
    g.set_num_to_generate(10).unwrap();
    g.generate_numbers().unwrap();
    let n = g.get_numbers();
    let set: HashSet<i64> = n.iter().copied().collect();
    assert_eq!(set.len(), 10);
    assert!(n.iter().all(|&x| x % 3 == 0 && (0..300).contains(&x)));
}

#[test]
fn empty_list_in_list_mode() {
    let mut g = RandomGenerator::new();
    assert_eq!(g.set_mode(GeneratorMode::CustomList), Err(RandomGeneratorError::EmptyList));
    assert_eq!(*g.get_mode(), GeneratorMode::Range);
    g.set_custom_list_input("1 2".to_string()).unwrap();
    g.set_mode(GeneratorMode::CustomList).unwrap();
    assert_eq!(g.set_custom_list_input("  ,; ".to_string()), Err(RandomGeneratorError::EmptyList));
    assert_eq!(g.get_config().custom_list, vec![1, 2]);
}

#[test]
fn forbidding_repeats_checks_count() {
    let mut g = RandomGenerator::new();
    g.set_lower_bound(1).unwrap();
    g.set_upper_bound(3).unwrap();
    g.set_allow_duplicates(true).unwrap();
    g.set_num_to_generate(10).unwrap();
    assert_eq!(g.set_allow_duplicates(false), Err(RandomGeneratorError::TooManyNumbers));
    assert!(g.get_allow_duplicates());
}

#[test]
fn list_grammar() {
    assert_eq!(parse_custom_list("1, 2;3\n\t4,,-5 +6"), Some(vec![1, 2, 3, 4, -5, 6]));
    assert_eq!(parse_custom_list("   "), Some(vec![]));
    assert_eq!(parse_custom_list("1\u{3000}2"), Some(vec![1, 2]));
    assert_eq!(parse_custom_list("-9223372036854775808 9223372036854775807"), Some(vec![i64::MIN, i64::MAX]));
    assert_eq!(parse_custom_list("9223372036854775808"), None);
    assert_eq!(parse_custom_list("1-2"), None);
    assert_eq!(parse_custom_list("-"), None);
}

#[test]
fn file_grammar() {
    assert_eq!(parse_numbers_file("  3 \r\n\n-7\n"), Some(vec![3, -7]));
    assert_eq!(parse_numbers_file(""), Some(vec![]));
    assert_eq!(parse_numbers_file("1 2\n"), None);
}

#[test]
fn save_text_is_one_number_per_line() {
    let mut g = RandomGenerator::new();
    g.load_numbers_text("3\n-7\n12\n-9223372036854775808").unwrap();
    assert_eq!(g.save_numbers_text().unwrap(), "3\n-7\n12\n-9223372036854775808");
}

#[test]
fn stats_of_result() {
    let mut g = RandomGenerator::new();
    let s = g.get_stats();
    assert_eq!((s.count, s.min, s.max, s.sum), (0, None, None, 0));
    g.load_numbers_text("4\n-2\n9\n1").unwrap();
    let s = g.get_stats();
    assert_eq!((s.count, s.min, s.max, s.sum), (4, Some(-2), Some(9), 12));
    g.load_numbers_text("9223372036854775807\n9223372036854775807").unwrap();
    assert_eq!(g.get_stats().sum, 2 * (i64::MAX as i128));
}

#[test]
fn numbers_can_be_changed_in_place() {
    let mut g = RandomGenerator::new();
    g.get_numbers_mut().push(42);
    assert_eq!(g.get_numbers(), &[42]);
    assert_eq!(g.get_core_version(), "v2.0");
}

#[test]
fn error_messages_and_labels() {
    assert_eq!(
        RandomGeneratorError::IoError("disk full".to_string()).message(),
        "IO Error: disk full"
    );
    assert_eq!(RandomGeneratorError::EmptyList.message(), "Custom list cannot be empty");
    assert_eq!(GeneratorMode::Range.label(), "Range");
    assert_eq!(GeneratorMode::CustomList.label(), "Custom List");
}

#[test]
fn narrowing_bounds_below_count_is_rejected() {
    let mut g = RandomGenerator::new();
    g.set_num_to_generate(6).unwrap();
    g.set_upper_bound(5).unwrap();
    assert_eq!(g.set_lower_bound(1), Err(RandomGeneratorError::TooManyNumbers));
    assert_eq!(g.set_upper_bound(4), Err(RandomGeneratorError::TooManyNumbers));
    assert_eq!(g.get_bounds(), (0, 5));
    g.set_allow_duplicates(true).unwrap();
    assert_eq!(g.set_lower_bound(3), Ok(()));
    assert_eq!(g.get_bounds(), (3, 5));
}

#[test]
fn bounds_in_list_mode_ignore_the_count() {
    let mut g = RandomGenerator::new();
    g.set_custom_list_input("1 2 3 4 5 6 7".to_string()).unwrap();
    g.set_mode(GeneratorMode::CustomList).unwrap();
    g.set_num_to_generate(6).unwrap();
    assert_eq!(g.set_upper_bound(2), Ok(()));
    assert_eq!(g.get_bounds(), (0, 2));
}

#[test]
fn list_with_repeated_values_gives_distinct_values() {
    let mut g = RandomGenerator::new();
    g.set_custom_list_input("1,1,1,2".to_string()).unwrap();
    g.set_mode(GeneratorMode::CustomList).unwrap();
    assert_eq!(g.set_num_to_generate(3), Err(RandomGeneratorError::TooManyNumbers));
    g.set_num_to_generate(2).unwrap();
    for _ in 0..20 {
        g.generate_numbers().unwrap();
        assert_eq!(sorted(g.get_numbers()), vec![1, 2]);
    }
    g.set_custom_list_input("5,5,5,5,5,5,5,5,5,5,6".to_string()).unwrap();
    g.set_num_to_generate(1).unwrap();
    g.generate_numbers().unwrap();
    assert!(g.get_numbers() == [5] || g.get_numbers() == [6]);
}

#[test]
fn repeated_list_values_count_once_for_the_limit() {
    let mut g = RandomGenerator::new();
    g.set_custom_list_input("4 4 4".to_string()).unwrap();
    g.set_mode(GeneratorMode::CustomList).unwrap();
    assert_eq!(g.set_num_to_generate(2), Err(RandomGeneratorError::TooManyNumbers));
    g.set_allow_duplicates(true).unwrap();
    g.set_num_to_generate(3).unwrap();
    assert_eq!(g.set_allow_duplicates(false), Err(RandomGeneratorError::TooManyNumbers));
    g.generate_numbers().unwrap();
    assert_eq!(g.get_numbers(), &[4, 4, 4]);
}
