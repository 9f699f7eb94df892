use praxeum_core::interaction::parse_indices;

#[test]
fn parses_indices_between_separators() {
    assert_eq!(parse_indices("0, 2;3"), vec![0, 2, 3]);
    assert_eq!(parse_indices(""), Vec::<usize>::new());
    assert_eq!(parse_indices("1,,x, -2;+4\t"), vec![1, 4]);
    assert_eq!(parse_indices("007"), vec![7]);
    assert_eq!(parse_indices("99999999999999999999999 5"), vec![5]);
    assert_eq!(parse_indices("+"), Vec::<usize>::new());
}

#[test]
fn line_is_sixty_four_dashes() {
    let l = praxeum_core::interaction::line();
    assert_eq!(l.chars().count(), 64);
    assert!(l.chars().all(|c| c == '─'));
}
