use factgen::depends::{deb_str_to_comparator, parse_depends, Comparator, Dependency};
use factgen::error::{ErrorKind, IngestError};

fn names(d: &Dependency) -> Vec<&str> {
    d.alternatives.iter().map(|s| s.as_str()).collect()
}

fn constraint(d: &Dependency, i: usize) -> Option<(Comparator, &str)> {
    d.constraints[i]
        .as_ref()
        .map(|c| (c.comparator, c.version.as_str()))
}

#[test]
fn parses_and_of_ors_with_constraints() {
    let deps =
        parse_depends("libc6 (>= 2.29), libqt5gui5 (>= 5.5) | libqt5gui5-gles (>= 5.5)").unwrap();
    assert_eq!(deps.len(), 2);
    assert_eq!(names(&deps[0]), vec!["libc6"]);
    assert_eq!(constraint(&deps[0], 0), Some((Comparator::LaterOrEqual, "2.29")));
    assert_eq!(names(&deps[1]), vec!["libqt5gui5", "libqt5gui5-gles"]);
    assert_eq!(constraint(&deps[1], 0), Some((Comparator::LaterOrEqual, "5.5")));
    assert_eq!(constraint(&deps[1], 1), Some((Comparator::LaterOrEqual, "5.5")));
}

#[test]
fn parses_unconstrained_groups() {
    let deps = parse_depends("foo, bar").unwrap();
    assert_eq!(deps.len(), 2);
    assert_eq!(names(&deps[0]), vec!["foo"]);
    assert_eq!(names(&deps[1]), vec!["bar"]);
    assert_eq!(constraint(&deps[0], 0), None);
    assert_eq!(constraint(&deps[1], 0), None);
}

#[test]
fn constraint_without_space_is_invalid() {
    match parse_depends("foo (>=2.29)") {
        Err(IngestError::InvalidConstraint(t)) => assert_eq!(t, ">=2.29"),
        other => panic!("unexpected {:?}", other),
    }
}

#[test]
fn unknown_comparator_is_reported() {
    match parse_depends("foo (~> 2.29)") {
        Err(IngestError::UnknownComparator(t)) => assert_eq!(t, "~>"),
        other => panic!("unexpected {:?}", other),
    }
}

#[test]
fn first_error_in_reading_order_wins() {
    let e = parse_depends("a (>= 1), b (~~ 2) | c (>=3), d (<3)").unwrap_err();
    assert_eq!(e.kind(), ErrorKind::UnknownComparator);
    assert_eq!(e.detail(), "~~");
}

#[test]
fn every_comparator_is_read() {
    let deps = parse_depends("a (<< 1), b (<= 2), c (= 3), d (>= 4), e (>> 5)").unwrap();
    let got: Vec<_> = deps.iter().map(|d| constraint(d, 0).unwrap()).collect();
    assert_eq!(
        got,
        vec![
            (Comparator::StrictlyEarlier, "1"),
            (Comparator::EarlierOrEqual, "2"),
            (Comparator::ExactlyEqual, "3"),
            (Comparator::LaterOrEqual, "4"),
            (Comparator::StrictlyLater, "5"),
        ]
    );
}

#[test]
fn comparator_tokens() {
    assert_eq!(deb_str_to_comparator("<<"), Some(Comparator::StrictlyEarlier));
    assert_eq!(deb_str_to_comparator(">>"), Some(Comparator::StrictlyLater));
    assert_eq!(deb_str_to_comparator("=="), None);
    assert_eq!(deb_str_to_comparator(""), None);
    assert_eq!(deb_str_to_comparator("<"), None);
}

#[test]
fn groups_keep_lists_aligned() {
    let deps = parse_depends("a | b (>= 1) | c, d (<< 2:1.0-1) | e").unwrap();
    for d in &deps {
        assert_eq!(d.alternatives.len(), d.constraints.len());
    }
    assert_eq!(names(&deps[0]), vec!["a", "b", "c"]);
    assert_eq!(constraint(&deps[0], 0), None);
    assert_eq!(constraint(&deps[0], 1), Some((Comparator::LaterOrEqual, "1")));
    assert_eq!(constraint(&deps[1], 0), Some((Comparator::StrictlyEarlier, "2:1.0-1")));
}

#[test]
fn surrounding_space_is_trimmed() {
    let deps = parse_depends("  foo  (  >=   1.0  )  ,\tbar ").unwrap();
    assert_eq!(names(&deps[0]), vec!["foo"]);
    assert_eq!(constraint(&deps[0], 0), Some((Comparator::LaterOrEqual, "1.0")));
    assert_eq!(names(&deps[1]), vec!["bar"]);
}

#[test]
fn empty_field_is_one_empty_alternative() {
    let deps = parse_depends("").unwrap();
    assert_eq!(deps.len(), 1);
    assert_eq!(names(&deps[0]), vec![""]);
    assert_eq!(constraint(&deps[0], 0), None);
}

#[test]
fn empty_constraint_is_invalid() {
    let e = parse_depends("foo ()").unwrap_err();
    assert_eq!(e.kind(), ErrorKind::InvalidConstraint);
    assert_eq!(e.detail(), "");
}
