use pessoas::validate::Name;
use pessoas::validate::Nick;
use pessoas::validate::Tech;

#[test]
fn name_within_bound_is_kept_unchanged() {
    let n = Name::try_from(String::from("Ada Lovelace")).unwrap();
    assert_eq!(n.into_string(), "Ada Lovelace");
    let exactly_100 = "a".repeat(100);
    let n = Name::try_from(exactly_100.clone()).unwrap();
    assert_eq!(n.into_string(), exactly_100);
}

#[test]
fn name_over_bound_is_rejected() {
    let too_long = "a".repeat(101);
    let e = Name::try_from(too_long).unwrap_err();
    assert_eq!(e, "name is too big");
}

#[test]
fn nick_within_bound_is_kept_unchanged() {
    let n = Nick::try_from(String::from("Ada")).unwrap();
    assert_eq!(n.into_string(), "Ada");
    let exactly_100 = "b".repeat(100);
    let n = Nick::try_from(exactly_100.clone()).unwrap();
    assert_eq!(n.into_string(), exactly_100);
}

#[test]
fn nick_over_bound_is_rejected() {
    let too_long = "b".repeat(101);
    let e = Nick::try_from(too_long).unwrap_err();
    assert_eq!(e, "nick is too big");
}

#[test]
fn tech_within_bound_is_kept_unchanged() {
    let t = Tech::try_from(String::from("Math")).unwrap();
    assert_eq!(t.into_string(), "Math");
    let exactly_32 = "c".repeat(32);
    let t = Tech::try_from(exactly_32.clone()).unwrap();
    assert_eq!(t.to_text(), exactly_32);
    assert_eq!(t.into_string(), exactly_32);
}

#[test]
fn tech_over_bound_is_rejected() {
    let too_long = "c".repeat(33);
    let e = Tech::try_from(too_long).unwrap_err();
    assert_eq!(e, "tech is too big");
}

#[test]
fn length_is_counted_in_characters() {
    // 100 multi-byte characters are within the bound even though they
    // take more than 100 bytes.
    let hundred_cedillas = "ç".repeat(100);
    let n = Name::try_from(hundred_cedillas.clone()).unwrap();
    assert_eq!(n.into_string(), hundred_cedillas);
    let e = Name::try_from("ç".repeat(101)).unwrap_err();
    assert_eq!(e, "name is too big");
}
