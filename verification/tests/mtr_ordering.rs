use bae::mtr::Mtr;

#[test]
fn anything_is_better_than_nothing() {
    let mtr1 = Mtr(vec![1, 2, 3]);
    let mtr2 = Mtr(vec![]);

    assert!(mtr1 < mtr2);
}

#[test]
fn self_is_le_and_ge() {
    let mtr1 = Mtr(vec![1, 2, 3]);
    let mtr2 = Mtr(vec![1, 2, 3]);

    assert!(mtr1 <= mtr2);
    assert!(mtr1 >= mtr2);
}

#[test]
fn last_of_same_length_works() {
    let mtr1 = Mtr(vec![1, 2, 2]);
    let mtr2 = Mtr(vec![1, 2, 3]);

    assert!(mtr1 < mtr2);
}

#[test]
fn mid_of_same_length_works() {
    let mtr1 = Mtr(vec![1, 1, 3]);
    let mtr2 = Mtr(vec![1, 2, 3]);

    assert!(mtr1 < mtr2);
}

#[test]
fn start_of_same_length_works() {
    let mtr1 = Mtr(vec![0, 2, 3]);
    let mtr2 = Mtr(vec![1, 2, 3]);

    assert!(mtr1 < mtr2);
}

#[test]
fn better_but_shorter_works() {
    let mtr1 = Mtr(vec![1, 2, 3]);
    let mtr2 = Mtr(vec![1, 2, 4, 5]);

    assert!(mtr1 < mtr2);
}

#[test]
fn better_but_longer_works() {
    let mtr1 = Mtr(vec![1, 2, 3, 5]);
    let mtr2 = Mtr(vec![1, 2, 4]);

    assert!(mtr1 < mtr2);
}

#[test]
fn same_but_longer_is_equal() {
    let mtr1 = Mtr(vec![1, 2, 3]);
    let mtr2 = Mtr(vec![1, 2, 3, 5]);

    assert!(mtr1 == mtr2);
}

#[test]
fn with_appends_a_method_order() {
    let mtr = Mtr::none().with(2).with(7);
    assert_eq!(mtr.0, vec![2, 7]);
}

#[test]
fn none_is_empty() {
    let mtr = Mtr::none();
    assert!(mtr.0.is_empty());
}

#[test]
fn text_rendering_joins_entries_with_dots() {
    assert_eq!(Mtr(vec![1, 2, 3]).to_text(), "1.2.3");
    assert_eq!(Mtr(vec![10, 0, 65535]).to_text(), "10.0.65535");
    assert_eq!(Mtr(vec![7]).to_text(), "7");
    assert_eq!(Mtr::none().to_text(), "");
}

#[test]
fn two_empty_records_are_equal() {
    let mtr1 = Mtr(vec![]);
    let mtr2 = Mtr(vec![]);

    assert!(mtr1 == mtr2);
    assert!(mtr1 <= mtr2);
    assert!(mtr1 >= mtr2);
    assert!(!(mtr1 < mtr2));
    assert!(!(mtr1 > mtr2));
}

#[test]
fn empty_record_is_not_equal_to_a_non_empty_one() {
    let mtr1 = Mtr(vec![]);
    let mtr2 = Mtr(vec![1, 2, 3]);

    assert!(mtr1 != mtr2);
    assert!(mtr2 != mtr1);
    assert!(mtr1 > mtr2);
}
