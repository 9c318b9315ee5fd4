use giga_test::placement::{get_user_place, PlaceBucket};

#[test]
fn test_user_place_best() {
    let user_place = get_user_place(300);
    assert_eq!(user_place, 1);
}

#[test]
fn test_user_place_same() {
    let user_place = get_user_place(270);
    assert_eq!(user_place, 4);
}

#[test]
fn test_user_place_different() {
    let user_place = get_user_place(272);
    assert_eq!(user_place, 3);
}

#[test]
fn test_user_place_worst() {
    let user_place = get_user_place(3);
    assert_eq!(user_place, 233);
}

#[test]
fn test_user_place_zero() {
    let user_place = get_user_place(0);
    assert_eq!(user_place, 233);
}

#[test]
fn place_of_the_best_result_is_first() {
    assert_eq!(get_user_place(276), 1);
    assert_eq!(PlaceBucket::from_place(get_user_place(276)), PlaceBucket::Winner);
}
