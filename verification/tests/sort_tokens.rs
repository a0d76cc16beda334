use beatsaber::SortBy;

const ALL_ORDERS: [SortBy; 5] = [
    SortBy::Downloads,
    SortBy::Latest,
    SortBy::Plays,
    SortBy::Hot,
    SortBy::Rating,
];

#[test]
fn path_gives_the_token_of_each_order() {
    assert_eq!(SortBy::Downloads.path(), "downloads");
    assert_eq!(SortBy::Latest.path(), "latest");
    assert_eq!(SortBy::Plays.path(), "plays");
    assert_eq!(SortBy::Hot.path(), "hot");
    assert_eq!(SortBy::Rating.path(), "rating");
}

#[test]
fn paths_are_non_empty_lowercase_words() {
    for order in ALL_ORDERS {
        let token = order.path();
        assert!(!token.is_empty());
        assert!(token.chars().all(|c| c.is_ascii_lowercase()), "{token}");
    }
}

#[test]
fn no_two_orders_share_a_path() {
    for (i, a) in ALL_ORDERS.iter().enumerate() {
        for (j, b) in ALL_ORDERS.iter().enumerate() {
            assert_eq!(a.path() == b.path(), i == j, "{a:?} {b:?}");
        }
    }
}

#[test]
fn path_is_the_same_on_every_call() {
    for order in ALL_ORDERS {
        assert_eq!(order.path(), order.path());
    }
}

#[test]
fn orders_compare_as_declared() {
    assert!(SortBy::Downloads < SortBy::Latest);
    assert!(SortBy::Latest < SortBy::Plays);
    assert!(SortBy::Plays < SortBy::Hot);
    assert!(SortBy::Hot < SortBy::Rating);
    assert_eq!(SortBy::Hot, SortBy::Hot);
    assert_ne!(SortBy::Hot, SortBy::Rating);
}
