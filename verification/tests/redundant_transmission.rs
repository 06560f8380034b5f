use rs_smarttcp::redundant_transmission::{check_path_count, settle_redundant, MAX_REDUNDANT_PATHS};

#[test]
fn path_count_must_be_between_one_and_four() {
    assert_eq!(check_path_count(0).unwrap_err(), "no paths provided / 経路が1本も指定されていません");
    assert!(check_path_count(1).is_ok());
    assert!(check_path_count(MAX_REDUNDANT_PATHS).is_ok());
    assert_eq!(
        check_path_count(MAX_REDUNDANT_PATHS + 1).unwrap_err(),
        "cannot use more than 4 redundant paths / 冗長経路は最大4本までです"
    );
}

#[test]
fn first_success_wins_and_counts_earlier_failures() {
    let arrivals: Vec<(usize, Result<&str, String>)> = vec![
        (2, Err("path3 down".to_string())),
        (0, Err("path1 down".to_string())),
        (1, Ok("delivered via path2")),
        (3, Ok("delivered via path4")),
    ];
    let outcome = settle_redundant(arrivals).unwrap();
    assert_eq!(outcome.succeeded_path_index, 1);
    assert_eq!(outcome.value, "delivered via path2");
    assert_eq!(outcome.failed_before_success, 2);
}

#[test]
fn all_failures_give_the_last_error() {
    let arrivals: Vec<(usize, Result<(), String>)> = vec![(0, Err("down1".to_string())), (1, Err("down2".to_string()))];
    assert_eq!(settle_redundant(arrivals).unwrap_err(), "down2");
}

#[test]
fn nothing_arriving_is_reported_as_all_failed() {
    let arrivals: Vec<(usize, Result<(), String>)> = Vec::new();
    assert_eq!(
        settle_redundant(arrivals).unwrap_err(),
        "all redundant paths failed or timed out / 全ての冗長経路が失敗またはタイムアウトしました"
    );
}
