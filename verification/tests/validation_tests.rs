// The simple argument-shape checks that the thin command layer applies
// before forwarding a call.

#[test]
fn test_parameter_validation() {
    let empty_string = String::new();
    assert!(empty_string.is_empty());

    let valid_string = String::from("test");
    assert!(!valid_string.is_empty());
}

#[test]
fn test_coordinate_validation() {
    let x = 100;
    let y = 200;
    assert!(x >= 0 && y >= 0);

    let x_neg = -1;
    let y_neg = -1;
    assert!(x_neg < 0 || y_neg < 0);
}

#[test]
fn test_top_k_validation() {
    let top_k = 5;
    assert!(top_k > 0 && top_k <= 100);

    let top_k_zero = 0;
    assert!(top_k_zero == 0 || top_k_zero > 100);

    let top_k_large = 101;
    assert!(top_k_large == 0 || top_k_large > 100);
}
