use deltakit::iter::{IterExt, ResultVecExt, SingleError};

#[test]
fn test_flatten_ok_ok() {
    let result: Vec<Result<i32, ()>> = vec![Ok(1), Ok(2), Ok(3), Ok(4), Ok(5)];

    let result = result.flatten_ok();

    assert_eq!(result, Ok(vec![1, 2, 3, 4, 5]));
}

#[test]
fn test_flatten_ok_err() {
    let result: Vec<Result<i32, i32>> = vec![Ok(1), Err(1), Ok(3), Err(2), Ok(5)];

    let result = result.flatten_ok();

    assert_eq!(result, Err(1));
}

#[test]
fn test_expect_single() {
    let one: Vec<i32> = vec![7];
    assert_eq!(one.expect_single(), Ok(7));

    let none: Vec<i32> = vec![];
    assert_eq!(none.expect_single(), Err(SingleError::Empty));

    let many: Vec<i32> = vec![1, 2];
    assert_eq!(many.expect_single(), Err(SingleError::Multiple));
}
