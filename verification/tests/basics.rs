use minigrep::test_even;

#[test]
fn it_works() {
    // this macro checks if a condition is true
    assert!(100 > 0);
    assert!(!(0 > 100));

    // this macro checks id 2 values are the same
    assert_eq!(2 + 2, 4);

    // this marco is the opposite of assert_eq!
    assert_ne!(12, 2000);

    // you can add messages to your errors
    let some_var = ". oh no";
    assert!(true, "this won't print since it passed {}", some_var);
}

#[test]
#[should_panic]
fn exploration() {
    panic!("I never had a chance of passing :(");
}

#[test]
#[should_panic(expected = "stuck at home")]
fn adventure() {
    panic!("stuck at home");
}

#[test]
fn exam() -> Result<(), String> {
    Ok(())
}

#[test]
fn outside_fun() {
    assert!(test_even(2, 2));
}

#[test]
fn unequal_numbers() {
    assert!(!test_even(2, 3));
    assert!(test_even(-5, -5));
}
