use orblib::error::SamplerError;
use orblib::special::{factorial, MAX_FACTORIAL_ARG};

#[test]
fn particle_gen_test_facorials() {
    let ans: [i32; 5] = [1, 1, 2, 24, 40320];
    let input: [i32; 5] = [0, 1, 2, 4, 8];
    for i in 1..5 {
        assert_eq!(factorial(input[i]), Ok(ans[i]));
    }
}

#[test]
fn wavefunction_test_facorials() {
    let ans: [i32; 5] = [1, 1, 2, 24, 40320];
    let input: [i32; 5] = [0, 1, 2, 4, 8];
    for i in 1..5 {
        assert_eq!(orblib::wavefunction::factorial(input[i]), Ok(ans[i]));
    }
}

#[test]
fn factorial_of_zero_is_one() {
    assert_eq!(factorial(0), Ok(1));
}

#[test]
fn factorial_follows_its_recurrence() {
    for k in 1..=MAX_FACTORIAL_ARG {
        let here = factorial(k).unwrap();
        let before = factorial(k - 1).unwrap();
        assert_eq!(here, k * before);
    }
}

#[test]
fn factorial_of_twelve_is_the_last_that_fits() {
    assert_eq!(factorial(12), Ok(479001600));
    assert_eq!(factorial(13), Err(SamplerError::DomainError));
    assert_eq!(factorial(i32::MAX), Err(SamplerError::DomainError));
}

#[test]
fn factorial_refuses_negative_arguments() {
    assert_eq!(factorial(-1), Err(SamplerError::DomainError));
    assert_eq!(factorial(-7), Err(SamplerError::DomainError));
    assert_eq!(factorial(i32::MIN), Err(SamplerError::DomainError));
}
