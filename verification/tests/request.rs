use pinned_bench::request::{ComputeError, ComputeRequest, ComputeResult};

#[test]
fn first_eight_requests_follow_the_rule() {
    let expected = [
        ComputeRequest::Add(0, 0),
        ComputeRequest::Sub(1, 0),
        ComputeRequest::Mul(2, 1),
        ComputeRequest::Div(3, 1),
        ComputeRequest::Add(4, 2),
        ComputeRequest::Sub(5, 2),
        ComputeRequest::Mul(6, 3),
        ComputeRequest::Div(7, 3),
    ];
    for i in 0..8usize {
        assert_eq!(ComputeRequest::for_index(i), expected[i]);
    }
}

#[test]
fn first_eight_outcomes_verify() {
    let expected: [usize; 8] = [0, 1, 2, 3, 6, 3, 18, 2];
    for i in 0..8usize {
        let req = ComputeRequest::for_index(i);
        let answer = req.solve().unwrap();
        assert_eq!(answer, ComputeResult(expected[i]));
        assert_eq!(req.check_answer(answer), Ok(()));
    }
}

#[test]
fn every_generated_request_verifies() {
    let mut places: Vec<usize> = (0..10_000usize).collect();
    places.push(usize::MAX);
    places.push(usize::MAX - 1);
    places.push(usize::MAX - 2);
    places.push(usize::MAX - 3);
    for i in places {
        let req = ComputeRequest::for_index(i);
        let answer = req.solve().expect("a generated request is defined");
        assert_eq!(req.check_answer(answer), Ok(()));
    }
}

#[test]
fn rule_at_the_last_places() {
    let top = usize::MAX;
    assert_eq!(ComputeRequest::for_index(top), ComputeRequest::Div(top, top / 2));
    assert_eq!(ComputeRequest::for_index(top - 1), ComputeRequest::Mul(top - 1, (top - 1) / 2));
    assert_eq!(ComputeRequest::for_index(top - 2), ComputeRequest::Sub(top - 2, (top - 2) / 2));
    assert_eq!(ComputeRequest::for_index(top - 3), ComputeRequest::Add(top - 3, (top - 3) / 2));
}

#[test]
fn addition_wraps() {
    assert_eq!(ComputeRequest::Add(usize::MAX, 1).solve(), Ok(ComputeResult(0)));
    assert_eq!(ComputeRequest::Add(usize::MAX, usize::MAX).solve(), Ok(ComputeResult(usize::MAX - 1)));
    assert_eq!(ComputeRequest::Add(2, 3).solve(), Ok(ComputeResult(5)));
}

#[test]
fn subtraction_wraps() {
    assert_eq!(ComputeRequest::Sub(0, 1).solve(), Ok(ComputeResult(usize::MAX)));
    assert_eq!(ComputeRequest::Sub(3, 5).solve(), Ok(ComputeResult(usize::MAX - 1)));
    assert_eq!(ComputeRequest::Sub(5, 3).solve(), Ok(ComputeResult(2)));
}

#[test]
fn multiplication_wraps() {
    assert_eq!(ComputeRequest::Mul(usize::MAX, 2).solve(), Ok(ComputeResult(usize::MAX - 1)));
    assert_eq!(ComputeRequest::Mul(usize::MAX, usize::MAX).solve(), Ok(ComputeResult(1)));
    assert_eq!(ComputeRequest::Mul(6, 7).solve(), Ok(ComputeResult(42)));
}

#[test]
fn division_truncates() {
    assert_eq!(ComputeRequest::Div(7, 2).solve(), Ok(ComputeResult(3)));
    assert_eq!(ComputeRequest::Div(0, 9).solve(), Ok(ComputeResult(0)));
    assert_eq!(ComputeRequest::Div(usize::MAX, 1).solve(), Ok(ComputeResult(usize::MAX)));
}

#[test]
fn division_by_zero_is_refused() {
    assert_eq!(ComputeRequest::Div(7, 0).solve(), Err(ComputeError::DivisionByZero));
    assert_eq!(ComputeRequest::Div(0, 0).solve(), Err(ComputeError::DivisionByZero));
    assert_eq!(
        ComputeRequest::Div(7, 0).check_answer(ComputeResult(0)),
        Err(ComputeError::DivisionByZero)
    );
}

#[test]
fn wrong_answer_is_refused() {
    assert_eq!(
        ComputeRequest::Add(1, 1).check_answer(ComputeResult(3)),
        Err(ComputeError::WrongAnswer)
    );
    assert_eq!(
        ComputeRequest::Sub(1, 1).check_answer(ComputeResult(1)),
        Err(ComputeError::WrongAnswer)
    );
    assert_eq!(
        ComputeRequest::Mul(3, 3).check_answer(ComputeResult(6)),
        Err(ComputeError::WrongAnswer)
    );
    assert_eq!(
        ComputeRequest::Div(9, 3).check_answer(ComputeResult(2)),
        Err(ComputeError::WrongAnswer)
    );
}

#[test]
fn right_answer_is_accepted() {
    assert_eq!(ComputeRequest::Add(1, 1).check_answer(ComputeResult(2)), Ok(()));
    assert_eq!(ComputeRequest::Sub(0, 1).check_answer(ComputeResult(usize::MAX)), Ok(()));
    assert_eq!(ComputeRequest::Mul(3, 3).check_answer(ComputeResult(9)), Ok(()));
    assert_eq!(ComputeRequest::Div(9, 3).check_answer(ComputeResult(3)), Ok(()));
}
