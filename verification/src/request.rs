//! The unit of work: an arithmetic request, its outcome, and the rule by
//! which requests are generated.

use vstd::prelude::*;

verus! {

/// An arithmetic problem on two machine words.
#[derive(Clone, Copy, Debug, PartialEq, Eq, Structural)]
pub enum ComputeRequest {
    Add(usize, usize),
    Sub(usize, usize),
    Mul(usize, usize),
    Div(usize, usize),
}

/// The answer that a worker gives to a request.
#[derive(Clone, Copy, Debug, PartialEq, Eq, Structural)]
pub struct ComputeResult(pub usize);

/// Why a request has no accepted answer.
#[derive(Clone, Copy, Debug, PartialEq, Eq, Structural)]
pub enum ComputeError {
    /// The request is a division whose divisor is zero.
    DivisionByZero,
    /// The answer differs from what the request's operation gives.
    WrongAnswer,
}

/// The number of values of a machine word.
pub open spec fn word_modulus() -> int {
    usize::MAX + 1
}

/// The value of `x` reduced into the range of a machine word: `x` itself
/// where it is a machine word, and else its remainder by `word_modulus()`.
pub open spec fn wrap(x: int) -> int {
    if 0 <= x <= usize::MAX {
        x
    } else {
        x % word_modulus()
    }
}

impl View for ComputeResult {
    type V = int;

    open spec fn view(&self) -> int {
        self.0 as int
    }
}

impl ComputeRequest {
    /// Whether the operation is defined on the operands: every request but a
    /// division by zero.
    pub open spec fn is_defined(self) -> bool {
        match self {
            ComputeRequest::Div(_, b) => b != 0,
            _ => true,
        }
    }

    /// The value of the operation on the operands, reduced into a machine
    /// word. For a division by zero it is left open.
    pub open spec fn outcome(self) -> int {
        match self {
            ComputeRequest::Add(a, b) => wrap(a + b),
            ComputeRequest::Sub(a, b) => wrap(a - b),
            ComputeRequest::Mul(a, b) => wrap(a * b),
            ComputeRequest::Div(a, b) => a as int / b as int,
        }
    }

    /// Whether `result` is the accepted answer to the request: the operation
    /// is defined, and computing it once more gives the same value.
    pub open spec fn verifies(self, result: ComputeResult) -> bool {
        self.is_defined() && result@ == self.outcome()
    }

    /// The request that stands at place `index` of the workload: the
    /// operations take turns, and the operands are the index and its half.
    pub open spec fn nth(index: int) -> ComputeRequest {
        let a = index as usize;
        let b = (index / 2) as usize;
        if index % 4 == 0 {
            ComputeRequest::Add(a, b)
        } else if index % 4 == 1 {
            ComputeRequest::Sub(a, b)
        } else if index % 4 == 2 {
            ComputeRequest::Mul(a, b)
        } else {
            ComputeRequest::Div(a, b)
        }
    }

    /// Builds the request at place `index` of the workload.
    pub fn for_index(index: usize) -> (req: ComputeRequest)
        ensures
            req == ComputeRequest::nth(index as int),
            req.is_defined(),
    {
        let half: usize = index / 2;
        let turn: usize = index % 4;
        if turn == 0 {
            ComputeRequest::Add(index, half)
        } else if turn == 1 {
            ComputeRequest::Sub(index, half)
        } else if turn == 2 {
            ComputeRequest::Mul(index, half)
        } else {
            ComputeRequest::Div(index, half)
        }
    }

    /// Computes the answer with wraparound arithmetic. A division by zero is
    /// refused, and nothing else is.
    pub fn solve(self) -> (res: Result<ComputeResult, ComputeError>)
        ensures
            self.is_defined() ==> res is Ok && self.verifies(res->Ok_0),
            !self.is_defined() ==> res == Err::<ComputeResult, ComputeError>(
                ComputeError::DivisionByZero,
            ),
    {
        match self {
            ComputeRequest::Add(a, b) => {
                proof {
                    lemma_wrap_add(a, b);
                }
                Ok(ComputeResult(a.wrapping_add(b)))
            },
            ComputeRequest::Sub(a, b) => {
                proof {
                    lemma_wrap_sub(a, b);
                }
                Ok(ComputeResult(a.wrapping_sub(b)))
            },
            ComputeRequest::Mul(a, b) => {
                proof {
                    lemma_wrap_mul(a, b);
                }
                Ok(ComputeResult(a.wrapping_mul(b)))
            },
            ComputeRequest::Div(a, b) => {
                if b == 0 {
                    Err(ComputeError::DivisionByZero)
                } else {
                    Ok(ComputeResult(a / b))
                }
            },
        }
    }

    /// Recomputes the operation and holds the answer against it.
    pub fn check_answer(self, result: ComputeResult) -> (res: Result<(), ComputeError>)
        ensures
            res is Ok <==> self.verifies(result),
            res == Err::<(), ComputeError>(ComputeError::DivisionByZero) <==> !self.is_defined(),
            res == Err::<(), ComputeError>(ComputeError::WrongAnswer) <==> self.is_defined()
                && result@ != self.outcome(),
    {
        let ComputeResult(answer) = result;
        match self.solve() {
            Ok(expected) => {
                if answer == expected.0 {
                    Ok(())
                } else {
                    Err(ComputeError::WrongAnswer)
                }
            },
            Err(e) => Err(e),
        }
    }
}

/// Reducing into a machine word is taking the remainder by the number of
/// machine words, and gives a machine word.
pub proof fn lemma_wrap_is_remainder(x: int)
    ensures
        wrap(x) == x % word_modulus(),
        0 <= wrap(x) <= usize::MAX,
{
    if 0 <= x <= usize::MAX {
        vstd::arithmetic::div_mod::lemma_small_mod(x as nat, word_modulus() as nat);
    } else {
        vstd::arithmetic::div_mod::lemma_mod_bound(x, word_modulus());
    }
}

/// Every request of a workload is defined, whatever its place: the rule
/// never makes a division by zero.
pub proof fn lemma_generated_request_is_defined(index: int)
    requires
        0 <= index <= usize::MAX,
    ensures
        ComputeRequest::nth(index).is_defined(),
{
}

/// The outcome of a defined request is a machine word.
pub proof fn lemma_outcome_is_a_word(req: ComputeRequest)
    requires
        req.is_defined(),
    ensures
        0 <= req.outcome() <= usize::MAX,
{
    match req {
        ComputeRequest::Add(a, b) => {
            lemma_wrap_is_remainder(a + b);
        },
        ComputeRequest::Sub(a, b) => {
            lemma_wrap_is_remainder(a - b);
        },
        ComputeRequest::Mul(a, b) => {
            lemma_wrap_is_remainder(a * b);
        },
        ComputeRequest::Div(a, b) => {
            vstd::arithmetic::div_mod::lemma_div_pos_is_pos(a as int, b as int);
            vstd::arithmetic::div_mod::lemma_div_is_ordered_by_denominator(a as int, 1, b as int);
            vstd::arithmetic::div_mod::lemma_div_basics(a as int);
        },
    }
}

/// For the request at every place of a workload, a worker has an answer
/// to report, the answer that it reports is the one that computing the
/// operation once more confirms, and no other answer is confirmed.
pub proof fn law_generated_request_verifies(index: usize)
    ensures
        ComputeRequest::nth(index as int).is_defined(),
        ComputeRequest::nth(index as int).verifies(
            ComputeResult(ComputeRequest::nth(index as int).outcome() as usize),
        ),
        forall|other: ComputeResult|
            #[trigger] ComputeRequest::nth(index as int).verifies(other) ==> other@
                == ComputeRequest::nth(index as int).outcome(),
{
    lemma_generated_request_is_defined(index as int);
    lemma_outcome_is_a_word(ComputeRequest::nth(index as int));
}

/// A wrapping sum is the sum reduced into a machine word.
proof fn lemma_wrap_add(a: usize, b: usize)
    ensures
        vstd::wrapping::usize_specs::wrapping_add(a, b) as int == wrap(a + b),
{
    let m = word_modulus();
    if a + b > usize::MAX {
        vstd::arithmetic::div_mod::lemma_fundamental_div_mod_converse(a + b, m, 1, a + b - m);
    }
}

/// A wrapping difference is the difference reduced into a machine word.
proof fn lemma_wrap_sub(a: usize, b: usize)
    ensures
        vstd::wrapping::usize_specs::wrapping_sub(a, b) as int == wrap(a - b),
{
    let m = word_modulus();
    if a - b < 0 {
        vstd::arithmetic::div_mod::lemma_fundamental_div_mod_converse(a - b, m, -1, a - b + m);
    }
}

/// A wrapping product is the product reduced into a machine word.
proof fn lemma_wrap_mul(a: usize, b: usize)
    ensures
        vstd::wrapping::usize_specs::wrapping_mul(a, b) as int == wrap(a * b),
{
    assert(a as nat * b as nat == a * b) by (nonlinear_arith);
    lemma_wrap_is_remainder(a * b);
}

} // verus!
