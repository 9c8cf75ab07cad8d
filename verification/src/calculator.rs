//! The simplest possible calculator: one digit, one operator, one digit.

use vstd::prelude::*;

use crate::text::is_digit_char;

verus! {

use vstd::string::StrSliceExecFns;

/// The result of a single-digit calculation `a <op> b`.
pub open spec fn calc_result(a: int, op: char, b: int) -> int {
    if op == '+' {
        a + b
    } else if op == '-' {
        a - b
    } else if op == '*' {
        a * b
    } else {
        a / b
    }
}

/// Evaluates a three-character expression: digit, operator, digit. Any
/// other shape — a non-digit operand, an unknown operator, a division by
/// zero — is a fatal error by design and is excluded here.
pub fn simplest_calculator(code: &str) -> (r: i32)
    requires
        code@.len() >= 3,
        is_digit_char(code@[0]),
        is_digit_char(code@[2]),
        code@[1] == '+' || code@[1] == '-' || code@[1] == '*' || code@[1] == '/',
        code@[1] == '/' ==> code@[2] != '0',
    ensures
        r == calc_result(code@[0] as int - 48, code@[1], code@[2] as int - 48),
{
    let c0 = code.get_char(0);
    let op = code.get_char(1);
    let c2 = code.get_char(2);
    let num1 = (c0 as u32 - 48) as i32;
    let num2 = (c2 as u32 - 48) as i32;
    proof {
        assert(num1 * num2 <= 81 && num1 * num2 >= 0) by (nonlinear_arith)
            requires
                0 <= num1 <= 9,
                0 <= num2 <= 9,
        ;
    }
    match op {
        '+' => num1 + num2,
        '-' => num1 - num2,
        '*' => num1 * num2,
        _ => ((c0 as u32 - 48) / (c2 as u32 - 48)) as i32,
    }
}

/// Doubles every element. An element so large that doubling overflows is
/// a fatal error by design and is excluded here.
pub fn double_all(data: &[i32]) -> (output: Vec<i32>)
    requires
        forall|i: int|
            0 <= i < data@.len() ==> -0x40000000 <= #[trigger] data@[i] < 0x40000000,
    ensures
        output@.len() == data@.len(),
        forall|i: int| 0 <= i < data@.len() ==> output@[i] == 2 * data@[i],
{
    let mut output: Vec<i32> = Vec::new();
    let mut i: usize = 0;
    while i < data.len()
        invariant
            i <= data@.len(),
            output@.len() == i,
            forall|k: int| 0 <= k < data@.len() ==> -0x40000000 <= #[trigger] data@[k] < 0x40000000,
            forall|k: int| 0 <= k < i ==> output@[k] == 2 * data@[k],
        decreases data@.len() - i,
    {
        let x = *vstd::slice::slice_index_get(data, i);
        output.push(x * 2);
        i = i + 1;
    }
    output
}

} // verus!
