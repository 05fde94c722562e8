//! Dice rolling: the sum of independent uniform draws from `[1, sides]`.

use vstd::prelude::*;

use crate::GameError;
use crate::rng::rand_range;

verus! {

/// Rolls `rolls` dice of `sides` sides each and sums them: the result lies
/// in `[rolls, rolls * sides]`. Fails with `InvalidDice` exactly when either
/// parameter is non-positive. The product bound keeps the sum within `i32`.
pub fn roll(sides: i32, rolls: i32) -> (r: Result<i32, GameError>)
    requires
        sides >= 1 && rolls >= 1 ==> rolls * sides <= i32::MAX,
    ensures
        r is Ok <==> sides >= 1 && rolls >= 1,
        r matches Err(e) ==> e == GameError::InvalidDice,
        r matches Ok(sum) ==> rolls <= sum <= rolls * sides,
{
    if rolls <= 0 || sides <= 0 {
        return Err(GameError::InvalidDice);
    }
    let mut sum: i32 = 0;
    let mut rolled: i32 = 0;
    while rolled < rolls
        invariant
            0 <= rolled <= rolls,
            sides >= 1,
            rolls * sides <= i32::MAX,
            rolled <= sum <= rolled * sides,
        decreases rolls - rolled,
    {
        assert((rolled + 1) * sides <= rolls * sides) by (nonlinear_arith)
            requires
                rolled < rolls,
                sides >= 1,
        ;
        assert(rolled * sides + sides == (rolled + 1) * sides) by (nonlinear_arith);
        let draw = rand_range(0, sides);
        sum = sum + draw + 1;
        rolled = rolled + 1;
    }
    Ok(sum)
}

} // verus!
