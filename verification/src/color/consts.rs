//! Named colors.

use vstd::prelude::*;
use crate::binary64::{HALF, ONE, ZERO};
use crate::color::Color;

verus! {

#[verifier::allow_in_spec]
pub fn black() -> Color
    returns
        (Color { red: ZERO, green: ZERO, blue: ZERO }),
{
    Color { red: ZERO, green: ZERO, blue: ZERO }
}

#[verifier::allow_in_spec]
pub fn white() -> Color
    returns
        (Color { red: ONE, green: ONE, blue: ONE }),
{
    Color { red: ONE, green: ONE, blue: ONE }
}

#[verifier::allow_in_spec]
pub fn red() -> Color
    returns
        (Color { red: ONE, green: ZERO, blue: ZERO }),
{
    Color { red: ONE, green: ZERO, blue: ZERO }
}

#[verifier::allow_in_spec]
pub fn green() -> Color
    returns
        (Color { red: ZERO, green: ONE, blue: ZERO }),
{
    Color { red: ZERO, green: ONE, blue: ZERO }
}

#[verifier::allow_in_spec]
pub fn blue() -> Color
    returns
        (Color { red: ZERO, green: ZERO, blue: ONE }),
{
    Color { red: ZERO, green: ZERO, blue: ONE }
}

#[verifier::allow_in_spec]
pub fn magenta() -> Color
    returns
        (Color { red: ONE, green: ZERO, blue: ONE }),
{
    Color { red: ONE, green: ZERO, blue: ONE }
}

#[verifier::allow_in_spec]
pub fn cyan() -> Color
    returns
        (Color { red: ZERO, green: ONE, blue: ONE }),
{
    Color { red: ZERO, green: ONE, blue: ONE }
}

#[verifier::allow_in_spec]
pub fn yellow() -> Color
    returns
        (Color { red: ONE, green: ONE, blue: ZERO }),
{
    Color { red: ONE, green: ONE, blue: ZERO }
}

#[verifier::allow_in_spec]
pub fn navy() -> Color
    returns
        (Color { red: ZERO, green: ZERO, blue: HALF }),
{
    Color { red: ZERO, green: ZERO, blue: HALF }
}

#[verifier::allow_in_spec]
pub fn teal() -> Color
    returns
        (Color { red: ZERO, green: HALF, blue: HALF }),
{
    Color { red: ZERO, green: HALF, blue: HALF }
}

#[verifier::allow_in_spec]
pub fn olive() -> Color
    returns
        (Color { red: HALF, green: HALF, blue: ZERO }),
{
    Color { red: HALF, green: HALF, blue: ZERO }
}

#[verifier::allow_in_spec]
pub fn gray() -> Color
    returns
        (Color { red: HALF, green: HALF, blue: HALF }),
{
    Color { red: HALF, green: HALF, blue: HALF }
}

} // verus!
