use vstd::prelude::*;

verus! {

/// The display name of the card with rank `value`, where rank 0 is the Two
/// and rank 11 the Ace; any other rank has no name.
pub open spec fn spec_card_name(value: int) -> Seq<char> {
    if value == 0 {
        "a Two"@
    } else if value == 1 {
        "a Three"@
    } else if value == 2 {
        "a Four"@
    } else if value == 3 {
        "a Five"@
    } else if value == 4 {
        "a Six"@
    } else if value == 5 {
        "a Seven"@
    } else if value == 6 {
        "an Eight"@
    } else if value == 7 {
        "a Nine"@
    } else if value == 8 {
        "a Jack"@
    } else if value == 9 {
        "a Queen"@
    } else if value == 10 {
        "a King"@
    } else if value == 11 {
        "an Ace"@
    } else {
        "Unknown"@
    }
}

/// Name the card that the integer `value` stands for; for example, 1 maps
/// to "a Three".
pub fn integer_to_card(value: i32) -> (r: &'static str)
    ensures
        r@ == spec_card_name(value as int),
{
    match value {
        0 => "a Two",
        1 => "a Three",
        2 => "a Four",
        3 => "a Five",
        4 => "a Six",
        5 => "a Seven",
        6 => "an Eight",
        7 => "a Nine",
        8 => "a Jack",
        9 => "a Queen",
        10 => "a King",
        11 => "an Ace",
        _ => "Unknown",
    }
}

} // verus!
