//! Laws of file names.

use vstd::prelude::*;

use crate::naming::{checkpoint_name, decimal, digit, is_digit};

verus! {

/// The number that a row of decimal digits stands for.
pub open spec fn read(s: Seq<char>) -> int
    decreases s.len(),
{
    if s.len() == 0 {
        0
    } else {
        10 * read(s.drop_last()) + (s.last() as int - '0' as int)
    }
}

/// A number in decimal notation is made of digits, has no leading zero but that of zero
/// itself, and reads as that number.
pub proof fn law_decimal_notation(n: nat)
    ensures
        decimal(n).len() > 0,
        forall|i: int| 0 <= i < decimal(n).len() ==> '0' <= #[trigger] decimal(n)[i] <= '9',
        decimal(n)[0] == '0' ==> n == 0,
        read(decimal(n)) == n,
    decreases n,
{
    if n < 10 {
        assert(decimal(n).drop_last() =~= Seq::<char>::empty());
        assert(read(decimal(n).drop_last()) == 0);
    } else {
        law_decimal_notation(n / 10);
        assert(decimal(n).drop_last() =~= decimal(n / 10));
        assert(decimal(n)[0] == decimal(n / 10)[0]);
        assert forall|i: int| 0 <= i < decimal(n).len() implies '0' <= #[trigger] decimal(n)[i]
            <= '9' by {
            if i < decimal(n).len() - 1 {
                assert(decimal(n)[i] == decimal(n / 10)[i]);
            }
        }
    }
}

/// A digit is one of the ten from `0` to `9`.
pub proof fn law_digits(c: char)
    ensures
        is_digit(c) <==> exists|d: nat| d < 10 && c == #[trigger] digit(d),
{
    if is_digit(c) {
        assert(c == digit((c as int - '0' as int) as nat));
    }
}

/// The name of a checkpoint starts with the episode and ends with the date and the file
/// type.
pub proof fn law_name_of_a_checkpoint(episode: nat, stamp: Seq<char>)
    ensures
        ({
            let name = checkpoint_name(episode, stamp);
            let start = "checkpoint_ep"@;
            let number = decimal(episode);
            let rest = start.len() + number.len();
            &&& name.subrange(0, start.len() as int) == start
            &&& name.subrange(start.len() as int, rest as int) == number
            &&& name.subrange(rest as int, name.len() as int) == "_"@ + stamp + ".json"@
        }),
{
    let name = checkpoint_name(episode, stamp);
    let start = "checkpoint_ep"@;
    let number = decimal(episode);
    let rest = start.len() + number.len();
    assert(name.subrange(0, start.len() as int) =~= start);
    assert(name.subrange(start.len() as int, rest as int) =~= number);
    assert(name.subrange(rest as int, name.len() as int) =~= "_"@ + stamp + ".json"@);
}

} // verus!
