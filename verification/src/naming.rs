//! Names and dates of saved agents.

use chrono::Utc;
use vstd::prelude::*;
use vstd::string::*;

verus! {

/// The release of the library.
pub fn release() -> (r: String)
    ensures
        r@ == "1.0.0"@,
{
    "1.0.0".to_owned()
}

/// A date and time that ends in the offset of universal time.
pub open spec fn is_universal(s: Seq<char>) -> bool {
    s.len() >= 6 && s.skip(s.len() - 6) == "+00:00"@
}

/// `chrono::DateTime::to_rfc3339` of `chrono::Utc::now`: the current date and
/// time in universal time, written with the offset `+00:00` at its end. What
/// stands before the offset is left unsaid, since it is the time. It panics where
/// the clock stands before the year 1970, which no argument decides.
#[verifier::external_body]
pub(crate) fn now_rfc3339() -> (r: String)
    ensures
        is_universal(r@),
{
    Utc::now().to_rfc3339()
}

/// A decimal digit.
pub open spec fn is_digit(c: char) -> bool {
    '0' <= c && c <= '9'
}

/// A compact date: the year, then two digits each for month and day, a
/// separator, and two digits each for hour, minute and second. The year has at
/// least four digits; one outside of four digits carries a sign.
pub open spec fn is_stamp(s: Seq<char>) -> bool {
    &&& s.len() >= 15
    &&& is_digit(s[0]) || s[0] == '+' || s[0] == '-'
    &&& s[s.len() - 7] == '_'
    &&& forall|i: int| 1 <= i < s.len() && i != s.len() - 7 ==> is_digit(#[trigger] s[i])
}

/// `chrono::DateTime::format` of `chrono::Utc::now` with `%Y%m%d_%H%M%S`: the
/// current date and time in universal time as a compact date. Which digits
/// stand in it is left unsaid, since they are the time. It panics where the clock
/// stands before the year 1970, which no argument decides.
#[verifier::external_body]
pub(crate) fn now_stamp() -> (r: String)
    ensures
        is_stamp(r@),
{
    Utc::now().format("%Y%m%d_%H%M%S").to_string()
}

/// The digit `d`.
pub open spec fn digit(d: nat) -> char {
    seq!['0', '1', '2', '3', '4', '5', '6', '7', '8', '9'][d as int]
}

/// A number in decimal notation.
pub open spec fn decimal(n: nat) -> Seq<char>
    decreases n,
{
    if n < 10 {
        seq![digit(n)]
    } else {
        decimal(n / 10).push(digit(n % 10))
    }
}

fn digit_text(d: usize) -> (r: &'static str)
    requires
        d < 10,
    ensures
        r@ == seq![digit(d as nat)],
{
    proof {
        reveal_strlit("0");
        reveal_strlit("1");
        reveal_strlit("2");
        reveal_strlit("3");
        reveal_strlit("4");
        reveal_strlit("5");
        reveal_strlit("6");
        reveal_strlit("7");
        reveal_strlit("8");
        reveal_strlit("9");
    }
    match d {
        0 => "0",
        1 => "1",
        2 => "2",
        3 => "3",
        4 => "4",
        5 => "5",
        6 => "6",
        7 => "7",
        8 => "8",
        _ => "9",
    }
}

/// A number in decimal notation.
pub fn decimal_text(n: usize) -> (r: String)
    ensures
        r@ == decimal(n as nat),
    decreases n,
{
    if n < 10 {
        digit_text(n).to_owned()
    } else {
        let mut s = decimal_text(n / 10);
        s.append(digit_text(n % 10));
        assert(s@ =~= decimal(n as nat));
        s
    }
}

/// The file name of a checkpoint.
pub open spec fn checkpoint_name(episode: nat, stamp: Seq<char>) -> Seq<char> {
    "checkpoint_ep"@ + decimal(episode) + "_"@ + stamp + ".json"@
}

/// The file name of a checkpoint of the given date.
pub fn checkpoint_filename_at(episode: usize, stamp: &str) -> (r: String)
    ensures
        r@ == checkpoint_name(episode as nat, stamp@),
{
    let mut s = "checkpoint_ep".to_owned();
    let number = decimal_text(episode);
    s.append(number.as_str());
    s.append("_");
    s.append(stamp);
    s.append(".json");
    s
}

/// The file name of a checkpoint of the current date; it holds no colon.
pub fn checkpoint_filename(episode: usize) -> (r: String)
    ensures
        exists|stamp: Seq<char>|
            is_stamp(stamp) && r@ == #[trigger] checkpoint_name(episode as nat, stamp),
        !r@.contains(':'),
{
    let stamp = now_stamp();
    let name = checkpoint_filename_at(episode, stamp.as_str());
    proof {
        lemma_checkpoint_name_has_no_colon(episode as nat, stamp@);
    }
    name
}

proof fn lemma_decimal_has_no_colon(n: nat)
    ensures
        forall|i: int| 0 <= i < decimal(n).len() ==> #[trigger] decimal(n)[i] != ':',
    decreases n,
{
    if n >= 10 {
        lemma_decimal_has_no_colon(n / 10);
        let head = decimal(n / 10);
        assert(digit(n % 10) != ':');
        assert(decimal(n) == head.push(digit(n % 10)));
        assert forall|i: int| 0 <= i < decimal(n).len() implies #[trigger] decimal(n)[i] != ':' by {
            if i < head.len() {
                assert(decimal(n)[i] == head[i]);
            }
        }
    }
}

proof fn lemma_checkpoint_name_has_no_colon(episode: nat, stamp: Seq<char>)
    requires
        is_stamp(stamp),
    ensures
        !checkpoint_name(episode, stamp).contains(':'),
{
    reveal_strlit("checkpoint_ep");
    reveal_strlit("_");
    reveal_strlit(".json");
    lemma_decimal_has_no_colon(episode);
    let name = checkpoint_name(episode, stamp);
    let a = "checkpoint_ep"@;
    let b = decimal(episode);
    let c = "_"@;
    assert forall|i: int| 0 <= i < name.len() implies name[i] != ':' by {
        let j = i - a.len();
        let k = j - b.len();
        let m = k - c.len();
        if i < a.len() {
            assert(name[i] == a[i]);
        } else if j < b.len() {
            assert(name[i] == b[j]);
        } else if k < c.len() {
            assert(name[i] == c[k]);
        } else if m < stamp.len() {
            assert(name[i] == stamp[m]);
        } else {
            assert(name[i] == ".json"@[m - stamp.len()]);
        }
    }
}

} // verus!
