//! The endpoints of the API and how a response is judged before its body
//! is decoded.

use vstd::prelude::*;

verus! {

/// The root of every endpoint.
pub const API_ROOT: &'static str = "https://openmensa.org/api/v2";

/// Why a request gave no records.
#[derive(Clone, Copy, Debug, PartialEq, Eq, Structural)]
pub enum FetchError {
    /// The request could not be completed (connection, DNS, timeout).
    Transport,
    /// The server answered with a status that is not a success.
    Status(u16),
    /// The body was not JSON, or not of the expected shape.
    Decode,
}

/// A success status: one in `200..=299`.
pub open spec fn is_success(status: u16) -> bool {
    200 <= status <= 299
}

/// Judges a response by its status code: a success lets the body be
/// decoded, any other code is a status failure that carries it.
pub fn check_status(status: u16) -> (r: Result<(), FetchError>)
    ensures
        r == if is_success(status) {
            Ok::<(), FetchError>(())
        } else {
            Err(FetchError::Status(status))
        },
{
    if 200 <= status && status <= 299 {
        Ok(())
    } else {
        Err(FetchError::Status(status))
    }
}

/// The character of a decimal digit.
pub open spec fn digit_char(d: nat) -> char {
    if d == 0 { '0' }
    else if d == 1 { '1' }
    else if d == 2 { '2' }
    else if d == 3 { '3' }
    else if d == 4 { '4' }
    else if d == 5 { '5' }
    else if d == 6 { '6' }
    else if d == 7 { '7' }
    else if d == 8 { '8' }
    else { '9' }
}

/// The decimal notation of `n`, without leading zeros.
pub open spec fn decimal_of(n: nat) -> Seq<char>
    decreases n,
{
    if n < 10 {
        seq![digit_char(n)]
    } else {
        decimal_of(n / 10).push(digit_char(n % 10))
    }
}

fn digit_str(d: u32) -> (r: &'static str)
    requires
        d < 10,
    ensures
        r@ == seq![digit_char(d as nat)],
{
    proof {
        reveal_strlit("0");
        reveal_strlit("1");
        reveal_strlit("2");
        reveal_strlit("3");
        reveal_strlit("4");
        reveal_strlit("5");
        reveal_strlit("6");
        reveal_strlit("7");
        reveal_strlit("8");
        reveal_strlit("9");
    }
    match d {
        0 => "0",
        1 => "1",
        2 => "2",
        3 => "3",
        4 => "4",
        5 => "5",
        6 => "6",
        7 => "7",
        8 => "8",
        _ => "9",
    }
}

/// Writes `n` in decimal.
pub fn decimal(n: u32) -> (r: String)
    ensures
        r@ == decimal_of(n as nat),
    decreases n,
{
    if n < 10 {
        String::from_str(digit_str(n))
    } else {
        let mut s = decimal(n / 10);
        s.append(digit_str(n % 10));
        s
    }
}

/// The address of the list of all canteens.
pub open spec fn canteens_url_of() -> Seq<char> {
    API_ROOT@ + "/canteens"@
}

/// The address of the meals of canteen `id` on `date` (`YYYY-MM-DD`).
pub open spec fn meals_url_of(id: u32, date: Seq<char>) -> Seq<char> {
    API_ROOT@ + "/canteens/"@ + decimal_of(id as nat) + "/days/"@ + date + "/meals"@
}

/// Builds the address of the list of all canteens.
pub fn canteens_url() -> (r: String)
    ensures
        r@ == canteens_url_of(),
{
    let mut s = String::from_str(API_ROOT);
    s.append("/canteens");
    s
}

/// Builds the address of the meals of canteen `canteen_id` on `date`, which
/// is written `YYYY-MM-DD`.
pub fn meals_url(canteen_id: u32, date: &str) -> (r: String)
    ensures
        r@ == meals_url_of(canteen_id, date@),
{
    let mut s = String::from_str(API_ROOT);
    s.append("/canteens/");
    let id = decimal(canteen_id);
    s.append(id.as_str());
    s.append("/days/");
    s.append(date);
    s.append("/meals");
    s
}

} // verus!
