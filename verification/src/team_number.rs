use vstd::prelude::*;

verus! {

/// An FRC team number.
#[derive(Debug, Copy, Clone, Hash, PartialEq, Eq, PartialOrd, Ord, Structural)]
pub struct TeamNumber(pub u16);

impl From<u16> for TeamNumber {
    fn from(value: u16) -> (r: Self)
        ensures
            r == TeamNumber(value),
    {
        TeamNumber(value)
    }
}

impl vstd::std_specs::convert::FromSpecImpl<u16> for TeamNumber {
    open spec fn obeys_from_spec() -> bool {
        true
    }

    open spec fn from_spec(v: u16) -> Self {
        TeamNumber(v)
    }
}

#[verifier::external_type_specification]
#[verifier::external_body]
pub struct ExParseIntError(core::num::ParseIntError);

/// Whether every character is an ASCII decimal digit.
pub open spec fn all_decimal_digits(d: Seq<char>) -> bool {
    forall|i: int| 0 <= i < d.len() ==> '0' <= #[trigger] d[i] <= '9'
}

/// The number the decimal digits spell, most significant first.
pub open spec fn decimal_value(d: Seq<char>) -> nat
    decreases d.len(),
{
    if d.len() == 0 {
        0
    } else {
        decimal_value(d.drop_last()) * 10 + ((d.last() as int) - ('0' as int)) as nat
    }
}

/// What `u16`'s decimal parse accepts: an optional `+`, then one or more ASCII
/// digits whose value fits in 16 bits.
pub open spec fn decimal_u16(s: Seq<char>) -> Option<u16> {
    let d = if s.len() > 0 && s[0] == '+' {
        s.drop_first()
    } else {
        s
    };
    if d.len() > 0 && all_decimal_digits(d) && decimal_value(d) <= u16::MAX {
        Some(decimal_value(d) as u16)
    } else {
        None
    }
}

/// Calls `u16::from_str`. Its documentation describes the accepted text as an
/// optional `+` sign followed by decimal digits only, any other character
/// (whitespace included) or an out-of-range value being an error; the contract
/// says so through `decimal_u16`. Which kind of `ParseIntError` comes back is
/// left unsaid.
#[verifier::external_body]
fn parse_u16(s: &str) -> (r: Result<u16, core::num::ParseIntError>)
    ensures
        match r {
            Ok(v) => decimal_u16(s@) == Some(v),
            Err(_) => decimal_u16(s@) is None,
        },
{
    s.parse::<u16>()
}

impl TeamNumber {
    /// Reads a team number written in decimal.
    pub fn parse(s: &str) -> (r: Result<TeamNumber, core::num::ParseIntError>)
        ensures
            match r {
                Ok(t) => decimal_u16(s@) == Some(t.0),
                Err(_) => decimal_u16(s@) is None,
            },
    {
        match parse_u16(s) {
            Ok(v) => Ok(TeamNumber(v)),
            Err(e) => Err(e),
        }
    }
}

impl core::str::FromStr for TeamNumber {
    type Err = core::num::ParseIntError;

    fn from_str(s: &str) -> (r: Result<Self, Self::Err>)
        ensures
            match r {
                Ok(t) => decimal_u16(s@) == Some(t.0),
                Err(_) => decimal_u16(s@) is None,
            },
    {
        TeamNumber::parse(s)
    }
}

} // verus!
