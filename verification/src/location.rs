use vstd::math::abs;
use vstd::prelude::*;
use vstd::string::StringExecFns;

verus! {

/// The precision longitude and latitude are stored with: raw coordinate
/// values are degrees times this factor.
pub const PRECISION: i32 = 10000000;

/// Raw value marking one axis of a coordinate as undefined.
pub const UNDEFINED_COORDINATE: i32 = i32::MAX;

/// A gps coordinate in angles of latitude and longitude.
///
/// The actual data is stored in `raw_x` and `raw_y` as integers which are
/// `1/PRECISION`-th of a degree. A coordinate is *undefined* iff both raw
/// values equal [`UNDEFINED_COORDINATE`]; it is *valid* iff both axes lie
/// within the usual bounds (-180 <= lon <= 180, -90 <= lat <= 90).
#[derive(Copy, Clone, Debug, PartialEq, Eq, Structural)]
pub struct Location {
    /// Longitude in `1/PRECISION` degrees.
    pub raw_x: i32,

    /// Latitude in `1/PRECISION` degrees.
    pub raw_y: i32,
}

impl Location {
    /// At least one of the coordinates differs from the undefined sentinel.
    pub open spec fn spec_is_defined(self) -> bool {
        self.raw_x != UNDEFINED_COORDINATE || self.raw_y != UNDEFINED_COORDINATE
    }

    /// Both coordinates equal the undefined sentinel.
    pub open spec fn spec_is_undefined(self) -> bool {
        self.raw_x == UNDEFINED_COORDINATE && self.raw_y == UNDEFINED_COORDINATE
    }

    /// Both coordinates are inside the usual bounds.
    pub open spec fn spec_is_valid(self) -> bool {
        &&& -180 * PRECISION <= self.raw_x <= 180 * PRECISION
        &&& -90 * PRECISION <= self.raw_y <= 90 * PRECISION
    }

    /// Returns true if at least one of the coordinates is defined.
    pub fn is_defined(&self) -> (r: bool)
        ensures
            r == self.spec_is_defined(),
    {
        self.raw_x != UNDEFINED_COORDINATE || self.raw_y != UNDEFINED_COORDINATE
    }

    /// Returns true if both coordinates are undefined.
    pub fn is_undefined(&self) -> (r: bool)
        ensures
            r == self.spec_is_undefined(),
    {
        self.raw_x == UNDEFINED_COORDINATE && self.raw_y == UNDEFINED_COORDINATE
    }

    /// Check whether the coordinates are inside the usual bounds
    /// (-180<=lon<=180, -90<=lat<=90).
    pub fn is_valid(&self) -> (r: bool)
        ensures
            r == self.spec_is_valid(),
    {
        self.raw_x >= -180 * PRECISION && self.raw_x <= 180 * PRECISION && self.raw_y >= -90
            * PRECISION && self.raw_y <= 90 * PRECISION
    }
}

/// A valid coordinate is always defined: the undefined sentinel lies outside
/// the valid longitude range, so validity of `raw_x` already rules it out.
pub proof fn lemma_valid_implies_defined(loc: Location)
    ensures
        loc.spec_is_valid() ==> loc.spec_is_defined(),
{
}

/// The character a single decimal digit prints as.
pub open spec fn digit_char(d: int) -> char {
    if d == 0 {
        '0'
    } else if d == 1 {
        '1'
    } else if d == 2 {
        '2'
    } else if d == 3 {
        '3'
    } else if d == 4 {
        '4'
    } else if d == 5 {
        '5'
    } else if d == 6 {
        '6'
    } else if d == 7 {
        '7'
    } else if d == 8 {
        '8'
    } else {
        '9'
    }
}

/// The decimal digits of a non-negative number, most significant first,
/// without leading zeros (a lone zero for 0).
pub open spec fn dec_str(n: int) -> Seq<char>
    decreases n when n >= 0
{
    if n < 10 {
        seq![digit_char(n)]
    } else {
        dec_str(n / 10).push(digit_char(n % 10))
    }
}

/// A one-character string for a single decimal digit.
fn digit_str(d: u32) -> (r: &'static str)
    requires
        d < 10,
    ensures
        r@ == seq![digit_char(d as int)],
{
    proof {
        reveal_strlit("0");
        reveal_strlit("1");
        reveal_strlit("2");
        reveal_strlit("3");
        reveal_strlit("4");
        reveal_strlit("5");
        reveal_strlit("6");
        reveal_strlit("7");
        reveal_strlit("8");
        reveal_strlit("9");
    }
    let r: &'static str = if d == 0 {
        "0"
    } else if d == 1 {
        "1"
    } else if d == 2 {
        "2"
    } else if d == 3 {
        "3"
    } else if d == 4 {
        "4"
    } else if d == 5 {
        "5"
    } else if d == 6 {
        "6"
    } else if d == 7 {
        "7"
    } else if d == 8 {
        "8"
    } else {
        "9"
    };
    proof {
        assert(r@ =~= seq![digit_char(d as int)]);
    }
    r
}

/// Appends the decimal digits of `x` to `out`.
fn push_dec(out: &mut String, x: u32)
    ensures
        final(out)@ == old(out)@ + dec_str(x as int),
    decreases x,
{
    if x >= 10 {
        push_dec(out, x / 10);
    }
    out.append(digit_str(x % 10));
    proof {
        assert(out@ =~= old(out)@ + dec_str(x as int));
    }
}

/// The absolute value of `v`, which always fits an unsigned 32-bit integer.
fn abs_i32(v: i32) -> (r: u32)
    ensures
        r as int == abs(v as int),
{
    if v >= 0 {
        v as u32
    } else {
        let p: u32 = (-(v + 1)) as u32;
        p + 1
    }
}

impl Location {
    /// The text a coordinate displays as: latitude, then longitude, each as
    /// unsigned degrees with seven fractional digits and a hemisphere
    /// letter. A coordinate on the equator or the prime meridian displays as
    /// southern or western.
    pub open spec fn spec_display(self) -> Seq<char> {
        let p = PRECISION as int;
        let ya = abs(self.raw_y as int) as int;
        let xa = abs(self.raw_x as int) as int;
        dec_str(ya / p) + seq!['.'] + dec_str(ya % p) + seq!['\u{b0}', ' '] + (if self.raw_y > 0 {
            seq!['N']
        } else {
            seq!['S']
        }) + seq![' '] + dec_str(xa / p) + seq!['.'] + dec_str(xa % p) + seq!['\u{b0}', ' '] + (
        if self.raw_x > 0 {
            seq!['E']
        } else {
            seq!['W']
        })
    }

    /// Renders the coordinate as text, as [`spec_display`] describes.
    ///
    /// [`spec_display`]: Location::spec_display
    pub fn display_string(&self) -> (r: String)
        ensures
            r@ == self.spec_display(),
    {
        proof {
            reveal_strlit(".");
            reveal_strlit("\u{b0} ");
            reveal_strlit("N");
            reveal_strlit("S");
            reveal_strlit("E");
            reveal_strlit("W");
            reveal_strlit(" ");
        }
        let mut out = String::new();
        let ya: u32 = abs_i32(self.raw_y);
        let xa: u32 = abs_i32(self.raw_x);
        let p: u32 = PRECISION as u32;
        push_dec(&mut out, ya / p);
        out.append(".");
        push_dec(&mut out, ya % p);
        out.append("\u{b0} ");
        if self.raw_y > 0 {
            out.append("N");
        } else {
            out.append("S");
        }
        out.append(" ");
        push_dec(&mut out, xa / p);
        out.append(".");
        push_dec(&mut out, xa % p);
        out.append("\u{b0} ");
        if self.raw_x > 0 {
            out.append("E");
        } else {
            out.append("W");
        }
        proof {
            assert(out@ =~= self.spec_display());
        }
        out
    }
}

} // verus!
