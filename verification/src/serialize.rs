//! Text renderings of the save values, one output line each.
//!
//! Numeric lines carry the trailing space the game writes; raw text lines
//! are emitted as they are.

use vstd::prelude::*;
use vstd::string::StringExecFns;
use crate::floatval::FloatVal;
use crate::floatval::float_text_rend;
use crate::floatval::render_float;
use crate::numtext::dec_digits;
use crate::numtext::int_text_rend;
use crate::numtext::render_int;
use crate::numtext::render_u64;

verus! {

/// Line text of a signed integer value.
pub open spec fn rend_i32(v: i32) -> Seq<char> {
    int_text_rend(v as int) + seq![' ']
}

/// Line text of an unsigned counter value.
pub open spec fn rend_u64(v: u64) -> Seq<char> {
    dec_digits(v as nat) + seq![' ']
}

/// Line text of a decimal fraction value.
pub open spec fn rend_float(v: FloatVal) -> Seq<char> {
    float_text_rend(v) + seq![' ']
}

/// Line text of a boolean flag.
pub open spec fn rend_bool(b: bool) -> Seq<char> {
    if b {
        "1"@
    } else {
        "0"@
    }
}

/// Renders a signed integer save line.
pub fn serialize_i32(v: i32) -> (r: String)
    ensures
        r@ == rend_i32(v),
{
    let mut s = render_int(v as i64);
    proof {
        reveal_strlit(" ");
    }
    s.append(" ");
    proof {
        assert(s@ =~= rend_i32(v));
    }
    s
}

/// Renders an unsigned counter save line.
pub fn serialize_u64(v: u64) -> (r: String)
    ensures
        r@ == rend_u64(v),
{
    let mut s = render_u64(v);
    proof {
        reveal_strlit(" ");
    }
    s.append(" ");
    proof {
        assert(s@ =~= rend_u64(v));
    }
    s
}

/// Renders a decimal fraction save line.
pub fn serialize_float(v: &FloatVal) -> (r: String)
    ensures
        r@ == rend_float(*v),
{
    let mut s = render_float(v);
    proof {
        reveal_strlit(" ");
    }
    s.append(" ");
    proof {
        assert(s@ =~= rend_float(*v));
    }
    s
}

/// Renders a boolean save line.
pub fn serialize_bool(b: bool) -> (r: String)
    ensures
        r@ == rend_bool(b),
{
    let mut s = String::new();
    if b {
        proof {
            reveal_strlit("1");
        }
        s.append("1");
    } else {
        proof {
            reveal_strlit("0");
        }
        s.append("0");
    }
    proof {
        assert(s@ =~= rend_bool(b));
    }
    s
}

/// Renders a raw text save line, kept as it is.
pub fn serialize_str(v: &str) -> (r: String)
    ensures
        r@ == v@,
{
    let mut s = String::new();
    s.append(v);
    proof {
        assert(s@ =~= v@);
    }
    s
}

} // verus!
