//! Human-readable rendering of numbers: decimal strings, zero-padded
//! durations, byte sizes with a binary unit and one decimal place, and
//! `rgb(r, g, b)` colour strings for the web page.
//!
//! Sizes are scaled by the matching power of 1024 and rounded to the
//! nearest tenth (half away from zero), so `1536` bytes render as
//! `"1.5 KB"`.

use vstd::prelude::*;
use vstd::string::*;

verus! {

/// The decimal digit character for `d` (0 to 9).
pub open spec fn digit_char(d: nat) -> char {
    if d == 0 {
        '0'
    } else if d == 1 {
        '1'
    } else if d == 2 {
        '2'
    } else if d == 3 {
        '3'
    } else if d == 4 {
        '4'
    } else if d == 5 {
        '5'
    } else if d == 6 {
        '6'
    } else if d == 7 {
        '7'
    } else if d == 8 {
        '8'
    } else {
        '9'
    }
}

/// The decimal rendering of `n`, most significant digit first, with no
/// leading zeros (except for `n == 0`, which is `"0"`).
pub open spec fn dec_spec(n: nat) -> Seq<char>
    decreases n,
{
    if n < 10 {
        seq![digit_char(n)]
    } else {
        dec_spec(n / 10) + seq![digit_char(n % 10)]
    }
}

fn digit_str(d: u64) -> (r: &'static str)
    requires
        d < 10,
    ensures
        r@ == seq![digit_char(d as nat)],
{
    match d {
        0 => {
            proof {
                reveal_strlit("0");
                assert("0"@ =~= seq![digit_char(0)]);
            }
            "0"
        },
        1 => {
            proof {
                reveal_strlit("1");
                assert("1"@ =~= seq![digit_char(1)]);
            }
            "1"
        },
        2 => {
            proof {
                reveal_strlit("2");
                assert("2"@ =~= seq![digit_char(2)]);
            }
            "2"
        },
        3 => {
            proof {
                reveal_strlit("3");
                assert("3"@ =~= seq![digit_char(3)]);
            }
            "3"
        },
        4 => {
            proof {
                reveal_strlit("4");
                assert("4"@ =~= seq![digit_char(4)]);
            }
            "4"
        },
        5 => {
            proof {
                reveal_strlit("5");
                assert("5"@ =~= seq![digit_char(5)]);
            }
            "5"
        },
        6 => {
            proof {
                reveal_strlit("6");
                assert("6"@ =~= seq![digit_char(6)]);
            }
            "6"
        },
        7 => {
            proof {
                reveal_strlit("7");
                assert("7"@ =~= seq![digit_char(7)]);
            }
            "7"
        },
        8 => {
            proof {
                reveal_strlit("8");
                assert("8"@ =~= seq![digit_char(8)]);
            }
            "8"
        },
        _ => {
            proof {
                reveal_strlit("9");
                assert("9"@ =~= seq![digit_char(9)]);
            }
            "9"
        },
    }
}

/// Renders `n` in decimal.
pub fn decimal_string(n: u64) -> (s: String)
    ensures
        s@ == dec_spec(n as nat),
    decreases n,
{
    if n < 10 {
        String::from_str(digit_str(n))
    } else {
        let mut s = decimal_string(n / 10);
        s.append(digit_str(n % 10));
        assert(s@ =~= dec_spec(n as nat));
        s
    }
}

/// `n` in decimal, left-padded with one `'0'` to at least two digits.
pub open spec fn pad2_spec(n: nat) -> Seq<char> {
    if n < 10 {
        seq!['0'] + dec_spec(n)
    } else {
        dec_spec(n)
    }
}

fn pad2(n: u64) -> (s: String)
    ensures
        s@ == pad2_spec(n as nat),
{
    if n < 10 {
        let mut s = String::from_str("0");
        s.append(digit_str(n));
        proof {
            reveal_strlit("0");
            assert("0"@ =~= seq!['0']);
            assert(s@ =~= pad2_spec(n as nat));
        }
        s
    } else {
        decimal_string(n)
    }
}

/// A duration of `secs` seconds as `"SSs"`, `"MMm SSs"` or
/// `"HHh MMm SSs"`, each part zero-padded to two digits.
pub open spec fn format_time_spec(secs: nat) -> Seq<char> {
    let mins = secs / 60;
    let hours = mins / 60;
    let s = secs % 60;
    let m = mins % 60;
    if hours > 0 {
        pad2_spec(hours) + seq!['h', ' '] + pad2_spec(m) + seq!['m', ' '] + pad2_spec(s) + seq!['s']
    } else if m > 0 {
        pad2_spec(m) + seq!['m', ' '] + pad2_spec(s) + seq!['s']
    } else {
        pad2_spec(s) + seq!['s']
    }
}

/// Renders a duration, given in whole seconds, for the session tooltips.
pub fn format_time(secs: u64) -> (out: String)
    ensures
        out@ == format_time_spec(secs as nat),
{
    let mins: u64 = secs / 60;
    let hours: u64 = mins / 60;
    let s: u64 = secs % 60;
    let m: u64 = mins % 60;
    proof {
        reveal_strlit("h ");
        reveal_strlit("m ");
        reveal_strlit("s");
        assert("h "@ =~= seq!['h', ' ']);
        assert("m "@ =~= seq!['m', ' ']);
        assert("s"@ =~= seq!['s']);
    }
    if hours > 0 {
        let mut out = pad2(hours);
        out.append("h ");
        let part = pad2(m);
        out.append(part.as_str());
        out.append("m ");
        let part = pad2(s);
        out.append(part.as_str());
        out.append("s");
        assert(out@ =~= format_time_spec(secs as nat));
        out
    } else if m > 0 {
        let mut out = pad2(m);
        out.append("m ");
        let part = pad2(s);
        out.append(part.as_str());
        out.append("s");
        assert(out@ =~= format_time_spec(secs as nat));
        out
    } else {
        let mut out = pad2(s);
        out.append("s");
        assert(out@ =~= format_time_spec(secs as nat));
        out
    }
}

/// `n` scaled by `div`, in tenths, rounded to the nearest tenth (half
/// rounds up).
pub open spec fn tenths_spec(n: nat, div: nat) -> nat {
    (10 * n + div / 2) / div
}

/// The scaled value with one decimal place: whole part, `'.'`, tenth digit.
pub open spec fn scaled_spec(n: nat, div: nat) -> Seq<char> {
    dec_spec(tenths_spec(n, div) / 10) + seq!['.'] + seq![digit_char(tenths_spec(n, div) % 10)]
}

fn scaled_string(n: u64, div: u64) -> (s: String)
    requires
        1024 <= div,
    ensures
        s@ == scaled_spec(n as nat, div as nat),
{
    let num: u128 = 10 * (n as u128) + (div as u128) / 2;
    let t128: u128 = num / (div as u128);
    assert(t128 <= u64::MAX as u128) by (nonlinear_arith)
        requires
            1024 <= div,
            num == 10 * (n as u128) + (div as u128) / 2,
            t128 == num / (div as u128),
            n <= u64::MAX,
            div <= u64::MAX,
    ;
    let t: u64 = t128 as u64;
    proof {
        assert(t as nat == tenths_spec(n as nat, div as nat));
    }
    let whole: u64 = t / 10;
    let frac: u64 = t % 10;
    let mut s = decimal_string(whole);
    s.append(".");
    s.append(digit_str(frac));
    proof {
        reveal_strlit(".");
        assert("."@ =~= seq!['.']);
        assert(s@ =~= scaled_spec(n as nat, div as nat));
    }
    s
}

/// A byte count rendered for display: plain bytes below 1000, else
/// scaled to KB, MB, GB or TB with one decimal place.
pub open spec fn size_string_spec(n: nat) -> Seq<char> {
    if n < 1000 {
        dec_spec(n) + seq![' ', 'B']
    } else if n < 1024 * 1000 {
        scaled_spec(n, 1024) + seq![' ', 'K', 'B']
    } else if n < 1024 * 1024 * 1000 {
        scaled_spec(n, 1024 * 1024) + seq![' ', 'M', 'B']
    } else if n < 1024 * 1024 * 1024 * 1000 {
        scaled_spec(n, 1024 * 1024 * 1024) + seq![' ', 'G', 'B']
    } else {
        scaled_spec(n, 1024 * 1024 * 1024 * 1024) + seq![' ', 'T', 'B']
    }
}

/// Renders a byte count for the listing page and the statistics pane.
pub fn size_string(size: usize) -> (s: String)
    ensures
        s@ == size_string_spec(size as nat),
{
    let n: u64 = size as u64;
    proof {
        reveal_strlit(" B");
        reveal_strlit(" KB");
        reveal_strlit(" MB");
        reveal_strlit(" GB");
        reveal_strlit(" TB");
        assert(" B"@ =~= seq![' ', 'B']);
        assert(" KB"@ =~= seq![' ', 'K', 'B']);
        assert(" MB"@ =~= seq![' ', 'M', 'B']);
        assert(" GB"@ =~= seq![' ', 'G', 'B']);
        assert(" TB"@ =~= seq![' ', 'T', 'B']);
    }
    if n < 1000 {
        let mut s = decimal_string(n);
        s.append(" B");
        assert(s@ =~= size_string_spec(size as nat));
        s
    } else if n < 1024 * 1000 {
        let mut s = scaled_string(n, 1024);
        s.append(" KB");
        assert(s@ =~= size_string_spec(size as nat));
        s
    } else if n < 1024 * 1024 * 1000 {
        let mut s = scaled_string(n, 1024 * 1024);
        s.append(" MB");
        assert(s@ =~= size_string_spec(size as nat));
        s
    } else if n < 1024 * 1024 * 1024 * 1000 {
        let mut s = scaled_string(n, 1024 * 1024 * 1024);
        s.append(" GB");
        assert(s@ =~= size_string_spec(size as nat));
        s
    } else {
        let mut s = scaled_string(n, 1024 * 1024 * 1024 * 1024);
        s.append(" TB");
        assert(s@ =~= size_string_spec(size as nat));
        s
    }
}

/// The dotted-quad rendering of an IPv4 address.
pub open spec fn ipv4_string_spec(a: u8, b: u8, c: u8, d: u8) -> Seq<char> {
    dec_spec(a as nat) + seq!['.'] + dec_spec(b as nat) + seq!['.'] + dec_spec(c as nat)
        + seq!['.'] + dec_spec(d as nat)
}

/// Renders an IPv4 address as `a.b.c.d`.
pub fn ipv4_string(a: u8, b: u8, c: u8, d: u8) -> (s: String)
    ensures
        s@ == ipv4_string_spec(a, b, c, d),
{
    proof {
        reveal_strlit(".");
        assert("."@ =~= seq!['.']);
    }
    let mut s = decimal_string(a as u64);
    s.append(".");
    let part = decimal_string(b as u64);
    s.append(part.as_str());
    s.append(".");
    let part = decimal_string(c as u64);
    s.append(part.as_str());
    s.append(".");
    let part = decimal_string(d as u64);
    s.append(part.as_str());
    assert(s@ =~= ipv4_string_spec(a, b, c, d));
    s
}

/// The listing page's address for an IPv4 host and port.
pub open spec fn url_string_spec(a: u8, b: u8, c: u8, d: u8, port: u16) -> Seq<char> {
    seq!['h', 't', 't', 'p', ':', '/', '/'] + ipv4_string_spec(a, b, c, d) + seq![':']
        + dec_spec(port as nat) + seq!['/', 'i', 'n', 'd', 'e', 'x']
}

/// Renders the URL clients visit: `http://a.b.c.d:port/index`.
pub fn url_string(a: u8, b: u8, c: u8, d: u8, port: u16) -> (s: String)
    ensures
        s@ == url_string_spec(a, b, c, d, port),
{
    proof {
        reveal_strlit("http://");
        reveal_strlit(":");
        reveal_strlit("/index");
        assert("http://"@ =~= seq!['h', 't', 't', 'p', ':', '/', '/']);
        assert(":"@ =~= seq![':']);
        assert("/index"@ =~= seq!['/', 'i', 'n', 'd', 'e', 'x']);
    }
    let mut s = String::from_str("http://");
    let part = ipv4_string(a, b, c, d);
    s.append(part.as_str());
    s.append(":");
    let part = decimal_string(port as u64);
    s.append(part.as_str());
    s.append("/index");
    assert(s@ =~= url_string_spec(a, b, c, d, port));
    s
}

/// A colour sent to the web page, as one byte per channel.
#[derive(Clone, Copy, Debug, PartialEq, Eq, Structural)]
pub struct SendColor {
    pub r: u8,
    pub g: u8,
    pub b: u8,
}

/// The CSS colour string `rgb(r, g, b)`.
pub open spec fn rgb_string_spec(c: SendColor) -> Seq<char> {
    seq!['r', 'g', 'b', '('] + dec_spec(c.r as nat) + seq![',', ' '] + dec_spec(c.g as nat)
        + seq![',', ' '] + dec_spec(c.b as nat) + seq![')']
}

/// Renders a colour as a CSS `rgb(...)` string for the template context.
pub fn to_rgb_string(color: SendColor) -> (s: String)
    ensures
        s@ == rgb_string_spec(color),
{
    proof {
        reveal_strlit("rgb(");
        reveal_strlit(", ");
        reveal_strlit(")");
        assert("rgb("@ =~= seq!['r', 'g', 'b', '(']);
        assert(", "@ =~= seq![',', ' ']);
        assert(")"@ =~= seq![')']);
    }
    let mut s = String::from_str("rgb(");
    let part = decimal_string(color.r as u64);
    s.append(part.as_str());
    s.append(", ");
    let part = decimal_string(color.g as u64);
    s.append(part.as_str());
    s.append(", ");
    let part = decimal_string(color.b as u64);
    s.append(part.as_str());
    s.append(")");
    assert(s@ =~= rgb_string_spec(color));
    s
}

} // verus!
