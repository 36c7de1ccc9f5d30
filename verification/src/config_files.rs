//! Configuration-file bookkeeping: the data carried for each configuration
//! file, the naming rule for new files, and the human-readable size format.

use vstd::prelude::*;
use crate::bytes::ascii_chars;
use crate::bytes::dec_digits;
use crate::bytes::dec2_digits;
use crate::bytes::is_dec_digit;
use crate::bytes::lemma_dec_digits_are_digits;
use crate::bytes::push_dec_u64;
use crate::bytes::push_dec2;
use crate::bytes::string_from_ascii;
use vstd::arithmetic::div_mod::lemma_div_is_ordered;

verus! {

/// A configuration file's content together with its identity.
#[derive(Debug)]
pub struct NginxConfig {
    pub name: String,
    pub path: String,
    pub content: String,
}

/// The outcome of the syntax check on one configuration file.
#[derive(Debug, Clone, Copy, PartialEq, Eq, Structural)]
pub enum ConfigFileStatus {
    Valid,
    Invalid,
    Unknown,
}

/// One configuration file as listed to callers.
#[derive(Debug)]
pub struct ConfigFile {
    pub name: String,
    pub type_: String,
    pub path: String,
    pub size: String,
    pub last_modified: String,
    pub status: ConfigFileStatus,
    pub content: Option<String>,
}

/// The file name a new configuration file gets: the requested name, with
/// the `.conf` extension added when it is not already there.
pub open spec fn conf_name_spec(name: Seq<char>) -> Seq<char> {
    if name.len() >= 5 && name.subrange(name.len() - 5, name.len() as int) == ".conf"@ {
        name
    } else {
        name + ".conf"@
    }
}

/// Whether `name` already ends in `.conf`.
fn has_conf_suffix(name: &String) -> (r: bool)
    ensures
        r == (name@.len() >= 5 && name@.subrange(name@.len() - 5, name@.len() as int)
            == ".conf"@),
{
    proof {
        reveal_strlit(".conf");
        assert(".conf"@.len() == 5);
    }
    let s = name.as_str();
    let n = s.unicode_len();
    if n < 5 {
        return false;
    }
    let ghost tail = name@.subrange(name@.len() - 5, name@.len() as int);
    let c0 = s.get_char(n - 5);
    if c0 != '.' {
        proof {
            assert(tail[0] != ".conf"@[0]);
        }
        return false;
    }
    let c1 = s.get_char(n - 4);
    if c1 != 'c' {
        proof {
            assert(tail[1] != ".conf"@[1]);
        }
        return false;
    }
    let c2 = s.get_char(n - 3);
    if c2 != 'o' {
        proof {
            assert(tail[2] != ".conf"@[2]);
        }
        return false;
    }
    let c3 = s.get_char(n - 2);
    if c3 != 'n' {
        proof {
            assert(tail[3] != ".conf"@[3]);
        }
        return false;
    }
    let c4 = s.get_char(n - 1);
    if c4 != 'f' {
        proof {
            assert(tail[4] != ".conf"@[4]);
        }
        return false;
    }
    proof {
        assert(tail =~= ".conf"@);
    }
    true
}

/// Applies the naming rule for a new configuration file.
pub fn config_file_name(name: String) -> (r: String)
    ensures
        r@ == conf_name_spec(name@),
{
    if has_conf_suffix(&name) {
        name
    } else {
        name.concat(".conf")
    }
}

/// A quotient rounded to the nearest integer, ties to even, as the standard
/// fixed-precision rendering rounds.
pub open spec fn round_half_even(num: int, den: int) -> int
    recommends
        den > 0,
{
    let q = num / den;
    let r2 = 2 * (num % den);
    if r2 > den {
        q + 1
    } else if r2 == den {
        q + q % 2
    } else {
        q
    }
}

/// Rounds `num / den` to the nearest integer, ties to even.
fn div_round_half_even(num: u64, den: u64) -> (r: u64)
    requires
        0 < den <= u64::MAX / 2,
        num / den < u64::MAX,
    ensures
        r == round_half_even(num as int, den as int),
{
    let q = num / den;
    let rem = num % den;
    if rem > den / 2 || (rem * 2 == den && q % 2 == 1) {
        proof {
            assert(2 * (num as int % den as int) > den ==> rem > den / 2 || rem * 2 == den);
        }
        q + 1
    } else {
        q
    }
}

/// The human-readable size of a file: bytes below one kibibyte, then
/// kibibytes and mebibytes with two fractional digits, rounded to nearest
/// with ties to even.
pub open spec fn file_size_chars(size: int) -> Seq<char>
    recommends
        size >= 0,
{
    if size < 1024 {
        ascii_chars(dec_digits(size) + seq![32u8, 66u8])
    } else if size < 1048576 {
        let h = round_half_even(size * 100, 1024);
        ascii_chars(dec_digits(h / 100) + seq![46u8] + dec2_digits(h % 100) + seq![32u8, 75u8, 66u8])
    } else {
        let h = round_half_even(size * 100, 1048576);
        ascii_chars(dec_digits(h / 100) + seq![46u8] + dec2_digits(h % 100) + seq![32u8, 77u8, 66u8])
    }
}

/// The ASCII rendering of `h` hundredths followed by a unit suffix.
fn push_hundredths(h: u64, out: &mut Vec<u8>)
    ensures
        final(out)@ == old(out)@ + dec_digits(h as int / 100) + seq![46u8] + dec2_digits(
            h as int % 100,
        ),
{
    push_dec_u64(h / 100, out);
    out.push(46u8);
    push_dec2(h % 100, out);
    proof {
        assert(final(out)@ =~= old(out)@ + dec_digits(h as int / 100) + seq![46u8] + dec2_digits(
            h as int % 100,
        ));
    }
}

/// Renders a byte count for display.
pub fn format_file_size(size_in_bytes: u64) -> (r: String)
    ensures
        r@ == file_size_chars(size_in_bytes as int),
{
    let mut buf: Vec<u8> = Vec::new();
    if size_in_bytes < 1024 {
        push_dec_u64(size_in_bytes, &mut buf);
        buf.push(32u8);
        buf.push(66u8);
        proof {
            lemma_dec_digits_are_digits(size_in_bytes as int);
            assert(buf@ =~= dec_digits(size_in_bytes as int) + seq![32u8, 66u8]);
            assert forall|i: int| 0 <= i < buf@.len() implies #[trigger] buf@[i] < 128 by {
                let a = dec_digits(size_in_bytes as int);
                if i < a.len() {
                    assert(is_dec_digit(a[i]));
                }
            }
        }
    } else if size_in_bytes < 1048576 {
        let h = div_round_half_even(size_in_bytes * 100, 1024);
        push_hundredths(h, &mut buf);
        buf.push(32u8);
        buf.push(75u8);
        buf.push(66u8);
        proof {
            lemma_dec_digits_are_digits(h as int / 100);
            assert(buf@ =~= dec_digits(h as int / 100) + seq![46u8] + dec2_digits(h as int % 100)
                + seq![32u8, 75u8, 66u8]);
            assert forall|i: int| 0 <= i < buf@.len() implies #[trigger] buf@[i] < 128 by {
                let a = dec_digits(h as int / 100);
                if i < a.len() {
                    assert(is_dec_digit(a[i]));
                }
            }
        }
    } else {
        let num: u128 = (size_in_bytes as u128) * 100;
        let den: u128 = 1048576;
        let q: u128 = num / den;
        let rem: u128 = num % den;
        proof {
            lemma_div_is_ordered(num as int, u64::MAX as int * 100, den as int);
        }
        let h: u64 = if rem > den / 2 || (rem * 2 == den && q % 2 == 1) {
            (q + 1) as u64
        } else {
            q as u64
        };
        proof {
            assert(h == round_half_even(size_in_bytes as int * 100, 1048576));
        }
        push_hundredths(h, &mut buf);
        buf.push(32u8);
        buf.push(77u8);
        buf.push(66u8);
        proof {
            lemma_dec_digits_are_digits(h as int / 100);
            assert(buf@ =~= dec_digits(h as int / 100) + seq![46u8] + dec2_digits(h as int % 100)
                + seq![32u8, 77u8, 66u8]);
            assert forall|i: int| 0 <= i < buf@.len() implies #[trigger] buf@[i] < 128 by {
                let a = dec_digits(h as int / 100);
                if i < a.len() {
                    assert(is_dec_digit(a[i]));
                }
            }
        }
    }
    string_from_ascii(buf)
}

} // verus!
