//! The metrics collector: parsing of the server's plain-text status page
//! into connection counters, parsing of OS performance-counter output, and
//! the fixed-point percentage formatting used by snapshots.
//!
//! Every function here degrades to zero instead of failing, so that one bad
//! source can never abort a status snapshot.

use vstd::prelude::*;
use crate::bytes::all_digits;
use crate::bytes::ascii_chars;
use crate::bytes::dec_value;
use crate::bytes::dec_digits;
use crate::bytes::field_until_byte;
use crate::bytes::lines_of;
use crate::bytes::parse_u64;
use crate::bytes::seq_views;
use crate::bytes::split_lines;
use crate::bytes::starts_with;
use crate::bytes::starts_with_bytes;
use crate::bytes::contains_seq;
use crate::bytes::contains_bytes;
use crate::bytes::tokens_of;
use crate::bytes::tokens_spec;
use crate::bytes::trim_bytes;
use crate::bytes::trim_spec;
use crate::bytes::upto_byte;
use crate::bytes::is_dec_digit;
use crate::bytes::lemma_dec_digits_are_digits;
use crate::bytes::push_dec_u64;
use crate::bytes::string_from_ascii;
use crate::logs::opt_bytes;
use vstd::arithmetic::div_mod::lemma_div_is_ordered;
use vstd::arithmetic::div_mod::lemma_div_multiples_vanish_fancy;
use vstd::arithmetic::div_mod::lemma_div_by_multiple;
use vstd::arithmetic::div_mod::lemma_mod_multiples_basic;
use vstd::arithmetic::mul::lemma_mul_inequality;

verus! {

/// The label that opens the active-connections line of the status page.
pub open spec fn active_label() -> Seq<u8> {
    seq![65u8, 99u8, 116u8, 105u8, 118u8, 101u8, 32u8, 99u8, 111u8, 110u8, 110u8, 101u8, 99u8, 116u8, 105u8, 111u8, 110u8, 115u8, 58u8]
}

/// The label of the cumulative-accepts line of the status page.
pub open spec fn accepts_label() -> Seq<u8> {
    seq![97u8, 99u8, 99u8, 101u8, 112u8, 116u8, 115u8]
}

/// Builds the bytes of `Active connections:`.
fn active_label_vec() -> (r: Vec<u8>)
    ensures
        r@ == active_label(),
{
    let mut v: Vec<u8> = Vec::new();
    v.push(65u8);
    v.push(99u8);
    v.push(116u8);
    v.push(105u8);
    v.push(118u8);
    v.push(101u8);
    v.push(32u8);
    v.push(99u8);
    v.push(111u8);
    v.push(110u8);
    v.push(110u8);
    v.push(101u8);
    v.push(99u8);
    v.push(116u8);
    v.push(105u8);
    v.push(111u8);
    v.push(110u8);
    v.push(115u8);
    v.push(58u8);
    proof {
        assert(v@ =~= active_label());
    }
    v
}

/// Builds the bytes of `accepts`.
fn accepts_label_vec() -> (r: Vec<u8>)
    ensures
        r@ == accepts_label(),
{
    let mut v: Vec<u8> = Vec::new();
    v.push(97u8);
    v.push(99u8);
    v.push(99u8);
    v.push(101u8);
    v.push(112u8);
    v.push(116u8);
    v.push(115u8);
    proof {
        assert(v@ =~= accepts_label());
    }
    v
}

/// The number a counter field denotes, when it is a non-empty digit string
/// whose value fits the platform's word size.
pub open spec fn parsed_field(f: Seq<u8>) -> Option<int> {
    if f.len() > 0 && all_digits(f) && dec_value(f) <= usize::MAX {
        Some(dec_value(f))
    } else {
        None
    }
}

/// Parses a counter field into a machine word.
fn parse_usize_field(f: &Vec<u8>) -> (r: Option<usize>)
    ensures
        match parsed_field(f@) {
            Some(v) => r is Some && r->0 == v,
            None => r is None,
        },
{
    match parse_u64(f) {
        Some(v) => {
            if v <= usize::MAX as u64 {
                Some(v as usize)
            } else {
                None
            }
        },
        None => None,
    }
}

/// The connection count a status-page line yields: the line must open with
/// the active-connections label, and its next colon-separated field must be
/// a number.
pub open spec fn active_line_value(l: Seq<u8>) -> Option<int> {
    if starts_with(l, active_label()) {
        parsed_field(trim_spec(upto_byte(l.skip(active_label().len() as int), 58)))
    } else {
        None
    }
}

/// The first line of the page that yields an active-connections count.
pub open spec fn scan_active(ls: Seq<Seq<u8>>) -> Option<int>
    decreases ls.len(),
{
    if ls.len() == 0 {
        None
    } else if active_line_value(ls.first()) is Some {
        active_line_value(ls.first())
    } else {
        scan_active(ls.drop_first())
    }
}

/// Evaluates one line against the active-connections shape.
fn active_line(l: &Vec<u8>) -> (r: Option<usize>)
    ensures
        match active_line_value(l@) {
            Some(v) => r is Some && r->0 == v,
            None => r is None,
        },
{
    let lab = active_label_vec();
    if starts_with_bytes(l, &lab) {
        let f = field_until_byte(l, lab.len(), 58u8);
        let t = trim_bytes(&f);
        parse_usize_field(&t)
    } else {
        None
    }
}

/// The cumulative accepted-connections count a line yields: the line must
/// contain the accepts label and its second whitespace-separated token must
/// be a number.
pub open spec fn total_line_value(l: Seq<u8>) -> Option<int> {
    if contains_seq(l, accepts_label()) {
        let ts = tokens_spec(l);
        if ts.len() >= 2 {
            parsed_field(ts[1])
        } else {
            None
        }
    } else {
        None
    }
}

/// The first line of the page that yields an accepted-connections count.
pub open spec fn scan_total(ls: Seq<Seq<u8>>) -> Option<int>
    decreases ls.len(),
{
    if ls.len() == 0 {
        None
    } else if total_line_value(ls.first()) is Some {
        total_line_value(ls.first())
    } else {
        scan_total(ls.drop_first())
    }
}

/// Evaluates one line against the accepts shape.
fn total_line(l: &Vec<u8>) -> (r: Option<usize>)
    ensures
        match total_line_value(l@) {
            Some(v) => r is Some && r->0 == v,
            None => r is None,
        },
{
    let lab = accepts_label_vec();
    if contains_bytes(l, &lab) {
        let ts = tokens_of(l);
        if ts.len() >= 2 {
            proof {
                assert(seq_views(ts@)[1] == ts@[1]@);
            }
            parse_usize_field(&ts[1])
        } else {
            None
        }
    } else {
        None
    }
}

/// The cumulative request count a line yields: the line must consist of
/// exactly three whitespace-separated tokens, the third being a number.
pub open spec fn requests_line_value(l: Seq<u8>) -> Option<int> {
    let ts = tokens_spec(l);
    if ts.len() == 3 {
        parsed_field(ts[2])
    } else {
        None
    }
}

/// The first line of the page that yields a request count.
pub open spec fn scan_requests(ls: Seq<Seq<u8>>) -> Option<int>
    decreases ls.len(),
{
    if ls.len() == 0 {
        None
    } else if requests_line_value(ls.first()) is Some {
        requests_line_value(ls.first())
    } else {
        scan_requests(ls.drop_first())
    }
}

/// Evaluates one line against the three-field summary shape.
fn requests_line(l: &Vec<u8>) -> (r: Option<usize>)
    ensures
        match requests_line_value(l@) {
            Some(v) => r is Some && r->0 == v,
            None => r is None,
        },
{
    let ts = tokens_of(l);
    if ts.len() == 3 {
        proof {
            assert(seq_views(ts@)[2] == ts@[2]@);
        }
        parse_usize_field(&ts[2])
    } else {
        None
    }
}

/// The active-connections count of a status snapshot: zero when the server
/// is not running, the page is unreachable, or no line parses.
pub fn get_active_connections(running: bool, body: &Option<Vec<u8>>) -> (r: usize)
    ensures
        !running ==> r == 0,
        running ==> match opt_bytes(*body) {
            Some(b) => match scan_active(split_lines(b)) {
                Some(v) => r == v,
                None => r == 0,
            },
            None => r == 0,
        },
{
    if !running {
        return 0;
    }
    match body {
        None => 0,
        Some(b) => {
            let lines = lines_of(b);
            let mut i: usize = 0;
            proof {
                assert(seq_views(lines@).skip(0) =~= seq_views(lines@));
            }
            while i < lines.len()
                invariant
                    running,
                    opt_bytes(*body) == Some(b@),
                    i <= lines@.len(),
                    seq_views(lines@) == split_lines(b@),
                    scan_active(seq_views(lines@)) == scan_active(
                        seq_views(lines@).skip(i as int),
                    ),
                decreases lines@.len() - i,
            {
                proof {
                    assert(seq_views(lines@).skip(i as int).drop_first() =~= seq_views(
                        lines@,
                    ).skip(i + 1));
                    assert(seq_views(lines@).skip(i as int).first() == lines@[i as int]@);
                }
                match active_line(&lines[i]) {
                    Some(v) => {
                        return v;
                    },
                    None => {},
                }
                i += 1;
            }
            0
        },
    }
}

/// The cumulative accepted-connections count of a status snapshot: zero when
/// the server is not running, the page is unreachable, or no line parses.
pub fn get_total_connections(running: bool, body: &Option<Vec<u8>>) -> (r: usize)
    ensures
        !running ==> r == 0,
        running ==> match opt_bytes(*body) {
            Some(b) => match scan_total(split_lines(b)) {
                Some(v) => r == v,
                None => r == 0,
            },
            None => r == 0,
        },
{
    if !running {
        return 0;
    }
    match body {
        None => 0,
        Some(b) => {
            let lines = lines_of(b);
            let mut i: usize = 0;
            proof {
                assert(seq_views(lines@).skip(0) =~= seq_views(lines@));
            }
            while i < lines.len()
                invariant
                    running,
                    opt_bytes(*body) == Some(b@),
                    i <= lines@.len(),
                    seq_views(lines@) == split_lines(b@),
                    scan_total(seq_views(lines@)) == scan_total(seq_views(lines@).skip(i as int)),
                decreases lines@.len() - i,
            {
                proof {
                    assert(seq_views(lines@).skip(i as int).drop_first() =~= seq_views(
                        lines@,
                    ).skip(i + 1));
                    assert(seq_views(lines@).skip(i as int).first() == lines@[i as int]@);
                }
                match total_line(&lines[i]) {
                    Some(v) => {
                        return v;
                    },
                    None => {},
                }
                i += 1;
            }
            0
        },
    }
}

/// The requests-per-second estimate of a status snapshot: the cumulative
/// request count of the three-field summary line divided by a fixed
/// sixty-second window. This is an approximation of the true rate, not a
/// measured one. Zero when the server is not running, the page is
/// unreachable, or no line parses.
pub fn get_requests_per_second(running: bool, body: &Option<Vec<u8>>) -> (r: usize)
    ensures
        !running ==> r == 0,
        running ==> match opt_bytes(*body) {
            Some(b) => match scan_requests(split_lines(b)) {
                Some(v) => r == v / 60,
                None => r == 0,
            },
            None => r == 0,
        },
{
    if !running {
        return 0;
    }
    match body {
        None => 0,
        Some(b) => {
            let lines = lines_of(b);
            let mut i: usize = 0;
            proof {
                assert(seq_views(lines@).skip(0) =~= seq_views(lines@));
            }
            while i < lines.len()
                invariant
                    running,
                    opt_bytes(*body) == Some(b@),
                    i <= lines@.len(),
                    seq_views(lines@) == split_lines(b@),
                    scan_requests(seq_views(lines@)) == scan_requests(
                        seq_views(lines@).skip(i as int),
                    ),
                decreases lines@.len() - i,
            {
                proof {
                    assert(seq_views(lines@).skip(i as int).drop_first() =~= seq_views(
                        lines@,
                    ).skip(i + 1));
                    assert(seq_views(lines@).skip(i as int).first() == lines@[i as int]@);
                }
                match requests_line(&lines[i]) {
                    Some(v) => {
                        return v / 60;
                    },
                    None => {},
                }
                i += 1;
            }
            0
        },
    }
}

/// The three connection figures of one snapshot pass, each independently
/// degraded to zero: active connections, cumulative accepted connections,
/// and the requests-per-second estimate.
pub fn get_connection_info(running: bool, body: &Option<Vec<u8>>) -> (r: (usize, usize, usize))
    ensures
        !running ==> r == (0usize, 0usize, 0usize),
        running ==> match opt_bytes(*body) {
            Some(b) => {
                &&& r.0 == match scan_active(split_lines(b)) {
                    Some(v) => v,
                    None => 0,
                }
                &&& r.1 == match scan_total(split_lines(b)) {
                    Some(v) => v,
                    None => 0,
                }
                &&& r.2 == match scan_requests(split_lines(b)) {
                    Some(v) => v / 60,
                    None => 0,
                }
            },
            None => r == (0usize, 0usize, 0usize),
        },
{
    (
        get_active_connections(running, body),
        get_total_connections(running, body),
        get_requests_per_second(running, body),
    )
}

/// The counter value a performance query's output yields: its second line,
/// trimmed, as a number (the first line is the column heading).
pub open spec fn counter_value(out: Seq<u8>) -> Option<int> {
    let ls = split_lines(out);
    if ls.len() >= 2 {
        let f = trim_spec(ls[1]);
        if f.len() > 0 && all_digits(f) && dec_value(f) <= u64::MAX {
            Some(dec_value(f))
        } else {
            None
        }
    } else {
        None
    }
}

/// Parses the value line of a performance-counter query.
pub fn parse_counter(output: &Vec<u8>) -> (r: Option<u64>)
    ensures
        match counter_value(output@) {
            Some(v) => r is Some && r->0 == v,
            None => r is None,
        },
{
    let lines = lines_of(output);
    if lines.len() >= 2 {
        proof {
            assert(seq_views(lines@)[1] == lines@[1]@);
        }
        let t = trim_bytes(&lines[1]);
        parse_u64(&t)
    } else {
        None
    }
}

/// The processor-time percentage of the supervised process, read from a
/// performance-counter query; absence of a usable value yields zero, not an
/// error.
pub fn get_cpu_usage(output: &Vec<u8>) -> (r: u64)
    ensures
        match counter_value(output@) {
            Some(v) => r == v,
            None => r == 0,
        },
{
    match parse_counter(output) {
        Some(v) => v,
        None => 0,
    }
}

/// `part` of `total`, in rounded tenths of a percent.
pub open spec fn pct_tenths(part: int, total: int) -> int
    recommends
        0 < total,
{
    (part * 1000 + total / 2) / total
}

/// The memory percentage, in tenths: working-set size over total physical
/// memory. Zero when either counter is missing, the total is zero, or the
/// working set exceeds the reported total.
pub open spec fn memory_tenths(total_out: Seq<u8>, proc_out: Seq<u8>) -> int {
    match (counter_value(total_out), counter_value(proc_out)) {
        (Some(t), Some(p)) => if 0 < t && p <= t {
            pct_tenths(p, t)
        } else {
            0
        },
        _ => 0,
    }
}

/// Computes the memory percentage in tenths from the two counter queries.
pub fn get_memory_usage(total_output: &Vec<u8>, process_output: &Vec<u8>) -> (r: u64)
    ensures
        r == memory_tenths(total_output@, process_output@),
{
    let total = parse_counter(total_output);
    let process = parse_counter(process_output);
    match (total, process) {
        (Some(t), Some(p)) => {
            if 0 < t && p <= t {
                let num: u128 = (p as u128) * 1000 + ((t / 2) as u128);
                let q: u128 = num / (t as u128);
                proof {
                    lemma_mul_inequality(p as int, t as int, 1000);
                    lemma_div_is_ordered(
                        p as int * 1000 + (t as int) / 2,
                        t as int * 1000 + (t as int) / 2,
                        t as int,
                    );
                    lemma_div_multiples_vanish_fancy(1000, (t as int) / 2, t as int);
                    assert((t as int) * 1000 + (t as int) / 2 == (t as int) * 1000 + ((t as int)
                        / 2));
                    assert(q <= 1000);
                }
                q as u64
            } else {
                0
            }
        },
        _ => 0,
    }
}

/// The characters of a tenths-of-a-percent value `t`, written as a decimal
/// with one fractional digit.
pub open spec fn tenths_chars(t: int) -> Seq<char>
    recommends
        t >= 0,
{
    ascii_chars(dec_digits(t / 10) + seq![46u8] + dec_digits(t % 10))
}

/// Renders a tenths value as `whole.fraction`.
pub fn format_tenths(t: u64) -> (r: String)
    ensures
        r@ == tenths_chars(t as int),
{
    let mut buf: Vec<u8> = Vec::new();
    push_dec_u64(t / 10, &mut buf);
    buf.push(46u8);
    push_dec_u64(t % 10, &mut buf);
    proof {
        lemma_dec_digits_are_digits(t as int / 10);
        lemma_dec_digits_are_digits(t as int % 10);
        assert(buf@ =~= dec_digits(t as int / 10) + seq![46u8] + dec_digits(t as int % 10));
        assert forall|i: int| 0 <= i < buf@.len() implies #[trigger] buf@[i] < 128 by {
            let a = dec_digits(t as int / 10);
            let b = dec_digits(t as int % 10);
            if i < a.len() {
                assert(is_dec_digit(a[i]));
            } else if i == a.len() {
            } else {
                assert(is_dec_digit(b[i - a.len() - 1]));
            }
        }
    }
    string_from_ascii(buf)
}

/// Renders a whole percentage with a zero fractional digit, as the
/// processor counter is reported in whole percents.
pub fn format_percent_whole(v: u64) -> (r: String)
    ensures
        r@ == tenths_chars(v as int * 10),
{
    let mut buf: Vec<u8> = Vec::new();
    push_dec_u64(v, &mut buf);
    buf.push(46u8);
    buf.push(48u8);
    proof {
        lemma_div_by_multiple(v as int, 10);
        lemma_mod_multiples_basic(v as int, 10);
        lemma_dec_digits_are_digits(v as int);
        assert(dec_digits(0) =~= seq![48u8]);
        assert(buf@ =~= dec_digits(v as int * 10 / 10) + seq![46u8] + dec_digits(
            v as int * 10 % 10,
        ));
        assert forall|i: int| 0 <= i < buf@.len() implies #[trigger] buf@[i] < 128 by {
            let a = dec_digits(v as int);
            if i < a.len() {
                assert(is_dec_digit(a[i]));
            }
        }
    }
    string_from_ascii(buf)
}

/// The formatted processor and memory percentages of one snapshot pass;
/// a failed sub-query degrades its own figure to zero.
pub fn get_performance_metrics(
    cpu_output: &Vec<u8>,
    total_mem_output: &Vec<u8>,
    process_mem_output: &Vec<u8>,
) -> (r: (String, String))
    ensures
        r.0@ == tenths_chars(
            (match counter_value(cpu_output@) {
                Some(v) => v,
                None => 0,
            }) * 10,
        ),
        r.1@ == tenths_chars(memory_tenths(total_mem_output@, process_mem_output@)),
{
    let cpu = get_cpu_usage(cpu_output);
    let mem = get_memory_usage(total_mem_output, process_mem_output);
    (format_percent_whole(cpu), format_tenths(mem))
}

} // verus!
