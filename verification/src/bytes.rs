//! Byte-sequence utilities: substring search, whitespace handling, line and
//! token splitting, and decimal parsing and formatting.
//!
//! Log files, process listings and the plain-text status page are all treated
//! as byte strings, so the logic that inspects them is written over `Vec<u8>`
//! with specifications over `Seq<u8>`.

use vstd::prelude::*;

verus! {

/// `needle` occurs in `hay` starting at offset `i`.
pub open spec fn contains_at(hay: Seq<u8>, needle: Seq<u8>, i: int) -> bool {
    0 <= i && i + needle.len() <= hay.len() && hay.subrange(i, i + needle.len()) == needle
}

/// `needle` occurs somewhere in `hay` as a contiguous run.
pub open spec fn contains_seq(hay: Seq<u8>, needle: Seq<u8>) -> bool {
    exists|i: int| contains_at(hay, needle, i)
}

/// Checks whether `needle` occurs in `hay` at offset `i`.
fn matches_at(hay: &Vec<u8>, needle: &Vec<u8>, i: usize) -> (r: bool)
    requires
        i + needle@.len() <= hay@.len(),
    ensures
        r == contains_at(hay@, needle@, i as int),
{
    let hay_len = hay.len();
    let mut j: usize = 0;
    while j < needle.len()
        invariant
            j <= needle@.len(),
            i + needle@.len() <= hay@.len(),
            hay@.len() == hay_len,
            forall|k: int| 0 <= k < j ==> hay@[i + k] == needle@[k],
        decreases needle@.len() - j,
    {
        if hay[i + j] != needle[j] {
            proof {
                assert(hay@.subrange(i as int, i + needle@.len())[j as int] != needle@[j as int]);
            }
            return false;
        }
        j += 1;
    }
    proof {
        assert(hay@.subrange(i as int, i + needle@.len()) =~= needle@);
    }
    true
}

/// Naive substring search over bytes.
pub fn contains_bytes(hay: &Vec<u8>, needle: &Vec<u8>) -> (r: bool)
    ensures
        r == contains_seq(hay@, needle@),
{
    if needle.len() > hay.len() {
        proof {
            assert(forall|i: int| !contains_at(hay@, needle@, i));
        }
        return false;
    }
    let last = hay.len() - needle.len();
    let mut i: usize = 0;
    while i < last
        invariant
            last == hay@.len() - needle@.len(),
            i <= last,
            forall|k: int| 0 <= k < i ==> !contains_at(hay@, needle@, k),
        decreases last - i,
    {
        if matches_at(hay, needle, i) {
            return true;
        }
        i += 1;
    }
    if matches_at(hay, needle, last) {
        return true;
    }
    proof {
        assert(forall|k: int| contains_at(hay@, needle@, k) ==> 0 <= k <= last);
    }
    false
}

/// `s` begins with `prefix`.
pub open spec fn starts_with(s: Seq<u8>, prefix: Seq<u8>) -> bool {
    contains_at(s, prefix, 0)
}

/// Checks whether `s` begins with `prefix`.
pub fn starts_with_bytes(s: &Vec<u8>, prefix: &Vec<u8>) -> (r: bool)
    ensures
        r == starts_with(s@, prefix@),
{
    if prefix.len() > s.len() {
        return false;
    }
    matches_at(s, prefix, 0)
}

/// A fresh vector holding the same bytes.
pub fn copy_bytes(v: &Vec<u8>) -> (r: Vec<u8>)
    ensures
        r@ == v@,
{
    let mut out: Vec<u8> = Vec::new();
    let mut i: usize = 0;
    while i < v.len()
        invariant
            i <= v@.len(),
            out@ == v@.take(i as int),
        decreases v@.len() - i,
    {
        out.push(v[i]);
        proof {
            assert(out@ =~= v@.take(i + 1));
        }
        i += 1;
    }
    proof {
        assert(v@.take(v@.len() as int) =~= v@);
    }
    out
}

/// ASCII whitespace, the only kind the supervised tools emit.
pub open spec fn is_ws(b: u8) -> bool {
    b == 32 || b == 9 || b == 10 || b == 13
}

fn is_ws_byte(b: u8) -> (r: bool)
    ensures
        r == is_ws(b),
{
    b == 32u8 || b == 9u8 || b == 10u8 || b == 13u8
}

/// `s` without leading whitespace.
pub open spec fn trim_start_spec(s: Seq<u8>) -> Seq<u8>
    decreases s.len(),
{
    if s.len() > 0 && is_ws(s.first()) {
        trim_start_spec(s.drop_first())
    } else {
        s
    }
}

/// `s` without trailing whitespace.
pub open spec fn trim_end_spec(s: Seq<u8>) -> Seq<u8>
    decreases s.len(),
{
    if s.len() > 0 && is_ws(s.last()) {
        trim_end_spec(s.drop_last())
    } else {
        s
    }
}

/// `s` without leading or trailing whitespace.
pub open spec fn trim_spec(s: Seq<u8>) -> Seq<u8> {
    trim_end_spec(trim_start_spec(s))
}

/// `s` with leading and trailing whitespace removed.
pub fn trim_bytes(s: &Vec<u8>) -> (r: Vec<u8>)
    ensures
        r@ == trim_spec(s@),
{
    let n = s.len();
    proof {
        assert(s@.skip(0) =~= s@);
    }
    let mut start: usize = 0;
    while start < n && is_ws_byte(s[start])
        invariant
            start <= n,
            n == s@.len(),
            trim_start_spec(s@) == trim_start_spec(s@.skip(start as int)),
        decreases n - start,
    {
        proof {
            assert(s@.skip(start as int).drop_first() =~= s@.skip(start + 1));
        }
        start += 1;
    }
    proof {
        assert(trim_start_spec(s@) == s@.skip(start as int));
    }
    let ghost t = s@.skip(start as int);
    proof {
        assert(t.take(n - start) =~= t);
    }
    let mut end: usize = n;
    while end > start && is_ws_byte(s[end - 1])
        invariant
            start <= end <= n,
            n == s@.len(),
            t == s@.skip(start as int),
            trim_end_spec(t) == trim_end_spec(t.take(end - start)),
        decreases end,
    {
        proof {
            assert(t.take(end - start).drop_last() =~= t.take(end - start - 1));
            assert(t.take(end - start).last() == s@[end - 1]);
        }
        end -= 1;
    }
    proof {
        if end > start {
            assert(t.take(end - start).last() == s@[end - 1]);
        }
        assert(trim_end_spec(t) == t.take(end - start));
    }
    let mut out: Vec<u8> = Vec::new();
    let mut i: usize = start;
    while i < end
        invariant
            start <= i <= end <= n,
            n == s@.len(),
            out@ == s@.subrange(start as int, i as int),
        decreases end - i,
    {
        out.push(s[i]);
        proof {
            assert(out@ =~= s@.subrange(start as int, i + 1));
        }
        i += 1;
    }
    proof {
        assert(out@ =~= t.take(end - start));
    }
    out
}

/// A decimal digit byte.
pub open spec fn is_dec_digit(b: u8) -> bool {
    48 <= b <= 57
}

/// Every byte of `s` is a decimal digit.
pub open spec fn all_digits(s: Seq<u8>) -> bool {
    forall|i: int| 0 <= i < s.len() ==> is_dec_digit(#[trigger] s[i])
}

/// The number denoted by the digit string `s` (most significant first).
pub open spec fn dec_value(s: Seq<u8>) -> int
    decreases s.len(),
{
    if s.len() == 0 {
        0
    } else {
        dec_value(s.drop_last()) * 10 + (s.last() - 48)
    }
}

pub proof fn lemma_dec_value_nonneg(s: Seq<u8>)
    requires
        all_digits(s),
    ensures
        dec_value(s) >= 0,
    decreases s.len(),
{
    if s.len() > 0 {
        assert(all_digits(s.drop_last())) by {
            assert(forall|i: int|
                0 <= i < s.len() - 1 ==> is_dec_digit(#[trigger] s.drop_last()[i]) == is_dec_digit(
                    s[i],
                ));
        }
        lemma_dec_value_nonneg(s.drop_last());
    }
}

/// Extending a digit string multiplies its value by ten and adds the new digit,
/// so the value never decreases along a prefix.
pub proof fn lemma_dec_value_prefix(s: Seq<u8>, i: int)
    requires
        all_digits(s),
        0 <= i <= s.len(),
    ensures
        dec_value(s.take(i)) <= dec_value(s),
    decreases s.len() - i,
{
    if i < s.len() {
        lemma_dec_value_prefix(s, i + 1);
        assert(s.take(i + 1).drop_last() =~= s.take(i));
        assert(all_digits(s.take(i))) by {
            assert(forall|k: int|
                0 <= k < i ==> is_dec_digit(#[trigger] s.take(i)[k]) == is_dec_digit(s[k]));
        }
        lemma_dec_value_nonneg(s.take(i));
        assert(dec_value(s.take(i + 1)) == dec_value(s.take(i)) * 10 + (s[i] - 48));
    } else {
        assert(s.take(i) =~= s);
    }
}

/// Parses `s` as an unsigned decimal number.
///
/// Succeeds exactly when `s` is a non-empty string of digits whose value fits
/// in a `u64`, mirroring the standard library's unsigned `parse`.
pub fn parse_u64(s: &Vec<u8>) -> (r: Option<u64>)
    ensures
        r is Some <==> s@.len() > 0 && all_digits(s@) && dec_value(s@) <= u64::MAX,
        r is Some ==> r->0 == dec_value(s@),
{
    let n = s.len();
    if n == 0 {
        return None;
    }
    let mut acc: u64 = 0;
    let mut i: usize = 0;
    while i < n
        invariant
            0 < n == s@.len(),
            i <= n,
            all_digits(s@.take(i as int)),
            acc == dec_value(s@.take(i as int)),
        decreases n - i,
    {
        let b = s[i];
        if b < 48u8 || b > 57u8 {
            return None;
        }
        let d = (b - 48u8) as u64;
        if acc > (u64::MAX - d) / 10 {
            proof {
                assert(s@.take(i + 1).drop_last() =~= s@.take(i as int));
                assert(all_digits(s@.take(i + 1)));
                assert(dec_value(s@.take(i + 1)) == acc * 10 + d);
                assert(dec_value(s@.take(i + 1)) > u64::MAX);
                if all_digits(s@) {
                    lemma_dec_value_prefix(s@, i + 1);
                }
            }
            return None;
        }
        proof {
            assert(s@.take(i + 1).drop_last() =~= s@.take(i as int));
        }
        acc = acc * 10 + d;
        i += 1;
    }
    proof {
        assert(s@.take(n as int) =~= s@);
    }
    Some(acc)
}

/// The decimal digit string of a non-negative number.
pub open spec fn dec_digits(n: int) -> Seq<u8>
    recommends
        n >= 0,
    decreases n,
{
    if n < 10 {
        seq![(48 + n) as u8]
    } else {
        dec_digits(n / 10).push((48 + n % 10) as u8)
    }
}

/// Appends the decimal digits of `n` to `out`.
pub fn push_dec_u64(n: u64, out: &mut Vec<u8>)
    ensures
        final(out)@ == old(out)@ + dec_digits(n as int),
    decreases n,
{
    if n >= 10 {
        push_dec_u64(n / 10, out);
    }
    out.push(48u8 + (n % 10) as u8);
    proof {
        if n >= 10 {
            assert(final(out)@ =~= old(out)@ + dec_digits(n as int));
        } else {
            assert(final(out)@ =~= old(out)@ + dec_digits(n as int));
        }
    }
}

/// The two-digit, zero-padded decimal string of `n < 100`.
pub open spec fn dec2_digits(n: int) -> Seq<u8>
    recommends
        0 <= n < 100,
{
    seq![(48 + n / 10) as u8, (48 + n % 10) as u8]
}

/// Appends the two-digit zero-padded decimal form of `n` to `out`.
pub fn push_dec2(n: u64, out: &mut Vec<u8>)
    requires
        n < 100,
    ensures
        final(out)@ == old(out)@ + dec2_digits(n as int),
{
    out.push(48u8 + (n / 10) as u8);
    out.push(48u8 + (n % 10) as u8);
    proof {
        assert(final(out)@ =~= old(out)@ + dec2_digits(n as int));
    }
}

/// The views of a sequence of byte vectors.
pub open spec fn seq_views(v: Seq<Vec<u8>>) -> Seq<Seq<u8>> {
    Seq::new(v.len(), |i: int| v[i]@)
}

/// A line with one trailing carriage return removed, as the line splitter
/// does for Windows line endings.
pub open spec fn strip_cr(l: Seq<u8>) -> Seq<u8> {
    if l.len() > 0 && l.last() == 13 {
        l.drop_last()
    } else {
        l
    }
}

/// Splitting `s` into lines, given a line under construction `cur` and the
/// finished lines `acc`: each newline byte finishes a line (with a trailing
/// carriage return removed); an unterminated final line is kept, and a
/// trailing newline adds no empty line.
pub open spec fn split_lines_from(s: Seq<u8>, cur: Seq<u8>, acc: Seq<Seq<u8>>) -> Seq<Seq<u8>>
    decreases s.len(),
{
    if s.len() == 0 {
        if cur.len() == 0 {
            acc
        } else {
            acc.push(cur)
        }
    } else if s.first() == 10 {
        split_lines_from(s.drop_first(), Seq::empty(), acc.push(strip_cr(cur)))
    } else {
        split_lines_from(s.drop_first(), cur.push(s.first()), acc)
    }
}

/// The lines of `s`, split at newline bytes.
pub open spec fn split_lines(s: Seq<u8>) -> Seq<Seq<u8>> {
    split_lines_from(s, Seq::empty(), Seq::empty())
}

/// Splits `content` into lines: split at newlines, drop one carriage
/// return before each newline, and add no empty final line for
/// newline-terminated content.
pub fn lines_of(content: &Vec<u8>) -> (r: Vec<Vec<u8>>)
    ensures
        seq_views(r@) == split_lines(content@),
{
    let n = content.len();
    let mut cur: Vec<u8> = Vec::new();
    let mut acc: Vec<Vec<u8>> = Vec::new();
    proof {
        assert(content@.skip(0) =~= content@);
        assert(seq_views(acc@) =~= Seq::<Seq<u8>>::empty());
    }
    let mut i: usize = 0;
    while i < n
        invariant
            i <= n,
            n == content@.len(),
            split_lines(content@) == split_lines_from(
                content@.skip(i as int),
                cur@,
                seq_views(acc@),
            ),
        decreases n - i,
    {
        let b = content[i];
        proof {
            assert(content@.skip(i as int).drop_first() =~= content@.skip(i + 1));
            assert(content@.skip(i as int).first() == content@[i as int]);
        }
        if b == 10u8 {
            let ghost cur0 = cur@;
            let ghost acc0 = acc@;
            if cur.len() > 0 && cur[cur.len() - 1] == 13u8 {
                cur.pop();
            }
            proof {
                assert(cur@ == strip_cr(cur0));
            }
            acc.push(cur);
            cur = Vec::new();
            proof {
                assert(seq_views(acc@) =~= seq_views(acc0).push(strip_cr(cur0)));
            }
        } else {
            cur.push(b);
        }
        i += 1;
    }
    if cur.len() > 0 {
        let ghost acc0 = acc@;
        let ghost cur0 = cur@;
        acc.push(cur);
        proof {
            assert(seq_views(acc@) =~= seq_views(acc0).push(cur0));
        }
    }
    acc
}

/// Splitting `s` into whitespace-separated tokens, given a token under
/// construction `cur` and the finished tokens `acc`; runs of whitespace
/// produce no empty tokens.
pub open spec fn tokens_from(s: Seq<u8>, cur: Seq<u8>, acc: Seq<Seq<u8>>) -> Seq<Seq<u8>>
    decreases s.len(),
{
    if s.len() == 0 {
        if cur.len() == 0 {
            acc
        } else {
            acc.push(cur)
        }
    } else if is_ws(s.first()) {
        tokens_from(
            s.drop_first(),
            Seq::empty(),
            if cur.len() == 0 {
                acc
            } else {
                acc.push(cur)
            },
        )
    } else {
        tokens_from(s.drop_first(), cur.push(s.first()), acc)
    }
}

/// The whitespace-separated tokens of `s`.
pub open spec fn tokens_spec(s: Seq<u8>) -> Seq<Seq<u8>> {
    tokens_from(s, Seq::empty(), Seq::empty())
}

/// Splits `s` into whitespace-separated tokens, dropping empty ones.
pub fn tokens_of(s: &Vec<u8>) -> (r: Vec<Vec<u8>>)
    ensures
        seq_views(r@) == tokens_spec(s@),
{
    let n = s.len();
    let mut cur: Vec<u8> = Vec::new();
    let mut acc: Vec<Vec<u8>> = Vec::new();
    proof {
        assert(s@.skip(0) =~= s@);
        assert(seq_views(acc@) =~= Seq::<Seq<u8>>::empty());
    }
    let mut i: usize = 0;
    while i < n
        invariant
            i <= n,
            n == s@.len(),
            tokens_spec(s@) == tokens_from(s@.skip(i as int), cur@, seq_views(acc@)),
        decreases n - i,
    {
        let b = s[i];
        proof {
            assert(s@.skip(i as int).drop_first() =~= s@.skip(i + 1));
            assert(s@.skip(i as int).first() == s@[i as int]);
        }
        if is_ws_byte(b) {
            if cur.len() > 0 {
                let ghost acc0 = acc@;
                let ghost cur0 = cur@;
                acc.push(cur);
                cur = Vec::new();
                proof {
                    assert(seq_views(acc@) =~= seq_views(acc0).push(cur0));
                }
            } else {
                proof {
                    assert(cur@ =~= Seq::<u8>::empty());
                }
            }
        } else {
            cur.push(b);
        }
        i += 1;
    }
    if cur.len() > 0 {
        let ghost acc0 = acc@;
        let ghost cur0 = cur@;
        acc.push(cur);
        proof {
            assert(seq_views(acc@) =~= seq_views(acc0).push(cur0));
        }
    }
    acc
}

/// The prefix of `s` before its first byte `b`, or all of `s` when `b` does
/// not occur.
pub open spec fn upto_byte(s: Seq<u8>, b: u8) -> Seq<u8>
    decreases s.len(),
{
    if s.len() == 0 {
        s
    } else if s.first() == b {
        Seq::empty()
    } else {
        seq![s.first()] + upto_byte(s.drop_first(), b)
    }
}

/// The bytes of `s` from offset `from` up to the next occurrence of `b`
/// (or the end), mirroring how a split at `b` yields its next field.
pub fn field_until_byte(s: &Vec<u8>, from: usize, b: u8) -> (r: Vec<u8>)
    requires
        from <= s@.len(),
    ensures
        r@ == upto_byte(s@.skip(from as int), b),
{
    let n = s.len();
    let mut out: Vec<u8> = Vec::new();
    let mut i: usize = from;
    while i < n && s[i] != b
        invariant
            from <= i <= n,
            n == s@.len(),
            out@ == s@.subrange(from as int, i as int),
            forall|k: int| from <= k < i ==> s@[k] != b,
        decreases n - i,
    {
        out.push(s[i]);
        proof {
            assert(out@ =~= s@.subrange(from as int, i + 1));
        }
        i += 1;
    }
    proof {
        lemma_upto_byte_prefix(s@.skip(from as int), b, i - from);
        assert(s@.subrange(from as int, i as int) =~= s@.skip(from as int).take(i - from));
        if i < n {
            assert(s@.skip(from as int)[i - from] == b);
        }
    }
    out
}

/// When the first `k` bytes of `s` avoid `b`, and `s` either ends at `k` or
/// has `b` there, the prefix before `b` is exactly those `k` bytes.
proof fn lemma_upto_byte_prefix(s: Seq<u8>, b: u8, k: int)
    requires
        0 <= k <= s.len(),
        forall|i: int| 0 <= i < k ==> s[i] != b,
        k == s.len() || s[k] == b,
    ensures
        upto_byte(s, b) == s.take(k),
    decreases k,
{
    if k == 0 {
        if s.len() == 0 {
            assert(upto_byte(s, b) =~= s.take(0));
        } else {
            assert(upto_byte(s, b) =~= s.take(0));
        }
    } else {
        lemma_upto_byte_prefix(s.drop_first(), b, k - 1);
        assert(upto_byte(s, b) == seq![s.first()] + s.drop_first().take(k - 1));
        assert(seq![s.first()] + s.drop_first().take(k - 1) =~= s.take(k));
    }
}

/// A fresh vector holding `v[from..to]`.
pub fn sub_bytes(v: &Vec<u8>, from: usize, to: usize) -> (r: Vec<u8>)
    requires
        from <= to <= v@.len(),
    ensures
        r@ == v@.subrange(from as int, to as int),
{
    let mut out: Vec<u8> = Vec::new();
    let mut i: usize = from;
    while i < to
        invariant
            from <= i <= to <= v@.len(),
            out@ == v@.subrange(from as int, i as int),
        decreases to - i,
    {
        out.push(v[i]);
        proof {
            assert(out@ =~= v@.subrange(from as int, i + 1));
        }
        i += 1;
    }
    out
}

/// The four-digit, zero-padded decimal string of `n < 10000`.
pub open spec fn dec4_digits(n: int) -> Seq<u8>
    recommends
        0 <= n < 10000,
{
    seq![
        (48 + n / 1000) as u8,
        (48 + (n / 100) % 10) as u8,
        (48 + (n / 10) % 10) as u8,
        (48 + n % 10) as u8,
    ]
}

/// Appends the four-digit zero-padded decimal form of `n` to `out`.
pub fn push_dec4(n: u64, out: &mut Vec<u8>)
    requires
        n < 10000,
    ensures
        final(out)@ == old(out)@ + dec4_digits(n as int),
{
    out.push(48u8 + (n / 1000) as u8);
    out.push(48u8 + ((n / 100) % 10) as u8);
    out.push(48u8 + ((n / 10) % 10) as u8);
    out.push(48u8 + (n % 10) as u8);
    proof {
        assert(final(out)@ =~= old(out)@ + dec4_digits(n as int));
    }
}

/// Decimal rendering only ever emits digit bytes.
pub proof fn lemma_dec_digits_are_digits(n: int)
    requires
        n >= 0,
    ensures
        forall|i: int| 0 <= i < dec_digits(n).len() ==> is_dec_digit(#[trigger] dec_digits(n)[i]),
    decreases n,
{
    if n >= 10 {
        lemma_dec_digits_are_digits(n / 10);
        let a = dec_digits(n / 10);
        let d = (48 + n % 10) as u8;
        assert(dec_digits(n) == a.push(d));
        assert(is_dec_digit(d));
        assert forall|i: int| 0 <= i < a.push(d).len() implies is_dec_digit(
            #[trigger] a.push(d)[i],
        ) by {
            if i < a.len() {
                assert(is_dec_digit(a[i]));
            }
        }
    } else {
        assert(dec_digits(n) == seq![(48 + n) as u8]);
        assert(is_dec_digit(dec_digits(n)[0]));
    }
}

/// The characters corresponding to a sequence of ASCII bytes.
pub open spec fn ascii_chars(s: Seq<u8>) -> Seq<char> {
    Seq::new(s.len(), |i: int| s[i] as char)
}

/// All bytes of `s` are ASCII.
pub open spec fn all_ascii(s: Seq<u8>) -> bool {
    forall|i: int| 0 <= i < s.len() ==> #[trigger] s[i] < 128
}

/// Relies on `String::from_utf8`: ASCII bytes decode to exactly one character
/// per byte, each with the same code point.
#[verifier::external_body]
pub fn string_from_ascii(v: Vec<u8>) -> (r: String)
    requires
        all_ascii(v@),
    ensures
        r@ == ascii_chars(v@),
{
    match String::from_utf8(v) {
        Ok(s) => s,
        Err(_) => String::new(),
    }
}

} // verus!
