use vstd::prelude::*;

verus! {

/// The decimal digit character for `d < 10`.
pub open spec fn digit_char(d: nat) -> char {
    seq!['0', '1', '2', '3', '4', '5', '6', '7', '8', '9'][d as int]
}

/// Decimal text of a natural number, without leading zeros.
pub open spec fn decimal(n: nat) -> Seq<char>
    decreases n,
{
    if n < 10 {
        seq![digit_char(n)]
    } else {
        decimal(n / 10).push(digit_char(n % 10))
    }
}

/// Decimal text of a natural number, left-padded with zeros to two digits.
pub open spec fn padded(n: nat) -> Seq<char> {
    if n < 10 {
        seq!['0', digit_char(n)]
    } else {
        decimal(n)
    }
}

/// Decimal text of an integer, with a leading minus sign when negative.
pub open spec fn signed_decimal(n: int) -> Seq<char> {
    if n < 0 {
        seq!['-'] + decimal((-n) as nat)
    } else {
        decimal(n as nat)
    }
}

/// A minute-resolution calendar time: the fields that a bucket key encodes.
#[derive(Clone, Copy, Debug, PartialEq, Eq, Structural)]
pub struct BucketTime {
    pub year: i32,
    pub month: u32,
    pub day: u32,
    pub hour: u32,
    pub minute: u32,
}

/// The key text of one candle bucket:
/// `SYMBOL_YYYY_MM_DD_HH_mm_INTERVAL`.
pub open spec fn bucket_key_text(symbol: Seq<char>, t: BucketTime, interval: Seq<char>) -> Seq<char> {
    symbol + seq!['_'] + signed_decimal(t.year as int) + seq!['_'] + padded(t.month as nat)
        + seq!['_'] + padded(t.day as nat) + seq!['_'] + padded(t.hour as nat) + seq!['_']
        + padded(t.minute as nat) + seq!['_'] + interval
}

/// The key under which the indicator bundle of a symbol and interval is stored:
/// `{symbol}klines{interval}`.
pub open spec fn output_key_text(symbol: Seq<char>, interval: Seq<char>) -> Seq<char> {
    symbol + seq!['k', 'l', 'i', 'n', 'e', 's'] + interval
}

fn digit_text(d: u64) -> (r: &'static str)
    requires
        d < 10,
    ensures
        r@ == seq![digit_char(d as nat)],
{
    proof {
        reveal_strlit("0");
        reveal_strlit("1");
        reveal_strlit("2");
        reveal_strlit("3");
        reveal_strlit("4");
        reveal_strlit("5");
        reveal_strlit("6");
        reveal_strlit("7");
        reveal_strlit("8");
        reveal_strlit("9");
    }
    let r = match d {
        0 => "0",
        1 => "1",
        2 => "2",
        3 => "3",
        4 => "4",
        5 => "5",
        6 => "6",
        7 => "7",
        8 => "8",
        _ => "9",
    };
    assert(r@ =~= seq![digit_char(d as nat)]);
    r
}

fn append_decimal(s: &mut String, n: u64)
    ensures
        final(s)@ == old(s)@ + decimal(n as nat),
    decreases n,
{
    if n < 10 {
        s.append(digit_text(n));
    } else {
        append_decimal(s, n / 10);
        s.append(digit_text(n % 10));
        assert(final(s)@ =~= old(s)@ + decimal(n as nat));
    }
}

fn append_padded(s: &mut String, n: u32)
    ensures
        final(s)@ == old(s)@ + padded(n as nat),
{
    if n < 10 {
        proof {
            reveal_strlit("0");
        }
        s.append("0");
    }
    append_decimal(s, n as u64);
    assert(final(s)@ =~= old(s)@ + padded(n as nat));
}

fn append_signed(s: &mut String, n: i32)
    ensures
        final(s)@ == old(s)@ + signed_decimal(n as int),
{
    if n < 0 {
        proof {
            reveal_strlit("-");
        }
        s.append("-");
        let m: i64 = -(n as i64);
        append_decimal(s, m as u64);
    } else {
        append_decimal(s, n as u64);
    }
    assert(final(s)@ =~= old(s)@ + signed_decimal(n as int));
}

fn append_underscore(s: &mut String)
    ensures
        final(s)@ == old(s)@ + seq!['_'],
{
    proof {
        reveal_strlit("_");
    }
    s.append("_");
    assert(final(s)@ =~= old(s)@ + seq!['_']);
}

/// Two-digit, zero-padded decimal text of `n` (more digits when `n >= 100`).
pub fn pad(n: u32) -> (r: String)
    ensures
        r@ == padded(n as nat),
{
    let mut s = String::new();
    append_padded(&mut s, n);
    assert(s@ =~= padded(n as nat));
    s
}

/// The lookup key of the candle of `symbol` and `interval` in the bucket `t`.
pub fn bucket_key(symbol: &str, t: &BucketTime, interval: &str) -> (r: String)
    ensures
        r@ == bucket_key_text(symbol@, *t, interval@),
{
    let mut s = String::from_str(symbol);
    append_underscore(&mut s);
    append_signed(&mut s, t.year);
    append_underscore(&mut s);
    append_padded(&mut s, t.month);
    append_underscore(&mut s);
    append_padded(&mut s, t.day);
    append_underscore(&mut s);
    append_padded(&mut s, t.hour);
    append_underscore(&mut s);
    append_padded(&mut s, t.minute);
    append_underscore(&mut s);
    s.append(interval);
    assert(s@ =~= bucket_key_text(symbol@, *t, interval@));
    s
}

/// The key under which the candles and indicators of `symbol` and `interval`
/// are written.
pub fn output_key(symbol: &str, interval: &str) -> (r: String)
    ensures
        r@ == output_key_text(symbol@, interval@),
{
    proof {
        reveal_strlit("klines");
    }
    let mut s = String::from_str(symbol);
    s.append("klines");
    s.append(interval);
    assert(s@ =~= output_key_text(symbol@, interval@));
    s
}

} // verus!
