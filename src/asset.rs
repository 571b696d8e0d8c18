//! Per-connection price history of one asset: 9-byte binary requests that
//! insert timestamped prices or ask for the mean over a time window.

use vstd::prelude::*;
use crate::text::{byte_char, concat_str, push_char};

verus! {

/// The value of four bytes read as a big-endian two's-complement integer.
pub open spec fn be_i32(b: Seq<u8>) -> int {
    let u = b[0] as int * 16777216 + b[1] as int * 65536 + b[2] as int * 256 + b[3] as int;
    if u >= 2147483648 { u - 4294967296 } else { u }
}

/// The upper-case hexadecimal digit of `d` (below 16).
pub open spec fn hex_digit(d: int) -> char {
    (if d < 10 { 48 + d } else { 55 + d }) as char
}

/// A byte as two upper-case hexadecimal digits.
pub open spec fn hex_byte(b: u8) -> Seq<char> {
    seq![hex_digit(b as int / 16), hex_digit(b as int % 16)]
}

/// The bytes in hexadecimal, `", "` between each two.
pub open spec fn hex_list(b: Seq<u8>) -> Seq<char>
    decreases b.len(),
{
    if b.len() == 0 {
        Seq::empty()
    } else if b.len() == 1 {
        hex_byte(b[0])
    } else {
        hex_list(b.drop_last()) + seq![',', ' '] + hex_byte(b.last())
    }
}

/// The error text for bytes that are not four: `Malformed number [..]`.
pub open spec fn malformed_number_text(b: Seq<u8>) -> Seq<char> {
    "Malformed number ["@ + hex_list(b) + seq![']']
}

fn hex_digit_char(d: u8) -> (c: char)
    requires
        d < 16,
    ensures
        c == hex_digit(d as int),
{
    let code: u8 = if d < 10 { 48 + d } else { 55 + d };
    let c = byte_char(code);
    assert(c == (code as u32) as char);
    c
}

/// Reads a big-endian `i32` from exactly four bytes; any other count is
/// refused with `Malformed number [..]` listing the bytes in hexadecimal.
pub fn parse_number(number_bytes: &[u8]) -> (r: Result<i32, String>)
    ensures
        number_bytes@.len() == 4 ==> (r matches Ok(v) && v as int == be_i32(number_bytes@)),
        number_bytes@.len() != 4 ==> (r matches Err(e) && e@ == malformed_number_text(number_bytes@)),
{
    if number_bytes.len() == 4 {
        let u: u32 = number_bytes[0] as u32 * 16777216 + number_bytes[1] as u32 * 65536
            + number_bytes[2] as u32 * 256 + number_bytes[3] as u32;
        let v: i32 = if u >= 2147483648 {
            let low: u32 = u - 2147483648;
            (low as i32) - 2147483647 - 1
        } else {
            u as i32
        };
        Ok(v)
    } else {
        let mut text = String::from_str("Malformed number [");
        let ghost head = text@;
        let mut i: usize = 0;
        while i < number_bytes.len()
            invariant
                i <= number_bytes@.len(),
                text@ == head + hex_list(number_bytes@.subrange(0, i as int)),
            decreases number_bytes@.len() - i,
        {
            let b = number_bytes[i];
            let ghost pre = number_bytes@.subrange(0, i as int);
            let ghost prefix = number_bytes@.subrange(0, i + 1);
            assert(prefix.drop_last() =~= pre);
            assert(prefix.last() == b);
            if i > 0 {
                push_char(&mut text, ',');
                push_char(&mut text, ' ');
            }
            push_char(&mut text, hex_digit_char(b / 16));
            push_char(&mut text, hex_digit_char(b % 16));
            if i == 0 {
                assert(pre.len() == 0);
                assert(hex_list(prefix) == hex_byte(b));
            }
            assert(text@ =~= head + hex_list(prefix));
            i = i + 1;
        }
        assert(number_bytes@.subrange(0, number_bytes@.len() as int) =~= number_bytes@);
        push_char(&mut text, ']');
        assert(text@ =~= malformed_number_text(number_bytes@));
        Err(text)
    }
}

/// A request: insert a price at a timestamp, or ask for the mean price
/// between two timestamps.
#[derive(Debug, PartialEq, Eq, Structural)]
pub enum RequestType {
    Insert(i32, i32),
    Query(i32, i32),
}

/// The error text for a request of the wrong size.
pub open spec fn wrong_size_text() -> Seq<char> {
    "Requests must have 9 bytes"@
}

/// The error text for an unknown operation byte.
pub open spec fn unknown_operation_text(op: u8) -> Seq<char> {
    "No operation specified for "@.push(op as char)
}

/// Reads a 9-byte request: an operation byte (`I` insert, `Q` query) and two
/// big-endian `i32` fields.
pub fn parse_request(request_payload: &[u8]) -> (r: Result<RequestType, String>)
    ensures
        request_payload@.len() != 9 ==> (r matches Err(e) && e@ == wrong_size_text()),
        request_payload@.len() == 9 ==> {
            let b = request_payload@;
            let first = be_i32(b.subrange(1, 5));
            let second = be_i32(b.subrange(5, 9));
            &&& b[0] == 73 ==> (r matches Ok(RequestType::Insert(x, y)) && x as int == first && y as int == second)
            &&& b[0] == 81 ==> (r matches Ok(RequestType::Query(x, y)) && x as int == first && y as int == second)
            &&& (b[0] != 73 && b[0] != 81) ==> (r matches Err(e) && e@ == unknown_operation_text(b[0]))
        },
{
    if request_payload.len() != 9 {
        return Err(String::from_str("Requests must have 9 bytes"));
    }
    let first_field = &request_payload[1..5];
    let second_field = &request_payload[5..9];
    let request_param_1 = match parse_number(first_field) {
        Ok(v) => v,
        Err(e) => return Err(e),
    };
    let request_param_2 = match parse_number(second_field) {
        Ok(v) => v,
        Err(e) => return Err(e),
    };
    let op = request_payload[0];
    if op == 73 {
        Ok(RequestType::Insert(request_param_1, request_param_2))
    } else if op == 81 {
        Ok(RequestType::Query(request_param_1, request_param_2))
    } else {
        let mut text = String::from_str("No operation specified for ");
        push_char(&mut text, byte_char(op));
        Err(text)
    }
}

/// Whether a price's timestamp lies in `[from, to]`.
pub open spec fn in_window(p: (i32, i32), from: i32, to: i32) -> bool {
    from <= p.0 && p.0 <= to
}

/// The sum of the prices whose timestamps lie in `[from, to]`.
pub open spec fn window_sum(prices: Seq<(i32, i32)>, from: i32, to: i32) -> int
    decreases prices.len(),
{
    if prices.len() == 0 {
        0
    } else {
        window_sum(prices.drop_last(), from, to) + if in_window(prices.last(), from, to) {
            prices.last().1 as int
        } else {
            0
        }
    }
}

/// How many prices have timestamps in `[from, to]`.
pub open spec fn window_count(prices: Seq<(i32, i32)>, from: i32, to: i32) -> nat
    decreases prices.len(),
{
    if prices.len() == 0 {
        0
    } else {
        window_count(prices.drop_last(), from, to) + if in_window(prices.last(), from, to) {
            1nat
        } else {
            0nat
        }
    }
}

/// Integer division rounding toward zero, as Rust's `/` does.
pub open spec fn div_toward_zero(a: int, b: int) -> int {
    if a >= 0 {
        a / b
    } else {
        -((-a) / b)
    }
}

/// The mean price over `[from, to]`, rounded toward zero; 0 when no price
/// lies in the window.
pub open spec fn window_mean(prices: Seq<(i32, i32)>, from: i32, to: i32) -> int {
    if window_count(prices, from, to) == 0 {
        0
    } else {
        div_toward_zero(window_sum(prices, from, to), window_count(prices, from, to) as int)
    }
}

/// The mean of the prices whose timestamps lie in `[from_timestamp,
/// to_timestamp]`, rounded toward zero, or 0 when there are none. The sum is
/// taken wide enough never to overflow.
pub fn calculate_asset_price_average(prices: &[(i32, i32)], from_timestamp: i32, to_timestamp: i32) -> (r: i32)
    ensures
        r as int == window_mean(prices@, from_timestamp, to_timestamp),
{
    let mut price_sum: i128 = 0;
    let mut count: u64 = 0;
    let mut i: usize = 0;
    while i < prices.len()
        invariant
            i <= prices@.len(),
            count as int == window_count(prices@.subrange(0, i as int), from_timestamp, to_timestamp),
            price_sum as int == window_sum(prices@.subrange(0, i as int), from_timestamp, to_timestamp),
            count <= i,
            -2147483648 * (count as int) <= price_sum as int <= 2147483647 * (count as int),
        decreases prices@.len() - i,
    {
        let (timestamp, price) = prices[i];
        let ghost prefix = prices@.subrange(0, i + 1);
        assert(prefix.drop_last() =~= prices@.subrange(0, i as int));
        assert(prefix.last() == prices@[i as int]);
        if from_timestamp <= timestamp && timestamp <= to_timestamp {
            proof {
                assert(count < u64::MAX);
                assert(-2147483648 * (count as int) - 2147483648 == -2147483648 * (count as int + 1)) by (nonlinear_arith);
                assert(2147483647 * (count as int) + 2147483647 == 2147483647 * (count as int + 1)) by (nonlinear_arith);
                assert(count as int <= u64::MAX);
                assert(-2147483648 * (count as int) >= -2147483648 * 18446744073709551615) by (nonlinear_arith)
                    requires count as int <= 18446744073709551615;
                assert(2147483647 * (count as int) <= 2147483647 * 18446744073709551615) by (nonlinear_arith)
                    requires count as int <= 18446744073709551615;
            }
            price_sum = price_sum + price as i128;
            count = count + 1;
        }
        i = i + 1;
    }
    assert(prices@.subrange(0, prices@.len() as int) =~= prices@);
    if count == 0 {
        0
    } else {
        let c: i128 = count as i128;
        let mean: i128 = if price_sum >= 0 {
            let q = price_sum / c;
            proof {
                let s = price_sum as int;
                let n = c as int;
                assert(s <= 2147483647 * n);
                assert(s / n <= 2147483647) by (nonlinear_arith)
                    requires s <= 2147483647 * n, n > 0, s >= 0;
            }
            q
        } else {
            let neg: i128 = -price_sum;
            let q = neg / c;
            proof {
                let s = neg as int;
                let n = c as int;
                assert(s <= 2147483648 * n);
                assert(s / n <= 2147483648) by (nonlinear_arith)
                    requires s <= 2147483648 * n, n > 0, s >= 0;
            }
            -q
        };
        mean as i32
    }
}

/// The prices recorded on one connection, in order of arrival.
pub struct AssetPrices {
    prices: Vec<(i32, i32)>,
}

impl View for AssetPrices {
    type V = Seq<(i32, i32)>;

    closed spec fn view(&self) -> Seq<(i32, i32)> {
        self.prices@
    }
}

impl AssetPrices {
    /// No prices yet.
    pub fn new() -> (r: Self)
        ensures
            r@ == Seq::<(i32, i32)>::empty(),
    {
        AssetPrices { prices: Vec::new() }
    }

    /// Handles one raw request. An insert records the price and answers
    /// nothing; a query answers the mean over its window; a malformed
    /// request changes nothing and answers nothing.
    pub fn handle_request(&mut self, request_payload: &[u8]) -> (r: Option<i32>)
        ensures
            ({
                let b = request_payload@;
                let first = be_i32(b.subrange(1, 5));
                let second = be_i32(b.subrange(5, 9));
                if b.len() == 9 && b[0] == 73 {
                    &&& r is None
                    &&& final(self)@.len() == old(self)@.len() + 1
                    &&& final(self)@.drop_last() == old(self)@
                    &&& final(self)@.last().0 as int == first
                    &&& final(self)@.last().1 as int == second
                } else if b.len() == 9 && b[0] == 81 {
                    &&& final(self)@ == old(self)@
                    &&& r matches Some(v)
                    &&& v as int == window_mean(old(self)@, first as i32, second as i32)
                } else {
                    &&& r is None
                    &&& final(self)@ == old(self)@
                }
            }),
    {
        match parse_request(request_payload) {
            Ok(RequestType::Insert(timestamp, price)) => {
                self.prices.push((timestamp, price));
                assert(self@.drop_last() =~= old(self)@);
                None
            },
            Ok(RequestType::Query(from_timestamp, to_timestamp)) => {
                Some(calculate_asset_price_average(self.prices.as_slice(), from_timestamp, to_timestamp))
            },
            Err(_) => None,
        }
    }
}

} // verus!
