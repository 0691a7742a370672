use vstd::prelude::*;
use vstd::arithmetic::div_mod::lemma_mod_breakdown;
use vstd::arithmetic::power::{lemma_pow_positive, pow};

use std::time::{Duration, SystemTime, SystemTimeError, UNIX_EPOCH};

use crate::text::{decimal, decimal_string, hex_digit, hex_digits, hex_digits_exec, push_char};

verus! {

#[verifier::external_type_specification]
#[verifier::external_body]
pub struct ExSystemTime(SystemTime);

#[verifier::external_type_specification]
#[verifier::external_body]
pub struct ExSystemTimeError(SystemTimeError);

/// Reads the system clock (`SystemTime::now`); nothing is promised of the value.
#[verifier::external_body]
fn system_time_now() -> SystemTime {
    SystemTime::now()
}

/// How long after the Unix epoch `t` lies (`SystemTime::duration_since` with
/// `UNIX_EPOCH`), or an error where `t` lies before the epoch; nothing more is promised.
#[verifier::external_body]
fn since_unix_epoch(t: &SystemTime) -> Result<Duration, SystemTimeError> {
    t.duration_since(UNIX_EPOCH)
}

/// The whole number of nanoseconds in `d` (`Duration::as_nanos`); the contract says nothing
/// of it, as a `Duration` is opaque here.
#[verifier::external_body]
fn duration_nanos(d: &Duration) -> u128 {
    d.as_nanos()
}

/// The whole number of seconds in `d` (`Duration::as_secs`); the contract says nothing of
/// it, as a `Duration` is opaque here.
#[verifier::external_body]
fn duration_secs(d: &Duration) -> u64 {
    d.as_secs()
}

/// The public id made from the 128-bit number `n`: its 32 lower-case hexadecimal digits
/// (leading zeros included), grouped 8-4-4-4-12 and joined by `'-'`.
pub open spec fn public_id_text(n: nat) -> Seq<char> {
    let h = hex_digits(n, 32);
    h.subrange(0, 8) + seq!['-'] + h.subrange(8, 12) + seq!['-'] + h.subrange(12, 16) + seq!['-']
        + h.subrange(16, 20) + seq!['-'] + h.subrange(20, 32)
}

/// The public id made from `nanos`.
pub fn public_id_from_nanos(nanos: u128) -> (r: String)
    ensures
        r@ == public_id_text(nanos as nat),
{
    let h = hex_digits_exec(nanos, 32);
    proof {
        lemma_hex_digits_len(nanos as nat, 32);
    }
    let ghost hs = h@;
    let mut r = String::new();
    let mut i: usize = 0;
    while i < 32
        invariant
            h@ == hs,
            hs.len() == 32,
            i <= 32,
            r@ == public_id_prefix(hs, i as int),
        decreases 32 - i,
    {
        if i == 8 || i == 12 || i == 16 || i == 20 {
            push_char(&mut r, '-');
        }
        push_char(&mut r, h[i]);
        i = i + 1;
    }
    proof {
        lemma_public_id_prefix_full(hs);
    }
    r
}

/// The first `i` hexadecimal digits of `h`, with the group separators that come before them.
pub open spec fn public_id_prefix(h: Seq<char>, i: int) -> Seq<char>
    decreases i,
{
    if i <= 0 {
        Seq::empty()
    } else {
        let init = public_id_prefix(h, i - 1);
        if i - 1 == 8 || i - 1 == 12 || i - 1 == 16 || i - 1 == 20 {
            init.push('-').push(h[i - 1])
        } else {
            init.push(h[i - 1])
        }
    }
}

proof fn lemma_public_id_prefix_full(h: Seq<char>)
    requires
        h.len() == 32,
    ensures
        public_id_prefix(h, 32) == h.subrange(0, 8) + seq!['-'] + h.subrange(8, 12) + seq!['-']
            + h.subrange(12, 16) + seq!['-'] + h.subrange(16, 20) + seq!['-'] + h.subrange(20, 32),
{
    reveal_with_fuel(public_id_prefix, 33);
    assert(public_id_prefix(h, 32) =~= h.subrange(0, 8) + seq!['-'] + h.subrange(8, 12) + seq!['-']
        + h.subrange(12, 16) + seq!['-'] + h.subrange(16, 20) + seq!['-'] + h.subrange(20, 32));
}

/// `hex_digits(n, k)` has `k` characters, each a lower-case hexadecimal digit.
pub proof fn lemma_hex_digits_len(n: nat, k: nat)
    ensures
        hex_digits(n, k).len() == k,
        forall|i: int| 0 <= i < k ==> is_hex_digit(#[trigger] hex_digits(n, k)[i]),
    decreases k,
{
    if k > 0 {
        lemma_hex_digits_len(n / 16, (k - 1) as nat);
        let init = hex_digits(n / 16, (k - 1) as nat);
        assert forall|i: int| 0 <= i < k implies is_hex_digit(#[trigger] hex_digits(n, k)[i]) by {
            if i < k - 1 {
                assert(hex_digits(n, k)[i] == init[i]);
            } else {
                lemma_hex_digit_is_hex(n % 16);
            }
        }
    }
}

/// A lower-case hexadecimal digit.
pub open spec fn is_hex_digit(c: char) -> bool {
    ('0' <= c <= '9') || ('a' <= c <= 'f')
}

proof fn lemma_hex_digit_is_hex(d: nat)
    requires
        d < 16,
    ensures
        is_hex_digit(hex_digit(d)),
{
}

/// A fresh public id, made from the number of nanoseconds since the Unix epoch on the
/// system clock (zero where the clock reads earlier than the epoch).
pub fn new_public_id() -> (r: String)
    ensures
        exists|n: u128| r@ == public_id_text(n as nat),
{
    let now = system_time_now();
    let nanos: u128 = match since_unix_epoch(&now) {
        Ok(d) => duration_nanos(&d),
        Err(_) => 0,
    };
    public_id_from_nanos(nanos)
}

/// The decimal text of a time in whole seconds since the Unix epoch.
pub fn timestamp_text(secs: u64) -> (r: String)
    ensures
        r@ == decimal(secs as nat),
{
    decimal_string(secs as u128)
}

/// The current time in whole seconds since the Unix epoch, in decimal (zero where the
/// clock reads earlier than the epoch).
pub fn now_ts() -> (r: String)
    ensures
        exists|s: u64| r@ == decimal(s as nat),
{
    let now = system_time_now();
    let secs: u64 = match since_unix_epoch(&now) {
        Ok(d) => duration_secs(&d),
        Err(_) => 0,
    };
    timestamp_text(secs)
}

/// Every public id has 36 characters: hexadecimal digits, with a `'-'` at indices 8, 13,
/// 18 and 23 and nowhere else.
pub proof fn public_id_shape(n: nat)
    ensures
        public_id_text(n).len() == 36,
        forall|i: int|
            0 <= i < 36 ==> (#[trigger] public_id_text(n)[i] == '-' <==> (i == 8 || i == 13 || i
                == 18 || i == 23)),
        forall|i: int|
            0 <= i < 36 && i != 8 && i != 13 && i != 18 && i != 23 ==> is_hex_digit(
                #[trigger] public_id_text(n)[i],
            ),
{
    lemma_hex_digits_len(n, 32);
    let h = hex_digits(n, 32);
    let t = public_id_text(n);
    assert forall|i: int| 0 <= i < 36 implies (#[trigger] t[i] == '-' <==> (i == 8 || i == 13
        || i == 18 || i == 23)) && (i != 8 && i != 13 && i != 18 && i != 23 ==> is_hex_digit(
        t[i],
    )) by {
        if i < 8 {
            assert(t[i] == h[i]);
        } else if i == 8 {
        } else if i < 13 {
            assert(t[i] == h[i - 1]);
        } else if i == 13 {
        } else if i < 18 {
            assert(t[i] == h[i - 2]);
        } else if i == 18 {
        } else if i < 23 {
            assert(t[i] == h[i - 3]);
        } else if i == 23 {
        } else {
            assert(t[i] == h[i - 4]);
        }
    }
}

/// Different digit values have different hexadecimal digits.
proof fn lemma_hex_digit_injective(d: nat, e: nat)
    requires
        d < 16,
        e < 16,
        hex_digit(d) == hex_digit(e),
    ensures
        d == e,
{
    assert(hex_digit(d) as u32 == if d < 10 { d + 48 } else { d + 87 });
    assert(hex_digit(e) as u32 == if e < 10 { e + 48 } else { e + 87 });
}

/// The last `k` hexadecimal digits of a number determine it modulo `16^k`.
proof fn lemma_hex_digits_determine(a: nat, b: nat, k: nat)
    requires
        hex_digits(a, k) == hex_digits(b, k),
    ensures
        (a as int) % pow(16, k) == (b as int) % pow(16, k),
    decreases k,
{
    reveal(pow);
    if k == 0 {
        assert(pow(16, 0) == 1);
    } else {
        let ha = hex_digits(a, k);
        let hb = hex_digits(b, k);
        let k1 = (k - 1) as nat;
        assert(ha.drop_last() == hex_digits(a / 16, k1));
        assert(hb.drop_last() == hex_digits(b / 16, k1));
        assert(ha.last() == hex_digit(a % 16));
        assert(hb.last() == hex_digit(b % 16));
        lemma_hex_digits_determine(a / 16, b / 16, k1);
        lemma_hex_digit_injective(a % 16, b % 16);
        lemma_pow_positive(16, k1);
        lemma_mod_breakdown(a as int, 16, pow(16, k1));
        lemma_mod_breakdown(b as int, 16, pow(16, k1));
        assert(pow(16, k) == 16 * pow(16, k1));
    }
}

/// Different clock readings give different public ids: a public id names exactly one
/// 128-bit number.
pub proof fn public_ids_are_distinct(a: u128, b: u128)
    ensures
        public_id_text(a as nat) == public_id_text(b as nat) ==> a == b,
{
    if public_id_text(a as nat) == public_id_text(b as nat) {
        lemma_hex_digits_len(a as nat, 32);
        lemma_hex_digits_len(b as nat, 32);
        let ha = hex_digits(a as nat, 32);
        let hb = hex_digits(b as nat, 32);
        let ta = public_id_text(a as nat);
        let tb = public_id_text(b as nat);
        assert forall|i: int| 0 <= i < 32 implies ha[i] == hb[i] by {
            let j = if i < 8 {
                i
            } else if i < 12 {
                i + 1
            } else if i < 16 {
                i + 2
            } else if i < 20 {
                i + 3
            } else {
                i + 4
            };
            assert(ta[j] == ha[i]);
            assert(tb[j] == hb[i]);
        }
        assert(ha == hb);
        lemma_hex_digits_determine(a as nat, b as nat, 32);
        reveal_with_fuel(pow, 33);
        assert(pow(16, 32) == 0x1_0000_0000_0000_0000_0000_0000_0000_0000);
    }
}

/// `s` comes before `t` at index `i`: they agree before `i`, and at `i` the character of
/// `s` has the smaller code point.
pub open spec fn less_at(s: Seq<char>, t: Seq<char>, i: int) -> bool {
    &&& 0 <= i < s.len()
    &&& i < t.len()
    &&& s.take(i) == t.take(i)
    &&& (s[i] as u32) < (t[i] as u32)
}

/// `s` comes before `t` in the dictionary order of their characters' code points, the
/// order in which `String` compares texts of ASCII characters.
pub open spec fn text_less(s: Seq<char>, t: Seq<char>) -> bool {
    ||| exists|i: int| less_at(s, t, i)
    ||| (s.len() < t.len() && t.take(s.len() as int) == s)
}

/// Hexadecimal digits grow with the values they stand for.
proof fn lemma_hex_digit_increasing(d: nat, e: nat)
    requires
        d < e < 16,
    ensures
        (hex_digit(d) as u32) < (hex_digit(e) as u32),
{
    assert(hex_digit(d) as u32 == if d < 10 { d + 48 } else { d + 87 });
    assert(hex_digit(e) as u32 == if e < 10 { e + 48 } else { e + 87 });
}

/// A number's last `k` hexadecimal digits depend only on its value modulo `16^k`.
proof fn lemma_hex_digits_of_equal_residues(a: nat, b: nat, k: nat)
    requires
        (a as int) % pow(16, k) == (b as int) % pow(16, k),
    ensures
        hex_digits(a, k) == hex_digits(b, k),
    decreases k,
{
    reveal(pow);
    if k > 0 {
        let k1 = (k - 1) as nat;
        lemma_pow_positive(16, k1);
        lemma_mod_breakdown(a as int, 16, pow(16, k1));
        lemma_mod_breakdown(b as int, 16, pow(16, k1));
        assert(pow(16, k) == 16 * pow(16, k1));
        assert(a % 16 == b % 16);
        assert((a / 16) as int % pow(16, k1) == (b / 16) as int % pow(16, k1));
        lemma_hex_digits_of_equal_residues(a / 16, b / 16, k1);
    }
}

/// Of two numbers, the one smaller modulo `16^k` has the smaller last `k` hexadecimal
/// digits, in dictionary order; the result is where they first differ.
proof fn lemma_hex_digits_order(a: nat, b: nat, k: nat) -> (i: int)
    requires
        (a as int) % pow(16, k) < (b as int) % pow(16, k),
    ensures
        less_at(hex_digits(a, k), hex_digits(b, k), i),
        i < k,
    decreases k,
{
    reveal(pow);
    lemma_hex_digits_len(a, k);
    lemma_hex_digits_len(b, k);
    if k == 0 {
        assert(false);
        0
    } else {
        let k1 = (k - 1) as nat;
        lemma_pow_positive(16, k1);
        lemma_mod_breakdown(a as int, 16, pow(16, k1));
        lemma_mod_breakdown(b as int, 16, pow(16, k1));
        assert(pow(16, k) == 16 * pow(16, k1));
        let ia = hex_digits(a / 16, k1);
        let ib = hex_digits(b / 16, k1);
        let ha = hex_digits(a, k);
        let hb = hex_digits(b, k);
        assert(ha == ia.push(hex_digit(a % 16)));
        assert(hb == ib.push(hex_digit(b % 16)));
        lemma_hex_digits_len(a / 16, k1);
        lemma_hex_digits_len(b / 16, k1);
        let qa = (a / 16) as int % pow(16, k1);
        let qb = (b / 16) as int % pow(16, k1);
        if qa < qb {
            let i = lemma_hex_digits_order(a / 16, b / 16, k1);
            assert(ha.take(i) == ia.take(i));
            assert(hb.take(i) == ib.take(i));
            assert(ha[i] == ia[i]);
            assert(hb[i] == ib[i]);
            i
        } else {
            assert(qa == qb);
            lemma_hex_digits_of_equal_residues(a / 16, b / 16, k1);
            assert(a % 16 < b % 16);
            lemma_hex_digit_increasing(a % 16, b % 16);
            assert(ha.take(k1 as int) == ia);
            assert(hb.take(k1 as int) == ib);
            k1 as int
        }
    }
}

/// Public ids keep the order of the numbers they are made from: the id of a smaller
/// clock reading comes first in dictionary order.
pub proof fn public_ids_keep_clock_order(a: u128, b: u128)
    requires
        a < b,
    ensures
        text_less(public_id_text(a as nat), public_id_text(b as nat)),
{
    reveal_with_fuel(pow, 33);
    assert(pow(16, 32) == 0x1_0000_0000_0000_0000_0000_0000_0000_0000);
    assert((a as int) % pow(16, 32) == a);
    assert((b as int) % pow(16, 32) == b);
    let i = lemma_hex_digits_order(a as nat, b as nat, 32);
    lemma_hex_digits_len(a as nat, 32);
    lemma_hex_digits_len(b as nat, 32);
    let ha = hex_digits(a as nat, 32);
    let hb = hex_digits(b as nat, 32);
    let ta = public_id_text(a as nat);
    let tb = public_id_text(b as nat);
    let j = if i < 8 {
        i
    } else if i < 12 {
        i + 1
    } else if i < 16 {
        i + 2
    } else if i < 20 {
        i + 3
    } else {
        i + 4
    };
    assert(ta[j] == ha[i]);
    assert(tb[j] == hb[i]);
    assert forall|m: int| 0 <= m < j implies ta[m] == tb[m] by {
        let g = if m < 8 {
            m
        } else if m == 8 {
            -1
        } else if m < 13 {
            m - 1
        } else if m == 13 {
            -1
        } else if m < 18 {
            m - 2
        } else if m == 18 {
            -1
        } else if m < 23 {
            m - 3
        } else if m == 23 {
            -1
        } else {
            m - 4
        };
        if g >= 0 {
            assert(g < i);
            assert(ta[m] == ha[g]);
            assert(tb[m] == hb[g]);
            assert(ha.take(i)[g] == hb.take(i)[g]);
        }
    }
    assert(ta.take(j) =~= tb.take(j));
    assert(less_at(ta, tb, j));
}

} // verus!
