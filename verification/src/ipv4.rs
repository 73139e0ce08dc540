//! IPv4 addresses as plain 32-bit values: dotted-decimal text in both
//! directions, subnet masks, prefix lengths, and network membership.

use vstd::arithmetic::div_mod::{
    lemma_fundamental_div_mod, lemma_fundamental_div_mod_converse_div,
    lemma_fundamental_div_mod_converse_mod,
};
use vstd::prelude::*;

verus! {

/// The decimal digit character for a value below ten.
pub open spec fn digit(d: int) -> char {
    if d == 0 {
        '0'
    } else if d == 1 {
        '1'
    } else if d == 2 {
        '2'
    } else if d == 3 {
        '3'
    } else if d == 4 {
        '4'
    } else if d == 5 {
        '5'
    } else if d == 6 {
        '6'
    } else if d == 7 {
        '7'
    } else if d == 8 {
        '8'
    } else {
        '9'
    }
}

pub open spec fn is_digit_char(c: char) -> bool {
    '0' <= c && c <= '9'
}

/// The numeric value of a decimal digit character.
pub open spec fn digit_val(c: char) -> int {
    c as u32 - 48
}

/// The decimal rendering of a non-negative number, most significant
/// digit first, with no leading zero except for the number zero itself.
pub open spec fn dec_digits(n: int) -> Seq<char>
    decreases n,
{
    if n < 10 {
        seq![digit(n)]
    } else {
        dec_digits(n / 10).push(digit(n % 10))
    }
}

/// The four octets of an address, most significant first.
pub open spec fn oct0(v: u32) -> u32 {
    (v >> 24) & 0xFF
}

pub open spec fn oct1(v: u32) -> u32 {
    (v >> 16) & 0xFF
}

pub open spec fn oct2(v: u32) -> u32 {
    (v >> 8) & 0xFF
}

pub open spec fn oct3(v: u32) -> u32 {
    v & 0xFF
}

/// The canonical dotted-decimal text of an address.
pub open spec fn ipv4_render(v: u32) -> Seq<char> {
    dec_digits(oct0(v) as int) + seq!['.'] + dec_digits(oct1(v) as int) + seq!['.'] + dec_digits(
        oct2(v) as int,
    ) + seq!['.'] + dec_digits(oct3(v) as int)
}

/// A sequence of characters spells an IPv4 address exactly when it is the
/// canonical rendering of one.
pub open spec fn is_ipv4_text(s: Seq<char>) -> bool {
    exists|v: u32| s == ipv4_render(v)
}

/// The address a sequence of characters spells, where it spells one.
pub open spec fn text_ipv4(s: Seq<char>) -> Option<u32> {
    if is_ipv4_text(s) {
        Some(choose|v: u32| s == ipv4_render(v))
    } else {
        None
    }
}

fn push_digit(s: &mut String, d: u8)
    requires
        d < 10,
    ensures
        final(s)@ == old(s)@.push(digit(d as int)),
{
    let t: &'static str = if d == 0 {
        "0"
    } else if d == 1 {
        "1"
    } else if d == 2 {
        "2"
    } else if d == 3 {
        "3"
    } else if d == 4 {
        "4"
    } else if d == 5 {
        "5"
    } else if d == 6 {
        "6"
    } else if d == 7 {
        "7"
    } else if d == 8 {
        "8"
    } else {
        "9"
    };
    proof {
        reveal_strlit("0");
        reveal_strlit("1");
        reveal_strlit("2");
        reveal_strlit("3");
        reveal_strlit("4");
        reveal_strlit("5");
        reveal_strlit("6");
        reveal_strlit("7");
        reveal_strlit("8");
        reveal_strlit("9");
        assert(t@ =~= seq![digit(d as int)]);
    }
    s.append(t);
    proof {
        assert(final(s)@ =~= old(s)@.push(digit(d as int)));
    }
}

fn append_dec(s: &mut String, n: u16)
    ensures
        final(s)@ == old(s)@ + dec_digits(n as int),
    decreases n,
{
    if n >= 10 {
        append_dec(s, n / 10);
        push_digit(s, (n % 10) as u8);
        proof {
            assert(final(s)@ =~= old(s)@ + dec_digits(n as int));
        }
    } else {
        push_digit(s, n as u8);
        proof {
            assert(final(s)@ =~= old(s)@ + dec_digits(n as int));
        }
    }
}

/// The decimal text of a 16-bit number, as a broker port is displayed.
pub fn format_u16(n: u16) -> (s: String)
    ensures
        s@ == dec_digits(n as int),
{
    let mut s = String::new();
    append_dec(&mut s, n);
    proof {
        assert(s@ =~= dec_digits(n as int));
    }
    s
}

/// The canonical dotted-decimal text of an address.
pub fn format_ipv4(v: u32) -> (s: String)
    ensures
        s@ == ipv4_render(v),
{
    proof {
        reveal_strlit(".");
    }
    let a = (v >> 24) & 0xFF;
    let b = (v >> 16) & 0xFF;
    let c = (v >> 8) & 0xFF;
    let d = v & 0xFF;
    assert((v >> 24) & 0xFF < 256 && (v >> 16) & 0xFF < 256 && (v >> 8) & 0xFF < 256 && v & 0xFF
        < 256) by (bit_vector);
    let mut s = String::new();
    append_dec(&mut s, a as u16);
    s.append(".");
    append_dec(&mut s, b as u16);
    s.append(".");
    append_dec(&mut s, c as u16);
    s.append(".");
    append_dec(&mut s, d as u16);
    proof {
        assert((".")@ =~= seq!['.']);
        assert(s@ =~= ipv4_render(v));
    }
    s
}

pub open spec fn all_digits(s: Seq<char>) -> bool {
    forall|i: int| 0 <= i < s.len() ==> is_digit_char(#[trigger] s[i])
}

/// The value of a digit string, most significant digit first.
pub open spec fn digits_val(s: Seq<char>) -> int
    decreases s.len(),
{
    if s.len() == 0 {
        0
    } else {
        digits_val(s.drop_last()) * 10 + digit_val(s.last())
    }
}

/// A decimal octet as it stands in dotted-decimal text: one to three
/// digits, no leading zero, value at most 255.
pub open spec fn is_octet_text(s: Seq<char>) -> bool {
    &&& 1 <= s.len() <= 3
    &&& all_digits(s)
    &&& s.len() > 1 ==> s[0] != '0'
    &&& digits_val(s) <= 255
}

proof fn lemma_digits_val1(s: Seq<char>)
    requires
        s.len() == 1,
    ensures
        digits_val(s) == digit_val(s[0]),
{
    assert(s.drop_last() =~= Seq::<char>::empty());
    assert(digits_val(Seq::<char>::empty()) == 0);
    assert(s.last() == s[0]);
}

proof fn lemma_digits_val2(s: Seq<char>)
    requires
        s.len() == 2,
    ensures
        digits_val(s) == digit_val(s[0]) * 10 + digit_val(s[1]),
{
    assert(s.drop_last() =~= seq![s[0]]);
    lemma_digits_val1(seq![s[0]]);
    assert(s.last() == s[1]);
}

proof fn lemma_digits_val3(s: Seq<char>)
    requires
        s.len() == 3,
    ensures
        digits_val(s) == (digit_val(s[0]) * 10 + digit_val(s[1])) * 10 + digit_val(s[2]),
{
    assert(s.drop_last() =~= seq![s[0], s[1]]);
    lemma_digits_val2(seq![s[0], s[1]]);
    assert(s.last() == s[2]);
}

proof fn lemma_digit_roundtrip(d: int)
    requires
        0 <= d < 10,
    ensures
        is_digit_char(digit(d)),
        digit_val(digit(d)) == d,
        d != 0 ==> digit(d) != '0',
{
}

proof fn lemma_digit_char_roundtrip(c: char)
    requires
        is_digit_char(c),
    ensures
        0 <= digit_val(c) < 10,
        digit(digit_val(c)) == c,
        c != '0' ==> digit_val(c) != 0,
{
}

/// The decimal rendering of a value up to 255 is a well-formed octet
/// text, and reads back as the same value.
pub proof fn lemma_dec_digits_octet(n: int)
    requires
        0 <= n <= 255,
    ensures
        is_octet_text(dec_digits(n)),
        digits_val(dec_digits(n)) == n,
{
    lemma_fundamental_div_mod(n, 10);
    if n < 10 {
        lemma_digit_roundtrip(n);
        assert(dec_digits(n) =~= seq![digit(n)]);
        lemma_digits_val1(dec_digits(n));
    } else {
        let q = n / 10;
        let r = n % 10;
        assert(0 <= r < 10);
        assert(q <= 9 ==> 10 * q <= 90);
        lemma_digit_roundtrip(r);
        if n < 100 {
            assert(q >= 10 ==> 10 * q >= 100);
            assert(1 <= q <= 9);
            lemma_digit_roundtrip(q);
            assert(dec_digits(q) =~= seq![digit(q)]);
            assert(dec_digits(n) =~= seq![digit(q), digit(r)]);
            lemma_digits_val2(dec_digits(n));
        } else {
            assert(10 <= q <= 25);
            lemma_fundamental_div_mod(q, 10);
            let q2 = q / 10;
            let r2 = q % 10;
            assert(0 <= r2 < 10);
            assert(q2 <= 0 ==> 10 * q2 <= 0);
            assert(q2 >= 3 ==> 10 * q2 >= 30);
            assert(1 <= q2 <= 2);
            lemma_digit_roundtrip(q2);
            lemma_digit_roundtrip(r2);
            assert(dec_digits(q2) =~= seq![digit(q2)]);
            assert(dec_digits(q) =~= seq![digit(q2), digit(r2)]);
            assert(dec_digits(n) =~= seq![digit(q2), digit(r2), digit(r)]);
            lemma_digits_val3(dec_digits(n));
        }
    }
}

/// A well-formed octet text is the decimal rendering of its own value:
/// octet texts are canonical.
pub proof fn lemma_octet_text_canon(s: Seq<char>)
    requires
        is_octet_text(s),
    ensures
        0 <= digits_val(s) <= 255,
        dec_digits(digits_val(s)) == s,
{
    let v = digits_val(s);
    if s.len() == 1 {
        let d0 = digit_val(s[0]);
        lemma_digit_char_roundtrip(s[0]);
        lemma_digits_val1(s);
        assert(v == d0);
        assert(dec_digits(v) =~= seq![digit(d0)]);
        assert(dec_digits(v) =~= s);
    } else if s.len() == 2 {
        let d0 = digit_val(s[0]);
        let d1 = digit_val(s[1]);
        lemma_digit_char_roundtrip(s[0]);
        lemma_digit_char_roundtrip(s[1]);
        lemma_digits_val2(s);
        assert(v == d0 * 10 + d1);
        assert(1 <= d0 <= 9);
        assert(10 <= v <= 99);
        lemma_fundamental_div_mod_converse_div(v, 10, d0, d1);
        lemma_fundamental_div_mod_converse_mod(v, 10, d0, d1);
        assert(dec_digits(d0) =~= seq![digit(d0)]);
        assert(dec_digits(v) =~= dec_digits(d0).push(digit(d1)));
        assert(dec_digits(v) =~= s);
    } else {
        let d0 = digit_val(s[0]);
        let d1 = digit_val(s[1]);
        let d2 = digit_val(s[2]);
        lemma_digit_char_roundtrip(s[0]);
        lemma_digit_char_roundtrip(s[1]);
        lemma_digit_char_roundtrip(s[2]);
        lemma_digits_val3(s);
        assert(v == (d0 * 10 + d1) * 10 + d2);
        assert(1 <= d0 <= 9);
        assert(100 <= v);
        lemma_fundamental_div_mod_converse_div(v, 10, d0 * 10 + d1, d2);
        lemma_fundamental_div_mod_converse_mod(v, 10, d0 * 10 + d1, d2);
        assert(v / 10 == d0 * 10 + d1);
        lemma_fundamental_div_mod_converse_div(d0 * 10 + d1, 10, d0, d1);
        lemma_fundamental_div_mod_converse_mod(d0 * 10 + d1, 10, d0, d1);
        assert(dec_digits(d0) =~= seq![digit(d0)]);
        assert(dec_digits(d0 * 10 + d1) =~= dec_digits(d0).push(digit(d1)));
        assert(dec_digits(v) =~= dec_digits(d0 * 10 + d1).push(digit(d2)));
        assert(dec_digits(v) =~= s);
    }
}

/// Every octet of an address is at most 255.
proof fn lemma_oct_bounds(v: u32)
    ensures
        oct0(v) <= 255,
        oct1(v) <= 255,
        oct2(v) <= 255,
        oct3(v) <= 255,
{
    assert((v >> 24) & 0xFF <= 255 && (v >> 16) & 0xFF <= 255 && (v >> 8) & 0xFF <= 255 && v & 0xFF
        <= 255) by (bit_vector);
}

/// Where the dots stand in a rendered address and what lies between
/// them: the three dots are exactly the separators, and the four parts
/// are well-formed octet texts spelling the four octets.
pub proof fn lemma_render_structure(v: u32)
    ensures
        ({
            let a = dec_digits(oct0(v) as int);
            let b = dec_digits(oct1(v) as int);
            let c = dec_digits(oct2(v) as int);
            let d = dec_digits(oct3(v) as int);
            let s = ipv4_render(v);
            let p1 = a.len() as int;
            let p2 = a.len() as int + b.len() as int + 1;
            let p3 = a.len() as int + b.len() as int + c.len() as int + 2;
            &&& s.len() == a.len() + b.len() + c.len() + d.len() + 3nat
            &&& is_octet_text(a) && digits_val(a) == oct0(v)
            &&& is_octet_text(b) && digits_val(b) == oct1(v)
            &&& is_octet_text(c) && digits_val(c) == oct2(v)
            &&& is_octet_text(d) && digits_val(d) == oct3(v)
            &&& 0 < p1 && p1 + 1 < p2 && p2 + 1 < p3 && p3 + 1 < s.len()
            &&& s.subrange(0, p1) == a
            &&& s.subrange(p1 + 1, p2) == b
            &&& s.subrange(p2 + 1, p3) == c
            &&& s.subrange(p3 + 1, s.len() as int) == d
            &&& forall|i: int|
                0 <= i < s.len() ==> (s[i] == '.' <==> (i == p1 || i == p2 || i == p3))
        }),
{
    let a = dec_digits(oct0(v) as int);
    let b = dec_digits(oct1(v) as int);
    let c = dec_digits(oct2(v) as int);
    let d = dec_digits(oct3(v) as int);
    let s = ipv4_render(v);
    let p1 = a.len() as int;
    let p2 = a.len() as int + b.len() as int + 1;
    let p3 = a.len() as int + b.len() as int + c.len() as int + 2;
    lemma_oct_bounds(v);
    lemma_dec_digits_octet(oct0(v) as int);
    lemma_dec_digits_octet(oct1(v) as int);
    lemma_dec_digits_octet(oct2(v) as int);
    lemma_dec_digits_octet(oct3(v) as int);
    assert(s.subrange(0, p1) =~= a);
    assert(s.subrange(p1 + 1, p2) =~= b);
    assert(s.subrange(p2 + 1, p3) =~= c);
    assert(s.subrange(p3 + 1, s.len() as int) =~= d);
    assert(s[p1] == '.' && s[p2] == '.' && s[p3] == '.');
    assert forall|i: int| 0 <= i < s.len() && !(i == p1 || i == p2 || i == p3) implies s[i]
        != '.' by {
        if i < p1 {
            assert(s[i] == a[i]);
            assert(is_digit_char(a[i]));
        } else if i < p2 {
            assert(s[i] == b[i - (p1 + 1)]);
            assert(is_digit_char(b[i - (p1 + 1)]));
        } else if i < p3 {
            assert(s[i] == c[i - (p2 + 1)]);
            assert(is_digit_char(c[i - (p2 + 1)]));
        } else {
            assert(s[i] == d[i - (p3 + 1)]);
            assert(is_digit_char(d[i - (p3 + 1)]));
        }
    }
}

/// No two addresses render to the same text.
pub proof fn lemma_render_injective(x: u32, y: u32)
    requires
        ipv4_render(x) == ipv4_render(y),
    ensures
        x == y,
{
    let s = ipv4_render(x);
    let ax = dec_digits(oct0(x) as int);
    let bx = dec_digits(oct1(x) as int);
    let cx = dec_digits(oct2(x) as int);
    let ay = dec_digits(oct0(y) as int);
    let by = dec_digits(oct1(y) as int);
    let cy = dec_digits(oct2(y) as int);
    lemma_render_structure(x);
    lemma_render_structure(y);
    let p1x = ax.len() as int;
    let p2x = ax.len() as int + bx.len() as int + 1;
    let p3x = ax.len() as int + bx.len() as int + cx.len() as int + 2;
    let p1y = ay.len() as int;
    let p2y = ay.len() as int + by.len() as int + 1;
    let p3y = ay.len() as int + by.len() as int + cy.len() as int + 2;
    assert(s[p1x] == '.' && s[p2x] == '.' && s[p3x] == '.');
    assert(s[p1y] == '.' && s[p2y] == '.' && s[p3y] == '.');
    assert(p1x == p1y && p2x == p2y && p3x == p3y);
    lemma_octet_text_canon(s.subrange(0, p1x));
    lemma_octet_text_canon(s.subrange(p1x + 1, p2x));
    lemma_octet_text_canon(s.subrange(p2x + 1, p3x));
    lemma_octet_text_canon(s.subrange(p3x + 1, s.len() as int));
    assert(oct0(x) == oct0(y) && oct1(x) == oct1(y) && oct2(x) == oct2(y) && oct3(x) == oct3(y));
    assert((oct0(x) == oct0(y) && oct1(x) == oct1(y) && oct2(x) == oct2(y) && oct3(x) == oct3(y))
        ==> x == y) by (bit_vector);
}

/// The rendering of an address reads back as that address and no other.
pub proof fn lemma_text_ipv4_render(v: u32)
    ensures
        is_ipv4_text(ipv4_render(v)),
        text_ipv4(ipv4_render(v)) == Some(v),
{
    assert(ipv4_render(v) == ipv4_render(v));
    let w = choose|w: u32| ipv4_render(v) == ipv4_render(w);
    lemma_render_injective(v, w);
}

/// The subnet mask whose leading `p` bits are set.
pub open spec fn prefix_mask(p: u32) -> u32 {
    if p == 0 {
        0u32
    } else if p >= 32 {
        0xFFFF_FFFFu32
    } else {
        0xFFFF_FFFFu32 << ((32 - p) as u32)
    }
}

/// A gateway lies inside the network `ip/prefix` exactly when it agrees
/// with the address on every bit the mask keeps.
pub open spec fn net_contains(ip: u32, p: u32, gw: u32) -> bool {
    gw & prefix_mask(p) == ip & prefix_mask(p)
}

/// No two prefix lengths give the same mask.
pub proof fn lemma_prefix_mask_injective(p: u32, q: u32)
    requires
        p <= 32,
        q <= 32,
        prefix_mask(p) == prefix_mask(q),
    ensures
        p == q,
{
    assert((p <= 32 && q <= 32 && prefix_mask(p) == prefix_mask(q)) ==> p == q) by (bit_vector);
}

/// The dotted-decimal mask equivalent to a prefix length.
pub fn prefix_to_mask(p: u8) -> (mask: u32)
    requires
        p <= 32,
    ensures
        mask == prefix_mask(p as u32),
{
    if p == 0 {
        0
    } else {
        let sh: u32 = 32 - (p as u32);
        let m = 0xFFFF_FFFFu32 << sh;
        proof {
            if p == 32 {
                assert(0xFFFF_FFFFu32 << 0u32 == 0xFFFF_FFFFu32) by (bit_vector);
            }
        }
        m
    }
}

/// The prefix length a mask stands for, where the mask is contiguous;
/// a mask with a gap in it stands for no prefix at all.
pub fn mask_to_prefix(mask: u32) -> (r: Option<u8>)
    ensures
        match r {
            Some(p) => p <= 32 && mask == prefix_mask(p as u32),
            None => forall|q: u32| q <= 32 ==> mask != prefix_mask(q),
        },
{
    let mut p: u8 = 0;
    while p <= 32
        invariant
            p <= 33,
            forall|q: u32| q < p ==> mask != prefix_mask(q),
        decreases 33 - p,
    {
        if prefix_to_mask(p) == mask {
            return Some(p);
        }
        p = p + 1;
    }
    None
}

/// Whether the gateway lies inside the network `ip/prefix`.
pub fn network_contains(ip: u32, prefix: u8, gateway: u32) -> (r: bool)
    requires
        prefix <= 32,
    ensures
        r == net_contains(ip, prefix as u32, gateway),
{
    let m = prefix_to_mask(prefix);
    (gateway & m) == (ip & m)
}

/// Reads one decimal octet out of `s[from..to]`; the piece is accepted
/// exactly when it is a well-formed octet text, and the result is its
/// value.
fn parse_octet(s: &str, from: usize, to: usize) -> (r: Option<u8>)
    requires
        from <= to <= s@.len(),
    ensures
        match r {
            Some(b) => is_octet_text(s@.subrange(from as int, to as int)) && digits_val(
                s@.subrange(from as int, to as int),
            ) == b as int,
            None => !is_octet_text(s@.subrange(from as int, to as int)),
        },
{
    let ghost t = s@.subrange(from as int, to as int);
    let len = to - from;
    if len == 0 || len > 3 {
        return None;
    }
    if len > 1 {
        let c0 = s.get_char(from);
        if c0 == '0' {
            proof {
                assert(t[0] == s@[from as int]);
            }
            return None;
        }
    }
    let mut i = from;
    let mut val: u32 = 0;
    while i < to
        invariant
            from <= i <= to <= s@.len(),
            1 <= to - from <= 3,
            t == s@.subrange(from as int, to as int),
            all_digits(t.subrange(0, i - from)),
            val == digits_val(t.subrange(0, i - from)),
            i - from == 0 ==> val == 0,
            i - from == 1 ==> val <= 9,
            i - from == 2 ==> val <= 99,
            i - from == 3 ==> val <= 999,
        decreases to - i,
    {
        let c = s.get_char(i);
        if !('0' <= c && c <= '9') {
            proof {
                assert(t[i - from] == s@[i as int]);
                assert(!is_digit_char(t[i - from]));
            }
            return None;
        }
        let d = (c as u8) - 48;
        proof {
            assert(d as int == digit_val(c));
            let k = i - from;
            assert(t.subrange(0, k + 1).drop_last() =~= t.subrange(0, k as int));
            assert(t.subrange(0, k + 1).last() == t[k as int]);
            assert(t[k as int] == s@[i as int]);
            assert(digits_val(t.subrange(0, k + 1)) == digits_val(t.subrange(0, k as int)) * 10
                + digit_val(t[k as int]));
            assert(forall|j: int|
                0 <= j < k + 1 ==> is_digit_char(#[trigger] t.subrange(0, k + 1)[j]));
        }
        val = val * 10 + (d as u32);
        i = i + 1;
    }
    proof {
        assert(t.subrange(0, (to - from) as int) =~= t);
    }
    if val > 255 {
        return None;
    }
    Some(val as u8)
}

/// A scan that found every dot of a rendered address found exactly the
/// three separators, in order.
proof fn lemma_scan_dots(s: Seq<char>, v: u32, cnt: int, p1: int, p2: int, p3: int)
    requires
        s == ipv4_render(v),
        0 <= cnt <= 3,
        cnt >= 1 ==> 0 <= p1 < s.len() && s[p1] == '.',
        cnt >= 2 ==> p1 < p2 < s.len() && s[p2] == '.',
        cnt >= 3 ==> p2 < p3 < s.len() && s[p3] == '.',
        forall|j: int|
            0 <= j < s.len() ==> (s[j] == '.' <==> ((cnt >= 1 && j == p1) || (cnt >= 2 && j == p2)
                || (cnt >= 3 && j == p3))),
    ensures
        cnt == 3,
        p1 == dec_digits(oct0(v) as int).len(),
        p2 == p1 + dec_digits(oct1(v) as int).len() + 1,
        p3 == p2 + dec_digits(oct2(v) as int).len() + 1,
{
    lemma_render_structure(v);
    let q1 = dec_digits(oct0(v) as int).len() as int;
    let q2 = q1 + dec_digits(oct1(v) as int).len() as int + 1;
    let q3 = q2 + dec_digits(oct2(v) as int).len() as int + 1;
    assert(s[q1] == '.');
    assert(s[q2] == '.');
    assert(s[q3] == '.');
    assert(q1 < q2 < q3 < s.len());
}

/// Reads a dotted-decimal IPv4 address from text. The text is accepted
/// exactly when it is the canonical rendering of an address, and the
/// result is that address.
pub fn parse_ipv4(s: &str) -> (r: Option<u32>)
    ensures
        r == text_ipv4(s@),
        match r {
            Some(v) => s@ == ipv4_render(v),
            None => !is_ipv4_text(s@),
        },
{
    let n = s.unicode_len();
    let mut i: usize = 0;
    let mut cnt: usize = 0;
    let mut p1: usize = 0;
    let mut p2: usize = 0;
    let mut p3: usize = 0;
    while i < n
        invariant
            n == s@.len(),
            i <= n,
            cnt <= 3,
            cnt >= 1 ==> p1 < i && s@[p1 as int] == '.',
            cnt >= 2 ==> p1 < p2 && p2 < i && s@[p2 as int] == '.',
            cnt >= 3 ==> p2 < p3 && p3 < i && s@[p3 as int] == '.',
            forall|j: int|
                0 <= j < i ==> (s@[j] == '.' <==> ((cnt >= 1 && j == p1) || (cnt >= 2 && j == p2)
                    || (cnt >= 3 && j == p3))),
        decreases n - i,
    {
        let c = s.get_char(i);
        if c == '.' {
            if cnt == 0 {
                p1 = i;
                cnt = 1;
            } else if cnt == 1 {
                p2 = i;
                cnt = 2;
            } else if cnt == 2 {
                p3 = i;
                cnt = 3;
            } else {
                // a fourth dot: a rendered address holds exactly three
                proof {
                    if is_ipv4_text(s@) {
                        let v = choose|v: u32| s@ == ipv4_render(v);
                        lemma_render_structure(v);
                        assert(false);
                    }
                }
                return None;
            }
        }
        i = i + 1;
    }
    if cnt != 3 {
        proof {
            if is_ipv4_text(s@) {
                let v = choose|v: u32| s@ == ipv4_render(v);
                lemma_scan_dots(s@, v, cnt as int, p1 as int, p2 as int, p3 as int);
                assert(false);
            }
        }
        return None;
    }
    let a = match parse_octet(s, 0, p1) {
        Some(x) => x,
        None => {
            proof {
                if is_ipv4_text(s@) {
                    let v = choose|v: u32| s@ == ipv4_render(v);
                    lemma_scan_dots(s@, v, 3, p1 as int, p2 as int, p3 as int);
                    lemma_render_structure(v);
                    assert(false);
                }
            }
            return None;
        },
    };
    let b = match parse_octet(s, p1 + 1, p2) {
        Some(x) => x,
        None => {
            proof {
                if is_ipv4_text(s@) {
                    let v = choose|v: u32| s@ == ipv4_render(v);
                    lemma_scan_dots(s@, v, 3, p1 as int, p2 as int, p3 as int);
                    lemma_render_structure(v);
                    assert(false);
                }
            }
            return None;
        },
    };
    let c = match parse_octet(s, p2 + 1, p3) {
        Some(x) => x,
        None => {
            proof {
                if is_ipv4_text(s@) {
                    let v = choose|v: u32| s@ == ipv4_render(v);
                    lemma_scan_dots(s@, v, 3, p1 as int, p2 as int, p3 as int);
                    lemma_render_structure(v);
                    assert(false);
                }
            }
            return None;
        },
    };
    let d = match parse_octet(s, p3 + 1, n) {
        Some(x) => x,
        None => {
            proof {
                if is_ipv4_text(s@) {
                    let v = choose|v: u32| s@ == ipv4_render(v);
                    lemma_scan_dots(s@, v, 3, p1 as int, p2 as int, p3 as int);
                    lemma_render_structure(v);
                    assert(false);
                }
            }
            return None;
        },
    };
    let au = a as u32;
    let bu = b as u32;
    let cu = c as u32;
    let du = d as u32;
    let v = (au << 24) | (bu << 16) | (cu << 8) | du;
    proof {
        assert((au <= 255 && bu <= 255 && cu <= 255 && du <= 255) ==> (oct0(
            (au << 24) | (bu << 16) | (cu << 8) | du,
        ) == au && oct1((au << 24) | (bu << 16) | (cu << 8) | du) == bu && oct2(
            (au << 24) | (bu << 16) | (cu << 8) | du,
        ) == cu && oct3((au << 24) | (bu << 16) | (cu << 8) | du) == du)) by (bit_vector);
        let seg0 = s@.subrange(0, p1 as int);
        let seg1 = s@.subrange(p1 as int + 1, p2 as int);
        let seg2 = s@.subrange(p2 as int + 1, p3 as int);
        let seg3 = s@.subrange(p3 as int + 1, n as int);
        lemma_octet_text_canon(seg0);
        lemma_octet_text_canon(seg1);
        lemma_octet_text_canon(seg2);
        lemma_octet_text_canon(seg3);
        assert(dec_digits(oct0(v) as int) == seg0);
        assert(dec_digits(oct1(v) as int) == seg1);
        assert(dec_digits(oct2(v) as int) == seg2);
        assert(dec_digits(oct3(v) as int) == seg3);
        assert(s@ =~= seg0 + seq!['.'] + seg1 + seq!['.'] + seg2 + seq!['.'] + seg3);
        assert(s@ == ipv4_render(v));
        lemma_text_ipv4_render(v);
    }
    Some(v)
}

} // verus!
