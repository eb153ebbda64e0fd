//! Reading an endpoint out of its text form.
//!
//! [`parse_socket_addr`] accepts exactly the texts that
//! [`crate::addr::SocketAddressV4::to_text`] produces: four decimal octets
//! joined by dots, a colon, and a decimal port, every number canonical —
//! no sign, no spare leading zero — and in range. Its contract says so both
//! ways: a parsed endpoint renders back to the given text, and a `None`
//! means no endpoint renders to it.

use vstd::prelude::*;

use crate::addr::digit_char;
use crate::addr::spec_decimal;
use crate::addr::spec_socket_text;
use crate::addr::Ipv4Address;
use crate::addr::SocketAddressV4;

verus! {

/// A decimal digit character.
spec fn is_digit_char(c: char) -> bool {
    c == '0' || c == '1' || c == '2' || c == '3' || c == '4' || c == '5' || c == '6' || c == '7'
        || c == '8' || c == '9'
}

/// The value of a decimal digit character.
spec fn char_digit_val(c: char) -> int {
    if c == '0' {
        0
    } else if c == '1' {
        1
    } else if c == '2' {
        2
    } else if c == '3' {
        3
    } else if c == '4' {
        4
    } else if c == '5' {
        5
    } else if c == '6' {
        6
    } else if c == '7' {
        7
    } else if c == '8' {
        8
    } else {
        9
    }
}

/// Every character a decimal digit.
spec fn all_digits(d: Seq<char>) -> bool {
    forall|i: int| 0 <= i < d.len() ==> is_digit_char(d[i])
}

/// The number a run of digit characters denotes.
spec fn digits_val(d: Seq<char>) -> int
    decreases d.len(),
{
    if d.len() == 0 {
        0
    } else {
        digits_val(d.drop_last()) * 10 + char_digit_val(d.last())
    }
}

/// A canonical decimal rendering: nonempty, digits only, and no spare
/// leading zero.
spec fn canonical_digits(d: Seq<char>) -> bool {
    d.len() >= 1 && all_digits(d) && (d.len() > 1 ==> d[0] != '0')
}

/// The number `v` is written at position `from` of `s`: its canonical
/// rendering stands there, ending at the text's end or at a non-digit.
spec fn field_at(s: Seq<char>, from: int, v: int) -> bool {
    let d = spec_decimal(v);
    0 <= from && from + d.len() <= s.len() && s.subrange(from, from + d.len()) == d && (from
        + d.len() == s.len() || !is_digit_char(s[from + d.len()]))
}

/// Ten to the power `n`.
spec fn pow10(n: nat) -> int
    decreases n,
{
    if n == 0 {
        1
    } else {
        10 * pow10((n - 1) as nat)
    }
}

/// What holds of every canonical rendering: digits only, nonempty, its
/// denoted number is the rendered one, and only zero starts with a zero.
proof fn lemma_decimal_props(v: int)
    requires
        0 <= v,
    ensures
        all_digits(spec_decimal(v)),
        spec_decimal(v).len() >= 1,
        digits_val(spec_decimal(v)) == v,
        v >= 1 ==> spec_decimal(v)[0] != '0',
    decreases v,
{
    if v <= 9 {
        assert(spec_decimal(v) =~= seq![digit_char(v)]);
        assert(spec_decimal(v).drop_last() =~= Seq::<char>::empty());
        assert(digits_val(Seq::<char>::empty()) == 0);
        assert(spec_decimal(v).last() == digit_char(v));
        assert(char_digit_val(digit_char(v)) == v);
        assert(is_digit_char(digit_char(v)));
    } else {
        lemma_decimal_props(v / 10);
        let front = spec_decimal(v / 10);
        let d = spec_decimal(v);
        assert(d == front.push(digit_char(v % 10)));
        assert(d.drop_last() =~= front);
        assert(d.last() == digit_char(v % 10));
        assert(char_digit_val(digit_char(v % 10)) == v % 10);
        assert(digits_val(d) == (v / 10) * 10 + v % 10);
        assert(is_digit_char(digit_char(v % 10)));
        assert(forall|i: int| 0 <= i < d.len() ==> is_digit_char(#[trigger] d[i])) by {
            assert(forall|i: int| 0 <= i < front.len() ==> is_digit_char(#[trigger] front[i]));
        }
        assert(d[0] == front[0]);
    }
}

/// A canonical run of digits is the canonical rendering of its number.
proof fn lemma_digits_reconstruct(d: Seq<char>)
    requires
        canonical_digits(d),
    ensures
        digits_val(d) >= 0,
        d[0] != '0' ==> digits_val(d) >= 1,
        spec_decimal(digits_val(d)) == d,
    decreases d.len(),
{
    if d.len() == 1 {
        assert(is_digit_char(d[0]));
        assert(d.drop_last() =~= Seq::<char>::empty());
        assert(digits_val(Seq::<char>::empty()) == 0);
        assert(d.last() == d[0]);
        assert(digits_val(d) == char_digit_val(d[0]));
        assert(spec_decimal(digits_val(d)) =~= seq![digit_char(char_digit_val(d[0]))]);
        assert(digit_char(char_digit_val(d[0])) == d[0]);
    } else {
        let front = d.drop_last();
        assert(front.len() == d.len() - 1);
        assert(forall|i: int| 0 <= i < front.len() ==> front[i] == d[i]);
        assert(canonical_digits(front));
        lemma_digits_reconstruct(front);
        let vf = digits_val(front);
        assert(front[0] == d[0] && d[0] != '0');
        assert(vf >= 1);
        let v = digits_val(d);
        assert(is_digit_char(d.last()));
        assert(0 <= char_digit_val(d.last()) <= 9);
        assert(v == vf * 10 + char_digit_val(d.last()));
        assert(v >= 10);
        assert(v / 10 == vf && v % 10 == char_digit_val(d.last())) by (nonlinear_arith)
            requires
                v == vf * 10 + char_digit_val(d.last()),
                0 <= char_digit_val(d.last()) <= 9,
                vf >= 0,
        ;
        assert(spec_decimal(v) == spec_decimal(vf).push(digit_char(v % 10)));
        assert(digit_char(char_digit_val(d.last())) == d.last());
        assert(spec_decimal(v) =~= d);
    }
}

/// How long a canonical rendering can be, by the size of its number.
proof fn lemma_decimal_len(v: int)
    requires
        0 <= v,
    ensures
        v <= 9 ==> spec_decimal(v).len() == 1,
        v <= 99 ==> spec_decimal(v).len() <= 2,
        v <= 999 ==> spec_decimal(v).len() <= 3,
        v <= 9999 ==> spec_decimal(v).len() <= 4,
        v <= 99999 ==> spec_decimal(v).len() <= 5,
    decreases v,
{
    if v > 9 {
        lemma_decimal_len(v / 10);
    }
}

proof fn lemma_pow10_vals()
    ensures
        pow10(0) == 1,
        pow10(1) == 10,
        pow10(2) == 100,
        pow10(3) == 1000,
        pow10(4) == 10000,
        pow10(5) == 100000,
        pow10(6) == 1000000,
{
    assert(pow10(0) == 1);
    assert(pow10(1) == 10 * pow10(0));
    assert(pow10(2) == 10 * pow10(1));
    assert(pow10(3) == 10 * pow10(2));
    assert(pow10(4) == 10 * pow10(3));
    assert(pow10(5) == 10 * pow10(4));
    assert(pow10(6) == 10 * pow10(5));
}

proof fn lemma_pow10_le(k: nat)
    requires
        k <= 5,
    ensures
        pow10(k) <= 100000,
{
    lemma_pow10_vals();
    if k == 0 {
    } else if k == 1 {
    } else if k == 2 {
    } else if k == 3 {
    } else if k == 4 {
    } else {
        assert(k == 5);
    }
}

/// A run of digits that does not start with the zero digit denotes a
/// positive number.
proof fn lemma_digits_val_pos(d: Seq<char>)
    requires
        all_digits(d),
        d.len() >= 1,
        d[0] != '0',
    ensures
        digits_val(d) >= 1,
    decreases d.len(),
{
    if d.len() == 1 {
        assert(d.drop_last() =~= Seq::<char>::empty());
        assert(digits_val(Seq::<char>::empty()) == 0);
        assert(d.last() == d[0]);
        assert(is_digit_char(d[0]));
    } else {
        let front = d.drop_last();
        assert(forall|i: int| 0 <= i < front.len() ==> front[i] == d[i]);
        lemma_digits_val_pos(front);
        assert(is_digit_char(d.last()));
        assert(char_digit_val(d.last()) >= 0);
    }
}

/// At one position of one text, only one number can be written: both runs
/// end at the same non-digit boundary, so they are the same run.
proof fn lemma_field_at_unique(s: Seq<char>, from: int, v1: int, v2: int)
    requires
        0 <= v1,
        0 <= v2,
        field_at(s, from, v1),
        field_at(s, from, v2),
    ensures
        v1 == v2,
{
    lemma_decimal_props(v1);
    lemma_decimal_props(v2);
    let d1 = spec_decimal(v1);
    let d2 = spec_decimal(v2);
    if d1.len() < d2.len() {
        assert(s[from + d1.len()] == d2[d1.len() as int]);
        assert(is_digit_char(d2[d1.len() as int]));
        assert(false);
    }
    if d2.len() < d1.len() {
        assert(s[from + d2.len()] == d1[d2.len() as int]);
        assert(is_digit_char(d1[d2.len() as int]));
        assert(false);
    }
    assert(d1 =~= d2);
    assert(digits_val(d1) == digits_val(d2));
}

/// Decides [`is_digit_char`].
fn is_digit(c: char) -> (r: bool)
    ensures
        r == is_digit_char(c),
{
    c == '0' || c == '1' || c == '2' || c == '3' || c == '4' || c == '5' || c == '6' || c == '7'
        || c == '8' || c == '9'
}

/// The value of a digit character.
fn digit_val(c: char) -> (d: u32)
    requires
        is_digit_char(c),
    ensures
        d <= 9,
        char_digit_val(c) == d as int,
        digit_char(d as int) == c,
{
    if c == '0' {
        0
    } else if c == '1' {
        1
    } else if c == '2' {
        2
    } else if c == '3' {
        3
    } else if c == '4' {
        4
    } else if c == '5' {
        5
    } else if c == '6' {
        6
    } else if c == '7' {
        7
    } else if c == '8' {
        8
    } else {
        9
    }
}

/// Reads one canonical decimal number of at most `max`, written at `from`:
/// its value and the position just past its digits. `None` exactly when no
/// such number is written there.
fn scan_field(s: &str, from: usize, max: u32) -> (r: Option<(u32, usize)>)
    requires
        from <= s@.len(),
        max == 255 || max == 65535,
    ensures
        match r {
            Some(ve) => from < ve.1 <= s@.len() && ve.0 <= max && s@.subrange(
                from as int,
                ve.1 as int,
            ) == spec_decimal(ve.0 as int) && field_at(s@, from as int, ve.0 as int),
            None => forall|v: int| 0 <= v <= max ==> !field_at(s@, from as int, v),
        },
{
    let n = s.unicode_len();
    if from == n {
        proof {
            assert forall|v: int| 0 <= v <= max implies !field_at(s@, from as int, v) by {
                lemma_decimal_props(v);
            }
        }
        return None;
    }
    let c0 = s.get_char(from);
    if !is_digit(c0) {
        proof {
            assert forall|v: int| 0 <= v <= max implies !field_at(s@, from as int, v) by {
                lemma_decimal_props(v);
                if field_at(s@, from as int, v) {
                    assert(s@[from as int] == spec_decimal(v)[0]);
                }
            }
        }
        return None;
    }
    let mut val: u32 = digit_val(c0);
    let mut e: usize = from + 1;
    proof {
        lemma_pow10_vals();
        let sub = s@.subrange(from as int, e as int);
        assert(sub =~= seq![c0]);
        assert(sub.drop_last() =~= Seq::<char>::empty());
        assert(digits_val(Seq::<char>::empty()) == 0);
        assert(sub.last() == c0);
        assert(digits_val(sub) == char_digit_val(c0));
    }
    while e < n && e - from < 6 && is_digit(s.get_char(e))
        invariant
            n == s@.len(),
            from < e <= n,
            e - from <= 6,
            max == 255 || max == 65535,
            forall|j: int| from <= j < e ==> is_digit_char(#[trigger] s@[j]),
            val == digits_val(s@.subrange(from as int, e as int)),
            val < pow10((e - from) as nat),
            e > from + 1 ==> s@[from as int] != '0',
        decreases n - e,
    {
        if val == 0 {
            // a further digit after a leading zero digit: not canonical
            proof {
                let sub = s@.subrange(from as int, e as int);
                assert(sub[0] == s@[from as int]);
                assert forall|i: int| 0 <= i < sub.len() implies is_digit_char(sub[i]) by {
                    assert(sub[i] == s@[from + i]);
                }
                if s@[from as int] != '0' {
                    lemma_digits_val_pos(sub);
                }
                assert(s@[from as int] == '0');
                assert(is_digit_char(s@[from + 1]));
                assert forall|v: int| 0 <= v <= max implies !field_at(s@, from as int, v) by {
                    lemma_decimal_props(v);
                    if field_at(s@, from as int, v) {
                        assert(s@[from as int] == spec_decimal(v)[0]);
                        assert(v == 0);
                        assert(spec_decimal(0).len() == 1);
                        assert(from + 1 == s@.len() || !is_digit_char(s@[from + 1]));
                    }
                }
            }
            return None;
        }
        let c = s.get_char(e);
        let d = digit_val(c);
        proof {
            lemma_pow10_vals();
            lemma_pow10_le((e - from) as nat);
            assert(pow10(((e - from) + 1) as nat) == 10 * pow10((e - from) as nat));
        }
        let ghost old_e = e as int;
        let ghost old_val = val as int;
        val = val * 10 + d;
        e = e + 1;
        proof {
            let sub = s@.subrange(from as int, e as int);
            assert(sub.drop_last() =~= s@.subrange(from as int, old_e));
            assert(sub.last() == s@[old_e]);
            assert(char_digit_val(s@[old_e]) == d as int);
            assert(digits_val(sub) == old_val * 10 + d);
        }
    }
    if e < n && is_digit(s.get_char(e)) {
        // seven digits or more: no number this size is written that long
        proof {
            assert(e - from == 6);
            assert forall|v: int| 0 <= v <= max implies !field_at(s@, from as int, v) by {
                lemma_decimal_props(v);
                lemma_decimal_len(v);
                if field_at(s@, from as int, v) {
                    let dlen = spec_decimal(v).len() as int;
                    assert(dlen <= 5);
                    assert(is_digit_char(s@[from + dlen]));
                }
            }
        }
        return None;
    }
    proof {
        let sub = s@.subrange(from as int, e as int);
        assert(sub[0] == s@[from as int]);
        assert forall|i: int| 0 <= i < sub.len() implies is_digit_char(sub[i]) by {
            assert(sub[i] == s@[from + i]);
        }
        if val > 0 && sub.len() > 1 {
            assert(s@[from as int] != '0');
        }
        if val == 0 {
            assert(digits_val(sub) == 0);
            if sub.len() > 1 {
                lemma_digits_val_pos(sub);
                assert(sub[0] == '0');
                assert(false);
            }
        }
        assert(canonical_digits(sub));
        lemma_digits_reconstruct(sub);
        assert(spec_decimal(val as int) == sub);
        assert(field_at(s@, from as int, val as int));
    }
    if val > max {
        proof {
            assert forall|v: int| 0 <= v <= max implies !field_at(s@, from as int, v) by {
                if field_at(s@, from as int, v) {
                    lemma_field_at_unique(s@, from as int, v, val as int);
                }
            }
        }
        return None;
    }
    Some((val, e))
}

/// Where each number and separator of a rendered endpoint stands: the five
/// numbers are fields at their positions, with the dots, the colon and the
/// text's end as their boundaries.
proof fn lemma_socket_text_fields(
    s: Seq<char>,
    sa: SocketAddressV4,
    p0: int,
    p1: int,
    p2: int,
    p3: int,
    p4: int,
)
    requires
        s == spec_socket_text(sa),
        p0 == spec_decimal(sa.ip.o0 as int).len(),
        p1 == p0 + 1 + spec_decimal(sa.ip.o1 as int).len(),
        p2 == p1 + 1 + spec_decimal(sa.ip.o2 as int).len(),
        p3 == p2 + 1 + spec_decimal(sa.ip.o3 as int).len(),
        p4 == p3 + 1 + spec_decimal(sa.port as int).len(),
    ensures
        field_at(s, 0, sa.ip.o0 as int),
        s[p0] == '.',
        field_at(s, p0 + 1, sa.ip.o1 as int),
        s[p1] == '.',
        field_at(s, p1 + 1, sa.ip.o2 as int),
        s[p2] == '.',
        field_at(s, p2 + 1, sa.ip.o3 as int),
        s[p3] == ':',
        field_at(s, p3 + 1, sa.port as int),
        p4 == s.len(),
        0 < p0 < p1 < p2 < p3 < p4,
{
    let d0 = spec_decimal(sa.ip.o0 as int);
    let d1 = spec_decimal(sa.ip.o1 as int);
    let d2 = spec_decimal(sa.ip.o2 as int);
    let d3 = spec_decimal(sa.ip.o3 as int);
    let d4 = spec_decimal(sa.port as int);
    lemma_decimal_props(sa.ip.o0 as int);
    lemma_decimal_props(sa.ip.o1 as int);
    lemma_decimal_props(sa.ip.o2 as int);
    lemma_decimal_props(sa.ip.o3 as int);
    lemma_decimal_props(sa.port as int);
    let t = d0 + seq!['.'] + d1 + seq!['.'] + d2 + seq!['.'] + d3 + seq![':'] + d4;
    assert(s == t);
    assert(t.len() == p4);
    assert(s.subrange(0, p0) =~= d0);
    assert(s[p0] == '.');
    assert(s.subrange(p0 + 1, p1) =~= d1);
    assert(s[p1] == '.');
    assert(s.subrange(p1 + 1, p2) =~= d2);
    assert(s[p2] == '.');
    assert(s.subrange(p2 + 1, p3) =~= d3);
    assert(s[p3] == ':');
    assert(s.subrange(p3 + 1, p4) =~= d4);
    assert(!is_digit_char('.'));
    assert(!is_digit_char(':'));
}

/// The decomposition of `s` as the rendering of `sa`: each number a field
/// at its position, each separator in its place.
spec fn socket_text_decomposed(s: Seq<char>, sa: SocketAddressV4) -> bool {
    let q0 = spec_decimal(sa.ip.o0 as int).len() as int;
    let q1 = q0 + 1 + spec_decimal(sa.ip.o1 as int).len();
    let q2 = q1 + 1 + spec_decimal(sa.ip.o2 as int).len();
    let q3 = q2 + 1 + spec_decimal(sa.ip.o3 as int).len();
    let q4 = q3 + 1 + spec_decimal(sa.port as int).len();
    field_at(s, 0, sa.ip.o0 as int) && s[q0] == '.' && field_at(s, q0 + 1, sa.ip.o1 as int) && s[q1]
        == '.' && field_at(s, q1 + 1, sa.ip.o2 as int) && s[q2] == '.' && field_at(
        s,
        q2 + 1,
        sa.ip.o3 as int,
    ) && s[q3] == ':' && field_at(s, q3 + 1, sa.port as int) && q4 == s.len() && 0 < q0 < q1 < q2
        < q3 < q4
}

/// A rendered endpoint decomposes into its fields and separators.
proof fn socket_text_positions(s: Seq<char>, sa: SocketAddressV4)
    requires
        s == spec_socket_text(sa),
    ensures
        socket_text_decomposed(s, sa),
{
    let q0 = spec_decimal(sa.ip.o0 as int).len() as int;
    let q1 = q0 + 1 + spec_decimal(sa.ip.o1 as int).len();
    let q2 = q1 + 1 + spec_decimal(sa.ip.o2 as int).len();
    let q3 = q2 + 1 + spec_decimal(sa.ip.o3 as int).len();
    let q4 = q3 + 1 + spec_decimal(sa.port as int).len();
    lemma_socket_text_fields(s, sa, q0, q1, q2, q3, q4);
}

/// Reads an endpoint out of its text form: exactly the texts that
/// [`SocketAddressV4::to_text`] produces are accepted, and parsing is its
/// inverse — `Some(sa)` means the text is `sa` rendered, and `None` means
/// the text renders no endpoint at all.
#[verifier::rlimit(100)]
pub fn parse_socket_addr(s: &str) -> (r: Option<SocketAddressV4>)
    ensures
        match r {
            Some(sa) => s@ == spec_socket_text(sa),
            None => forall|sa: SocketAddressV4| s@ != spec_socket_text(sa),
        },
{
    let n = s.unicode_len();
    let (v0, e0) = match scan_field(s, 0, 255) {
        Some(p) => p,
        None => {
            proof {
                assert forall|sa: SocketAddressV4| s@ != spec_socket_text(sa) by {
                    if s@ == spec_socket_text(sa) {
                        socket_text_positions(s@, sa);
                    }
                }
            }
            return None;
        },
    };
    if e0 == n || s.get_char(e0) != '.' {
        proof {
            assert forall|sa: SocketAddressV4| s@ != spec_socket_text(sa) by {
                if s@ == spec_socket_text(sa) {
                    socket_text_positions(s@, sa);
                    lemma_field_at_unique(s@, 0, v0 as int, sa.ip.o0 as int);
                }
            }
        }
        return None;
    }
    let (v1, e1) = match scan_field(s, e0 + 1, 255) {
        Some(p) => p,
        None => {
            proof {
                assert forall|sa: SocketAddressV4| s@ != spec_socket_text(sa) by {
                    if s@ == spec_socket_text(sa) {
                        socket_text_positions(s@, sa);
                        lemma_field_at_unique(s@, 0, v0 as int, sa.ip.o0 as int);
                    }
                }
            }
            return None;
        },
    };
    if e1 == n || s.get_char(e1) != '.' {
        proof {
            assert forall|sa: SocketAddressV4| s@ != spec_socket_text(sa) by {
                if s@ == spec_socket_text(sa) {
                    socket_text_positions(s@, sa);
                    lemma_field_at_unique(s@, 0, v0 as int, sa.ip.o0 as int);
                    lemma_field_at_unique(s@, e0 + 1, v1 as int, sa.ip.o1 as int);
                }
            }
        }
        return None;
    }
    let (v2, e2) = match scan_field(s, e1 + 1, 255) {
        Some(p) => p,
        None => {
            proof {
                assert forall|sa: SocketAddressV4| s@ != spec_socket_text(sa) by {
                    if s@ == spec_socket_text(sa) {
                        socket_text_positions(s@, sa);
                        lemma_field_at_unique(s@, 0, v0 as int, sa.ip.o0 as int);
                        lemma_field_at_unique(s@, e0 + 1, v1 as int, sa.ip.o1 as int);
                    }
                }
            }
            return None;
        },
    };
    if e2 == n || s.get_char(e2) != '.' {
        proof {
            assert forall|sa: SocketAddressV4| s@ != spec_socket_text(sa) by {
                if s@ == spec_socket_text(sa) {
                    socket_text_positions(s@, sa);
                    lemma_field_at_unique(s@, 0, v0 as int, sa.ip.o0 as int);
                    lemma_field_at_unique(s@, e0 + 1, v1 as int, sa.ip.o1 as int);
                    lemma_field_at_unique(s@, e1 + 1, v2 as int, sa.ip.o2 as int);
                }
            }
        }
        return None;
    }
    let (v3, e3) = match scan_field(s, e2 + 1, 255) {
        Some(p) => p,
        None => {
            proof {
                assert forall|sa: SocketAddressV4| s@ != spec_socket_text(sa) by {
                    if s@ == spec_socket_text(sa) {
                        socket_text_positions(s@, sa);
                        lemma_field_at_unique(s@, 0, v0 as int, sa.ip.o0 as int);
                        lemma_field_at_unique(s@, e0 + 1, v1 as int, sa.ip.o1 as int);
                        lemma_field_at_unique(s@, e1 + 1, v2 as int, sa.ip.o2 as int);
                    }
                }
            }
            return None;
        },
    };
    if e3 == n || s.get_char(e3) != ':' {
        proof {
            assert forall|sa: SocketAddressV4| s@ != spec_socket_text(sa) by {
                if s@ == spec_socket_text(sa) {
                    socket_text_positions(s@, sa);
                    lemma_field_at_unique(s@, 0, v0 as int, sa.ip.o0 as int);
                    lemma_field_at_unique(s@, e0 + 1, v1 as int, sa.ip.o1 as int);
                    lemma_field_at_unique(s@, e1 + 1, v2 as int, sa.ip.o2 as int);
                    lemma_field_at_unique(s@, e2 + 1, v3 as int, sa.ip.o3 as int);
                }
            }
        }
        return None;
    }
    let (port, e4) = match scan_field(s, e3 + 1, 65535) {
        Some(p) => p,
        None => {
            proof {
                assert forall|sa: SocketAddressV4| s@ != spec_socket_text(sa) by {
                    if s@ == spec_socket_text(sa) {
                        socket_text_positions(s@, sa);
                        lemma_field_at_unique(s@, 0, v0 as int, sa.ip.o0 as int);
                        lemma_field_at_unique(s@, e0 + 1, v1 as int, sa.ip.o1 as int);
                        lemma_field_at_unique(s@, e1 + 1, v2 as int, sa.ip.o2 as int);
                        lemma_field_at_unique(s@, e2 + 1, v3 as int, sa.ip.o3 as int);
                    }
                }
            }
            return None;
        },
    };
    if e4 != n {
        proof {
            assert forall|sa: SocketAddressV4| s@ != spec_socket_text(sa) by {
                if s@ == spec_socket_text(sa) {
                    socket_text_positions(s@, sa);
                    lemma_field_at_unique(s@, 0, v0 as int, sa.ip.o0 as int);
                    lemma_field_at_unique(s@, e0 + 1, v1 as int, sa.ip.o1 as int);
                    lemma_field_at_unique(s@, e1 + 1, v2 as int, sa.ip.o2 as int);
                    lemma_field_at_unique(s@, e2 + 1, v3 as int, sa.ip.o3 as int);
                    lemma_field_at_unique(s@, e3 + 1, port as int, sa.port as int);
                }
            }
        }
        return None;
    }
    let ip = Ipv4Address::new(v0 as u8, v1 as u8, v2 as u8, v3 as u8);
    let sock = SocketAddressV4::new(ip, port as u16);
    proof {
        let t = spec_decimal(v0 as int) + seq!['.'] + spec_decimal(v1 as int) + seq!['.']
            + spec_decimal(v2 as int) + seq!['.'] + spec_decimal(v3 as int) + seq![':']
            + spec_decimal(port as int);
        assert(spec_socket_text(sock) == t);
        assert(s@ =~= t);
    }
    Some(sock)
}

} // verus!
