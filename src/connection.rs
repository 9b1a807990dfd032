use vstd::prelude::*;
use crate::ban_manager::{IpAddress, SocketAddress};
use crate::error::Error;

verus! {

/// Characters trimmed from the end of a line.
pub open spec fn is_space(c: char) -> bool {
    c == ' ' || c == '\t' || c == '\r' || c == '\n'
}

/// `s` without trailing whitespace.
pub open spec fn trim_end(s: Seq<char>) -> Seq<char>
    decreases s.len(),
{
    if s.len() > 0 && is_space(s.last()) {
        trim_end(s.drop_last())
    } else {
        s
    }
}

/// Splits what is left of a line on `sep`, `cur` being the field read so
/// far and `acc` the fields before it; empty fields are kept.
pub open spec fn split_acc(s: Seq<char>, sep: char, cur: Seq<char>, acc: Seq<Seq<char>>) -> Seq<
    Seq<char>,
>
    decreases s.len(),
{
    if s.len() == 0 {
        acc.push(cur)
    } else if s[0] == sep {
        split_acc(s.drop_first(), sep, Seq::empty(), acc.push(cur))
    } else {
        split_acc(s.drop_first(), sep, cur.push(s[0]), acc)
    }
}

/// The fields of `s` between occurrences of `sep`, empty ones included.
pub open spec fn split(s: Seq<char>, sep: char) -> Seq<Seq<char>> {
    split_acc(s, sep, Seq::empty(), Seq::empty())
}

pub open spec fn is_digit(c: char) -> bool {
    48 <= (c as u32) <= 57
}

/// The value of a string of decimal digits.
pub open spec fn digits_value(s: Seq<char>) -> nat
    decreases s.len(),
{
    if s.len() == 0 {
        0
    } else {
        digits_value(s.drop_last()) * 10 + ((s.last() as u32) - 48) as nat
    }
}

/// The number that `s` spells with one to `max_len` decimal digits, if it
/// does and is at most `max`.
pub open spec fn parse_bounded(s: Seq<char>, max_len: nat, max: nat) -> Option<nat> {
    if 1 <= s.len() <= max_len && (forall|i: int| 0 <= i < s.len() ==> is_digit(#[trigger] s[i]))
        && digits_value(s) <= max {
        Some(digits_value(s))
    } else {
        None
    }
}

/// The version 4 address that `s` spells in dotted decimal, if it does.
pub open spec fn parse_ipv4(s: Seq<char>) -> Option<u32> {
    let parts = split(s, '.');
    if parts.len() == 4 && (forall|i: int|
        0 <= i < 4 ==> (#[trigger] parse_bounded(parts[i], 3, 255)) is Some) {
        Some(
            (parse_bounded(parts[0], 3, 255)->0 * 0x100_0000 + parse_bounded(parts[1], 3, 255)->0
                * 0x1_0000 + parse_bounded(parts[2], 3, 255)->0 * 0x100 + parse_bounded(
                parts[3],
                3,
                255,
            )->0) as u32,
        )
    } else {
        None
    }
}

/// A hexadecimal digit, either case.
pub open spec fn is_hex(c: char) -> bool {
    is_digit(c) || (97 <= (c as u32) <= 102) || (65 <= (c as u32) <= 70)
}

pub open spec fn hex_value(c: char) -> nat {
    if is_digit(c) {
        ((c as u32) - 48) as nat
    } else if 97 <= (c as u32) <= 102 {
        ((c as u32) - 87) as nat
    } else {
        ((c as u32) - 55) as nat
    }
}

/// The value of a string of hexadecimal digits.
pub open spec fn hex_digits_value(s: Seq<char>) -> nat
    decreases s.len(),
{
    if s.len() == 0 {
        0
    } else {
        hex_digits_value(s.drop_last()) * 16 + hex_value(s.last())
    }
}

/// One group of a version 6 address: one to four hexadecimal digits.
pub open spec fn parse_group(s: Seq<char>) -> Option<nat> {
    if 1 <= s.len() <= 4 && (forall|i: int| 0 <= i < s.len() ==> is_hex(#[trigger] s[i])) {
        Some(hex_digits_value(s))
    } else {
        None
    }
}

/// The groups that `parts` spell, if each is one.
pub open spec fn parse_groups(parts: Seq<Seq<char>>) -> Option<Seq<nat>>
    decreases parts.len(),
{
    if parts.len() == 0 {
        Some(Seq::empty())
    } else {
        match (parse_groups(parts.drop_last()), parse_group(parts.last())) {
            (Some(g), Some(v)) => Some(g.push(v)),
            _ => None,
        }
    }
}

/// The number that sixteen-bit groups make, most significant first.
pub open spec fn groups_value(g: Seq<nat>) -> nat
    decreases g.len(),
{
    if g.len() == 0 {
        0
    } else {
        groups_value(g.drop_last()) * 0x1_0000 + g.last()
    }
}

/// The groups on one side of `::`: none for an empty side.
pub open spec fn side_groups(s: Seq<char>) -> Option<Seq<nat>> {
    if s.len() == 0 {
        Some(Seq::empty())
    } else {
        parse_groups(split(s, ':'))
    }
}

/// The first position from `i` on where `::` starts.
pub open spec fn find_double_colon(t: Seq<char>, i: int) -> Option<int>
    decreases t.len() - i,
{
    if i < 0 || i + 1 >= t.len() {
        None
    } else if t[i] == ':' && t[i + 1] == ':' {
        Some(i)
    } else {
        find_double_colon(t, i + 1)
    }
}

/// The version 6 address that `t` spells: eight groups separated by
/// colons, or fewer with one `::` standing for the missing zero groups.
pub open spec fn parse_ipv6(t: Seq<char>) -> Option<u128> {
    match find_double_colon(t, 0) {
        None => {
            let parts = split(t, ':');
            if parts.len() == 8 && parse_groups(parts) is Some {
                Some(groups_value(parse_groups(parts)->0) as u128)
            } else {
                None
            }
        },
        Some(i) => {
            let l = side_groups(t.subrange(0, i));
            let r = side_groups(t.subrange(i + 2, t.len() as int));
            if l is Some && r is Some && l->0.len() + r->0.len() <= 7 {
                Some(
                    groups_value(
                        l->0 + zero_groups((8 - l->0.len() - r->0.len()) as nat) + r->0,
                    ) as u128,
                )
            } else {
                None
            }
        },
    }
}

/// `n` zero groups.
pub open spec fn zero_groups(n: nat) -> Seq<nat> {
    Seq::new(n, |k: int| 0nat)
}

proof fn lemma_zero_groups_push(n: nat)
    ensures
        zero_groups(n + 1) == zero_groups(n).push(0nat),
{
    assert(zero_groups(n + 1) =~= zero_groups(n).push(0nat));
}

/// The address that `t` spells, in dotted decimal or in groups.
pub open spec fn parse_ip(t: Seq<char>) -> Option<IpAddress> {
    if parse_ipv4(t) is Some {
        Some(IpAddress::V4(parse_ipv4(t)->0))
    } else if parse_ipv6(t) is Some {
        Some(IpAddress::V6(parse_ipv6(t)->0))
    } else {
        None
    }
}

/// The word every PROXY preface starts with.
pub open spec fn proxy_word() -> Seq<char> {
    seq!['P', 'R', 'O', 'X', 'Y']
}

/// The peer address that a preface `PROXY <family> <source address>
/// <destination address> <source port> <destination port>` gives: the
/// source address and port. Trailing whitespace is ignored.
pub open spec fn proxy_address(line: Seq<char>) -> Option<SocketAddress> {
    let fields = split(trim_end(line), ' ');
    if fields.len() == 6 && fields[0] == proxy_word() && parse_ip(fields[2]) is Some
        && parse_bounded(fields[4], 5, 65535) is Some {
        Some(
            SocketAddress {
                ip: parse_ip(fields[2])->0,
                port: parse_bounded(fields[4], 5, 65535)->0 as u16,
            },
        )
    } else {
        None
    }
}

fn chars_of(s: &str) -> (r: Vec<char>)
    ensures
        r@ == s@,
{
    let n = s.unicode_len();
    let mut r: Vec<char> = Vec::new();
    let mut i: usize = 0;
    while i < n
        invariant
            n == s@.len(),
            i <= n,
            r@ == s@.subrange(0, i as int),
        decreases n - i,
    {
        r.push(s.get_char(i));
        i = i + 1;
        proof {
            assert(r@ =~= s@.subrange(0, i as int));
        }
    }
    proof {
        assert(r@ =~= s@);
    }
    r
}

/// The length of `s` without trailing whitespace.
fn trimmed_len(s: &Vec<char>) -> (r: usize)
    ensures
        r <= s@.len(),
        trim_end(s@) == s@.subrange(0, r as int),
{
    let mut e: usize = s.len();
    proof {
        assert(s@.subrange(0, e as int) =~= s@);
    }
    while e > 0 && (s[e - 1] == ' ' || s[e - 1] == '\t' || s[e - 1] == '\r' || s[e - 1] == '\n')
        invariant
            e <= s@.len(),
            trim_end(s@) == trim_end(s@.subrange(0, e as int)),
        decreases e,
    {
        proof {
            assert(s@.subrange(0, e as int).drop_last() =~= s@.subrange(0, e - 1));
        }
        e = e - 1;
    }
    e
}

/// `v` holds the character strings `m`.
spec fn holds_fields(v: Seq<Vec<char>>, m: Seq<Seq<char>>) -> bool {
    v.len() == m.len() && forall|i: int| 0 <= i < v.len() ==> (#[trigger] v[i])@ == m[i]
}

fn split_chars(s: &Vec<char>, len: usize, sep: char) -> (r: Vec<Vec<char>>)
    requires
        len <= s@.len(),
    ensures
        holds_fields(r@, split(s@.subrange(0, len as int), sep)),
{
    let ghost whole = s@.subrange(0, len as int);
    let mut acc: Vec<Vec<char>> = Vec::new();
    let ghost mut model: Seq<Seq<char>> = Seq::empty();
    let mut cur: Vec<char> = Vec::new();
    let mut i: usize = 0;
    proof {
        assert(s@.subrange(0, len as int) =~= whole);
        assert(s@.subrange(0, len as int).subrange(0, len as int) =~= whole);
    }
    while i < len
        invariant
            len <= s@.len(),
            i <= len,
            whole == s@.subrange(0, len as int),
            holds_fields(acc@, model),
            split_acc(s@.subrange(i as int, len as int), sep, cur@, model) == split(whole, sep),
        decreases len - i,
    {
        let ghost rest = s@.subrange(i as int, len as int);
        proof {
            assert(rest.drop_first() =~= s@.subrange(i + 1, len as int));
            assert(rest[0] == s@[i as int]);
        }
        let c = s[i];
        if c == sep {
            let field = cur;
            proof {
                model = model.push(field@);
            }
            acc.push(field);
            cur = Vec::new();
        } else {
            cur.push(c);
        }
        i = i + 1;
    }
    let last = cur;
    proof {
        model = model.push(last@);
        assert(s@.subrange(len as int, len as int) =~= Seq::<char>::empty());
    }
    acc.push(last);
    acc
}

/// Reads one to `max_len` decimal digits worth at most `max`.
fn parse_number(s: &Vec<char>, max_len: usize, max: u32) -> (r: Option<u32>)
    requires
        max_len <= 5,
    ensures
        r is Some <==> parse_bounded(s@, max_len as nat, max as nat) is Some,
        r is Some ==> r->0 == parse_bounded(s@, max_len as nat, max as nat)->0,
        r is Some ==> r->0 <= max,
{
    if s.len() == 0 || s.len() > max_len {
        return None;
    }
    let mut v: u32 = 0;
    let mut i: usize = 0;
    while i < s.len()
        invariant
            1 <= s@.len() <= max_len <= 5,
            i <= s@.len(),
            forall|j: int| 0 <= j < i ==> is_digit(#[trigger] s@[j]),
            v == digits_value(s@.subrange(0, i as int)),
            v < pow10(i as nat),
        decreases s@.len() - i,
    {
        let c = s[i];
        if !((c as u32) >= 48 && (c as u32) <= 57) {
            return None;
        }
        proof {
            assert(s@.subrange(0, i + 1).drop_last() =~= s@.subrange(0, i as int));
            lemma_pow10_step(i as nat);
            assert(pow10(i as nat) <= 10000) by {
                lemma_pow10_mono(i as nat, 4);
                reveal_with_fuel(pow10, 5);
            }
        }
        v = v * 10 + ((c as u32) - 48);
        i = i + 1;
    }
    proof {
        assert(s@.subrange(0, s@.len() as int) =~= s@);
    }
    if v > max {
        None
    } else {
        Some(v)
    }
}

spec fn pow10(k: nat) -> nat
    decreases k,
{
    if k == 0 {
        1
    } else {
        10 * pow10((k - 1) as nat)
    }
}

proof fn lemma_pow10_step(k: nat)
    ensures
        pow10(k + 1) == 10 * pow10(k),
{
}

proof fn lemma_pow10_mono(a: nat, b: nat)
    requires
        a <= b,
    ensures
        pow10(a) <= pow10(b),
    decreases b,
{
    if a < b {
        lemma_pow10_mono(a, (b - 1) as nat);
    }
}

fn parse_ipv4_chars(s: &Vec<char>) -> (r: Option<u32>)
    ensures
        r == parse_ipv4(s@),
{
    let parts = split_chars(s, s.len(), '.');
    proof {
        assert(s@.subrange(0, s@.len() as int) =~= s@);
    }
    if parts.len() != 4 {
        return None;
    }
    let a = parse_number(&parts[0], 3, 255);
    let b = parse_number(&parts[1], 3, 255);
    let c = parse_number(&parts[2], 3, 255);
    let d = parse_number(&parts[3], 3, 255);
    match (a, b, c, d) {
        (Some(a), Some(b), Some(c), Some(d)) => {
            proof {
                let ps = split(s@, '.');
                assert(parse_bounded(ps[0], 3, 255) is Some);
                assert(parse_bounded(ps[1], 3, 255) is Some);
                assert(parse_bounded(ps[2], 3, 255) is Some);
                assert(parse_bounded(ps[3], 3, 255) is Some);
            }
            Some(a * 0x100_0000 + b * 0x1_0000 + c * 0x100 + d)
        },
        _ => {
            proof {
                let ps = split(s@, '.');
                if a is None {
                    assert(parse_bounded(ps[0], 3, 255) is None);
                } else if b is None {
                    assert(parse_bounded(ps[1], 3, 255) is None);
                } else if c is None {
                    assert(parse_bounded(ps[2], 3, 255) is None);
                } else {
                    assert(parse_bounded(ps[3], 3, 255) is None);
                }
            }
            None
        },
    }
}

fn hex_of(c: char) -> (r: Option<u32>)
    ensures
        r is Some <==> is_hex(c),
        r is Some ==> r->0 == hex_value(c) && r->0 < 16,
{
    let v = c as u32;
    if 48 <= v && v <= 57 {
        Some(v - 48)
    } else if 97 <= v && v <= 102 {
        Some(v - 87)
    } else if 65 <= v && v <= 70 {
        Some(v - 55)
    } else {
        None
    }
}

fn parse_group_chars(s: &Vec<char>) -> (r: Option<u32>)
    ensures
        r is Some <==> parse_group(s@) is Some,
        r is Some ==> r->0 == parse_group(s@)->0 && r->0 < 0x1_0000,
{
    if s.len() == 0 || s.len() > 4 {
        return None;
    }
    let mut v: u32 = 0;
    let mut i: usize = 0;
    while i < s.len()
        invariant
            1 <= s@.len() <= 4,
            i <= s@.len(),
            forall|j: int| 0 <= j < i ==> is_hex(#[trigger] s@[j]),
            v == hex_digits_value(s@.subrange(0, i as int)),
            v < pow16(i as nat),
        decreases s@.len() - i,
    {
        let d = match hex_of(s[i]) {
            Some(d) => d,
            None => {
                return None;
            },
        };
        proof {
            assert(s@.subrange(0, i + 1).drop_last() =~= s@.subrange(0, i as int));
            lemma_pow16_mono(i as nat, 3);
            reveal_with_fuel(pow16, 5);
        }
        v = v * 16 + d;
        i = i + 1;
    }
    proof {
        assert(s@.subrange(0, s@.len() as int) =~= s@);
        lemma_pow16_mono(s@.len() as nat, 4);
        reveal_with_fuel(pow16, 5);
    }
    Some(v)
}

spec fn pow16(k: nat) -> nat
    decreases k,
{
    if k == 0 {
        1
    } else {
        16 * pow16((k - 1) as nat)
    }
}

proof fn lemma_pow16_mono(a: nat, b: nat)
    requires
        a <= b,
    ensures
        pow16(a) <= pow16(b),
    decreases b,
{
    if a < b {
        lemma_pow16_mono(a, (b - 1) as nat);
    }
}

/// `v` holds the numbers `m`.
spec fn holds_groups(v: Seq<u32>, m: Seq<nat>) -> bool {
    v.len() == m.len() && forall|i: int| 0 <= i < v.len() ==> (#[trigger] v[i]) as nat == m[i]
}

fn parse_groups_chars(parts: &Vec<Vec<char>>, model: Ghost<Seq<Seq<char>>>) -> (r: Option<
    Vec<u32>,
>)
    requires
        holds_fields(parts@, model@),
    ensures
        r is Some <==> parse_groups(model@) is Some,
        r is Some ==> holds_groups(r->0@, parse_groups(model@)->0),
        r is Some ==> forall|i: int| 0 <= i < r->0@.len() ==> (#[trigger] r->0@[i]) < 0x1_0000,
{
    let mut out: Vec<u32> = Vec::new();
    let mut i: usize = 0;
    while i < parts.len()
        invariant
            holds_fields(parts@, model@),
            i <= parts@.len(),
            parse_groups(model@.subrange(0, i as int)) is Some,
            holds_groups(out@, parse_groups(model@.subrange(0, i as int))->0),
            forall|j: int| 0 <= j < out@.len() ==> (#[trigger] out@[j]) < 0x1_0000,
        decreases parts@.len() - i,
    {
        proof {
            assert(model@.subrange(0, i + 1).drop_last() =~= model@.subrange(0, i as int));
            assert(model@.subrange(0, i + 1).last() == parts@[i as int]@);
        }
        match parse_group_chars(&parts[i]) {
            Some(g) => {
                let ghost before = out@;
                out.push(g);
                proof {
                    let m = parse_groups(model@.subrange(0, i + 1))->0;
                    assert(m == parse_groups(model@.subrange(0, i as int))->0.push(g as nat));
                    assert forall|j: int| 0 <= j < out@.len() implies (#[trigger] out@[j]) as nat
                        == m[j] by {
                        if j < before.len() {
                            assert(out@[j] == before[j]);
                        }
                    }
                }
            },
            None => {
                proof {
                    lemma_groups_fail_extends(model@, i as int);
                }
                return None;
            },
        }
        i = i + 1;
    }
    proof {
        assert(model@.subrange(0, model@.len() as int) =~= model@);
    }
    Some(out)
}

proof fn lemma_groups_len(m: Seq<Seq<char>>)
    requires
        parse_groups(m) is Some,
    ensures
        parse_groups(m)->0.len() == m.len(),
    decreases m.len(),
{
    if m.len() > 0 {
        lemma_groups_len(m.drop_last());
    }
}

proof fn lemma_groups_fail_extends(m: Seq<Seq<char>>, i: int)
    requires
        0 <= i < m.len(),
        parse_group(m[i]) is None,
    ensures
        parse_groups(m) is None,
    decreases m.len(),
{
    if i < m.len() - 1 {
        assert(m.drop_last()[i] == m[i]);
        lemma_groups_fail_extends(m.drop_last(), i);
    }
}

/// The number that the groups `v` make.
fn fold_groups(v: &Vec<u32>, model: Ghost<Seq<nat>>) -> (r: u128)
    requires
        holds_groups(v@, model@),
        v@.len() <= 8,
        forall|i: int| 0 <= i < v@.len() ==> (#[trigger] v@[i]) < 0x1_0000,
    ensures
        r == groups_value(model@),
{
    let mut acc: u128 = 0;
    let mut i: usize = 0;
    while i < v.len()
        invariant
            holds_groups(v@, model@),
            v@.len() <= 8,
            forall|j: int| 0 <= j < v@.len() ==> (#[trigger] v@[j]) < 0x1_0000,
            i <= v@.len(),
            acc == groups_value(model@.subrange(0, i as int)),
            acc < pow65536(i as nat),
        decreases v@.len() - i,
    {
        proof {
            assert(model@.subrange(0, i + 1).drop_last() =~= model@.subrange(0, i as int));
            lemma_pow65536_mono(i as nat, 7);
            reveal_with_fuel(pow65536, 9);
            assert(acc * 0x1_0000 + v@[i as int] < pow65536((i + 1) as nat)) by (nonlinear_arith)
                requires
                    acc < pow65536(i as nat),
                    v@[i as int] < 0x1_0000,
                    pow65536((i + 1) as nat) == 0x1_0000 * pow65536(i as nat),
            ;
        }
        acc = acc * 0x1_0000 + v[i] as u128;
        i = i + 1;
    }
    proof {
        assert(model@.subrange(0, v@.len() as int) =~= model@);
    }
    acc
}

spec fn pow65536(k: nat) -> nat
    decreases k,
{
    if k == 0 {
        1
    } else {
        0x1_0000 * pow65536((k - 1) as nat)
    }
}

proof fn lemma_pow65536_mono(a: nat, b: nat)
    requires
        a <= b,
    ensures
        pow65536(a) <= pow65536(b),
    decreases b,
{
    if a < b {
        lemma_pow65536_mono(a, (b - 1) as nat);
    }
}

fn sub_chars(s: &Vec<char>, from: usize, to: usize) -> (r: Vec<char>)
    requires
        from <= to <= s@.len(),
    ensures
        r@ == s@.subrange(from as int, to as int),
{
    let mut r: Vec<char> = Vec::new();
    let mut i: usize = from;
    while i < to
        invariant
            from <= i <= to <= s@.len(),
            r@ == s@.subrange(from as int, i as int),
        decreases to - i,
    {
        r.push(s[i]);
        i = i + 1;
        proof {
            assert(r@ =~= s@.subrange(from as int, i as int));
        }
    }
    r
}

fn side_groups_chars(s: &Vec<char>) -> (r: Option<Vec<u32>>)
    ensures
        r is Some <==> side_groups(s@) is Some,
        r is Some ==> holds_groups(r->0@, side_groups(s@)->0),
        r is Some ==> forall|i: int| 0 <= i < r->0@.len() ==> (#[trigger] r->0@[i]) < 0x1_0000,
{
    if s.len() == 0 {
        return Some(Vec::new());
    }
    let parts = split_chars(s, s.len(), ':');
    proof {
        assert(s@.subrange(0, s@.len() as int) =~= s@);
    }
    parse_groups_chars(&parts, Ghost(split(s@, ':')))
}

fn parse_ipv6_chars(t: &Vec<char>) -> (r: Option<u128>)
    ensures
        r == parse_ipv6(t@),
{
    let n = t.len();
    let mut i: usize = 0;
    let mut found: Option<usize> = None;
    while n > 0 && i < n - 1 && found.is_none()
        invariant
            n == t@.len(),
            i <= n,
            found is None ==> find_double_colon(t@, 0) == find_double_colon(t@, i as int),
            found is Some ==> find_double_colon(t@, 0) == Some(found->0 as int) && found->0 + 2
                <= n,
        decreases n - i + (if found is None { 1int } else { 0int }),
    {
        if t[i] == ':' && t[i + 1] == ':' {
            found = Some(i);
        } else {
            i = i + 1;
        }
    }
    proof {
        if found is None {
            assert(i + 1 >= n);
            assert(find_double_colon(t@, i as int) is None);
        }
    }
    match found {
        None => {
            let parts = split_chars(t, n, ':');
            proof {
                assert(t@.subrange(0, n as int) =~= t@);
            }
            if parts.len() != 8 {
                return None;
            }
            match parse_groups_chars(&parts, Ghost(split(t@, ':'))) {
                Some(g) => {
                    proof {
                        lemma_groups_len(split(t@, ':'));
                    }
                    Some(fold_groups(&g, Ghost(parse_groups(split(t@, ':'))->0)))
                },
                None => None,
            }
        },
        Some(i) => {
            let left = sub_chars(t, 0, i);
            let right = sub_chars(t, i + 2, n);
            let l = side_groups_chars(&left);
            let r = side_groups_chars(&right);
            match (l, r) {
                (Some(l), Some(r)) => {
                    if l.len() > 7 || r.len() > 7 - l.len() {
                        return None;
                    }
                    let ghost lm = side_groups(t@.subrange(0, i as int))->0;
                    let ghost rm = side_groups(t@.subrange(i + 2, n as int))->0;
                    let zeros: usize = 8 - l.len() - r.len();
                    let ghost zm = zero_groups(zeros as nat);
                    let mut all: Vec<u32> = Vec::new();
                    let mut k: usize = 0;
                    while k < l.len()
                        invariant
                            k <= l@.len(),
                            holds_groups(l@, lm),
                            forall|j: int| 0 <= j < l@.len() ==> (#[trigger] l@[j]) < 0x1_0000,
                            holds_groups(all@, lm.subrange(0, k as int)),
                            forall|j: int| 0 <= j < all@.len() ==> (#[trigger] all@[j]) < 0x1_0000,
                        decreases l@.len() - k,
                    {
                        all.push(l[k]);
                        k = k + 1;
                    }
                    let mut z: usize = 0;
                    while z < zeros
                        invariant
                            z <= zeros,
                            holds_groups(all@, lm + zero_groups(z as nat)),
                            all@.len() == lm.len() + z,
                            lm.len() == l@.len(),
                            zm.len() == zeros,
                            forall|j: int| 0 <= j < all@.len() ==> (#[trigger] all@[j]) < 0x1_0000,
                        decreases zeros - z,
                    {
                        let ghost before = all@;
                        all.push(0);
                        z = z + 1;
                        proof {
                            assert(all@ == before.push(0u32));
                            lemma_zero_groups_push((z - 1) as nat);
                            assert(lm + zero_groups(z as nat) =~= (lm + zero_groups(
                                (z - 1) as nat,
                            )).push(0nat));
                        }
                    }
                    let mut k2: usize = 0;
                    let ghost base = lm + zm;
                    proof {
                        assert(base.subrange(0, base.len() as int) =~= base);
                    }
                    while k2 < r.len()
                        invariant
                            k2 <= r@.len(),
                            holds_groups(r@, rm),
                            forall|j: int| 0 <= j < r@.len() ==> (#[trigger] r@[j]) < 0x1_0000,
                            holds_groups(all@, base + rm.subrange(0, k2 as int)),
                            forall|j: int| 0 <= j < all@.len() ==> (#[trigger] all@[j]) < 0x1_0000,
                            base.len() + r@.len() == 8,
                        decreases r@.len() - k2,
                    {
                        all.push(r[k2]);
                        k2 = k2 + 1;
                        proof {
                            assert(base + rm.subrange(0, k2 as int) =~= (base + rm.subrange(
                                0,
                                k2 - 1,
                            )).push(rm[k2 - 1]));
                        }
                    }
                    proof {
                        assert(rm.subrange(0, rm.len() as int) =~= rm);
                        assert(t@.subrange(0, i as int) == left@);
                    }
                    Some(fold_groups(&all, Ghost(lm + zm + rm)))
                },
                _ => None,
            }
        },
    }
}

fn parse_ip_chars(t: &Vec<char>) -> (r: Option<IpAddress>)
    ensures
        r == parse_ip(t@),
{
    match parse_ipv4_chars(t) {
        Some(v) => Some(IpAddress::V4(v)),
        None => match parse_ipv6_chars(t) {
            Some(v) => Some(IpAddress::V6(v)),
            None => None,
        },
    }
}

/// Reads the peer address from a PROXY preface line; fails with
/// `BrokenProxyPreface` exactly when the line is not one.
pub fn parse_proxy_preface(line: &str) -> (r: Result<SocketAddress, Error>)
    ensures
        r is Ok <==> proxy_address(line@) is Some,
        r is Ok ==> r->Ok_0 == proxy_address(line@)->0,
        r is Err ==> r->Err_0 is BrokenProxyPreface,
{
    let chars = chars_of(line);
    let len = trimmed_len(&chars);
    let fields = split_chars(&chars, len, ' ');
    proof {
        reveal_strlit("PROXY");
    }
    if fields.len() != 6 {
        return Err(Error::BrokenProxyPreface);
    }
    proof {
        assert(fields@[0]@ == split(trim_end(line@), ' ')[0]);
        assert(fields@[2]@ == split(trim_end(line@), ' ')[2]);
        assert(fields@[4]@ == split(trim_end(line@), ' ')[4]);
    }
    let word = &fields[0];
    if !(word.len() == 5 && word[0] == 'P' && word[1] == 'R' && word[2] == 'O' && word[3] == 'X'
        && word[4] == 'Y') {
        proof {
            if word@ == proxy_word() {
                assert(word@[0] == 'P');
            }
        }
        return Err(Error::BrokenProxyPreface);
    }
    proof {
        assert(word@ =~= proxy_word());
    }
    let ip = parse_ip_chars(&fields[2]);
    let port = parse_number(&fields[4], 5, 65535);
    match (ip, port) {
        (Some(ip), Some(port)) => Ok(SocketAddress { ip, port: port as u16 }),
        _ => Err(Error::BrokenProxyPreface),
    }
}

/// What the frame reader does with one read of a line.
#[derive(Debug)]
pub enum LineAction {
    /// The stream ended cleanly: no more frames.
    EndOfStream,
    /// A blank line: read the next one.
    Skip,
    /// A line to decode as a request, without surrounding whitespace.
    Frame(String),
}

/// `s` without whitespace at either end.
pub open spec fn trim(s: Seq<char>) -> Seq<char> {
    trim_start(trim_end(s))
}

pub open spec fn trim_start(s: Seq<char>) -> Seq<char>
    decreases s.len(),
{
    if s.len() > 0 && is_space(s[0]) {
        trim_start(s.drop_first())
    } else {
        s
    }
}

/// Decides what one read of a line gives. A read of no bytes ends the
/// stream cleanly when nothing was left buffered, and is a reset in the
/// middle of a line otherwise; a blank line is skipped.
pub fn classify_line(bytes_read: usize, buffer_empty: bool, line: &str) -> (r: Result<
    LineAction,
    Error,
>)
    ensures
        bytes_read == 0 && buffer_empty ==> r is Ok && r->Ok_0 is EndOfStream,
        bytes_read == 0 && !buffer_empty ==> r is Err && r->Err_0 is PeerResetConnection,
        bytes_read != 0 && trim(line@).len() == 0 ==> r is Ok && r->Ok_0 is Skip,
        bytes_read != 0 && trim(line@).len() != 0 ==> r is Ok && r->Ok_0 is Frame
            && r->Ok_0->Frame_0@ == trim(line@),
{
    if bytes_read == 0 {
        if buffer_empty {
            return Ok(LineAction::EndOfStream);
        }
        return Err(Error::PeerResetConnection);
    }
    let chars = chars_of(line);
    let end = trimmed_len(&chars);
    let mut start: usize = 0;
    proof {
        assert(chars@.subrange(0, end as int).subrange(0, end as int) =~= chars@.subrange(
            0,
            end as int,
        ));
    }
    while start < end && (chars[start] == ' ' || chars[start] == '\t' || chars[start] == '\r'
        || chars[start] == '\n')
        invariant
            start <= end <= chars@.len(),
            trim_start(chars@.subrange(0, end as int)) == trim_start(
                chars@.subrange(start as int, end as int),
            ),
        decreases end - start,
    {
        proof {
            assert(chars@.subrange(start as int, end as int).drop_first() =~= chars@.subrange(
                start + 1,
                end as int,
            ));
        }
        start = start + 1;
    }
    if start == end {
        proof {
            assert(chars@.subrange(start as int, end as int).len() == 0);
        }
        return Ok(LineAction::Skip);
    }
    let text = line.substring_char(start, end);
    proof {
        assert(chars@.subrange(start as int, end as int).len() > 0);
    }
    Ok(LineAction::Frame(String::from_str(text)))
}

} // verus!
