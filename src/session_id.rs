use vstd::prelude::*;

verus! {

/// The lower-case hexadecimal digits, in order.
pub open spec fn hex_digits() -> Seq<char> {
    seq!['0', '1', '2', '3', '4', '5', '6', '7', '8', '9', 'a', 'b', 'c', 'd', 'e', 'f']
}

/// The last `n` hexadecimal digits of `v`, most significant first.
pub open spec fn hex_fixed(v: nat, n: nat) -> Seq<char>
    decreases n,
{
    if n == 0 {
        Seq::empty()
    } else {
        hex_fixed(v / 16, (n - 1) as nat).push(hex_digits()[(v % 16) as int])
    }
}

/// The decimal digits of `v`, most significant first, with no leading zero.
pub open spec fn decimal(v: nat) -> Seq<char>
    decreases v,
{
    if v < 10 {
        seq![hex_digits()[v as int]]
    } else {
        decimal(v / 10).push(hex_digits()[(v % 10) as int])
    }
}

fn digit_str(d: u32) -> (r: &'static str)
    requires
        d < 16,
    ensures
        r@ == seq![hex_digits()[d as int]],
{
    if d == 0 {
        proof {
            reveal_strlit("0");
        }
        "0"
    } else if d == 1 {
        proof {
            reveal_strlit("1");
        }
        "1"
    } else if d == 2 {
        proof {
            reveal_strlit("2");
        }
        "2"
    } else if d == 3 {
        proof {
            reveal_strlit("3");
        }
        "3"
    } else if d == 4 {
        proof {
            reveal_strlit("4");
        }
        "4"
    } else if d == 5 {
        proof {
            reveal_strlit("5");
        }
        "5"
    } else if d == 6 {
        proof {
            reveal_strlit("6");
        }
        "6"
    } else if d == 7 {
        proof {
            reveal_strlit("7");
        }
        "7"
    } else if d == 8 {
        proof {
            reveal_strlit("8");
        }
        "8"
    } else if d == 9 {
        proof {
            reveal_strlit("9");
        }
        "9"
    } else if d == 10 {
        proof {
            reveal_strlit("a");
        }
        "a"
    } else if d == 11 {
        proof {
            reveal_strlit("b");
        }
        "b"
    } else if d == 12 {
        proof {
            reveal_strlit("c");
        }
        "c"
    } else if d == 13 {
        proof {
            reveal_strlit("d");
        }
        "d"
    } else if d == 14 {
        proof {
            reveal_strlit("e");
        }
        "e"
    } else {
        proof {
            reveal_strlit("f");
        }
        "f"
    }
}

fn push_hex(s: &mut String, v: u32, n: u32)
    ensures
        final(s)@ == old(s)@ + hex_fixed(v as nat, n as nat),
    decreases n,
{
    if n > 0 {
        push_hex(s, v / 16, n - 1);
        s.append(digit_str(v % 16));
        proof {
            assert(final(s)@ =~= old(s)@ + hex_fixed(v as nat, n as nat));
        }
    } else {
        proof {
            assert(final(s)@ =~= old(s)@ + hex_fixed(v as nat, n as nat));
        }
    }
}

fn push_decimal(s: &mut String, v: u32)
    ensures
        final(s)@ == old(s)@ + decimal(v as nat),
    decreases v,
{
    if v >= 10 {
        push_decimal(s, v / 10);
    }
    s.append(digit_str(v % 10));
    proof {
        assert(final(s)@ =~= old(s)@ + decimal(v as nat));
    }
}

/// Identifies one worker session: the server's prefix in the top eight
/// bits, the session index in the low twenty-four.
#[derive(Clone, Copy, PartialEq, Eq, Structural, Hash, Default, Debug)]
pub struct SessionID {
    id: u32,
}

impl View for SessionID {
    type V = u32;

    closed spec fn view(&self) -> u32 {
        self.id
    }
}

impl SessionID {
    pub fn from(value: u32) -> (r: SessionID)
        ensures
            r@ == value,
    {
        SessionID { id: value }
    }

    pub fn as_u32(&self) -> (r: u32)
        ensures
            r == self@,
    {
        self.id
    }

    /// Eight lower-case hexadecimal digits, most significant first.
    pub fn to_string(&self) -> (r: String)
        ensures
            r@ == hex_fixed(self@ as nat, 8),
    {
        let mut s = String::new();
        push_hex(&mut s, self.id, 8);
        proof {
            assert(s@ =~= hex_fixed(self@ as nat, 8));
        }
        s
    }

    /// `0x`, the eight hexadecimal digits, then the decimal value in
    /// parentheses.
    pub fn debug_string(&self) -> (r: String)
        ensures
            r@ == seq!['0', 'x'] + hex_fixed(self@ as nat, 8) + seq![' ', '('] + decimal(
                self@ as nat,
            ) + seq![')'],
    {
        let mut s = String::new();
        proof {
            reveal_strlit("0x");
            reveal_strlit(" (");
            reveal_strlit(")");
        }
        s.append("0x");
        push_hex(&mut s, self.id, 8);
        s.append(" (");
        push_decimal(&mut s, self.id);
        s.append(")");
        proof {
            assert(s@ =~= seq!['0', 'x'] + hex_fixed(self@ as nat, 8) + seq![' ', '('] + decimal(
                self@ as nat,
            ) + seq![')']);
        }
        s
    }
}

} // verus!
