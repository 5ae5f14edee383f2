//! IPv4 addresses and /24 subnet prefixes, modelled as plain octets.

use vstd::prelude::*;
use vstd::string::StringExecFns;

verus! {

/// The decimal digit `d` as a character.
pub open spec fn spec_digit(d: u8) -> char {
    if d == 0 {
        '0'
    } else if d == 1 {
        '1'
    } else if d == 2 {
        '2'
    } else if d == 3 {
        '3'
    } else if d == 4 {
        '4'
    } else if d == 5 {
        '5'
    } else if d == 6 {
        '6'
    } else if d == 7 {
        '7'
    } else if d == 8 {
        '8'
    } else {
        '9'
    }
}

/// An octet in decimal, without leading zeroes.
pub open spec fn spec_octet(n: u8) -> Seq<char> {
    if n < 10 {
        seq![spec_digit(n)]
    } else if n < 100 {
        seq![spec_digit(n / 10), spec_digit(n % 10)]
    } else {
        seq![spec_digit(n / 100), spec_digit((n / 10) % 10), spec_digit(n % 10)]
    }
}

fn digit_str(d: u8) -> (r: &'static str)
    requires
        d < 10,
    ensures
        r@ == seq![spec_digit(d)],
{
    proof {
        reveal_strlit("0");
        reveal_strlit("1");
        reveal_strlit("2");
        reveal_strlit("3");
        reveal_strlit("4");
        reveal_strlit("5");
        reveal_strlit("6");
        reveal_strlit("7");
        reveal_strlit("8");
        reveal_strlit("9");
    }
    match d {
        0 => "0",
        1 => "1",
        2 => "2",
        3 => "3",
        4 => "4",
        5 => "5",
        6 => "6",
        7 => "7",
        8 => "8",
        _ => "9",
    }
}

fn push_octet(out: &mut String, n: u8)
    ensures
        final(out)@ == old(out)@ + spec_octet(n),
{
    if n >= 100 {
        out.append(digit_str(n / 100));
    }
    if n >= 10 {
        out.append(digit_str((n / 10) % 10));
    }
    out.append(digit_str(n % 10));
    proof {
        assert(out@ =~= old(out)@ + spec_octet(n));
    }
}

proof fn lemma_octet_has_no_dot(n: u8)
    ensures
        forall|k: int| 0 <= k < spec_octet(n).len() ==> spec_octet(n)[k] != '.',
{
}

proof fn lemma_digit_injective(d1: u8, d2: u8)
    requires
        d1 < 10,
        d2 < 10,
        spec_digit(d1) == spec_digit(d2),
    ensures
        d1 == d2,
{
}

proof fn lemma_octet_injective(n1: u8, n2: u8)
    requires
        spec_octet(n1) == spec_octet(n2),
    ensures
        n1 == n2,
{
    let s1 = spec_octet(n1);
    let s2 = spec_octet(n2);
    assert(s1.len() == s2.len());
    vstd::arithmetic::div_mod::lemma_fundamental_div_mod(n1 as int, 10);
    vstd::arithmetic::div_mod::lemma_fundamental_div_mod(n2 as int, 10);
    if n1 < 10 {
        assert(s1[0] == s2[0]);
        lemma_digit_injective(n1, n2);
    } else if n1 < 100 {
        assert(s1[0] == s2[0] && s1[1] == s2[1]);
        lemma_digit_injective(n1 / 10, n2 / 10);
        lemma_digit_injective(n1 % 10, n2 % 10);
    } else {
        assert(s1[0] == s2[0] && s1[1] == s2[1] && s1[2] == s2[2]);
        vstd::arithmetic::div_mod::lemma_fundamental_div_mod(n1 as int / 10, 10);
        vstd::arithmetic::div_mod::lemma_fundamental_div_mod(n2 as int / 10, 10);
        lemma_digit_injective(n1 / 100, n2 / 100);
        lemma_digit_injective((n1 / 10) % 10, (n2 / 10) % 10);
        lemma_digit_injective(n1 % 10, n2 % 10);
        assert((n1 / 10) / 10 == n1 / 100) by (nonlinear_arith);
        assert((n2 / 10) / 10 == n2 / 100) by (nonlinear_arith);
    }
}

proof fn lemma_dot_split(a1: Seq<char>, r1: Seq<char>, a2: Seq<char>, r2: Seq<char>)
    requires
        a1 + seq!['.'] + r1 == a2 + seq!['.'] + r2,
        forall|k: int| 0 <= k < a1.len() ==> a1[k] != '.',
        forall|k: int| 0 <= k < a2.len() ==> a2[k] != '.',
    ensures
        a1 == a2,
        r1 == r2,
{
    let s = a1 + seq!['.'] + r1;
    let t = a2 + seq!['.'] + r2;
    if a1.len() < a2.len() {
        assert(s[a1.len() as int] == '.');
        assert(t[a1.len() as int] == a2[a1.len() as int]);
    } else if a2.len() < a1.len() {
        assert(t[a2.len() as int] == '.');
        assert(s[a2.len() as int] == a1[a2.len() as int]);
    }
    assert(a1.len() == a2.len());
    assert forall|k: int| 0 <= k < a1.len() implies a1[k] == a2[k] by {
        assert(s[k] == a1[k]);
        assert(t[k] == a2[k]);
    }
    assert(a1 =~= a2);
    assert(s.len() == t.len());
    assert forall|k: int| 0 <= k < r1.len() implies r1[k] == r2[k] by {
        assert(s[a1.len() + 1 + k] == r1[k]);
        assert(t[a2.len() + 1 + k] == r2[k]);
    }
    assert(r1 =~= r2);
}

/// An IPv4 address as its four dotted-decimal octets.
#[derive(Clone, Copy, PartialEq, Eq, Structural, Debug)]
pub struct Ipv4 {
    pub a: u8,
    pub b: u8,
    pub c: u8,
    pub d: u8,
}

/// No two addresses share a dotted form: comparing addresses octet by
/// octet and comparing their written forms agree, so skipping the scan's
/// own address by octets skips exactly its textual address too.
#[verifier::rlimit(60)]
pub proof fn lemma_dotted_injective(x: Ipv4, y: Ipv4)
    requires
        x.spec_dotted() == y.spec_dotted(),
    ensures
        x == y,
{
    let xr3 = spec_octet(x.c) + seq!['.'] + spec_octet(x.d);
    let yr3 = spec_octet(y.c) + seq!['.'] + spec_octet(y.d);
    let xr2 = spec_octet(x.b) + seq!['.'] + xr3;
    let yr2 = spec_octet(y.b) + seq!['.'] + yr3;
    assert(x.spec_dotted() =~= spec_octet(x.a) + seq!['.'] + xr2);
    assert(y.spec_dotted() =~= spec_octet(y.a) + seq!['.'] + yr2);
    lemma_octet_has_no_dot(x.a);
    lemma_octet_has_no_dot(y.a);
    lemma_dot_split(spec_octet(x.a), xr2, spec_octet(y.a), yr2);
    lemma_octet_injective(x.a, y.a);
    lemma_octet_has_no_dot(x.b);
    lemma_octet_has_no_dot(y.b);
    lemma_dot_split(spec_octet(x.b), xr3, spec_octet(y.b), yr3);
    lemma_octet_injective(x.b, y.b);
    lemma_octet_has_no_dot(x.c);
    lemma_octet_has_no_dot(y.c);
    lemma_dot_split(spec_octet(x.c), spec_octet(x.d), spec_octet(y.c), spec_octet(y.d));
    lemma_octet_injective(x.c, y.c);
    lemma_octet_injective(x.d, y.d);
}

/// The first three octets of an IPv4 address: the network portion used to
/// bound a local scan to a /24-sized range.
#[derive(Clone, Copy, PartialEq, Eq, Structural, Debug)]
pub struct SubnetPrefix {
    pub a: u8,
    pub b: u8,
    pub c: u8,
}

impl Ipv4 {
    pub open spec fn spec_prefix(self) -> SubnetPrefix {
        SubnetPrefix { a: self.a, b: self.b, c: self.c }
    }

    /// The subnet prefix of this address: its first three octets.
    pub fn prefix(&self) -> (r: SubnetPrefix)
        ensures
            r == self.spec_prefix(),
    {
        SubnetPrefix { a: self.a, b: self.b, c: self.c }
    }

    /// The address in dotted-decimal form.
    pub open spec fn spec_dotted(self) -> Seq<char> {
        spec_octet(self.a) + seq!['.'] + spec_octet(self.b) + seq!['.'] + spec_octet(self.c)
            + seq!['.'] + spec_octet(self.d)
    }

    /// Write the address the way it appears on the wire and in stored
    /// state: four decimal octets separated by dots.
    pub fn to_dotted(&self) -> (r: String)
        ensures
            r@ == self.spec_dotted(),
    {
        let mut out = String::new();
        push_octet(&mut out, self.a);
        out.append(".");
        push_octet(&mut out, self.b);
        out.append(".");
        push_octet(&mut out, self.c);
        out.append(".");
        push_octet(&mut out, self.d);
        proof {
            reveal_strlit(".");
            assert(out@ =~= self.spec_dotted());
        }
        out
    }
}

impl SubnetPrefix {
    /// The address `self.n` inside this subnet.
    pub open spec fn spec_host(self, n: u8) -> Ipv4 {
        Ipv4 { a: self.a, b: self.b, c: self.c, d: n }
    }

    pub fn host(&self, n: u8) -> (r: Ipv4)
        ensures
            r == self.spec_host(n),
    {
        Ipv4 { a: self.a, b: self.b, c: self.c, d: n }
    }

    /// The prefix in dotted-decimal form: three octets, no trailing dot.
    pub open spec fn spec_dotted(self) -> Seq<char> {
        spec_octet(self.a) + seq!['.'] + spec_octet(self.b) + seq!['.'] + spec_octet(self.c)
    }

    /// Write the prefix as its three dot-separated decimal octets.
    pub fn to_dotted(&self) -> (r: String)
        ensures
            r@ == self.spec_dotted(),
    {
        let mut out = String::new();
        push_octet(&mut out, self.a);
        out.append(".");
        push_octet(&mut out, self.b);
        out.append(".");
        push_octet(&mut out, self.c);
        proof {
            reveal_strlit(".");
            assert(out@ =~= self.spec_dotted());
        }
        out
    }
}

} // verus!
