//! Network addresses.

use vstd::prelude::*;

verus! {

/// IP address.
#[derive(Debug, Clone, Copy, PartialEq, Eq)]
pub enum IpAddr {
    /// Version 4 address, by its four bytes.
    V4([u8; 4]),
    /// Version 6 address, by its eight groups.
    V6([u16; 8]),
}

impl IpAddr {
    /// Tells whether the address names the machine itself: `127.0.0.0/8`, or
    /// `::1`.
    pub open spec fn loopback(self) -> bool {
        match self {
            IpAddr::V4(octets) => octets@[0] == 127,
            IpAddr::V6(groups) => {
                &&& groups@[7] == 1
                &&& forall|i: int| 0 <= i < 7 ==> #[trigger] groups@[i] == 0
            },
        }
    }

    /// Returns whether the address names the machine itself.
    #[must_use]
    pub fn is_loopback(self) -> (r: bool)
        ensures
            r == self.loopback(),
    {
        match self {
            IpAddr::V4(octets) => octets[0] == 127,
            IpAddr::V6(groups) => {
                let mut i: usize = 0;
                while i < 7
                    invariant
                        i <= 7,
                        self == IpAddr::V6(groups),
                        forall|k: int| 0 <= k < i ==> #[trigger] groups@[k] == 0,
                    decreases 7 - i,
                {
                    if groups[i] != 0 {
                        return false;
                    }
                    i += 1;
                }
                groups[7] == 1
            },
        }
    }
}

/// The dotted form of a version 4 address.
pub open spec fn dotted(octets: Seq<u8>) -> Seq<char> {
    crate::text::decimal_text(octets[0] as nat) + "."@ + crate::text::decimal_text(octets[1] as nat)
        + "."@ + crate::text::decimal_text(octets[2] as nat) + "."@ + crate::text::decimal_text(
        octets[3] as nat,
    )
}

/// Writes a version 4 address in dotted form.
pub fn dotted_text(octets: &[u8; 4]) -> (r: String)
    ensures
        r@ == dotted(octets@),
{
    let mut out = crate::text::decimal(octets[0] as u64);
    out.append(".");
    out.append(crate::text::decimal(octets[1] as u64).as_str());
    out.append(".");
    out.append(crate::text::decimal(octets[2] as u64).as_str());
    out.append(".");
    out.append(crate::text::decimal(octets[3] as u64).as_str());
    out
}

/// IP address and port.
#[derive(Debug, Clone, Copy, PartialEq, Eq)]
pub struct SocketAddr {
    /// Address.
    pub ip: IpAddr,
    /// Port.
    pub port: u16,
}

/// The dotted form of an address is four numbers with dots between them, one for each byte,
/// in order.
pub proof fn law_dotted_form_names_each_byte(octets: Seq<u8>, i: int)
    requires
        octets.len() == 4,
        0 <= i < 4,
    ensures
        crate::text::pieces(dotted(octets), '.').len() == 4,
        crate::text::number(crate::text::pieces(dotted(octets), '.')[i], 10, 255) == Some(
            octets[i] as nat,
        ),
{
    reveal_strlit(".");
    assert("."@ =~= seq!['.']);
    let a = crate::text::decimal_text(octets[0] as nat);
    let b = crate::text::decimal_text(octets[1] as nat);
    let c = crate::text::decimal_text(octets[2] as nat);
    let d = crate::text::decimal_text(octets[3] as nat);
    lemma_decimal_has_no_dot(octets[0] as nat);
    lemma_decimal_has_no_dot(octets[1] as nat);
    lemma_decimal_has_no_dot(octets[2] as nat);
    lemma_decimal_has_no_dot(octets[3] as nat);
    crate::text::law_pieces_are_cut_at_each_mark(a, b + seq!['.'] + (c + seq!['.'] + d), '.');
    crate::text::law_pieces_are_cut_at_each_mark(b, c + seq!['.'] + d, '.');
    crate::text::law_pieces_are_cut_at_each_mark(c, d, '.');
    crate::text::law_pieces_are_cut_at_each_mark(d, seq![], '.');
    assert(dotted(octets) =~= a + seq!['.'] + (b + seq!['.'] + (c + seq!['.'] + d)));
    assert(crate::text::pieces(dotted(octets), '.') =~= seq![a, b, c, d]);
    crate::text::law_decimal_round_trip(octets[i] as nat, 255);
}

/// The dotted form of an address starts with a digit and holds no slash.
pub proof fn lemma_dotted_is_plain(octets: Seq<u8>)
    ensures
        dotted(octets).len() > 0,
        '0' <= dotted(octets)[0] <= '9',
        !dotted(octets).contains('/'),
{
    reveal_strlit(".");
    let a = crate::text::decimal_text(octets[0] as nat);
    let b = crate::text::decimal_text(octets[1] as nat);
    let c = crate::text::decimal_text(octets[2] as nat);
    let d = crate::text::decimal_text(octets[3] as nat);
    let s = dotted(octets);
    crate::text::lemma_decimal_is_a_field(octets[0] as nat);
    crate::text::law_decimal_is_short(octets[0] as nat, 0);
    assert(s[0] == a[0]);
    assert forall|i: int| 0 <= i < s.len() implies s[i] != '/' by {
        let n = a.len() as int;
        let m = n + 1 + b.len();
        let k = m + 1 + c.len();
        if i < n {
            crate::text::law_decimal_is_short(octets[0] as nat, i);
        } else if n < i < m {
            crate::text::law_decimal_is_short(octets[1] as nat, i - n - 1);
        } else if m < i < k {
            crate::text::law_decimal_is_short(octets[2] as nat, i - m - 1);
        } else if i > k {
            crate::text::law_decimal_is_short(octets[3] as nat, i - k - 1);
        }
    }
}

proof fn lemma_decimal_has_no_dot(n: nat)
    ensures
        !crate::text::decimal_text(n).contains('.'),
{
    let s = crate::text::decimal_text(n);
    if s.contains('.') {
        crate::text::law_decimal_is_short(n, s.index_of('.'));
    }
}

/// The addresses of the machine itself are those whose first byte is 127, and `::1`.
pub proof fn law_loopback_is_the_machine_itself(a: u8, b: u8, c: u8, d: u8, groups: [u16; 8])
    ensures
        IpAddr::V4([a, b, c, d]).loopback() <==> a == 127,
        IpAddr::V6(groups).loopback() <==> groups@ == seq![0u16, 0, 0, 0, 0, 0, 0, 1],
{
    let v6 = IpAddr::V6(groups);
    if v6.loopback() {
        assert(groups@ =~= seq![0u16, 0, 0, 0, 0, 0, 0, 1]);
    }
}

} // verus!
