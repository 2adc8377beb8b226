//! IP addresses as plain values, and their parsing from text.

use vstd::prelude::*;

use crate::text::{split, split_str};

verus! {

/// An IP address: the four octets of an IPv4 address, or the eight 16-bit
/// groups of an IPv6 address, most significant first.
#[derive(Clone, Copy, Debug, PartialEq, Eq)]
pub enum IpAddr {
    V4(u8, u8, u8, u8),
    V6([u16; 8]),
}

/// An IP address as a value: an IPv6 address is the sequence of its groups.
pub enum IpView {
    V4(u8, u8, u8, u8),
    V6(Seq<u16>),
}

impl View for IpAddr {
    type V = IpView;

    open spec fn view(&self) -> IpView {
        match self {
            IpAddr::V4(a, b, c, d) => IpView::V4(*a, *b, *c, *d),
            IpAddr::V6(g) => IpView::V6(g@),
        }
    }
}

/// The text did not hold an IP address.
#[derive(Clone, Copy, Debug, PartialEq, Eq, Structural)]
pub struct AddrParseError;

pub open spec fn is_digit(c: char) -> bool {
    '0' <= c && c <= '9'
}

/// The number that the decimal digits `t` write.
pub open spec fn digits_value(t: Seq<char>) -> nat
    decreases t.len(),
{
    if t.len() == 0 {
        0
    } else {
        digits_value(t.drop_last()) * 10 + ((t.last() as nat) - ('0' as nat)) as nat
    }
}

pub open spec fn pow16(n: nat) -> nat
    decreases n,
{
    if n == 0 {
        1
    } else {
        16 * pow16((n - 1) as nat)
    }
}

pub open spec fn pow10(n: nat) -> nat
    decreases n,
{
    if n == 0 {
        1
    } else {
        10 * pow10((n - 1) as nat)
    }
}

proof fn lemma_small_powers()
    ensures
        pow10(0) == 1,
        pow10(1) == 10,
        pow10(2) == 100,
        pow10(3) == 1000,
        pow16(0) == 1,
        pow16(1) == 16,
        pow16(2) == 256,
        pow16(3) == 4096,
        pow16(4) == 65536,
{
    reveal_with_fuel(pow10, 4);
    reveal_with_fuel(pow16, 5);
}

/// One octet of a dotted address: one to three digits, no leading zero, at
/// most 255.
pub open spec fn octet_of(t: Seq<char>) -> Option<u8> {
    if 1 <= t.len() <= 3 && (forall|i: int| 0 <= i < t.len() ==> is_digit(#[trigger] t[i])) && (
    t.len() == 1 || t[0] != '0') && digits_value(t) <= 255 {
        Some(digits_value(t) as u8)
    } else {
        None
    }
}

/// The address that `s` writes in dotted-decimal form, if it writes one.
pub open spec fn ipv4_of(s: Seq<char>) -> Option<IpView> {
    let f = split(s, '.');
    if f.len() == 4 && octet_of(f[0]) is Some && octet_of(f[1]) is Some && octet_of(f[2]) is Some
        && octet_of(f[3]) is Some {
        Some(
            IpView::V4(
                octet_of(f[0])->0,
                octet_of(f[1])->0,
                octet_of(f[2])->0,
                octet_of(f[3])->0,
            ),
        )
    } else {
        None
    }
}

/// The value of one hexadecimal digit.
pub open spec fn hex_value(c: char) -> int {
    if '0' <= c && c <= '9' {
        c as int - '0' as int
    } else if 'a' <= c && c <= 'f' {
        c as int - 'a' as int + 10
    } else {
        c as int - 'A' as int + 10
    }
}

pub open spec fn is_hex_digit(c: char) -> bool {
    ('0' <= c && c <= '9') || ('a' <= c && c <= 'f') || ('A' <= c && c <= 'F')
}

/// The number that the hexadecimal digits `t` write.
pub open spec fn hex_digits_value(t: Seq<char>) -> nat
    decreases t.len(),
{
    if t.len() == 0 {
        0
    } else {
        hex_digits_value(t.drop_last()) * 16 + hex_value(t.last()) as nat
    }
}

/// One group of an IPv6 address: one to four hexadecimal digits, leading
/// zeros allowed.
pub open spec fn hex_group(t: Seq<char>) -> Option<u16> {
    if 1 <= t.len() <= 4 && (forall|i: int| 0 <= i < t.len() ==> is_hex_digit(#[trigger] t[i])) {
        Some(hex_digits_value(t) as u16)
    } else {
        None
    }
}

/// The groups that one field of an IPv6 address stands for: a hexadecimal
/// group, or, where `v4` allows it, an embedded IPv4 address as two groups.
pub open spec fn field_groups(t: Seq<char>, v4: bool) -> Option<Seq<u16>> {
    if v4 && ipv4_of(t) is Some {
        match ipv4_of(t)->0 {
            IpView::V4(a, b, c, d) => Some(seq![(a * 256 + b) as u16, (c * 256 + d) as u16]),
            IpView::V6(_) => None,
        }
    } else if hex_group(t) is Some {
        Some(seq![hex_group(t)->0])
    } else {
        None
    }
}

/// The groups that a run of fields stands for; only the last field may be an
/// embedded IPv4 address, and only where `v4` allows it.
pub open spec fn fields_groups(fs: Seq<Seq<char>>, v4: bool) -> Option<Seq<u16>>
    decreases fs.len(),
{
    if fs.len() == 0 {
        Some(Seq::empty())
    } else {
        match (fields_groups(fs.drop_last(), false), field_groups(fs.last(), v4)) {
            (Some(a), Some(b)) => Some(a + b),
            _ => None,
        }
    }
}

/// The groups that a colon-separated run of fields stands for; the empty
/// text stands for none.
pub open spec fn run_groups(t: Seq<char>, v4: bool) -> Option<Seq<u16>> {
    if t.len() == 0 {
        Some(Seq::empty())
    } else {
        fields_groups(split(t, ':'), v4)
    }
}

/// The first place at or after `from` where `::` stands in `s`.
pub open spec fn find_double_colon(s: Seq<char>, from: int) -> Option<int>
    decreases s.len() - from,
{
    if from < 0 || from + 1 >= s.len() {
        None
    } else if s[from] == ':' && s[from + 1] == ':' {
        Some(from)
    } else {
        find_double_colon(s, from + 1)
    }
}

/// The groups of the IPv6 address that `s` writes, if it writes one: eight
/// groups, or fewer around one `::` that stands for at least one zero group.
/// Only the last group may be written as an embedded IPv4 address, and not
/// before `::`.
pub open spec fn ipv6_of(s: Seq<char>) -> Option<Seq<u16>> {
    match find_double_colon(s, 0) {
        None => match run_groups(s, true) {
            Some(g) => if g.len() == 8 {
                Some(g)
            } else {
                None
            },
            None => None,
        },
        Some(p) => match (run_groups(s.take(p), false), run_groups(s.skip(p + 2), true)) {
            (Some(h), Some(t)) => if h.len() + t.len() <= 7 {
                Some(h + Seq::new((8 - h.len() - t.len()) as nat, |i: int| 0u16) + t)
            } else {
                None
            },
            _ => None,
        },
    }
}

/// The address that `s` writes, if it writes one: an IPv4 address in
/// dotted-decimal form, or else an IPv6 address.
pub open spec fn ip_of(s: Seq<char>) -> Option<IpView> {
    if ipv4_of(s) is Some {
        ipv4_of(s)
    } else if ipv6_of(s) is Some {
        Some(IpView::V6(ipv6_of(s)->0))
    } else {
        None
    }
}

/// Reads one octet of a dotted address.
pub fn parse_octet(t: &str) -> (r: Option<u8>)
    ensures
        r == octet_of(t@),
{
    let n = t.unicode_len();
    if n < 1 || n > 3 {
        return None;
    }
    if n > 1 && t.get_char(0) == '0' {
        return None;
    }
    let mut v: u32 = 0;
    let mut i: usize = 0;
    while i < n
        invariant
            n == t@.len(),
            1 <= n <= 3,
            i <= n,
            v as nat == digits_value(t@.take(i as int)),
            v < pow10(i as nat),
            forall|j: int| 0 <= j < i ==> is_digit(#[trigger] t@[j]),
        decreases n - i,
    {
        let c = t.get_char(i);
        if c < '0' || c > '9' {
            return None;
        }
        proof {
            assert(t@.take(i + 1).drop_last() =~= t@.take(i as int));
            assert(pow10((i + 1) as nat) == 10 * pow10(i as nat));
            lemma_small_powers();
            assert(pow10(i as nat) <= 100);
            let d = (c as nat) - ('0' as nat);
            assert(v * 10 + d < 10 * pow10(i as nat)) by (nonlinear_arith)
                requires
                    v < pow10(i as nat),
                    0 <= d < 10,
            ;
        }
        v = v * 10 + ((c as u32) - ('0' as u32));
        i = i + 1;
    }
    proof {
        assert(t@.take(n as int) =~= t@);
        lemma_small_powers();
    }
    if v > 255 {
        return None;
    }
    Some(v as u8)
}

/// Reads an IPv4 address in dotted-decimal form.
pub fn parse_ipv4(s: &str) -> (r: Option<IpAddr>)
    ensures
        match r {
            Some(a) => ipv4_of(s@) == Some(a@) && a is V4,
            None => ipv4_of(s@) is None,
        },
{
    let f = split_str(s, '.');
    if f.len() != 4 {
        return None;
    }
    let a = parse_octet(f[0]);
    let b = parse_octet(f[1]);
    let c = parse_octet(f[2]);
    let d = parse_octet(f[3]);
    match (a, b, c, d) {
        (Some(a), Some(b), Some(c), Some(d)) => Some(IpAddr::V4(a, b, c, d)),
        _ => None,
    }
}

/// Reads one group of an IPv6 address.
pub fn parse_hex_group(t: &str) -> (r: Option<u16>)
    ensures
        r == hex_group(t@),
{
    let n = t.unicode_len();
    if n < 1 || n > 4 {
        return None;
    }
    let mut v: u32 = 0;
    let mut i: usize = 0;
    while i < n
        invariant
            n == t@.len(),
            1 <= n <= 4,
            i <= n,
            v as nat == hex_digits_value(t@.take(i as int)),
            v < pow16(i as nat),
            forall|j: int| 0 <= j < i ==> is_hex_digit(#[trigger] t@[j]),
        decreases n - i,
    {
        let c = t.get_char(i);
        let d: u32 = if '0' <= c && c <= '9' {
            (c as u32) - ('0' as u32)
        } else if 'a' <= c && c <= 'f' {
            (c as u32) - ('a' as u32) + 10
        } else if 'A' <= c && c <= 'F' {
            (c as u32) - ('A' as u32) + 10
        } else {
            return None;
        };
        proof {
            assert(t@.take(i + 1).drop_last() =~= t@.take(i as int));
            assert(pow16((i + 1) as nat) == 16 * pow16(i as nat));
            lemma_small_powers();
            assert(pow16(i as nat) <= 4096);
            assert(v * 16 + d < 16 * pow16(i as nat)) by (nonlinear_arith)
                requires
                    v < pow16(i as nat),
                    0 <= d < 16,
            ;
        }
        v = v * 16 + d;
        i = i + 1;
    }
    proof {
        assert(t@.take(n as int) =~= t@);
        lemma_small_powers();
    }
    Some(v as u16)
}

/// Reads one field of an IPv6 address (see [`field_groups`]).
fn parse_field(t: &str, v4: bool) -> (r: Option<Vec<u16>>)
    ensures
        match r {
            Some(g) => field_groups(t@, v4) == Some(g@),
            None => field_groups(t@, v4) is None,
        },
{
    if v4 {
        match parse_ipv4(t) {
            Some(IpAddr::V4(a, b, c, d)) => {
                let hi = (a as u16) * 256 + (b as u16);
                let lo = (c as u16) * 256 + (d as u16);
                let g = vec![hi, lo];
                proof {
                    assert(g@ =~= seq![(a * 256 + b) as u16, (c * 256 + d) as u16]);
                }
                return Some(g);
            },
            _ => {},
        }
    }
    match parse_hex_group(t) {
        Some(x) => {
            let g = vec![x];
            proof {
                assert(g@ =~= seq![x]);
            }
            Some(g)
        },
        None => None,
    }
}

/// A run of fields whose leading part stands for no groups stands for none.
proof fn lemma_fields_prefix_fails(fs: Seq<Seq<char>>, j: int, v4: bool)
    requires
        0 <= j < fs.len(),
        fields_groups(fs.take(j), false) is None,
    ensures
        fields_groups(fs, v4) is None,
    decreases fs.len(),
{
    if j < fs.len() - 1 {
        assert(fs.drop_last().take(j) =~= fs.take(j));
        lemma_fields_prefix_fails(fs.drop_last(), j, false);
    } else {
        assert(fs.drop_last() =~= fs.take(j));
    }
}

/// Reads a colon-separated run of IPv6 fields (see [`run_groups`]).
fn parse_run(t: &str, v4: bool) -> (r: Option<Vec<u16>>)
    ensures
        match r {
            Some(g) => run_groups(t@, v4) == Some(g@),
            None => run_groups(t@, v4) is None,
        },
{
    if t.unicode_len() == 0 {
        return Some(Vec::new());
    }
    let fs = split_str(t, ':');
    let ghost f = split(t@, ':');
    let n = fs.len();
    proof {
        crate::text::lemma_split_nonempty(t@, ':');
    }
    let mut acc: Vec<u16> = Vec::new();
    let mut i: usize = 0;
    proof {
        assert(f.take(0) =~= Seq::<Seq<char>>::empty());
    }
    while i + 1 < n
        invariant
            n == f.len(),
            n >= 1,
            t@.len() > 0,
            f == split(t@, ':'),
            i + 1 <= n,
            forall|j: int| 0 <= j < fs@.len() ==> #[trigger] fs@[j]@ == f[j],
            fs@.len() == f.len(),
            fields_groups(f.take(i as int), false) == Some(acc@),
        decreases n - i,
    {
        proof {
            assert(f.take(i + 1).drop_last() =~= f.take(i as int));
            assert(f.take(i + 1).last() == f[i as int]);
            assert(fs@[i as int]@ == f[i as int]);
        }
        match parse_field(fs[i], false) {
            Some(mut g) => {
                acc.append(&mut g);
            },
            None => {
                proof {
                    assert(field_groups(f.take(i + 1).last(), false) is None);
                    assert(fields_groups(f.take(i + 1), false) is None);
                    lemma_fields_prefix_fails(f, i + 1, v4);
                    assert(run_groups(t@, v4) == fields_groups(f, v4));
                }
                return None;
            },
        }
        i = i + 1;
    }
    proof {
        assert(f.drop_last() =~= f.take(i as int));
        assert(fs@[i as int]@ == f[i as int]);
    }
    match parse_field(fs[i], v4) {
        Some(mut g) => {
            acc.append(&mut g);
            Some(acc)
        },
        None => None,
    }
}

proof fn lemma_double_colon_in_range(s: Seq<char>, from: int)
    requires
        find_double_colon(s, from) is Some,
    ensures
        from <= find_double_colon(s, from)->0,
        find_double_colon(s, from)->0 + 1 < s.len(),
    decreases s.len() - from,
{
    if from >= 0 && from + 1 < s.len() && !(s[from] == ':' && s[from + 1] == ':') {
        lemma_double_colon_in_range(s, from + 1);
    }
}

/// Finds the first `::` in `s`.
fn find_double_colon_in(s: &str) -> (r: Option<usize>)
    ensures
        match r {
            Some(p) => find_double_colon(s@, 0) == Some(p as int),
            None => find_double_colon(s@, 0) is None,
        },
{
    let n = s.unicode_len();
    let mut i: usize = 0;
    while n > 0 && i < n - 1
        invariant
            n == s@.len(),
            i <= n,
            find_double_colon(s@, 0) == find_double_colon(s@, i as int),
        decreases n - i,
    {
        if s.get_char(i) == ':' && s.get_char(i + 1) == ':' {
            return Some(i);
        }
        i = i + 1;
    }
    None
}

/// The eight groups that `g` holds, as an array.
fn to_groups(g: &Vec<u16>) -> (r: [u16; 8])
    requires
        g@.len() == 8,
    ensures
        r@ == g@,
{
    let r = [g[0], g[1], g[2], g[3], g[4], g[5], g[6], g[7]];
    assert(r@ =~= g@);
    r
}

/// Reads an IPv6 address (see [`ipv6_of`]).
pub fn parse_ipv6(s: &str) -> (r: Option<[u16; 8]>)
    ensures
        match r {
            Some(g) => ipv6_of(s@) == Some(g@),
            None => ipv6_of(s@) is None,
        },
{
    match find_double_colon_in(s) {
        None => match parse_run(s, true) {
            Some(g) => if g.len() == 8 {
                Some(to_groups(&g))
            } else {
                None
            },
            None => None,
        },
        Some(p) => {
            let n = s.unicode_len();
            proof {
                lemma_double_colon_in_range(s@, 0);
            }
            let head = s.substring_char(0, p);
            let tail = s.substring_char(p + 2, n);
            proof {
                assert(head@ =~= s@.take(p as int));
                assert(tail@ =~= s@.skip(p + 2));
            }
            let h = match parse_run(head, false) {
                Some(h) => h,
                None => {
                    return None;
                },
            };
            let t = match parse_run(tail, true) {
                Some(t) => t,
                None => {
                    return None;
                },
            };
            if h.len() > 7 || t.len() > 7 - h.len() {
                return None;
            }
            let zeros: usize = 8 - h.len() - t.len();
            let mut g: Vec<u16> = Vec::new();
            let mut i: usize = 0;
            while i < h.len()
                invariant
                    i <= h@.len(),
                    g@ == h@.take(i as int),
                decreases h@.len() - i,
            {
                g.push(h[i]);
                i = i + 1;
                proof {
                    assert(g@ =~= h@.take(i as int));
                }
            }
            let ghost z = Seq::new(zeros as nat, |k: int| 0u16);
            let mut k: usize = 0;
            proof {
                assert(h@.take(h@.len() as int) =~= h@);
            }
            while k < zeros
                invariant
                    k <= zeros,
                    g@ == h@ + z.take(k as int),
                    z.len() == zeros,
                    forall|x: int| 0 <= x < z.len() ==> z[x] == 0u16,
                decreases zeros - k,
            {
                g.push(0);
                k = k + 1;
                proof {
                    assert(g@ =~= h@ + z.take(k as int));
                }
            }
            let mut j: usize = 0;
            proof {
                assert(z.take(zeros as int) =~= z);
                assert(g@ =~= h@ + z + t@.take(0));
            }
            while j < t.len()
                invariant
                    j <= t@.len(),
                    g@ == h@ + z + t@.take(j as int),
                decreases t@.len() - j,
            {
                g.push(t[j]);
                j = j + 1;
                proof {
                    assert(g@ =~= h@ + z + t@.take(j as int));
                }
            }
            proof {
                assert(t@.take(t@.len() as int) =~= t@);
            }
            Some(to_groups(&g))
        },
    }
}

/// Reads an IP address from text: IPv4 in dotted-decimal form, or IPv6.
pub fn parse_ip(s: &str) -> (r: Option<IpAddr>)
    ensures
        match r {
            Some(a) => ip_of(s@) == Some(a@),
            None => ip_of(s@) is None,
        },
{
    match parse_ipv4(s) {
        Some(a) => Some(a),
        None => match parse_ipv6(s) {
            Some(g) => Some(IpAddr::V6(g)),
            None => None,
        },
    }
}

impl std::str::FromStr for IpAddr {
    type Err = AddrParseError;

    fn from_str(s: &str) -> (r: Result<IpAddr, AddrParseError>)
        ensures
            match r {
                Ok(a) => ip_of(s@) == Some(a@),
                Err(_) => ip_of(s@) is None,
            },
    {
        match parse_ip(s) {
            Some(a) => Ok(a),
            None => Err(AddrParseError),
        }
    }
}

} // verus!
