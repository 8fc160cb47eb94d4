//! Port allocation and the reading of port arguments.
use vstd::prelude::*;
use vstd::string::*;
use crate::text::{digits_value, is_digit};
use crate::php::all_digits;

verus! {

/// Port of the public listener when none is given.
pub const DEFAULT_PORT: u16 = 8000;

/// First port tried for the PHP backend; far from the public one, so that
/// the two searches do not meet.
pub const PHP_DEFAULT_PORT: u16 = 60000;

/// Probes ports from `start_from_port` upward, in order, with `can_bind`
/// (which tries a local TCP bind and releases it), and returns the first one
/// it reports free; `None` when no port up to 65535 is.
pub fn find_available_port<F: Fn(u16) -> bool>(start_from_port: u16, can_bind: F) -> (r: Option<u16>)
    requires
        forall|p: u16| call_requires(can_bind, (p,)),
    ensures
        r matches Some(p) ==> p >= start_from_port && call_ensures(can_bind, (p,), true),
        r matches Some(p) ==> forall|q: u16| start_from_port <= q < p ==> call_ensures(can_bind, (q,), false),
        r is None ==> forall|q: u16| start_from_port <= q ==> call_ensures(can_bind, (q,), false),
{
    let mut port: u32 = start_from_port as u32;
    while port <= 65535
        invariant
            start_from_port <= port <= 65536,
            forall|p: u16| call_requires(can_bind, (p,)),
            forall|q: u16| start_from_port <= q < port ==> call_ensures(can_bind, (q,), false),
        decreases 65536 - port,
    {
        let p = port as u16;
        if can_bind(p) {
            return Some(p);
        }
        port = port + 1;
    }
    None
}

/// The value of a port argument as `str::parse::<u16>` reads it: an optional
/// `+`, then one or more ASCII digits denoting at most 65535.
pub open spec fn parse_port_spec(s: Seq<char>) -> Option<nat> {
    let d = unsigned_part(s);
    if all_digits(d) && digits_value(d) <= 65535 {
        Some(digits_value(d))
    } else {
        None
    }
}

/// `s` without a leading `+`.
pub open spec fn unsigned_part(s: Seq<char>) -> Seq<char> {
    if s.len() > 0 && s[0] == '+' {
        s.skip(1)
    } else {
        s
    }
}

/// Reads a port argument.
pub fn parse_port(s: &str) -> (r: Option<u16>)
    ensures
        r is None <==> parse_port_spec(s@) is None,
        r matches Some(p) ==> parse_port_spec(s@) == Some(p as nat),
{
    let n = s.unicode_len();
    let start: usize = if n > 0 && s.get_char(0) == '+' { 1 } else { 0 };
    let ghost d = s@.skip(start as int);
    assert(s@.skip(0) =~= s@);
    assert(d == unsigned_part(s@));
    if start >= n {
        return None;
    }
    let mut i = start;
    let mut value: u32 = 0;
    let mut over = false;
    assert(d.take(0) =~= Seq::<char>::empty());
    while i < n
        invariant
            n == s@.len(),
            start <= i <= n,
            d == s@.skip(start as int),
            d == unsigned_part(s@),
            d.len() == n - start,
            start < n,
            forall|j: int| 0 <= j < i - start ==> is_digit(d[j]),
            over ==> digits_value(d.take(i - start)) > 65535,
            !over ==> value == digits_value(d.take(i - start)) && value <= 65535,
        decreases n - i,
    {
        let c = s.get_char(i);
        if !('0' <= c && c <= '9') {
            assert(d[i - start] == c);
            assert(!is_digit(d[i - start]));
            assert(!all_digits(d));
            return None;
        }
        let ghost k = i - start;
        assert(d.take(k + 1).drop_last() =~= d.take(k));
        assert(d.take(k + 1).last() == c);
        if !over {
            let next = value * 10 + (c as u32 - '0' as u32);
            if next > 65535 {
                over = true;
            } else {
                value = next;
            }
        }
        i = i + 1;
    }
    assert(d.take(n - start) =~= d);
    if over {
        None
    } else {
        Some(value as u16)
    }
}

/// The port to use from an argument: its value when it reads as a port,
/// else the fallback's, which must read as one.
pub fn parse_default_port(port: &str, fallback_port: &str) -> (r: u16)
    requires
        parse_port_spec(fallback_port@) is Some,
    ensures
        parse_port_spec(port@) matches Some(p) ==> r == p,
        parse_port_spec(port@) is None ==> parse_port_spec(fallback_port@) == Some(r as nat),
{
    match parse_port(port) {
        Some(p) => p,
        None => match parse_port(fallback_port) {
            Some(p) => p,
            None => 0,
        },
    }
}

} // verus!
