//! The backend pool configuration: its built-in template, and the in-place
//! update of its `listen` directive on later runs.
use vstd::prelude::*;
use vstd::string::*;
use crate::text::{
    lemma_decimal, lemma_line_len, lemma_line_len_of_line, lemma_line_len_props, lemma_lead_spaces_props,
    copy_range, decimal, decimal_spec, digits_value, is_digit, lead_digits, lead_spaces,
    lemma_lead_digits, lemma_lead_spaces, line_end, line_len, occurs_at, occurs_in, chars_of,
};

verus! {

/// Length of the head `<spaces>listen[ ]=[ ]` of a line that is a `listen`
/// directive, or `None` for any other line.
pub open spec fn listen_head(l: Seq<char>) -> Option<nat> {
    let k = lead_spaces(l) as int;
    let j = k + 6;
    if !occurs_at(l, k, "listen"@) {
        None
    } else {
        let eq: int = if j < l.len() && l[j] == '=' {
            j
        } else if j + 1 < l.len() && l[j] == ' ' && l[j + 1] == '=' {
            j + 1
        } else {
            -1
        };
        if eq < 0 {
            None
        } else if eq + 1 < l.len() && l[eq + 1] == ' ' {
            Some((eq + 2) as nat)
        } else {
            Some((eq + 1) as nat)
        }
    }
}

/// Length of the `127.0.0.1:` or `localhost:` address in front of a port
/// number at the start of `r`, or zero.
pub open spec fn host_len(r: Seq<char>) -> nat {
    if (occurs_at(r, 0, "127.0.0.1:"@) || occurs_at(r, 0, "localhost:"@)) && r.len() > 10
        && is_digit(r[10]) {
        10
    } else {
        0
    }
}

/// Whether the value `r` of a `listen` directive starts with a TCP port.
pub open spec fn has_port(r: Seq<char>) -> bool {
    host_len(r) < r.len() && is_digit(r[host_len(r) as int])
}

/// Whether line `l` is a `listen` directive that carries a TCP port.
pub open spec fn is_port_line(l: Seq<char>) -> bool {
    &&& listen_head(l) is Some
    &&& has_port(l.skip(listen_head(l)->0 as int))
}

/// The port number that the port line `l` carries: at most five digits.
pub open spec fn port_digits(l: Seq<char>) -> Seq<char> {
    let r = l.skip(listen_head(l)->0 as int);
    let d = r.skip(host_len(r) as int);
    let n = if lead_digits(d) > 5 { 5 } else { lead_digits(d) };
    d.take(n as int)
}

/// Line `l` with its port replaced by `port`, the address kept and what
/// followed the port dropped.
pub open spec fn retargeted_line(l: Seq<char>, port: nat) -> Seq<char> {
    let h = listen_head(l)->0;
    l.take(h + host_len(l.skip(h as int)) as int) + decimal_spec(port)
}

/// What becomes of line `l`: the first port line takes the new port, every
/// other `listen` directive is commented out, any other line stays.
#[verifier::opaque]
pub open spec fn patch_line(l: Seq<char>, port: nat, found: bool) -> Seq<char> {
    if listen_head(l) is None {
        l
    } else if is_port_line(l) && !found {
        retargeted_line(l, port)
    } else {
        seq![';'] + l
    }
}

/// The lines of `s` patched one by one; `found` tells whether a port line
/// was already met above them.
#[verifier::opaque]
pub open spec fn patch_lines(s: Seq<char>, port: nat, found: bool) -> Seq<char>
    decreases s.len(),
{
    let n = line_len(s);
    let l = s.take(n as int);
    if n >= s.len() {
        patch_line(l, port, found)
    } else {
        patch_line(l, port, found) + seq!['\n'] + patch_lines(
            s.skip(n + 1 as int),
            port,
            found || is_port_line(l),
        )
    }
}

/// The port of the first `listen` directive of `s` that carries one.
#[verifier::opaque]
pub open spec fn first_port(s: Seq<char>) -> Option<nat>
    decreases s.len(),
{
    let n = line_len(s);
    let l = s.take(n as int);
    if is_port_line(l) {
        Some(digits_value(port_digits(l)))
    } else if n >= s.len() {
        None
    } else {
        first_port(s.skip(n + 1 as int))
    }
}

/// The configuration `s` after its listen port is set to `port`; where no
/// directive carries a port, a new one is appended.
pub open spec fn change_port_spec(s: Seq<char>, port: nat) -> Seq<char> {
    if first_port(s) is Some {
        patch_lines(s, port, false)
    } else {
        patch_lines(s, port, false) + seq!['\n'] + default_listen_line(port)
    }
}

/// The directive appended where none carries a port.
pub open spec fn default_listen_line(port: nat) -> Seq<char> {
    "listen = 127.0.0.1:"@ + decimal_spec(port)
}

/// Number of lines of `s` that are active `listen` directives.
pub open spec fn listen_lines(s: Seq<char>) -> nat
    decreases s.len(),
{
    let n = line_len(s);
    let here: nat = if listen_head(s.take(n as int)) is Some { 1 } else { 0 };
    if n >= s.len() {
        here
    } else {
        here + listen_lines(s.skip(n + 1 as int))
    }
}

fn listen_head_of(l: &Vec<char>) -> (r: Option<usize>)
    ensures
        r is None <==> listen_head(l@) is None,
        r matches Some(h) ==> listen_head(l@) == Some(h as nat) && h <= l.len(),
{
    let mut k: usize = 0;
    while k < l.len() && l[k] == ' '
        invariant
            k <= l.len(),
            forall|i: int| 0 <= i < k ==> l@[i] == ' ',
        decreases l.len() - k,
    {
        k = k + 1;
    }
    proof {
        lemma_lead_spaces(l@, k as int);
        reveal_strlit("listen");
    }
    if !occurs_in(l, k, "listen") {
        return None;
    }
    let j = k + 6;
    let eq: usize;
    if j < l.len() && l[j] == '=' {
        eq = j;
    } else if j < l.len() && l.len() - j > 1 && l[j] == ' ' && l[j + 1] == '=' {
        eq = j + 1;
    } else {
        return None;
    }
    if eq + 1 < l.len() && l[eq + 1] == ' ' {
        Some(eq + 2)
    } else {
        Some(eq + 1)
    }
}

fn host_len_at(l: &Vec<char>, h: usize) -> (n: usize)
    requires
        h <= l.len(),
    ensures
        n == host_len(l@.skip(h as int)),
{
    let ghost r = l@.skip(h as int);
    proof {
        reveal_strlit("127.0.0.1:");
        reveal_strlit("localhost:");
    }
    let a = occurs_in(l, h, "127.0.0.1:");
    let b = occurs_in(l, h, "localhost:");
    assert(a == occurs_at(r, 0, "127.0.0.1:"@)) by {
        if h + 10 <= l.len() {
            assert(r.subrange(0, 10) =~= l@.subrange(h as int, h + 10));
        }
    }
    assert(b == occurs_at(r, 0, "localhost:"@)) by {
        if h + 10 <= l.len() {
            assert(r.subrange(0, 10) =~= l@.subrange(h as int, h + 10));
        }
    }
    if (a || b) && l.len() - h > 10 && '0' <= l[h + 10] && l[h + 10] <= '9' {
        10
    } else {
        0
    }
}

proof fn lemma_line_step(s: Seq<char>, pos: int, e: int, p: nat, found: bool)
    requires
        0 <= pos <= e <= s.len(),
        e == pos + line_len(s.skip(pos)),
    ensures
        ({
            let l = s.subrange(pos, e);
            &&& e == s.len() ==> patch_lines(s.skip(pos), p, found) == patch_line(l, p, found)
            &&& e < s.len() ==> patch_lines(s.skip(pos), p, found) == patch_line(l, p, found)
                + seq!['\n'] + patch_lines(s.skip(e + 1), p, found || is_port_line(l))
            &&& is_port_line(l) ==> first_port(s.skip(pos)) == Some(digits_value(port_digits(l)))
            &&& !is_port_line(l) && e == s.len() ==> first_port(s.skip(pos)) is None
            &&& !is_port_line(l) && e < s.len() ==> first_port(s.skip(pos)) == first_port(s.skip(e + 1))
        }),
{
    reveal(patch_lines);
    reveal(first_port);
    let rest = s.skip(pos);
    assert(rest.take(e - pos) =~= s.subrange(pos, e));
    if e < s.len() {
        assert(rest.skip(e - pos + 1) =~= s.skip(e + 1));
    }
}

fn classify_line(l: &Vec<char>) -> (r: (Option<usize>, usize, bool))
    ensures
        r.0 is None <==> listen_head(l@) is None,
        r.0 matches Some(h) ==> {
            &&& listen_head(l@) == Some(h as nat)
            &&& h + r.1 <= l.len()
            &&& r.1 == host_len(l@.skip(h as int))
        },
        r.2 == is_port_line(l@),
{
    match listen_head_of(l) {
        None => (None, 0, false),
        Some(h) => {
            let n = host_len_at(l, h);
            let port = n < l.len() - h && '0' <= l[h + n] && l[h + n] <= '9';
            (Some(h), n, port)
        },
    }
}

/// Sets the TCP port of the first `listen` directive that carries one, keeping
/// its address; every other `listen` directive is commented out with `;`.
/// Where no directive carries a port, `listen = 127.0.0.1:<port>` is appended
/// on a line of its own. All other lines are left as they are.
pub fn change_port(content: &str, new_port: &u16) -> (r: String)
    ensures
        r@ == change_port_spec(content@, *new_port as nat),
{
    let ghost s = content@;
    let ghost p = *new_port as nat;
    let v = chars_of(content);
    let mut out = String::new();
    let mut pos: usize = 0;
    let mut found = false;
    let mut done = false;
    assert(s.skip(0) =~= s);
    while !done
        invariant
            s == content@,
            p == *new_port as nat,
            v@ == s,
            pos <= v.len(),
            done ==> out@ == patch_lines(s, p, false),
            done ==> (first_port(s) is Some <==> found),
            !done ==> out@ + patch_lines(s.skip(pos as int), p, found) == patch_lines(s, p, false),
            !done ==> ((first_port(s) is Some) <==> (found || first_port(s.skip(pos as int)) is Some)),
        decreases (if done { 0 } else { v.len() + 1 - pos }),
    {
        proof {
            reveal_strlit(";");
            reveal_strlit("\n");
        }
        let ghost found0 = found;
        let ghost out0 = out@;
        let e = line_end(&v, pos);
        let line = copy_range(&v, pos, e);
        proof {
            lemma_line_step(s, pos as int, e as int, p, found);
        }
        let (head, host, is_port) = classify_line(&line);
        match head {
            None => {
                out.append(content.substring_char(pos, e));
                assert(out@ == out0 + patch_line(line@, p, found0)) by {
                    reveal(patch_line);
                }
            },
            Some(h) => {
                if is_port && !found {
                    out.append(content.substring_char(pos, pos + h + host));
                    let d = decimal(*new_port as u64);
                    out.append(d.as_str());
                    assert(s.subrange(pos as int, pos + h + host) =~= line@.take(h + host));
                    assert(out@ == out0 + patch_line(line@, p, found0)) by {
                        reveal(patch_line);
                    }
                    found = true;
                } else {
                    out.append(";");
                    out.append(content.substring_char(pos, e));
                    assert(out@ == out0 + patch_line(line@, p, found0)) by {
                        reveal(patch_line);
                    }
                }
            },
        }
        assert(out@ == out0 + patch_line(line@, p, found0));
        if e == v.len() {
            done = true;
        } else {
            out.append("\n");
            pos = e + 1;
        }
    }
    if !found {
        let tail = decimal(*new_port as u64);
        out.append("\n");
        out.append("listen = 127.0.0.1:");
        out.append(tail.as_str());
        proof {
            reveal_strlit("\n");
        }
    }
    out
}

/// Why no listen port could be read from a pool configuration.
#[derive(PartialEq, Eq, Structural, Debug, Clone, Copy)]
pub enum ReadPortError {
    /// No `listen` directive carries a TCP port.
    NotFound,
    /// The first port found does not fit in 16 bits.
    OutOfRange,
}

/// The value of the first port line's digits.
fn port_value(l: &Vec<char>, h: usize, host: usize) -> (r: u32)
    requires
        listen_head(l@) == Some(h as nat),
        h + host <= l.len(),
        host == host_len(l@.skip(h as int)),
    ensures
        r == digits_value(port_digits(l@)),
        r < 100000,
{
    let ghost d = l@.skip(h as int).skip(host as int);
    let start = h + host;
    let mut i: usize = 0;
    let mut value: u32 = 0;
    while i < 5 && start + i < l.len() && '0' <= l[start + i] && l[start + i] <= '9'
        invariant
            start == h + host,
            start <= l.len(),
            d == l@.skip(start as int),
            i <= 5,
            start + i <= l.len(),
            forall|j: int| 0 <= j < i ==> is_digit(d[j]),
            value == digits_value(d.take(i as int)),
            value < 100000,
            i == 0 ==> value == 0,
            i <= 1 ==> value < 10,
            i <= 2 ==> value < 100,
            i <= 3 ==> value < 1000,
            i <= 4 ==> value < 10000,
        decreases 5 - i,
    {
        let ghost before = d.take(i as int);
        let c = l[start + i];
        assert(d.take(i + 1).drop_last() =~= before);
        value = value * 10 + (c as u32 - '0' as u32);
        i = i + 1;
    }
    proof {
        if i < 5 {
            lemma_lead_digits(d, i as int);
        } else {
            lemma_lead_digits_at_least(d, 5);
        }
    }
    value
}

proof fn lemma_lead_digits_at_least(s: Seq<char>, k: int)
    requires
        0 <= k <= s.len(),
        forall|i: int| 0 <= i < k ==> is_digit(s[i]),
    ensures
        lead_digits(s) >= k,
    decreases k,
{
    if k > 0 {
        lemma_lead_digits_at_least(s.drop_first(), k - 1);
    }
}

/// Reads the port of the first `listen` directive that carries one.
pub fn read_port(content: &str) -> (r: Result<u16, ReadPortError>)
    ensures
        r matches Ok(n) ==> first_port(content@) == Some(n as nat),
        r == Err::<u16, ReadPortError>(ReadPortError::NotFound) <==> first_port(content@) is None,
        r == Err::<u16, ReadPortError>(ReadPortError::OutOfRange) <==> (first_port(content@) matches Some(n) && n > 65535),
{
    let ghost s = content@;
    let v = chars_of(content);
    let mut pos: usize = 0;
    assert(s.skip(0) =~= s);
    loop
        invariant
            s == content@,
            v@ == s,
            pos <= v.len(),
            first_port(s) == first_port(s.skip(pos as int)),
        decreases v.len() + 1 - pos,
    {
        let e = line_end(&v, pos);
        let line = copy_range(&v, pos, e);
        proof {
            lemma_line_step(s, pos as int, e as int, 0, false);
        }
        let (head, host, is_port) = classify_line(&line);
        if is_port {
            let h = head.unwrap();
            let value = port_value(&line, h, host);
            if value > 65535 {
                return Err(ReadPortError::OutOfRange);
            }
            return Ok(value as u16);
        }
        if e == v.len() {
            return Err(ReadPortError::NotFound);
        }
        pos = e + 1;
    }
}

/// A commented-out line is no `listen` directive.
proof fn lemma_commented(l: Seq<char>)
    ensures
        listen_head(seq![';'] + l) is None,
{
    let c = seq![';'] + l;
    reveal_strlit("listen");
    assert(lead_spaces(c) == 0);
    assert(c[0] == ';');
    assert(!occurs_at(c, 0, "listen"@)) by {
        if occurs_at(c, 0, "listen"@) {
            assert(c.subrange(0, 6)[0] == "listen"@[0]);
        }
    }
}

/// A line with a new port is still a port line with the same head, and
/// patching it again with the same port leaves it as it is.
proof fn lemma_retargeted(l: Seq<char>, p: nat)
    requires
        is_port_line(l),
    ensures
        ({
            let r = retargeted_line(l, p);
            &&& listen_head(r) == listen_head(l)
            &&& is_port_line(r)
            &&& retargeted_line(r, p) == r
            &&& p < 100000 ==> digits_value(port_digits(r)) == p
            &&& (forall|i: int| 0 <= i < l.len() ==> l[i] != '\n') ==> (forall|i: int|
                0 <= i < r.len() ==> r[i] != '\n')
        }),
{
    reveal_strlit("listen");
    reveal_strlit("127.0.0.1:");
    reveal_strlit("localhost:");
    let h = listen_head(l)->0 as int;
    let k = lead_spaces(l) as int;
    let lr = l.skip(h);
    let host = host_len(lr) as int;
    let d = decimal_spec(p);
    let r = retargeted_line(l, p);
    lemma_decimal(p);
    lemma_lead_spaces_props(l);
    assert(r == l.take(h + host) + d);
    assert(h >= k + 7);
    assert(h + host < l.len());
    assert forall|i: int| 0 <= i < h + host implies r[i] == l[i] by {}
    assert(r.len() == h + host + d.len());
    lemma_lead_spaces(r, k as int);
    assert(r.subrange(k as int, k + 6) =~= l.subrange(k as int, k + 6));
    let rr = r.skip(h as int);
    assert(rr =~= lr.take(host as int) + d);
    if host == 10 {
        assert(rr.subrange(0, 10) =~= lr.subrange(0, 10));
        assert(rr[10] == d[0]);
        assert(r[h as int] == l[h as int]);
        assert(lr[0] == '1' || lr[0] == 'l') by {
            if occurs_at(lr, 0, "127.0.0.1:"@) {
                assert(lr.subrange(0, 10)[0] == "127.0.0.1:"@[0]);
            } else {
                assert(lr.subrange(0, 10)[0] == "localhost:"@[0]);
            }
        }
    } else {
        assert(rr =~= d);
        assert(!occurs_at(rr, 0, "127.0.0.1:"@)) by {
            if occurs_at(rr, 0, "127.0.0.1:"@) {
                assert(rr.subrange(0, 10)[3] == "127.0.0.1:"@[3]);
                assert(is_digit(d[3]));
            }
        }
        assert(!occurs_at(rr, 0, "localhost:"@)) by {
            if occurs_at(rr, 0, "localhost:"@) {
                assert(rr.subrange(0, 10)[0] == "localhost:"@[0]);
                assert(is_digit(d[0]));
            }
        }
        assert(is_digit(r[h as int]));
    }
    assert(listen_head(r) == listen_head(l));
    assert(host_len(rr) == host);
    assert(r.take(h + host) =~= l.take(h + host));
    let dd = rr.skip(host as int);
    assert(dd =~= d);
    lemma_lead_digits(d, d.len() as int);
    if p < 100000 {
        assert(d.take(d.len() as int) =~= d);
    }
}

/// Patching a patched line changes nothing, and the port seen so far
/// evolves as on the first pass.
proof fn lemma_line_twice(l: Seq<char>, p: nat, found: bool)
    requires
        forall|i: int| 0 <= i < l.len() ==> l[i] != '\n',
    ensures
        ({
            let o = patch_line(l, p, found);
            &&& patch_line(o, p, found) == o
            &&& (found || is_port_line(o)) == (found || is_port_line(l))
            &&& forall|i: int| 0 <= i < o.len() ==> o[i] != '\n'
            &&& (listen_head(o) is Some) == (is_port_line(l) && !found)
            &&& is_port_line(l) && !found && p < 100000 ==> is_port_line(o) && digits_value(
                port_digits(o),
            ) == p
        }),
{
    reveal(patch_line);
    let o = patch_line(l, p, found);
    lemma_commented(l);
    if listen_head(l) is None {
    } else if is_port_line(l) && !found {
        lemma_retargeted(l, p);
    } else {
        assert(o == seq![';'] + l);
        assert forall|i: int| 0 <= i < o.len() implies o[i] != '\n' by {
            if i > 0 {
                assert(o[i] == l[i - 1]);
            }
        }
    }
}

proof fn lemma_patch_lines_twice(s: Seq<char>, p: nat, f: bool)
    requires
        p < 100000,
    ensures
        ({
            let t = patch_lines(s, p, f);
            &&& patch_lines(t, p, f) == t
            &&& listen_lines(t) == (if !f && first_port(s) is Some { 1nat } else { 0nat })
            &&& first_port(t) == (if !f && first_port(s) is Some { Some(p) } else { None })
        }),
    decreases s.len(),
{
    reveal(patch_lines);
    reveal(first_port);
    let n = line_len(s);
    lemma_line_len_props(s);
    let l = s.take(n as int);
    lemma_line_twice(l, p, f);
    let o = patch_line(l, p, f);
    let t = patch_lines(s, p, f);
    if n >= s.len() {
        lemma_line_len_of_line(o, Seq::<char>::empty());
        assert(o.take(o.len() as int) =~= o);
    } else {
        let rest = s.skip(n + 1 as int);
        let f2 = f || is_port_line(l);
        lemma_patch_lines_twice(rest, p, f2);
        let r = patch_lines(rest, p, f2);
        assert(t == o + seq!['\n'] + r);
        lemma_line_len_of_line(o, r);
    }
}

proof fn lemma_patch_concat(a: Seq<char>, b: Seq<char>, p: nat, f: bool)
    ensures
        ({
            let t = a + seq!['\n'] + b;
            &&& patch_lines(t, p, f) == patch_lines(a, p, f) + seq!['\n'] + patch_lines(
                b,
                p,
                f || first_port(a) is Some,
            )
            &&& first_port(t) == (if first_port(a) is Some { first_port(a) } else { first_port(b) })
            &&& listen_lines(t) == listen_lines(a) + listen_lines(b)
        }),
    decreases a.len(),
{
    reveal(patch_lines);
    reveal(first_port);
    let t = a + seq!['\n'] + b;
    let n = line_len(a);
    lemma_line_len_props(a);
    assert forall|i: int| 0 <= i < n implies t[i] != '\n' by {
        assert(t[i] == a[i]);
    }
    lemma_line_len(t, n as int);
    assert(t.take(n as int) =~= a.take(n as int));
    let l = a.take(n as int);
    if n >= a.len() {
        assert(t.skip(n + 1 as int) =~= b);
    } else {
        let rest = a.skip(n + 1 as int);
        assert(t.skip(n + 1 as int) =~= rest + seq!['\n'] + b);
        lemma_patch_concat(rest, b, p, f || is_port_line(l));
    }
}

proof fn lemma_default_listen_line(p: nat)
    ensures
        ({
            let d = default_listen_line(p);
            &&& forall|i: int| 0 <= i < d.len() ==> d[i] != '\n'
            &&& p < 100000 ==> patch_lines(d, p, false) == d
            &&& p < 100000 ==> first_port(d) == Some(p)
            &&& listen_lines(d) == 1
        }),
{
    reveal(patch_lines);
    reveal(first_port);
    reveal(patch_line);
    reveal_strlit("listen = 127.0.0.1:");
    reveal_strlit("listen");
    reveal_strlit("127.0.0.1:");
    let dl = default_listen_line(p);
    let d = decimal_spec(p);
    lemma_decimal(p);
    assert forall|i: int| 0 <= i < dl.len() implies dl[i] != '\n' by {
        if i >= 19 {
            assert(dl[i] == d[i - 19]);
        }
    }
    lemma_line_len_of_line(dl, Seq::<char>::empty());
    assert(dl.take(dl.len() as int) =~= dl);
    lemma_lead_spaces(dl, 0);
    assert(dl.subrange(0, 6) =~= "listen"@);
    assert(listen_head(dl) == Some(9nat));
    let rr = dl.skip(9);
    assert(rr.subrange(0, 10) =~= "127.0.0.1:"@);
    assert(rr[10] == d[0]);
    assert(host_len(rr) == 10);
    assert(is_port_line(dl));
    assert(dl.take(19) + d =~= dl);
    assert(retargeted_line(dl, p) == dl);
    let dd = rr.skip(10);
    assert(dd =~= d);
    lemma_lead_digits(d, d.len() as int);
    if p < 100000 {
        assert(d.take(d.len() as int) =~= d);
    }
}

/// Setting the listen port twice to the same value gives the same text as
/// setting it once.
pub proof fn lemma_change_port_idempotent(s: Seq<char>, port: u16)
    ensures
        change_port_spec(change_port_spec(s, port as nat), port as nat) == change_port_spec(
            s,
            port as nat,
        ),
{
    let p = port as nat;
    lemma_patch_lines_twice(s, p, false);
    let x = patch_lines(s, p, false);
    if first_port(s) is None {
        let d = default_listen_line(p);
        lemma_default_listen_line(p);
        lemma_patch_concat(x, d, p, false);
    }
}

/// After the listen port is set, exactly one active `listen` directive
/// remains, and it carries the new port.
pub proof fn lemma_change_port_single_listen(s: Seq<char>, port: u16)
    ensures
        listen_lines(change_port_spec(s, port as nat)) == 1,
        first_port(change_port_spec(s, port as nat)) == Some(port as nat),
{
    let p = port as nat;
    lemma_patch_lines_twice(s, p, false);
    let x = patch_lines(s, p, false);
    if first_port(s) is None {
        let d = default_listen_line(p);
        lemma_default_listen_line(p);
        lemma_patch_concat(x, d, p, false);
    }
}

} // verus!
