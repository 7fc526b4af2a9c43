//! Startup configuration: a database endpoint plus the server's host and
//! port. It is assembled once from raw environment values at bootstrap
//! and passed by reference into the components that need it; the raw
//! values are read outside this library and handed in as plain strings.

use vstd::prelude::*;

verus! {

/// Whether `c` is a decimal digit.
pub open spec fn is_digit(c: char) -> bool {
    48 <= c as int <= 57
}

/// The value of the decimal digit `c`.
pub open spec fn digit_val(c: char) -> int {
    c as int - 48
}

/// Every character of `s` is a decimal digit.
pub open spec fn all_digits(s: Seq<char>) -> bool {
    forall|i: int| 0 <= i < s.len() ==> is_digit(#[trigger] s[i])
}

/// The number denoted by an all-digit string, most significant first.
pub open spec fn dec_value(s: Seq<char>) -> int
    decreases s.len(),
{
    if s.len() == 0 {
        0
    } else {
        dec_value(s.drop_last()) * 10 + digit_val(s.last())
    }
}

/// The digit part of a port string: unsigned decimal parsing accepts
/// one optional leading `+`.
pub open spec fn digits_part(s: Seq<char>) -> Seq<char> {
    if s.len() > 0 && s[0] == '+' {
        s.drop_first()
    } else {
        s
    }
}

/// A string accepted as a port: an optional leading `+`, then one or
/// more digits and nothing else, denoting a value of at most 65535.
pub open spec fn is_port_string(s: Seq<char>) -> bool {
    &&& digits_part(s).len() >= 1
    &&& all_digits(digits_part(s))
    &&& dec_value(digits_part(s)) <= u16::MAX
}

/// The denoted value never goes negative while digits accumulate.
proof fn lemma_dec_value_nonneg(s: Seq<char>)
    requires
        all_digits(s),
    ensures
        dec_value(s) >= 0,
    decreases s.len(),
{
    if s.len() > 0 {
        assert(forall|i: int| 0 <= i < s.drop_last().len() ==> s.drop_last()[i] == s[i]);
        lemma_dec_value_nonneg(s.drop_last());
        assert(is_digit(s[s.len() - 1]));
    }
}

/// Extending an all-digit string never shrinks the denoted value.
proof fn lemma_dec_value_prefix(s: Seq<char>, n: int)
    requires
        all_digits(s),
        0 <= n <= s.len(),
    ensures
        dec_value(s.take(n)) <= dec_value(s),
    decreases s.len() - n,
{
    if n == s.len() {
        assert(s.take(n) =~= s);
    } else {
        lemma_dec_value_prefix(s, n + 1);
        let t = s.take(n + 1);
        assert(t.drop_last() =~= s.take(n));
        assert(t.last() == s[n]);
        assert(forall|i: int| 0 <= i < n ==> s.take(n)[i] == s[i]);
        lemma_dec_value_nonneg(s.take(n));
        assert(is_digit(s[n]));
        assert(dec_value(s.take(n)) <= dec_value(t));
    }
}

/// Parse a decimal port as unsigned parsing does: an optional leading
/// `+`, then one or more digits, no other characters, value at most
/// 65535; anything else is rejected.
pub fn parse_port(s: &str) -> (r: Option<u16>)
    ensures
        match r {
            Some(v) => is_port_string(s@) && v == dec_value(digits_part(s@)),
            None => !is_port_string(s@),
        },
{
    let len = s.unicode_len();
    let mut i: usize = 0;
    if len > 0 && s.get_char(0) == '+' {
        i = 1;
    }
    if i == len {
        return None;
    }
    let ghost start = i as int;
    let ghost d = digits_part(s@);
    proof {
        assert(d =~= s@.subrange(start, len as int));
    }
    let mut acc: u32 = 0;
    while i < len
        invariant
            len == s@.len(),
            start < len,
            start <= i <= len,
            start == if s@.len() > 0 && s@[0] == '+' { 1int } else { 0int },
            d == digits_part(s@),
            d =~= s@.subrange(start, len as int),
            all_digits(s@.subrange(start, i as int)),
            acc == dec_value(s@.subrange(start, i as int)),
            acc <= 65535,
        decreases len - i,
    {
        let c = s.get_char(i);
        let code = c as u32;
        if code < 48 || code > 57 {
            proof {
                assert(d[i - start] == s@[i as int]);
                assert(!is_digit(d[i - start]));
            }
            return None;
        }
        let next = acc * 10 + (code - 48);
        proof {
            assert(s@.subrange(start, i + 1).drop_last() =~= s@.subrange(start, i as int));
            assert(s@.subrange(start, i + 1).last() == s@[i as int]);
        }
        if next > 65535 {
            proof {
                let taken = i + 1 - start;
                assert(digit_val(s@[i as int]) == code - 48);
                assert(dec_value(s@.subrange(start, i + 1)) == acc * 10 + digit_val(
                    s@[i as int],
                ));
                assert(d.take(taken) =~= s@.subrange(start, i + 1));
                assert(dec_value(d.take(taken)) > 65535);
                if all_digits(d) {
                    lemma_dec_value_prefix(d, taken);
                    assert(dec_value(d) > 65535);
                }
            }
            return None;
        }
        acc = next;
        i += 1;
    }
    proof {
        assert(s@.subrange(start, len as int) =~= d);
    }
    Some(acc as u16)
}

/// The single-character string for the digit `d`.
pub open spec fn digit_rep(d: int) -> Seq<char> {
    if d == 0 {
        "0"@
    } else if d == 1 {
        "1"@
    } else if d == 2 {
        "2"@
    } else if d == 3 {
        "3"@
    } else if d == 4 {
        "4"@
    } else if d == 5 {
        "5"@
    } else if d == 6 {
        "6"@
    } else if d == 7 {
        "7"@
    } else if d == 8 {
        "8"@
    } else {
        "9"@
    }
}

/// The decimal rendering of `n`, most significant digit first.
pub open spec fn dec_rep(n: int) -> Seq<char>
    decreases n,
{
    if n < 10 {
        digit_rep(n)
    } else {
        dec_rep(n / 10) + digit_rep(n % 10)
    }
}

/// The one-character string for digit `d`.
fn digit_str(d: u16) -> (r: &'static str)
    requires
        d < 10,
    ensures
        r@ == digit_rep(d as int),
{
    match d {
        0 => "0",
        1 => "1",
        2 => "2",
        3 => "3",
        4 => "4",
        5 => "5",
        6 => "6",
        7 => "7",
        8 => "8",
        _ => "9",
    }
}

/// Append the decimal rendering of `n` to `out`.
fn push_decimal(out: &mut String, n: u16)
    ensures
        final(out)@ == old(out)@ + dec_rep(n as int),
    decreases n,
{
    if n < 10 {
        out.append(digit_str(n));
    } else {
        push_decimal(out, n / 10);
        out.append(digit_str(n % 10));
        proof {
            assert(old(out)@ + dec_rep(n as int / 10) + digit_rep(n as int % 10) =~= old(out)@
                + (dec_rep(n as int / 10) + digit_rep(n as int % 10)));
        }
    }
}

/// The configuration the core consumes: a database connection endpoint
/// and the address to serve on.
#[derive(Debug, Clone)]
pub struct Config {
    pub database_url: String,
    pub server_host: String,
    pub server_port: u16,
}

impl Config {
    /// Assemble configuration from raw environment values: the database
    /// endpoint as given, the host defaulting to `0.0.0.0` when unset,
    /// and the port defaulting to 3000 when unset or unparsable.
    pub fn from_parts(database_url: String, host: Option<String>, port: Option<String>) -> (r:
        Config)
        ensures
            r.database_url@ == database_url@,
            match host {
                Some(h) => r.server_host@ == h@,
                None => r.server_host@ == "0.0.0.0"@,
            },
            match port {
                Some(p) => if is_port_string(p@) {
                    r.server_port == dec_value(digits_part(p@))
                } else {
                    r.server_port == 3000
                },
                None => r.server_port == 3000,
            },
    {
        let server_host = match host {
            Some(h) => h,
            None => "0.0.0.0".to_owned(),
        };
        let server_port = match port {
            Some(p) => match parse_port(p.as_str()) {
                Some(v) => v,
                None => 3000,
            },
            None => 3000,
        };
        Config { database_url, server_host, server_port }
    }

    /// The socket address to bind, as `host:port`.
    pub fn server_addr(&self) -> (r: String)
        ensures
            r@ == self.server_host@ + ":"@ + dec_rep(self.server_port as int),
    {
        let mut r = self.server_host.clone();
        r.append(":");
        push_decimal(&mut r, self.server_port);
        r
    }
}

} // verus!
