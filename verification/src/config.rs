//! Connection-target configuration: the `host[:port]` receiver address,
//! and the HOSTNAME and APPNAME identity fields with their defaults (the
//! local system hostname and the wrapped command's base name).

use vstd::prelude::*;
use vstd::slice::{slice_subrange, slice_to_vec};

verus! {

/// The receiver port used when the address names none.
pub const DEFAULT_SYSLOG_PORT: u16 = 6514;

/// ASCII colon, the host/port separator.
pub const COLON_BYTE: u8 = 0x3a;

/// ASCII slash, the path separator in the wrapped command's name.
pub const SLASH_BYTE: u8 = 0x2f;

/// True of an ASCII decimal digit.
pub open spec fn is_ascii_digit(b: u8) -> bool {
    0x30 <= b <= 0x39
}

/// True when `s` is one or more ASCII digits.
pub open spec fn all_digits(s: Seq<u8>) -> bool {
    s.len() > 0 && forall|i: int| 0 <= i < s.len() ==> is_ascii_digit(#[trigger] s[i])
}

/// The decimal value of a digit string, most significant digit first.
pub open spec fn dec_value(s: Seq<u8>) -> int
    decreases s.len(),
{
    if s.len() == 0 {
        0
    } else {
        dec_value(s.drop_last()) * 10 + (s.last() - 0x30)
    }
}

/// The index of the first `b` in `s`, or -1 when `s` has none.
pub open spec fn find_byte(s: Seq<u8>, b: u8) -> int
    decreases s.len(),
{
    if s.len() == 0 {
        -1
    } else if s[0] == b {
        0
    } else {
        let r = find_byte(s.drop_first(), b);
        if r < 0 {
            -1
        } else {
            r + 1
        }
    }
}

/// True of a digit string that names a TCP port.
pub open spec fn valid_port(s: Seq<u8>) -> bool {
    all_digits(s) && dec_value(s) <= 65535
}

/// The host part of a `host[:port]` address: the bytes before the first
/// colon, or all of it when it has none.
pub open spec fn host_part(s: Seq<u8>) -> Seq<u8> {
    let k = find_byte(s, COLON_BYTE);
    if k < 0 {
        s
    } else {
        s.take(k)
    }
}

/// The port part of a `host[:port]` address: the bytes after the first
/// colon; meaningful only when the address has one.
pub open spec fn port_part(s: Seq<u8>) -> Seq<u8> {
    s.skip(find_byte(s, COLON_BYTE) + 1)
}

proof fn lemma_find_byte_none(s: Seq<u8>, b: u8)
    requires
        forall|i: int| 0 <= i < s.len() ==> s[i] != b,
    ensures
        find_byte(s, b) == -1,
    decreases s.len(),
{
    if s.len() > 0 {
        lemma_find_byte_none(s.drop_first(), b);
    }
}

proof fn lemma_find_byte_at(s: Seq<u8>, b: u8, k: int)
    requires
        0 <= k < s.len(),
        s[k] == b,
        forall|i: int| 0 <= i < k ==> s[i] != b,
    ensures
        find_byte(s, b) == k,
    decreases s.len(),
{
    if k > 0 {
        lemma_find_byte_at(s.drop_first(), b, k - 1);
    }
}

/// Split a receiver address `host[:port]` into its host and port. An
/// address without a colon gets the default syslog port. `None` exactly
/// when a port part is present but is not a digit string naming a port
/// of at most 65535.
pub fn parse_server(server: &[u8]) -> (r: Option<(Vec<u8>, u16)>)
    ensures
        ({
            let k = find_byte(server@, COLON_BYTE);
            if k < 0 {
                r matches Some(hp) && hp.0@ == server@ && hp.1 == DEFAULT_SYSLOG_PORT
            } else if valid_port(port_part(server@)) {
                r matches Some(hp) && hp.0@ == host_part(server@) && hp.1 == dec_value(
                    port_part(server@),
                )
            } else {
                r is None
            }
        }),
{
    let n = server.len();
    let mut i: usize = 0;
    while i < n
        invariant
            n == server@.len(),
            i <= n,
            forall|j: int| 0 <= j < i ==> server@[j] != COLON_BYTE,
        decreases n - i,
    {
        if server[i] == COLON_BYTE {
            proof {
                lemma_find_byte_at(server@, COLON_BYTE, i as int);
            }
            let host = slice_to_vec(slice_subrange(server, 0, i));
            let port_bytes = slice_subrange(server, i + 1, n);
            proof {
                assert(port_bytes@ =~= port_part(server@));
            }
            let port = match parse_port(port_bytes) {
                Some(p) => p,
                None => {
                    return None;
                },
            };
            return Some((host, port));
        }
        i = i + 1;
    }
    proof {
        lemma_find_byte_none(server@, COLON_BYTE);
    }
    Some((slice_to_vec(server), DEFAULT_SYSLOG_PORT))
}

/// Prefix values never shrink as digits are appended.
proof fn lemma_dec_value_nonneg(s: Seq<u8>)
    requires
        forall|i: int| 0 <= i < s.len() ==> is_ascii_digit(#[trigger] s[i]),
    ensures
        dec_value(s) >= 0,
    decreases s.len(),
{
    if s.len() > 0 {
        lemma_dec_value_nonneg(s.drop_last());
    }
}

/// The value of every proper digit prefix is at most the whole value.
proof fn lemma_dec_value_prefix(s: Seq<u8>, i: int)
    requires
        forall|j: int| 0 <= j < s.len() ==> is_ascii_digit(#[trigger] s[j]),
        0 <= i <= s.len(),
    ensures
        dec_value(s.take(i)) <= dec_value(s),
    decreases s.len() - i,
{
    if i < s.len() {
        lemma_dec_value_prefix(s, i + 1);
        let t = s.take(i + 1);
        assert(t.drop_last() =~= s.take(i));
        assert(forall|j: int| 0 <= j < t.len() ==> is_ascii_digit(#[trigger] t[j]));
        lemma_dec_value_nonneg(s.take(i));
        assert(dec_value(t) == dec_value(s.take(i)) * 10 + (t.last() - 0x30));
        assert(dec_value(s.take(i)) * 10 >= dec_value(s.take(i)));
    } else {
        assert(s.take(i) =~= s);
    }
}

/// Parse a decimal port number: `Some` exactly when the bytes are one or
/// more digits whose value fits a TCP port.
pub fn parse_port(s: &[u8]) -> (r: Option<u16>)
    ensures
        if valid_port(s@) {
            r matches Some(p) && p == dec_value(s@)
        } else {
            r is None
        },
{
    let n = s.len();
    if n == 0 {
        return None;
    }
    let mut acc: u32 = 0;
    let mut i: usize = 0;
    while i < n
        invariant
            n == s@.len(),
            i <= n,
            forall|j: int| 0 <= j < i ==> is_ascii_digit(#[trigger] s@[j]),
            acc == dec_value(s@.take(i as int)),
            acc <= 65535,
        decreases n - i,
    {
        let b = s[i];
        if b < 0x30 || b > 0x39 {
            proof {
                assert(!all_digits(s@)) by {
                    assert(!is_ascii_digit(s@[i as int]));
                }
            }
            return None;
        }
        let d: u32 = (b - 0x30) as u32;
        let next: u32 = acc * 10 + d;
        proof {
            assert(s@.take(i + 1).drop_last() =~= s@.take(i as int));
            assert(s@.take(i + 1).last() == s@[i as int]);
        }
        if next > 65535 {
            proof {
                if valid_port(s@) {
                    lemma_dec_value_prefix(s@, i + 1);
                }
            }
            return None;
        }
        acc = next;
        i = i + 1;
    }
    proof {
        assert(s@.take(n as int) =~= s@);
    }
    Some(acc as u16)
}

/// The wrapped command's base name: the bytes after the last slash, or
/// the whole name when it has none.
pub open spec fn base_name(s: Seq<u8>) -> Seq<u8>
    decreases s.len(),
{
    if s.len() == 0 {
        Seq::<u8>::empty()
    } else if s.last() == SLASH_BYTE {
        Seq::<u8>::empty()
    } else {
        base_name(s.drop_last()).push(s.last())
    }
}

/// The syslog HOSTNAME field: the explicit override when one was given,
/// else the local system hostname.
pub fn resolve_hostname(explicit: Option<Vec<u8>>) -> (r: Vec<u8>)
    ensures
        explicit matches Some(h) ==> r@ == h@,
{
    match explicit {
        Some(h) => h,
        None => system_hostname_bytes(),
    }
}

/// The syslog APPNAME field: the explicit override when one was given,
/// else the base name of the wrapped command.
pub fn resolve_appname(explicit: Option<Vec<u8>>, command: &[u8]) -> (r: Vec<u8>)
    ensures
        match explicit {
            Some(a) => r@ == a@,
            None => r@ == base_name(command@),
        },
{
    match explicit {
        Some(a) => a,
        None => {
            let n = command.len();
            let mut start: usize = 0;
            let mut i: usize = 0;
            while i < n
                invariant
                    n == command@.len(),
                    i <= n,
                    start <= i,
                    base_name(command@.take(i as int)) == command@.subrange(start as int, i as int),
                decreases n - i,
            {
                let b = command[i];
                proof {
                    assert(command@.take(i + 1).drop_last() =~= command@.take(i as int));
                    assert(command@.take(i + 1).last() == command@[i as int]);
                }
                if b == SLASH_BYTE {
                    start = i + 1;
                    proof {
                        assert(base_name(command@.take(i + 1)) =~= command@.subrange(
                            i + 1,
                            i + 1,
                        ));
                    }
                } else {
                    proof {
                        assert(base_name(command@.take(i + 1)) =~= command@.subrange(
                            start as int,
                            i + 1,
                        ));
                    }
                }
                i = i + 1;
            }
            proof {
                assert(command@.take(n as int) =~= command@);
            }
            slice_to_vec(slice_subrange(command, start, n))
        },
    }
}

/// Relies on gethostname::gethostname, which reads the local system
/// hostname; the value is machine-dependent, so nothing is promised of
/// the bytes (non-UTF-8 names come back lossily converted).
#[verifier::external_body]
fn system_hostname_bytes() -> (r: Vec<u8>) {
    gethostname::gethostname().to_string_lossy().to_string().into_bytes()
}

} // verus!
