//! A peer's identity and addresses: the six-digit id and the password that
//! a host shows to whoever should connect to it, the port on which the host
//! listens, and the address that a viewer dials for what the user typed.

use vstd::prelude::*;
use vstd::string::*;

use crate::text::{
    all_ascii_digits, contains_char, decimal, is_ascii_digit,
    lemma_decimal_digits, lemma_parse_decimal, parse_unsigned, parse_unsigned_spec,
    remove_white_space, to_decimal, to_decimal_zero_padded, to_upper_hex4, upper_hex4,
    utf8_len_is, without_white_space, zero_padded,
};

verus! {

/// Draws a number with `rand::random::<u32>()`. Nothing is claimed of it:
/// it comes from the thread's random generator.
#[verifier::external_body]
fn random_u32() -> u32 {
    rand::random::<u32>()
}

/// Draws a number with `rand::random::<u16>()`. Nothing is claimed of it:
/// it comes from the thread's random generator.
#[verifier::external_body]
fn random_u16() -> u16 {
    rand::random::<u16>()
}

// ---------------------------------------------------------------------------
// Identity
// ---------------------------------------------------------------------------

/// The id number made from the random number `r`: between 100000 and 999999.
pub open spec fn local_id_number(r: u32) -> nat {
    (r % 900_000) as nat + 100_000
}

/// The id shown for the random number `r`: its id number in decimal,
/// zero-padded to six characters.
pub open spec fn local_id_text(r: u32) -> Seq<char> {
    zero_padded(decimal(local_id_number(r)), 6)
}

/// The port on which a host whose id is `id` listens: 10000 plus the id's
/// number (0 when the id does not read as a `u64`) modulo 55535.
pub open spec fn host_port_spec(id: Seq<char>) -> nat {
    let n = match parse_unsigned_spec(id, u64::MAX as nat) {
        Some(v) => v,
        None => 0,
    };
    10_000 + n % 55_535
}

/// The id shown for the random number `r`.
pub fn local_id_from(r: u32) -> (id: String)
    ensures
        id@ == local_id_text(r),
{
    to_decimal_zero_padded((r % 900_000) as u64 + 100_000, 6)
}

/// The password shown for the random number `r`: four upper-case
/// hexadecimal digits.
pub fn password_from(r: u16) -> (pw: String)
    ensures
        pw@ == upper_hex4(r),
{
    to_upper_hex4(r)
}

/// A fresh id for this machine, made from a random number.
pub fn generate_local_id() -> (id: String)
    ensures
        exists|r: u32| id@ == local_id_text(r),
{
    let r = random_u32();
    local_id_from(r)
}

/// A fresh password for this machine, made from a random number.
pub fn generate_password() -> (pw: String)
    ensures
        exists|r: u16| pw@ == upper_hex4(r),
{
    let r = random_u16();
    password_from(r)
}

/// The port on which a host whose id is `id` listens.
pub fn host_port(id: &str) -> (port: u16)
    ensures
        port == host_port_spec(id@),
{
    let n = match parse_unsigned(id, u64::MAX) {
        Some(v) => v,
        None => 0,
    };
    10_000 + (n % 55_535) as u16
}

proof fn lemma_six_digits(n: nat)
    requires
        100_000 <= n <= 999_999,
    ensures
        decimal(n).len() == 6,
{
    let n1 = n / 10;
    let n2 = n1 / 10;
    let n3 = n2 / 10;
    let n4 = n3 / 10;
    let n5 = n4 / 10;
    assert(decimal(n5).len() == 1);
    assert(decimal(n4).len() == 2);
    assert(decimal(n3).len() == 3);
    assert(decimal(n2).len() == 4);
    assert(decimal(n1).len() == 5);
}

/// Law: every id that a host shows is six ASCII digits that read back as its
/// id number, between 100000 and 999999.
pub proof fn lemma_local_id_shape(r: u32)
    ensures
        local_id_text(r) == decimal((r % 900_000) as nat + 100_000),
        local_id_text(r) == decimal(local_id_number(r)),
        local_id_text(r).len() == 6,
        all_ascii_digits(local_id_text(r)),
        100_000 <= local_id_number(r) <= 999_999,
        parse_unsigned_spec(local_id_text(r), u64::MAX as nat) == Some(local_id_number(r)),
{
    lemma_six_digits(local_id_number(r));
    lemma_decimal_digits(local_id_number(r));
    lemma_parse_decimal(local_id_number(r), u64::MAX as nat);
}

/// Law: the host listens on the port that its own id gives, which lies
/// between 10000 and 65534.
pub proof fn lemma_host_port_of_local_id(r: u32)
    ensures
        host_port_spec(local_id_text(r)) == 10_000 + local_id_number(r) % 55_535,
        10_000 <= host_port_spec(local_id_text(r)) <= 65_534,
{
    lemma_local_id_shape(r);
}

// ---------------------------------------------------------------------------
// Addresses
// ---------------------------------------------------------------------------

/// What the user typed as the remote id, with all white space stripped.
pub open spec fn normalized_remote_id(typed: Seq<char>) -> Seq<char> {
    without_white_space(typed)
}

/// The address dialed for what the user typed and the port given: the id
/// itself when it holds a `:`; the id and the port when it holds a `.`; the
/// relay and the port for a six-byte id; the local machine and the port
/// otherwise.
pub open spec fn target_address(typed: Seq<char>, port: u16) -> Seq<char> {
    let id = normalized_remote_id(typed);
    if id.contains(':') {
        id
    } else if id.contains('.') {
        id + ":"@ + decimal(port as nat)
    } else if vstd::utf8::encode_utf8(id).len() == 6 {
        "bore.pub"@ + ":"@ + decimal(port as nat)
    } else {
        "127.0.0.1"@ + ":"@ + decimal(port as nat)
    }
}

/// Law: the address dialed for what the user typed, its white space
/// stripped (`id`): `id` itself whenever it holds a `:`; otherwise `id`, a
/// `:` and the port when it holds a `.`; otherwise the relay and the port
/// when `id` takes six bytes in UTF-8; otherwise the local machine and the
/// port.
pub proof fn lemma_address_choice(typed: Seq<char>, port: u16)
    ensures
        ({
            let id = without_white_space(typed);
            let p = decimal(port as nat);
            &&& id.contains(':') ==> target_address(typed, port) == id
            &&& !id.contains(':') && id.contains('.') ==> target_address(typed, port) == id
                + seq![':'] + p
            &&& !id.contains(':') && !id.contains('.') && vstd::utf8::encode_utf8(id).len() == 6
                ==> target_address(typed, port) == seq!['b', 'o', 'r', 'e', '.', 'p', 'u', 'b', ':']
                + p
            &&& !id.contains(':') && !id.contains('.') && vstd::utf8::encode_utf8(id).len() != 6
                ==> target_address(typed, port) == seq!['1', '2', '7', '.', '0', '.', '0', '.', '1', ':']
                + p
        }),
{
    reveal_strlit(":");
    reveal_strlit("bore.pub");
    reveal_strlit("127.0.0.1");
    let p = decimal(port as nat);
    assert(":"@ =~= seq![':']);
    assert("bore.pub"@ + ":"@ =~= seq!['b', 'o', 'r', 'e', '.', 'p', 'u', 'b', ':']);
    assert("127.0.0.1"@ + ":"@ =~= seq!['1', '2', '7', '.', '0', '.', '0', '.', '1', ':']);
    assert("bore.pub"@ + ":"@ + p =~= ("bore.pub"@ + ":"@) + p);
    assert("127.0.0.1"@ + ":"@ + p =~= ("127.0.0.1"@ + ":"@) + p);
}

/// Where a viewer connects, and what it tells the user.
pub struct ConnectionTarget {
    /// The address dialed, `host:port`.
    pub address: String,
    /// `Connecting to <id>`.
    pub message: String,
}

/// `host:port` (`format!("{}:{}", host, port)`).
pub fn join_host_port(host: &str, port: u16) -> (a: String)
    ensures
        a@ == host@ + ":"@ + decimal(port as nat),
{
    let mut a = host.to_owned();
    a.append(":");
    a.append(to_decimal(port as u64).as_str());
    a
}

/// Where a viewer connects for the remote id `typed` and the port `port`.
pub fn connection_target(typed: &str, port: u16) -> (t: ConnectionTarget)
    ensures
        t.address@ == target_address(typed@, port),
        t.message@ == "Connecting to "@ + normalized_remote_id(typed@),
        without_white_space(typed@).contains(':') ==> t.address@ == without_white_space(typed@),
        t.message@ == "Connecting to "@ + without_white_space(typed@),
{
    proof {
        lemma_address_choice(typed@, port);
    }
    let id = remove_white_space(typed);
    let address = if contains_char(id.as_str(), ':') {
        id.clone()
    } else if contains_char(id.as_str(), '.') {
        join_host_port(id.as_str(), port)
    } else if utf8_len_is(id.as_str(), 6) {
        join_host_port("bore.pub", port)
    } else {
        join_host_port("127.0.0.1", port)
    };
    let mut message = "Connecting to ".to_owned();
    message.append(id.as_str());
    ConnectionTarget { address, message }
}

proof fn lemma_digits_untouched(s: Seq<char>)
    requires
        all_ascii_digits(s),
    ensures
        without_white_space(s) == s,
    decreases s.len(),
{
    if s.len() > 0 {
        let t = s.drop_last();
        assert(all_ascii_digits(t)) by {
            assert forall|i: int| 0 <= i < t.len() implies is_ascii_digit(#[trigger] t[i]) by {
                assert(t[i] == s[i]);
            }
        }
        lemma_digits_untouched(t);
        assert(is_ascii_digit(s.last()));
        assert(t.push(s.last()) =~= s);
        assert(is_ascii_digit(s[0]));
    }
}

proof fn lemma_ascii_digit_is_ascii(c: char)
    requires
        is_ascii_digit(c),
    ensures
        '\0' <= c <= '\u{7f}',
{
}

/// Law: the id that a host shows, typed in by a viewer, is dialed at the
/// relay with the port given.
pub proof fn lemma_local_id_dials_relay(r: u32, port: u16)
    ensures
        target_address(local_id_text(r), port) == "bore.pub"@ + ":"@ + decimal(port as nat),
{
    let id = local_id_text(r);
    lemma_local_id_shape(r);
    lemma_digits_untouched(id);
    assert(normalized_remote_id(id) == id);
    assert(!id.contains(':')) by {
        if id.contains(':') {
            let i = choose|i: int| 0 <= i < id.len() && id[i] == ':';
            assert(is_ascii_digit(id[i]));
        }
    }
    assert(!id.contains('.')) by {
        if id.contains('.') {
            let i = choose|i: int| 0 <= i < id.len() && id[i] == '.';
            assert(is_ascii_digit(id[i]));
        }
    }
    assert(vstd::utf8::is_ascii_chars(id)) by {
        assert forall|i: int| 0 <= i < id.len() implies '\0' <= #[trigger] id[i] <= '\u{7f}' by {
            assert(is_ascii_digit(id[i]));
            lemma_ascii_digit_is_ascii(id[i]);
        }
    }
    vstd::utf8::is_ascii_chars_encode_utf8(id);
}

} // verus!
