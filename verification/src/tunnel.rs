//! The public tunnel: the arguments with which the `bore` client is started
//! and the reading of its output, line by line, until it reports the public
//! port or an error.

use vstd::prelude::*;

use crate::text::{
    all_ascii_digits, contains_text, decimal, digits_value, is_ascii_digit, lemma_decimal_digits,
    parse_unsigned, parse_unsigned_spec, text_contains, to_decimal, unsigned_body,
};

verus! {

/// The public relay that the tunnel goes through.
pub open spec fn relay_host() -> Seq<char> {
    "bore.pub"@
}

/// The pattern of the line with which `bore` announces its public port; the
/// port is its first group.
pub open spec fn port_announcement_pattern() -> Seq<char> {
    r"bore\.pub:(\d+)"@
}

/// What the `regex` crate finds as the text of group `group` of the first
/// match of `pattern` in `text`; `None` when there is no match, the group
/// took no part in it, or the pattern is not a valid regular expression.
pub uninterp spec fn regex_group(pattern: Seq<char>, text: Seq<char>, group: nat) -> Option<
    Seq<char>,
>;

/// What `str::to_lowercase` gives for `s`.
pub uninterp spec fn lowercase(s: Seq<char>) -> Seq<char>;

/// Compiles `pattern` with `regex::Regex::new` and returns the text of group
/// `group` of `Regex::captures` on `text` (`Captures::get`). The contract
/// claims only that the result is `regex_group` of the arguments: matching
/// is a function of the pattern and the text.
#[verifier::external_body]
fn regex_capture_group(pattern: &str, text: &str, group: usize) -> (r: Option<String>)
    ensures
        match regex_group(pattern@, text@, group as nat) {
            Some(g) => r matches Some(s) && s@ == g,
            None => r is None,
        },
{
    match regex::Regex::new(pattern) {
        Ok(re) => match re.captures(text) {
            Some(caps) => match caps.get(group) {
                Some(m) => Some(m.as_str().to_string()),
                None => None,
            },
            None => None,
        },
        Err(_) => None,
    }
}

/// `str::to_lowercase`. The contract claims only that the result is
/// `lowercase` of the text: Unicode's lower-case mapping is a function of
/// the text.
#[verifier::external_body]
fn to_lowercase(s: &str) -> (r: String)
    ensures
        r@ == lowercase(s@),
{
    s.to_lowercase()
}

/// What one line of the tunnel client's output tells.
#[derive(Debug)]
pub enum TunnelLine {
    /// The tunnel is open at this host and port.
    Ready(String, u16),
    /// The client reported this error line.
    Failed(String),
    /// Nothing yet: read the next line.
    Pending,
}

/// `r` is what a line tells, given the line, its lower-case form and the
/// digits that follow the port announcement in it (if it holds one): a port
/// announcement whose digits read as a `u16` opens the tunnel; a line
/// without one that mentions `error` but not `pipe closed` (in any case)
/// is an error; anything else is passed over.
pub open spec fn tunnel_line_spec(
    line: Seq<char>,
    lowered: Seq<char>,
    port_digits: Option<Seq<char>>,
    r: TunnelLine,
) -> bool {
    match port_digits {
        Some(d) => match parse_unsigned_spec(d, 0xFFFF) {
            Some(p) => r matches TunnelLine::Ready(h, q) && h@ == relay_host() && q == p,
            None => r is Pending,
        },
        None => if contains_text(lowered, "error"@) && !contains_text(lowered, "pipe closed"@) {
            r matches TunnelLine::Failed(m) && m@ == line
        } else {
            r is Pending
        },
    }
}

/// A place where the tunnel client's executable is looked for.
#[derive(Debug, Clone, Copy, PartialEq, Eq, Structural)]
pub enum BoreLocation {
    /// The folder of this application's executable.
    BesideExecutable,
    /// The bundled folder inside the `k`-th ancestor of the executable's
    /// folder (0 is that folder itself, 1 its parent, ...).
    InBundledFolder(usize),
}

/// The file name of the tunnel client's executable.
pub fn bore_file_name() -> (s: &'static str)
    ensures
        s@ == "bore.exe"@,
{
    "bore.exe"
}

/// The name of the bundled folder that may hold the tunnel client.
pub fn bundled_folder_name() -> (s: &'static str)
    ensures
        s@ == "ZxZeDesk Python Version"@,
{
    "ZxZeDesk Python Version"
}

/// Law: a port announcement whose digits denote a number that fits a `u16`
/// (any of 0 to 65535) opens the tunnel at `bore.pub` and that port,
/// whatever the rest of the line says.
pub proof fn lemma_port_digits_open_tunnel(
    line: Seq<char>,
    lowered: Seq<char>,
    digits: Seq<char>,
    r: TunnelLine,
)
    requires
        digits.len() > 0,
        all_ascii_digits(digits),
        digits_value(digits) <= u16::MAX,
        tunnel_line_spec(line, lowered, Some(digits), r),
    ensures
        r matches TunnelLine::Ready(h, q) && h@ == seq!['b', 'o', 'r', 'e', '.', 'p', 'u', 'b']
            && q == digits_value(digits),
{
    reveal_strlit("bore.pub");
    assert(is_ascii_digit(digits[0]));
    assert(unsigned_body(digits) == digits);
}

/// Law: the decimal rendering of any port opens the tunnel at that port.
pub proof fn lemma_every_port_is_read(line: Seq<char>, lowered: Seq<char>, port: u16, r: TunnelLine)
    requires
        tunnel_line_spec(line, lowered, Some(decimal(port as nat)), r),
    ensures
        r matches TunnelLine::Ready(h, q) && h@ == seq!['b', 'o', 'r', 'e', '.', 'p', 'u', 'b']
            && q == port,
{
    lemma_decimal_digits(port as nat);
    lemma_port_digits_open_tunnel(line, lowered, decimal(port as nat), r);
}

/// Law: a line without a port announcement is an error exactly when it
/// mentions `error` but not `pipe closed` (in its lower-case form), and the
/// error carries the line as it stands.
pub proof fn lemma_error_lines(line: Seq<char>, lowered: Seq<char>, r: TunnelLine)
    requires
        tunnel_line_spec(line, lowered, None, r),
    ensures
        (r is Failed) <==> (contains_text(lowered, seq!['e', 'r', 'r', 'o', 'r']) && !contains_text(
            lowered,
            seq!['p', 'i', 'p', 'e', ' ', 'c', 'l', 'o', 's', 'e', 'd'],
        )),
        r matches TunnelLine::Failed(m) ==> m@ == line,
        !(r is Ready),
{
    reveal_strlit("error");
    reveal_strlit("pipe closed");
    assert("error"@ =~= seq!['e', 'r', 'r', 'o', 'r']);
    assert("pipe closed"@ =~= seq!['p', 'i', 'p', 'e', ' ', 'c', 'l', 'o', 's', 'e', 'd']);
}

/// Manages the tunnel client that makes the host reachable from outside.
pub struct TunnelManager {}

impl TunnelManager {
    pub fn new() -> (m: Self)
        ensures
            m == (TunnelManager {}),
    {
        TunnelManager {}
    }

    /// The arguments with which the tunnel client is started for the local
    /// port `local_port`: `local <port> --to bore.pub`.
    pub fn command_args(&self, local_port: u16) -> (args: Vec<String>)
        ensures
            args@.len() == 4,
            args@[0]@ == "local"@,
            args@[1]@ == decimal(local_port as nat),
            args@[2]@ == "--to"@,
            args@[3]@ == relay_host(),
    {
        let mut args: Vec<String> = Vec::new();
        args.push("local".to_owned());
        args.push(to_decimal(local_port as u64));
        args.push("--to".to_owned());
        args.push("bore.pub".to_owned());
        args
    }

    /// The places where the tunnel client is looked for, in order, for an
    /// executable whose folder has `ancestors` ancestors counting itself:
    /// beside the executable, then in the bundled folder of the executable's
    /// folder and of each of its ancestors, nearest first. The first place
    /// that holds the file is used.
    pub fn search_order(&self, ancestors: usize) -> (v: Vec<BoreLocation>)
        requires
            ancestors < usize::MAX,
        ensures
            v@.len() == ancestors + 1,
            v@[0] == BoreLocation::BesideExecutable,
            forall|i: int| 0 < i <= ancestors ==> v@[i] == BoreLocation::InBundledFolder(
                (i - 1) as usize,
            ),
    {
        let mut v: Vec<BoreLocation> = Vec::new();
        v.push(BoreLocation::BesideExecutable);
        let mut k: usize = 0;
        while k < ancestors
            invariant
                k <= ancestors,
                v@.len() == k + 1,
                v@[0] == BoreLocation::BesideExecutable,
                forall|i: int| 0 < i <= k ==> v@[i] == BoreLocation::InBundledFolder(
                    (i - 1) as usize,
                ),
            decreases ancestors - k,
        {
            v.push(BoreLocation::InBundledFolder(k));
            k = k + 1;
        }
        v
    }

    /// What a line tells, given the line, its lower-case form and the digits
    /// of its port announcement, if it holds one.
    pub fn classify_line(&self, line: &str, lowered: &str, port_digits: Option<&str>) -> (r:
        TunnelLine)
        ensures
            tunnel_line_spec(
                line@,
                lowered@,
                match port_digits {
                    Some(d) => Some(d@),
                    None => None,
                },
                r,
            ),
            port_digits matches Some(d) ==> (d@.len() > 0 && all_ascii_digits(d@) && digits_value(
                d@,
            ) <= u16::MAX ==> (r matches TunnelLine::Ready(h, q) && h@ == seq![
                'b',
                'o',
                'r',
                'e',
                '.',
                'p',
                'u',
                'b',
            ] && q == digits_value(d@))),
    {
        let r = match port_digits {
            Some(d) => match parse_unsigned(d, 0xFFFF) {
                Some(p) => TunnelLine::Ready("bore.pub".to_owned(), p as u16),
                None => TunnelLine::Pending,
            },
            None => {
                if text_contains(lowered, "error") && !text_contains(lowered, "pipe closed") {
                    TunnelLine::Failed(line.to_owned())
                } else {
                    TunnelLine::Pending
                }
            },
        };
        proof {
            if let Some(d) = port_digits {
                if d@.len() > 0 && all_ascii_digits(d@) && digits_value(d@) <= u16::MAX {
                    lemma_port_digits_open_tunnel(line@, lowered@, d@, r);
                }
            }
        }
        r
    }

    /// What a line of the tunnel client's output tells: the port
    /// announcement is sought with the `regex` crate and the line is
    /// lower-cased with `str::to_lowercase`.
    pub fn scan_line(&self, line: &str) -> (r: TunnelLine)
        ensures
            tunnel_line_spec(
                line@,
                lowercase(line@),
                regex_group(port_announcement_pattern(), line@, 1),
                r,
            ),
    {
        let digits = regex_capture_group(r"bore\.pub:(\d+)", line, 1);
        let lowered = to_lowercase(line);
        match digits {
            Some(d) => self.classify_line(line, lowered.as_str(), Some(d.as_str())),
            None => self.classify_line(line, lowered.as_str(), None),
        }
    }
}

} // verus!
