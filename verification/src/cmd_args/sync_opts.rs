//! The options of the `sync` command, and the form of an address.

use crate::command::util::{all_whitespace, is_blank};
use crate::pattern::{regex_test, regex_verdict};
use crate::text::{clone_opt_string, opt_text};
use vstd::prelude::*;
use vstd::string::StrSliceExecFns;

verus! {

/// The form of an address: a host made of letters, digits, dots and
/// hyphens, or a single asterisk, and after a colon up to five digits.
pub const ADDR_PATTERN: &'static str =
    r"^[A-Za-z0-9*](?:[A-Za-z0-9.-]*[A-Za-z0-9])?(?::\d{1,5})?$";

/// The greatest port.
pub const MAX_PORT: u32 = 65535;

/// What is wrong with the options of `sync`.
#[derive(Clone, Copy, Debug, PartialEq, Eq, Structural)]
pub enum SyncOptError {
    /// Both a server's and a client's address are given.
    BothModes,
    /// Neither a server's nor a client's address is given.
    NoMode,
    /// The server's address is blank.
    EmptyServerAddress,
    /// The client's address is blank.
    EmptyClientAddress,
    /// The address has not the form of an address.
    InvalidFormat,
    /// What stands after the colon is no number.
    PortNotNumeric,
    /// The port is 0 or above the greatest port.
    PortOutOfRange(u32),
}

/// The value of a decimal digit.
pub open spec fn digit_of(c: char) -> Option<nat> {
    if '0' <= c && c <= '9' {
        Some((c as nat - '0' as nat) as nat)
    } else {
        None
    }
}

/// The number that a text of decimal digits says, as far as it fits into 32
/// bits. A text with anything but the digits 0 to 9 says none, nor does the
/// empty text.
pub open spec fn digits_value(s: Seq<char>) -> Option<nat>
    decreases s.len(),
{
    if s.len() == 0 {
        None
    } else if s.len() == 1 {
        digit_of(s[0])
    } else {
        match (digits_value(s.drop_last()), digit_of(s.last())) {
            (Some(high), Some(low)) => if high * 10 + low <= u32::MAX {
                Some(high * 10 + low)
            } else {
                None
            },
            _ => None,
        }
    }
}

/// The number that a text of decimal digits says.
pub fn parse_digits(s: &str) -> (r: Option<u32>)
    ensures
        match r {
            Some(n) => digits_value(s@) == Some(n as nat),
            None => digits_value(s@) is None,
        },
{
    let n = s.unicode_len();
    if n == 0 {
        return None;
    }
    let mut value: u32 = 0;
    let mut i: usize = 0;
    while i < n
        invariant
            i <= n,
            n == s@.len(),
            n > 0,
            i > 0 ==> digits_value(s@.take(i as int)) == Some(value as nat),
            i == 0 ==> value == 0,
        decreases n - i,
    {
        let c = s.get_char(i);
        proof {
            assert(s@.take(i + 1).drop_last() =~= s@.take(i as int));
            assert(s@.take(i + 1).last() == c);
        }
        if c < '0' || c > '9' {
            proof {
                lemma_digits_prefix(s@, i + 1);
            }
            return None;
        }
        let digit: u32 = (c as u32) - ('0' as u32);
        if value > (u32::MAX - digit) / 10 {
            proof {
                if i > 0 {
                    assert(value * 10 + digit > u32::MAX) by (nonlinear_arith)
                        requires
                            value > (u32::MAX - digit) / 10,
                            digit <= 9,
                    ;
                }
                lemma_digits_prefix(s@, i + 1);
            }
            if i > 0 {
                return None;
            }
        }
        assert(i == 0 ==> value * 10 + digit == digit);
        assert(value * 10 + digit <= u32::MAX) by (nonlinear_arith)
            requires
                value <= (u32::MAX - digit) / 10 || value == 0,
                digit <= 9,
        ;
        value = value * 10 + digit;
        i = i + 1;
    }
    assert(s@.take(n as int) =~= s@);
    Some(value)
}

/// A text whose beginning says no number says none.
proof fn lemma_digits_prefix(s: Seq<char>, k: int)
    requires
        0 < k <= s.len(),
        digits_value(s.take(k)) is None,
    ensures
        digits_value(s) is None,
    decreases s.len() - k,
{
    if k < s.len() {
        assert(s.take(k + 1).drop_last() =~= s.take(k));
        lemma_digits_prefix(s, k + 1);
    } else {
        assert(s.take(k) =~= s);
    }
}

/// The index of the last colon of a text.
pub open spec fn last_colon(s: Seq<char>) -> Option<int> {
    if exists|i: int| 0 <= i < s.len() && s[i] == ':' {
        Some(choose|i: int| 0 <= i < s.len() && s[i] == ':' && forall|j: int|
            i < j < s.len() ==> s[j] != ':')
    } else {
        None
    }
}

/// What the form of an address says of it. The address must have the form
/// of `ADDR_PATTERN`, and a port that it names must be a number from 1 to
/// the greatest port.
pub open spec fn addr_verdict(addr: Seq<char>) -> Result<(), SyncOptError> {
    if regex_verdict(ADDR_PATTERN@, addr) != Some(true) {
        Err(SyncOptError::InvalidFormat)
    } else {
        port_verdict(addr)
    }
}

/// What the port of an address says of it.
pub open spec fn port_verdict(addr: Seq<char>) -> Result<(), SyncOptError> {
    match last_colon(addr) {
        Some(i) => if i + 1 < addr.len() {
            match digits_value(addr.subrange(i + 1, addr.len() as int)) {
                Some(port) => if port == 0 || port > MAX_PORT {
                    Err(SyncOptError::PortOutOfRange(port as u32))
                } else {
                    Ok(())
                },
                None => Err(SyncOptError::PortNotNumeric),
            }
        } else {
            Ok(())
        },
        None => Ok(()),
    }
}

/// Finds the last colon of a text.
fn find_last_colon(s: &str) -> (r: Option<usize>)
    ensures
        match r {
            Some(i) => last_colon(s@) == Some(i as int) && i < s@.len(),
            None => last_colon(s@) is None,
        },
{
    let n = s.unicode_len();
    let mut i: usize = n;
    while i > 0
        invariant
            i <= n,
            n == s@.len(),
            forall|j: int| i <= j < n ==> s@[j] != ':',
        decreases i,
    {
        i = i - 1;
        if s.get_char(i) == ':' {
            proof {
                let k = choose|k: int| 0 <= k < s@.len() && s@[k] == ':' && forall|j: int|
                    k < j < s@.len() ==> s@[j] != ':';
                assert(s@[i as int] == ':');
                if k < i {
                    assert(s@[i as int] != ':');
                }
            }
            return Some(i);
        }
    }
    None
}

/// Checks the port that an address names, if it names one.
pub fn check_port(addr: &str) -> (r: Result<(), SyncOptError>)
    ensures
        r == port_verdict(addr@),
{
    let n = addr.unicode_len();
    match find_last_colon(addr) {
        Some(idx) => {
            if idx + 1 < n {
                match parse_digits(addr.substring_char(idx + 1, n)) {
                    Some(port) => {
                        if port == 0 || port > MAX_PORT {
                            Err(SyncOptError::PortOutOfRange(port))
                        } else {
                            Ok(())
                        }
                    },
                    None => Err(SyncOptError::PortNotNumeric),
                }
            } else {
                Ok(())
            }
        },
        None => Ok(()),
    }
}

/// The mode of a synchronisation, with the address to listen on or to
/// connect to.
#[derive(Debug)]
pub enum SyncMode {
    Server(String),
    Client(String),
}

/// The options of the `sync` command.
#[derive(Debug)]
pub struct SyncOpts {
    pub server_addr: Option<String>,
    pub client_addr: Option<String>,
}

impl SyncOpts {
    /// Checks the form of an address.
    pub fn validate_addr(addr: &str) -> (r: Result<(), SyncOptError>)
        ensures
            r == addr_verdict(addr@),
    {
        match regex_test(ADDR_PATTERN, addr) {
            Some(true) => check_port(addr),
            _ => Err(SyncOptError::InvalidFormat),
        }
    }

    /// What the options say of themselves.
    pub open spec fn verdict(self) -> Result<(), SyncOptError> {
        match (self.server_addr, self.client_addr) {
            (Some(_), Some(_)) => Err(SyncOptError::BothModes),
            (None, None) => Err(SyncOptError::NoMode),
            (Some(addr), None) => if all_whitespace(addr@) {
                Err(SyncOptError::EmptyServerAddress)
            } else {
                addr_verdict(addr@)
            },
            (None, Some(addr)) => if all_whitespace(addr@) {
                Err(SyncOptError::EmptyClientAddress)
            } else {
                addr_verdict(addr@)
            },
        }
    }

    /// Checks the options: exactly one address must be given, it must not
    /// be blank, and it must have the form of an address.
    pub fn validate(&mut self) -> (r: Result<(), SyncOptError>)
        ensures
            *final(self) == *old(self),
            r == old(self).verdict(),
    {
        match (&self.server_addr, &self.client_addr) {
            (Some(_), Some(_)) => Err(SyncOptError::BothModes),
            (None, None) => Err(SyncOptError::NoMode),
            (Some(addr), None) => {
                if is_blank(addr.as_str()) {
                    Err(SyncOptError::EmptyServerAddress)
                } else {
                    Self::validate_addr(addr.as_str())
                }
            },
            (None, Some(addr)) => {
                if is_blank(addr.as_str()) {
                    Err(SyncOptError::EmptyClientAddress)
                } else {
                    Self::validate_addr(addr.as_str())
                }
            },
        }
    }

    /// The mode that the options ask for: the server's where its address is
    /// given, else the client's. Without an address there is none.
    pub fn mode(&self) -> (r: Result<SyncMode, SyncOptError>)
        ensures
            match r {
                Ok(SyncMode::Server(addr)) => opt_text(self.server_addr) == Some(addr@),
                Ok(SyncMode::Client(addr)) => self.server_addr is None && opt_text(
                    self.client_addr,
                ) == Some(addr@),
                Err(err) => err == SyncOptError::NoMode && self.server_addr is None
                    && self.client_addr is None,
            },
    {
        match clone_opt_string(&self.server_addr) {
            Some(addr) => Ok(SyncMode::Server(addr)),
            None => match clone_opt_string(&self.client_addr) {
                Some(addr) => Ok(SyncMode::Client(addr)),
                None => Err(SyncOptError::NoMode),
            },
        }
    }
}

} // verus!
