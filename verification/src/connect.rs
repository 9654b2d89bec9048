//! The connection dialog: from the form's fields to connection parameters,
//! and from the parameters to the kind of session to open.
use vstd::prelude::*;
use crate::domain::{copy_opt_string, ConnectionParams, Protocol};
use crate::ids::{fresh_v4_id, is_v4_text};
use crate::sizes::{decimal_text, digit_char};
use crate::state::AppState;

verus! {

broadcast use vstd::string::group_string_axioms;

/// A decimal digit character.
pub open spec fn is_digit(c: char) -> bool {
    '0' <= c && c <= '9'
}

/// The number written by the decimal digits `s`.
pub open spec fn digits_value(s: Seq<char>) -> nat
    decreases s.len(),
{
    if s.len() == 0 {
        0
    } else {
        digits_value(s.drop_last()) * 10 + ((s.last() as int - 48) as nat)
    }
}

/// The text of a port number with its optional leading "+" removed.
pub open spec fn unsigned_digits(s: Seq<char>) -> Seq<char> {
    if s.len() > 0 && s[0] == '+' {
        s.drop_first()
    } else {
        s
    }
}

/// The `u16` that std's `str::parse` reads from `s`: an optional "+" then
/// at least one decimal digit and nothing else, of value at most 65535.
pub open spec fn parsed_u16(s: Seq<char>) -> Option<u16> {
    let d = unsigned_digits(s);
    if d.len() > 0 && (forall|i: int| 0 <= i < d.len() ==> is_digit(d[i])) && digits_value(d)
        <= 65535 {
        Some(digits_value(d) as u16)
    } else {
        None
    }
}

/// The decimal text of a number is made of digits and reads back as it.
pub proof fn lemma_decimal_text_reads_back(n: nat)
    ensures
        decimal_text(n).len() > 0,
        forall|i: int| 0 <= i < decimal_text(n).len() ==> is_digit(decimal_text(n)[i]),
        digits_value(decimal_text(n)) == n,
    decreases n,
{
    let d = n % 10;
    assert(digit_char(d) as int == d + 48);
    if n >= 10 {
        lemma_decimal_text_reads_back(n / 10);
        let s = decimal_text(n / 10);
        assert(decimal_text(n).drop_last() =~= s);
        assert(decimal_text(n).last() == digit_char(d));
        assert(n == (n / 10) * 10 + n % 10);
        assert(digits_value(decimal_text(n)) == digits_value(s) * 10 + ((digit_char(d) as int
            - 48) as nat));
    } else {
        assert(decimal_text(n).drop_last() =~= Seq::<char>::empty());
        assert(decimal_text(n).last() == digit_char(d));
        assert(digits_value(decimal_text(n)) == digits_value(Seq::<char>::empty()) * 10 + ((
        digit_char(d) as int - 48) as nat));
    }
}

/// A port number typed as its decimal text, with or without a leading
/// "+", is read back as that number.
pub proof fn lemma_port_text_roundtrip(n: u16)
    ensures
        parsed_u16(decimal_text(n as nat)) == Some(n),
        parsed_u16(seq!['+'] + decimal_text(n as nat)) == Some(n),
{
    lemma_decimal_text_reads_back(n as nat);
    let t = decimal_text(n as nat);
    assert(t[0] != '+');
    assert((seq!['+'] + t).drop_first() =~= t);
}

/// Reads a port number as `str::parse::<u16>` does.
pub fn parse_port(s: &str) -> (r: Option<u16>)
    ensures
        r == parsed_u16(s@),
{
    let n = s.unicode_len();
    let start: usize = if n > 0 && s.get_char(0) == '+' {
        1
    } else {
        0
    };
    let ghost d = unsigned_digits(s@);
    assert(d =~= s@.skip(start as int));
    if start == n {
        return None;
    }
    let mut v: u32 = 0;
    let mut i: usize = start;
    assert(d.take(0) =~= Seq::<char>::empty());
    while i < n
        invariant
            n == s@.len(),
            start <= i <= n,
            d == s@.skip(start as int),
            d == unsigned_digits(s@),
            forall|j: int| 0 <= j < i - start ==> is_digit(d[j]),
            v == if digits_value(d.take(i - start)) < 65536 {
                digits_value(d.take(i - start))
            } else {
                65536
            },
        decreases n - i,
    {
        let c = s.get_char(i);
        assert(d[i - start] == s@[i as int]);
        if c < '0' || c > '9' {
            assert(!is_digit(d[i - start]));
            return None;
        }
        let ghost k = (i - start) as int;
        assert(d.take(k + 1).drop_last() =~= d.take(k));
        assert(d.take(k + 1).last() == c);
        let dv: u32 = (c as u32) - 48;
        if v < 65536 {
            v = v * 10 + dv;
            if v > 65536 {
                v = 65536;
            }
        }
        i = i + 1;
    }
    assert(d.take(d.len() as int) =~= d);
    if v <= 65535 {
        Some(v as u16)
    } else {
        None
    }
}

/// The protocol the dialog's choice `index` designates.
pub open spec fn protocol_at(index: usize) -> Protocol {
    if index == 0 {
        Protocol::Sftp
    } else if index == 1 {
        Protocol::Ftp
    } else {
        Protocol::Ftps
    }
}

/// The port a protocol uses when none is given.
pub open spec fn default_port(p: Protocol) -> u16 {
    match p {
        Protocol::Sftp => 22,
        Protocol::Ftp => 21,
        Protocol::Ftps => 990,
    }
}

/// An optional text field: `None` when empty.
pub open spec fn optional_text(s: String) -> Option<String> {
    if s@.len() == 0 {
        None
    } else {
        Some(s)
    }
}

fn optional(s: &String) -> (r: Option<String>)
    ensures
        r == optional_text(*s),
{
    if s.as_str().unicode_len() == 0 {
        None
    } else {
        Some(s.clone())
    }
}

/// The parameters the dialog's fields describe (with identifier `id`).
pub open spec fn form_params(s: AppState, p: ConnectionParams) -> bool {
    &&& p.protocol == protocol_at(s.connect_protocol)
    &&& p.port == match parsed_u16(s.connect_port@) {
        Some(n) => n,
        None => default_port(protocol_at(s.connect_protocol)),
    }
    &&& p.label == if s.connect_label@.len() == 0 {
        s.connect_host
    } else {
        s.connect_label
    }
    &&& p.host == s.connect_host
    &&& p.username == s.connect_user
    &&& p.password == optional_text(s.connect_pass)
    &&& p.key_path == optional_text(s.connect_key_path)
}

/// A port typed in the dialog that reads as a number is the port the
/// connection uses, whatever the protocol; the protocol's default port
/// stands in only when the field does not read as one.
pub proof fn lemma_typed_port_used(s: AppState, p: ConnectionParams)
    requires
        form_params(s, p),
    ensures
        forall|n: u16| parsed_u16(s.connect_port@) == Some(n) ==> p.port == n,
        parsed_u16(s.connect_port@) is None ==> p.port == default_port(p.protocol),
{
}

/// A click on "Connect": the error line is cleared, the dialog shows that a
/// connection is under way, and the parameters of the new connection are
/// returned, under a fresh random identifier, for the caller to connect.
pub fn submit_connection(state: &mut AppState) -> (p: ConnectionParams)
    ensures
        form_params(*old(state), p),
        forall|n: u16| parsed_u16(old(state).connect_port@) == Some(n) ==> p.port == n,
        is_v4_text(p.id@),
        final(state).connect_error@.len() == 0,
        *final(state) == (AppState {
            connect_error: final(state).connect_error,
            connect_loading: true,
            ..*old(state)
        }),
{
    state.connect_error = String::new();
    let protocol = if state.connect_protocol == 0 {
        Protocol::Sftp
    } else if state.connect_protocol == 1 {
        Protocol::Ftp
    } else {
        Protocol::Ftps
    };
    let port = match parse_port(state.connect_port.as_str()) {
        Some(n) => n,
        None => match protocol {
            Protocol::Sftp => 22,
            Protocol::Ftp => 21,
            Protocol::Ftps => 990,
        },
    };
    let label = if state.connect_label.as_str().unicode_len() == 0 {
        state.connect_host.clone()
    } else {
        state.connect_label.clone()
    };
    let params = ConnectionParams {
        id: fresh_v4_id(),
        label,
        protocol,
        host: state.connect_host.clone(),
        port,
        username: state.connect_user.clone(),
        password: optional(&state.connect_pass),
        key_path: optional(&state.connect_key_path),
    };
    state.connect_loading = true;
    proof {
        lemma_typed_port_used(*old(state), params);
    }
    params
}

/// The kind of session to open for a set of parameters.
pub enum ConnectRoute {
    /// SFTP authenticated by the private key at this path.
    SftpKey(String),
    /// SFTP authenticated by password.
    SftpPassword,
    /// Plain FTP, authenticated by password.
    Ftp,
    /// Not supported; the message says why.
    Unsupported(String),
}

/// How to open a session for `params`: SFTP by key when a key path is
/// given, else by password; FTP by password; FTPS is refused.
pub fn connect_route(params: &ConnectionParams) -> (r: ConnectRoute)
    ensures
        match params.protocol {
            Protocol::Sftp => match params.key_path {
                Some(k) => r matches ConnectRoute::SftpKey(p) && p == k,
                None => r is SftpPassword,
            },
            Protocol::Ftp => r is Ftp,
            Protocol::Ftps => r matches ConnectRoute::Unsupported(m) && m@ == "FTPS not yet implemented"@,
        },
{
    match params.protocol {
        Protocol::Sftp => match copy_opt_string(&params.key_path) {
            Some(k) => ConnectRoute::SftpKey(k),
            None => ConnectRoute::SftpPassword,
        },
        Protocol::Ftp => ConnectRoute::Ftp,
        Protocol::Ftps => ConnectRoute::Unsupported("FTPS not yet implemented".to_string()),
    }
}

} // verus!
