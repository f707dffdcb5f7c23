use vstd::prelude::*;

verus! {

/// The classes of failure this library can report.  Variants carry the
/// offending value (a username, a path, a host) as plain strings.
#[derive(Debug)]
pub enum ErrorKind {
    UserAuthenticationError(String),
    HostAuthenticationError(String, u16),
    HostFileCheckError,
    InvalidPortNumber,
    MismatchedFingerprint,
    UnableToFindHomeDirectory,
    HostKeyNotFound,
    HostFingerprintNotFound,
    CannotDownloadParent(String),
    CannotUploadParent(String),
    LocalFileExists(String),
    RemoteFileExists(String),
    Ssh2ChannelClosed(i32),
}

/// The character for a single decimal digit.
pub open spec fn spec_digit(d: int) -> char {
    if d == 0 {
        '0'
    } else if d == 1 {
        '1'
    } else if d == 2 {
        '2'
    } else if d == 3 {
        '3'
    } else if d == 4 {
        '4'
    } else if d == 5 {
        '5'
    } else if d == 6 {
        '6'
    } else if d == 7 {
        '7'
    } else if d == 8 {
        '8'
    } else {
        '9'
    }
}

/// The decimal rendering of a non-negative integer, most significant digit first.
pub open spec fn spec_u64_dec(n: int) -> Seq<char>
    decreases n,
{
    if n < 10 {
        seq![spec_digit(n)]
    } else {
        spec_u64_dec(n / 10).push(spec_digit(n % 10))
    }
}

/// The decimal rendering padded on the left with '0' to at least two digits.
pub open spec fn spec_pad2(n: int) -> Seq<char> {
    if n < 10 {
        seq![spec_digit(0), spec_digit(n)]
    } else {
        spec_u64_dec(n)
    }
}

fn push_digit(s: &mut String, d: u64)
    requires
        d < 10,
    ensures
        final(s)@ == old(s)@.push(spec_digit(d as int)),
{
    let t: &str = if d == 0 {
        "0"
    } else if d == 1 {
        "1"
    } else if d == 2 {
        "2"
    } else if d == 3 {
        "3"
    } else if d == 4 {
        "4"
    } else if d == 5 {
        "5"
    } else if d == 6 {
        "6"
    } else if d == 7 {
        "7"
    } else if d == 8 {
        "8"
    } else {
        "9"
    };
    proof {
        reveal_strlit("0");
        reveal_strlit("1");
        reveal_strlit("2");
        reveal_strlit("3");
        reveal_strlit("4");
        reveal_strlit("5");
        reveal_strlit("6");
        reveal_strlit("7");
        reveal_strlit("8");
        reveal_strlit("9");
    }
    assert(t@ =~= seq![spec_digit(d as int)]);
    s.append(t);
    assert(s@ =~= old(s)@.push(spec_digit(d as int)));
}

fn push_colon(s: &mut String)
    ensures
        final(s)@ == old(s)@.push(':'),
{
    proof {
        reveal_strlit(":");
    }
    s.append(":");
    assert(s@ =~= old(s)@.push(':'));
}

fn push_dot(s: &mut String)
    ensures
        final(s)@ == old(s)@.push('.'),
{
    proof {
        reveal_strlit(".");
    }
    s.append(".");
    assert(s@ =~= old(s)@.push('.'));
}

/// Render `n` in decimal.
pub fn u64_to_string(n: u64) -> (s: String)
    ensures
        s@ == spec_u64_dec(n as int),
    decreases n,
{
    if n < 10 {
        let mut s = String::new();
        push_digit(&mut s, n);
        assert(s@ =~= spec_u64_dec(n as int));
        s
    } else {
        let mut s = u64_to_string(n / 10);
        push_digit(&mut s, n % 10);
        s
    }
}

fn push_pad2(s: &mut String, n: u64)
    requires
        n < 100,
    ensures
        final(s)@ == old(s)@ + spec_pad2(n as int),
{
    if n < 10 {
        push_digit(s, 0);
        push_digit(s, n);
        assert(s@ =~= old(s)@ + spec_pad2(n as int));
    } else {
        let t = u64_to_string(n);
        s.append(t.as_str());
    }
}

/// The rendering of a span of `t` seconds: `h:mm:ss`, or `mm:ss` when
/// it is under an hour.
pub open spec fn spec_duration(t: int) -> Seq<char> {
    let seconds = t % 60;
    let minutes = (t / 60) % 60;
    let hours = t / 3600;
    if hours > 0 {
        spec_u64_dec(hours) + seq![':'] + spec_pad2(minutes) + seq![':'] + spec_pad2(seconds)
    } else {
        spec_pad2(minutes) + seq![':'] + spec_pad2(seconds)
    }
}

/// Render a span of `t` seconds in hours, minutes, and seconds.
pub fn duration_to_string(t: u64) -> (s: String)
    ensures
        s@ == spec_duration(t as int),
{
    let seconds = t % 60;
    let minutes = (t / 60) % 60;
    let hours = t / 3600;
    if hours > 0 {
        let mut s = u64_to_string(hours);
        push_colon(&mut s);
        push_pad2(&mut s, minutes);
        push_colon(&mut s);
        push_pad2(&mut s, seconds);
        assert(s@ =~= spec_duration(t as int));
        s
    } else {
        let mut s = String::new();
        push_pad2(&mut s, minutes);
        push_colon(&mut s);
        push_pad2(&mut s, seconds);
        assert(s@ =~= spec_duration(t as int));
        s
    }
}

/// `n` scaled by `unit` and rounded to tenths, rendered with one decimal
/// digit: the integer part, a dot, and the tenths digit.
pub open spec fn spec_tenths(n: int, unit: int) -> Seq<char> {
    let t = (10 * n + unit / 2) / unit;
    spec_u64_dec(t / 10) + seq!['.', spec_digit(t % 10)]
}

fn push_tenths(s: &mut String, n: u64, unit: u64)
    requires
        unit == 1000 || unit == 1000000 || unit == 1000000000,
    ensures
        final(s)@ == old(s)@ + spec_tenths(n as int, unit as int),
{
    let t128: u128 = (10 * (n as u128) + (unit as u128) / 2) / (unit as u128);
    proof {
        let x = 10 * (n as int) + (unit as int) / 2;
        vstd::arithmetic::div_mod::lemma_fundamental_div_mod(x, unit as int);
        vstd::arithmetic::div_mod::lemma_mod_bound(x, unit as int);
        assert((unit as int) * (t128 as int) <= x);
        assert(t128 <= (n as int) + 1) by (nonlinear_arith)
            requires
                1000 <= unit as int,
                (unit as int) * (t128 as int) <= 10 * (n as int) + (unit as int) / 2,
                0 <= n as int,
                0 <= t128 as int,
        ;
    }
    let t: u64 = (t128 / 10) as u64;
    let d: u64 = (t128 % 10) as u64;
    let whole = u64_to_string(t);
    s.append(whole.as_str());
    push_dot(s);
    push_digit(s, d);
    assert(s@ =~= old(s)@ + spec_tenths(n as int, unit as int));
}

/// The rendering of a bitrate: plain bits per second under one thousand,
/// then tenths of kilo-, mega-, or gigabits per second.
pub open spec fn spec_bitrate(rate: int) -> Seq<char> {
    if rate < 1000 {
        spec_u64_dec(rate) + " bit/s"@
    } else if rate < 1000000 {
        spec_tenths(rate, 1000) + " Kbit/s"@
    } else if rate < 1000000000 {
        spec_tenths(rate, 1000000) + " Mbit/s"@
    } else {
        spec_tenths(rate, 1000000000) + " Gbit/s"@
    }
}

/// Render a bitrate, with its unit scaled to the size of `rate`.
pub fn bitrate_to_string(rate: u64) -> (s: String)
    ensures
        s@ == spec_bitrate(rate as int),
{
    if rate < 1000 {
        let mut s = u64_to_string(rate);
        s.append(" bit/s");
        s
    } else if rate < 1000000 {
        let mut s = String::new();
        push_tenths(&mut s, rate, 1000);
        s.append(" Kbit/s");
        assert(s@ =~= spec_bitrate(rate as int));
        s
    } else if rate < 1000000000 {
        let mut s = String::new();
        push_tenths(&mut s, rate, 1000000);
        s.append(" Mbit/s");
        assert(s@ =~= spec_bitrate(rate as int));
        s
    } else {
        let mut s = String::new();
        push_tenths(&mut s, rate, 1000000000);
        s.append(" Gbit/s");
        assert(s@ =~= spec_bitrate(rate as int));
        s
    }
}

/// The rendering of a byte count: plain bytes under one thousand, then
/// tenths of kilo-, mega-, or gigabytes.
pub open spec fn spec_bytes(num_bytes: int) -> Seq<char> {
    if num_bytes < 1000 {
        spec_u64_dec(num_bytes) + " B"@
    } else if num_bytes < 1000000 {
        spec_tenths(num_bytes, 1000) + " KB"@
    } else if num_bytes < 1000000000 {
        spec_tenths(num_bytes, 1000000) + " MB"@
    } else {
        spec_tenths(num_bytes, 1000000000) + " GB"@
    }
}

/// Render a byte count, with its unit scaled to the size of `num_bytes`.
pub fn bytes_to_string(num_bytes: u64) -> (s: String)
    ensures
        s@ == spec_bytes(num_bytes as int),
{
    if num_bytes < 1000 {
        let mut s = u64_to_string(num_bytes);
        s.append(" B");
        s
    } else if num_bytes < 1000000 {
        let mut s = String::new();
        push_tenths(&mut s, num_bytes, 1000);
        s.append(" KB");
        assert(s@ =~= spec_bytes(num_bytes as int));
        s
    } else if num_bytes < 1000000000 {
        let mut s = String::new();
        push_tenths(&mut s, num_bytes, 1000000);
        s.append(" MB");
        assert(s@ =~= spec_bytes(num_bytes as int));
        s
    } else {
        let mut s = String::new();
        push_tenths(&mut s, num_bytes, 1000000000);
        s.append(" GB");
        assert(s@ =~= spec_bytes(num_bytes as int));
        s
    }
}

/// The decimal rendering of a possibly negative integer.
pub open spec fn spec_i32_dec(n: int) -> Seq<char> {
    if n >= 0 {
        spec_u64_dec(n)
    } else {
        seq!['-'] + spec_u64_dec(-n)
    }
}

fn i32_to_string(n: i32) -> (s: String)
    ensures
        s@ == spec_i32_dec(n as int),
{
    if n >= 0 {
        u64_to_string(n as u64)
    } else {
        proof {
            reveal_strlit("-");
        }
        let mut s = "-".to_owned();
        let mag: u64 = (-(n as i64)) as u64;
        let t = u64_to_string(mag);
        s.append(t.as_str());
        assert(s@ =~= seq!['-'] + spec_u64_dec(-(n as int)));
        s
    }
}

/// The single-line, human-readable text of each failure.
pub open spec fn spec_message(e: ErrorKind) -> Seq<char> {
    match e {
        ErrorKind::UserAuthenticationError(u) => "unable to authenticate session for "@ + u@,
        ErrorKind::HostAuthenticationError(h, p) => "the authenticity of "@ + h@ + ":"@
            + spec_u64_dec(p as int) + " cannot be established"@,
        ErrorKind::HostFileCheckError => "unable to check known hosts"@,
        ErrorKind::InvalidPortNumber => "unable to parse port number"@,
        ErrorKind::MismatchedFingerprint => "possible person in the middle attack"@,
        ErrorKind::UnableToFindHomeDirectory => "unable to find home directory"@,
        ErrorKind::HostKeyNotFound => "unable to find host key from session"@,
        ErrorKind::HostFingerprintNotFound => "unable to find fingerprint of host"@,
        ErrorKind::CannotDownloadParent(p) => "cannot download parent directory "@ + p@,
        ErrorKind::CannotUploadParent(p) => "cannot upload parent directory "@ + p@,
        ErrorKind::LocalFileExists(p) => "local file "@ + p@ + " already exists"@,
        ErrorKind::RemoteFileExists(p) => "remote file "@ + p@ + " already exists"@,
        ErrorKind::Ssh2ChannelClosed(c) => "channel closed with exit status "@ + spec_i32_dec(
            c as int,
        ),
    }
}

impl ErrorKind {
    /// The single-line, human-readable text of this failure.
    pub fn message(&self) -> (s: String)
        ensures
            s@ == spec_message(*self),
    {
        match self {
            ErrorKind::UserAuthenticationError(u) => {
                let mut s = "unable to authenticate session for ".to_owned();
                s.append(u.as_str());
                s
            },
            ErrorKind::HostAuthenticationError(h, p) => {
                let mut s = "the authenticity of ".to_owned();
                s.append(h.as_str());
                s.append(":");
                let t = u64_to_string(*p as u64);
                s.append(t.as_str());
                s.append(" cannot be established");
                s
            },
            ErrorKind::HostFileCheckError => "unable to check known hosts".to_owned(),
            ErrorKind::InvalidPortNumber => "unable to parse port number".to_owned(),
            ErrorKind::MismatchedFingerprint => "possible person in the middle attack".to_owned(),
            ErrorKind::UnableToFindHomeDirectory => "unable to find home directory".to_owned(),
            ErrorKind::HostKeyNotFound => "unable to find host key from session".to_owned(),
            ErrorKind::HostFingerprintNotFound => "unable to find fingerprint of host".to_owned(),
            ErrorKind::CannotDownloadParent(p) => {
                let mut s = "cannot download parent directory ".to_owned();
                s.append(p.as_str());
                s
            },
            ErrorKind::CannotUploadParent(p) => {
                let mut s = "cannot upload parent directory ".to_owned();
                s.append(p.as_str());
                s
            },
            ErrorKind::LocalFileExists(p) => {
                let mut s = "local file ".to_owned();
                s.append(p.as_str());
                s.append(" already exists");
                s
            },
            ErrorKind::RemoteFileExists(p) => {
                let mut s = "remote file ".to_owned();
                s.append(p.as_str());
                s.append(" already exists");
                s
            },
            ErrorKind::Ssh2ChannelClosed(c) => {
                let mut s = "channel closed with exit status ".to_owned();
                let t = i32_to_string(*c);
                s.append(t.as_str());
                s
            },
        }
    }
}

} // verus!
