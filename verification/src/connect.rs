use vstd::prelude::*;

use crate::utils::ErrorKind;
use base64::Engine;

verus! {

// ---------------------------------------------------------------------------
// Port numbers.
// ---------------------------------------------------------------------------
/// `c` is a decimal digit.
pub open spec fn spec_is_digit(c: char) -> bool {
    48 <= (c as int) <= 57
}

/// The value of the decimal digit `c`.
pub open spec fn spec_digit_val(c: char) -> int {
    (c as int) - 48
}

/// The value of the digit string `s`, most significant digit first.
pub open spec fn spec_digits_val(s: Seq<char>) -> int
    decreases s.len(),
{
    if s.len() == 0 {
        0
    } else {
        spec_digits_val(s.drop_last()) * 10 + spec_digit_val(s.last())
    }
}

/// Every character of `s` is a decimal digit.
pub open spec fn spec_all_digits(s: Seq<char>) -> bool {
    forall|i: int| 0 <= i < s.len() ==> spec_is_digit(#[trigger] s[i])
}

/// The port number written in `s`: an optional '+', then digits, with a
/// value of at most 65535; anything else is no port number.
pub open spec fn spec_port_str(s: Seq<char>) -> Option<u16> {
    let t = if s.len() > 0 && s[0] == '+' {
        s.drop_first()
    } else {
        s
    };
    if t.len() > 0 && spec_all_digits(t) && spec_digits_val(t) <= 65535 {
        Option::Some(spec_digits_val(t) as u16)
    } else {
        Option::None
    }
}

proof fn lemma_digits_val_nonneg(s: Seq<char>)
    requires
        spec_all_digits(s),
    ensures
        spec_digits_val(s) >= 0,
    decreases s.len(),
{
    if s.len() > 0 {
        assert(spec_all_digits(s.drop_last()));
        lemma_digits_val_nonneg(s.drop_last());
    }
}

proof fn lemma_digits_prefix_le(s: Seq<char>, j: int)
    requires
        spec_all_digits(s),
        0 <= j <= s.len(),
    ensures
        spec_digits_val(s.take(j)) <= spec_digits_val(s),
    decreases s.len() - j,
{
    assert(spec_all_digits(s.take(j)));
    if j == s.len() {
        assert(s.take(j) =~= s);
    } else {
        let t = s.take(j + 1);
        assert(t.drop_last() =~= s.take(j));
        assert(t.last() == s[j]);
        lemma_digits_val_nonneg(s.take(j));
        assert(spec_digits_val(t) == spec_digits_val(s.take(j)) * 10 + spec_digit_val(s[j]));
        assert(spec_digits_val(s.take(j)) * 10 >= spec_digits_val(s.take(j))) by (nonlinear_arith)
            requires
                spec_digits_val(s.take(j)) >= 0,
        ;
        lemma_digits_prefix_le(s, j + 1);
    }
}

fn digit_of(c: char) -> (r: Option<u32>)
    ensures
        r is Some <==> spec_is_digit(c),
        r matches Some(d) ==> d == spec_digit_val(c),
{
    match c {
        '0' => Option::Some(0),
        '1' => Option::Some(1),
        '2' => Option::Some(2),
        '3' => Option::Some(3),
        '4' => Option::Some(4),
        '5' => Option::Some(5),
        '6' => Option::Some(6),
        '7' => Option::Some(7),
        '8' => Option::Some(8),
        '9' => Option::Some(9),
        _ => Option::None,
    }
}

/// Parse a port number: an optional '+', then decimal digits with a
/// value of at most 65535.  Anything else fails with
/// `InvalidPortNumber`.
pub fn parse_port(s: &str) -> (r: Result<u16, ErrorKind>)
    ensures
        match spec_port_str(s@) {
            Option::Some(p) => r == Result::<u16, ErrorKind>::Ok(p),
            Option::None => r == Result::<u16, ErrorKind>::Err(ErrorKind::InvalidPortNumber),
        },
{
    let n = s.unicode_len();
    let offset: usize = if n > 0 && s.get_char(0) == '+' {
        1
    } else {
        0
    };
    let ghost t = if s@.len() > 0 && s@[0] == '+' {
        s@.drop_first()
    } else {
        s@
    };
    proof {
        assert(t =~= s@.skip(offset as int));
    }
    if n == offset {
        return Result::Err(ErrorKind::InvalidPortNumber);
    }
    let mut i: usize = offset;
    let mut acc: u32 = 0;
    proof {
        assert(t.take(0) =~= Seq::<char>::empty());
    }
    while i < n
        invariant
            offset <= i <= n,
            n == s@.len(),
            offset == (if s@.len() > 0 && s@[0] == '+' {
                1int
            } else {
                0int
            }),
            t == (if s@.len() > 0 && s@[0] == '+' {
                s@.drop_first()
            } else {
                s@
            }),
            t =~= s@.skip(offset as int),
            spec_all_digits(t.take(i - offset)),
            acc == spec_digits_val(t.take(i - offset)),
            acc <= 65535,
        decreases n - i,
    {
        let c = s.get_char(i);
        let d: u32 = match digit_of(c) {
            Option::Some(d) => d,
            Option::None => {
                assert(t[i - offset] == s@[i as int]);
                assert(!spec_all_digits(t));
                return Result::Err(ErrorKind::InvalidPortNumber);
            },
        };
        let next: u32 = acc * 10 + d;
        proof {
            let j = i - offset;
            let tk = t.take(j + 1);
            assert(tk.drop_last() =~= t.take(j));
            assert(tk.last() == t[j]);
            assert(t[j] == s@[i as int]);
            assert(spec_digit_val(t[j]) == d);
            assert(spec_digits_val(tk) == acc * 10 + d);
        }
        if next > 65535 {
            proof {
                let j = i - offset;
                if spec_all_digits(t) {
                    lemma_digits_prefix_le(t, j + 1);
                }
            }
            return Result::Err(ErrorKind::InvalidPortNumber);
        }
        acc = next;
        i = i + 1;
    }
    proof {
        assert(t.take(n - offset) =~= t);
    }
    Result::Ok(acc as u16)
}

// ---------------------------------------------------------------------------
// Free-text answers.
// ---------------------------------------------------------------------------
/// `c` is blank space.
pub open spec fn spec_is_space(c: char) -> bool {
    c == ' ' || c == '\t' || c == '\n' || c == '\r'
}

/// `s` without its leading blank space.
pub open spec fn spec_trim_front(s: Seq<char>) -> Seq<char>
    decreases s.len(),
{
    if s.len() > 0 && spec_is_space(s[0]) {
        spec_trim_front(s.drop_first())
    } else {
        s
    }
}

/// `s` without its trailing blank space.
pub open spec fn spec_trim_back(s: Seq<char>) -> Seq<char>
    decreases s.len(),
{
    if s.len() > 0 && spec_is_space(s.last()) {
        spec_trim_back(s.drop_last())
    } else {
        s
    }
}

/// `s` without leading and trailing blank space.
pub open spec fn spec_trim(s: Seq<char>) -> Seq<char> {
    spec_trim_back(spec_trim_front(s))
}

fn is_space_char(c: char) -> (r: bool)
    ensures
        r == spec_is_space(c),
{
    c == ' ' || c == '\t' || c == '\n' || c == '\r'
}

/// `s` without leading and trailing blank space, as a fresh string.
pub fn trim_str(s: &str) -> (r: String)
    ensures
        r@ == spec_trim(s@),
{
    let n = s.unicode_len();
    let mut a: usize = 0;
    proof {
        assert(s@.skip(0) =~= s@);
    }
    while a < n && is_space_char(s.get_char(a))
        invariant
            0 <= a <= n,
            n == s@.len(),
            spec_trim_front(s@) == spec_trim_front(s@.skip(a as int)),
        decreases n - a,
    {
        proof {
            assert(s@.skip(a as int).drop_first() =~= s@.skip(a + 1));
        }
        a = a + 1;
    }
    proof {
        if a < n {
            assert(spec_trim_front(s@) =~= s@.skip(a as int));
        } else {
            assert(s@.skip(n as int) =~= Seq::<char>::empty());
            assert(spec_trim_front(s@) =~= s@.skip(a as int));
        }
    }
    let mut b: usize = n;
    proof {
        assert(s@.skip(a as int).subrange(0, (n - a) as int) =~= s@.skip(a as int));
    }
    while b > a && is_space_char(s.get_char(b - 1))
        invariant
            a <= b <= n,
            n == s@.len(),
            spec_trim_front(s@) == s@.skip(a as int),
            spec_trim_back(s@.skip(a as int)) == spec_trim_back(
                s@.skip(a as int).subrange(0, b - a),
            ),
        decreases b,
    {
        proof {
            let seg = s@.skip(a as int).subrange(0, b - a);
            assert(seg.last() == s@[b - 1]);
            assert(seg.drop_last() =~= s@.skip(a as int).subrange(0, b - 1 - a));
        }
        b = b - 1;
    }
    proof {
        let seg = s@.skip(a as int).subrange(0, b - a);
        if b > a {
            assert(seg.last() == s@[b - 1]);
            assert(spec_trim_back(seg) =~= seg);
        } else {
            assert(seg =~= Seq::<char>::empty());
            assert(spec_trim_back(seg) =~= seg);
        }
    }
    let r = s.substring_char(a, b);
    proof {
        assert(r@ =~= s@.skip(a as int).subrange(0, b - a));
    }
    r.to_owned()
}

/// `s`, trimmed, reads as an affirmative answer: "y" or "yes" in any
/// letter case.
pub open spec fn spec_affirmative(s: Seq<char>) -> bool {
    let t = spec_trim(s);
    ||| (t.len() == 1 && (t[0] == 'y' || t[0] == 'Y'))
    ||| (t.len() == 3 && (t[0] == 'y' || t[0] == 'Y') && (t[1] == 'e' || t[1] == 'E') && (t[2]
        == 's' || t[2] == 'S'))
}

/// Return `true` if the free-text `answer`, trimmed, is an affirmative
/// "y" or "yes" in any letter case.
pub fn answer_is_affirmative(answer: &str) -> (r: bool)
    ensures
        r == spec_affirmative(answer@),
{
    let t = trim_str(answer);
    let ts = t.as_str();
    let l = ts.unicode_len();
    if l == 1 {
        let c0 = ts.get_char(0);
        c0 == 'y' || c0 == 'Y'
    } else if l == 3 {
        let c0 = ts.get_char(0);
        let c1 = ts.get_char(1);
        let c2 = ts.get_char(2);
        (c0 == 'y' || c0 == 'Y') && (c1 == 'e' || c1 == 'E') && (c2 == 's' || c2 == 'S')
    } else {
        false
    }
}

// ---------------------------------------------------------------------------
// The trust store: which host identities this client has accepted.
// ---------------------------------------------------------------------------
/// One accepted host identity: the fingerprint this client trusts for
/// one endpoint.
pub struct TrustRecord {
    pub host: String,
    pub port: u16,
    pub fingerprint: Vec<u8>,
}

/// The persisted record of previously seen host identities, keyed by
/// `(host, port)`.  Loading and saving it is the caller's business; the
/// store itself only answers and records trust decisions.
pub struct TrustStore {
    records: Vec<TrustRecord>,
}

/// The fingerprint on record for `(host, port)`: the first matching
/// record wins.
pub open spec fn spec_lookup(records: Seq<TrustRecord>, host: Seq<char>, port: u16) -> Option<
    Seq<u8>,
>
    decreases records.len(),
{
    if records.len() == 0 {
        Option::None
    } else if records[0].host@ == host && records[0].port == port {
        Option::Some(records[0].fingerprint@)
    } else {
        spec_lookup(records.drop_first(), host, port)
    }
}

/// What checking a host against the store found.
pub enum CheckResult {
    Match,
    NotFound,
    Mismatch,
}

fn bytes_eq(a: &Vec<u8>, b: &Vec<u8>) -> (r: bool)
    ensures
        r == (a@ == b@),
{
    if a.len() != b.len() {
        return false;
    }
    let n = a.len();
    let mut i: usize = 0;
    while i < n
        invariant
            0 <= i <= n,
            n == a@.len() == b@.len(),
            forall|t: int| 0 <= t < i ==> a@[t] == b@[t],
        decreases n - i,
    {
        if a[i] != b[i] {
            return false;
        }
        i = i + 1;
    }
    proof {
        assert(a@ =~= b@);
    }
    true
}

impl TrustStore {
    /// The accepted records, oldest first.
    pub closed spec fn spec_records(&self) -> Seq<TrustRecord> {
        self.records@
    }

    /// An empty trust store.
    pub fn new() -> (r: TrustStore)
        ensures
            r.spec_records() == Seq::<TrustRecord>::empty(),
    {
        TrustStore { records: Vec::new() }
    }

    /// Add one record as loaded from persisted state or accepted from a
    /// prompt.
    pub fn add(&mut self, host: String, port: u16, fingerprint: Vec<u8>)
        ensures
            final(self).spec_records().len() == old(self).spec_records().len() + 1,
            forall|t: int|
                0 <= t < old(self).spec_records().len() ==> final(self).spec_records()[t] == old(
                    self,
                ).spec_records()[t],
            final(self).spec_records().last().host == host,
            final(self).spec_records().last().port == port,
            final(self).spec_records().last().fingerprint == fingerprint,
    {
        self.records.push(TrustRecord { host, port, fingerprint });
    }

    /// How many records the store holds.
    pub fn num_records(&self) -> (r: usize)
        ensures
            r == self.spec_records().len(),
    {
        self.records.len()
    }

    /// The record at position `i`.
    pub fn record_at(&self, i: usize) -> (r: &TrustRecord)
        requires
            i < self.spec_records().len(),
        ensures
            *r == self.spec_records()[i as int],
    {
        &self.records[i]
    }

    /// Check a host identity against the store: `Match` when the
    /// fingerprint on record for `(host, port)` equals the offered one,
    /// `Mismatch` when it differs, `NotFound` when there is no record.
    pub fn check(&self, host: &str, port: u16, fingerprint: &Vec<u8>) -> (r: CheckResult)
        ensures
            r == match spec_lookup(self.spec_records(), host@, port) {
                Option::None => CheckResult::NotFound,
                Option::Some(f) => if f == fingerprint@ {
                    CheckResult::Match
                } else {
                    CheckResult::Mismatch
                },
            },
    {
        let n = self.records.len();
        let mut i: usize = 0;
        proof {
            assert(self.records@.skip(0) =~= self.records@);
        }
        while i < n
            invariant
                0 <= i <= n,
                n == self.records@.len(),
                spec_lookup(self.records@, host@, port) == spec_lookup(
                    self.records@.skip(i as int),
                    host@,
                    port,
                ),
            decreases n - i,
        {
            let rec = &self.records[i];
            proof {
                assert(self.records@.skip(i as int)[0] == self.records@[i as int]);
                assert(self.records@.skip(i as int).drop_first() =~= self.records@.skip(i + 1));
            }
            let host_matches = crate::file::str_eq(rec.host.as_str(), host);
            if host_matches && rec.port == port {
                return if bytes_eq(&rec.fingerprint, fingerprint) {
                    CheckResult::Match
                } else {
                    CheckResult::Mismatch
                };
            }
            i = i + 1;
        }
        proof {
            assert(self.records@.skip(n as int) =~= Seq::<TrustRecord>::empty());
        }
        CheckResult::NotFound
    }
}

// ---------------------------------------------------------------------------
// Fingerprint display.
// ---------------------------------------------------------------------------
/// The standard-alphabet, padded base64 rendering of `bytes`, as the
/// outside encoder defines it.
pub uninterp spec fn base64_of(bytes: Seq<u8>) -> Seq<char>;

/// Relies on base64's `Engine::encode` with the `STANDARD` engine: the
/// result is a pure function of the input bytes.
#[verifier::external_body]
fn base64_encode(bytes: &Vec<u8>) -> (r: String)
    ensures
        r@ == base64_of(bytes@),
{
    base64::engine::general_purpose::STANDARD.encode(bytes.as_slice())
}

/// The fingerprint line shown to the user on first contact: the label of
/// the strongest hash the transport offered, a colon, and the hash in
/// base64.  The strong hash is preferred and the weaker one is a
/// fallback; a transport offering neither is a handshake inconsistency.
pub fn choose_fingerprint(sha256: Option<Vec<u8>>, sha1: Option<Vec<u8>>) -> (r: Result<
    String,
    ErrorKind,
>)
    ensures
        sha256 matches Some(h) ==> (r matches Ok(s) && s@ == "SHA256"@ + ":"@ + base64_of(h@)),
        sha256 is None ==> (sha1 matches Some(h) ==> (r matches Ok(s) && s@ == "SHA128"@ + ":"@
            + base64_of(h@))),
        sha256 is None && sha1 is None ==> r == Result::<String, ErrorKind>::Err(
            ErrorKind::HostFingerprintNotFound,
        ),
{
    match sha256 {
        Option::Some(h) => {
            let mut s = "SHA256".to_owned();
            s.append(":");
            let enc = base64_encode(&h);
            s.append(enc.as_str());
            Result::Ok(s)
        },
        Option::None => match sha1 {
            Option::Some(h) => {
                let mut s = "SHA128".to_owned();
                s.append(":");
                let enc = base64_encode(&h);
                s.append(enc.as_str());
                Result::Ok(s)
            },
            Option::None => Result::Err(ErrorKind::HostFingerprintNotFound),
        },
    }
}

// ---------------------------------------------------------------------------
// The host-trust decision.
// ---------------------------------------------------------------------------
/// What the trust check concluded about a host.
pub enum HostTrustDecision {
    Trusted,
    NeedConfirmation,
    RefusedMismatch,
}

/// Decide what to do about a host identity: proceed on a fingerprint
/// match, ask the user on first contact, and refuse outright — never
/// prompting — when the fingerprint differs from the one on record.
pub fn check_host_trust(store: &TrustStore, host: &str, port: u16, fingerprint: &Vec<u8>) -> (r:
    HostTrustDecision)
    ensures
        r == match spec_lookup(store.spec_records(), host@, port) {
            Option::None => HostTrustDecision::NeedConfirmation,
            Option::Some(f) => if f == fingerprint@ {
                HostTrustDecision::Trusted
            } else {
                HostTrustDecision::RefusedMismatch
            },
        },
{
    match store.check(host, port, fingerprint) {
        CheckResult::Match => HostTrustDecision::Trusted,
        CheckResult::NotFound => HostTrustDecision::NeedConfirmation,
        CheckResult::Mismatch => HostTrustDecision::RefusedMismatch,
    }
}

/// Settle a first-contact prompt: an affirmative answer records the new
/// host identity and proceeds; any other answer refuses the host with
/// `HostAuthenticationError` and leaves the store unchanged.
pub fn confirm_host_trust(
    store: &mut TrustStore,
    host: &str,
    port: u16,
    fingerprint: Vec<u8>,
    answer: &str,
) -> (r: Result<(), ErrorKind>)
    ensures
        spec_affirmative(answer@) ==> {
            &&& r is Ok
            &&& final(store).spec_records().len() == old(store).spec_records().len() + 1
            &&& (forall|t: int|
                0 <= t < old(store).spec_records().len() ==> final(store).spec_records()[t] == old(
                    store,
                ).spec_records()[t])
            &&& final(store).spec_records().last().host@ == host@
            &&& final(store).spec_records().last().port == port
            &&& final(store).spec_records().last().fingerprint == fingerprint
        },
        !spec_affirmative(answer@) ==> {
            &&& *final(store) == *old(store)
            &&& r matches Err(ErrorKind::HostAuthenticationError(h, p)) && h@ == host@ && p == port
        },
{
    if answer_is_affirmative(answer) {
        store.add(host.to_owned(), port, fingerprint);
        Result::Ok(())
    } else {
        Result::Err(ErrorKind::HostAuthenticationError(host.to_owned(), port))
    }
}

proof fn lemma_lookup_push(records: Seq<TrustRecord>, rec: TrustRecord, host: Seq<char>, port: u16)
    ensures
        spec_lookup(records.push(rec), host, port) == (match spec_lookup(records, host, port) {
            Option::Some(f) => Option::Some(f),
            Option::None => if rec.host@ == host && rec.port == port {
                Option::Some(rec.fingerprint@)
            } else {
                Option::<Seq<u8>>::None
            },
        }),
    decreases records.len(),
{
    let pushed = records.push(rec);
    if records.len() == 0 {
        assert(pushed[0] == rec);
        assert(pushed.drop_first() =~= Seq::<TrustRecord>::empty());
    } else {
        assert(pushed[0] == records[0]);
        assert(pushed.drop_first() =~= records.drop_first().push(rec));
        lemma_lookup_push(records.drop_first(), rec, host, port);
    }
}

/// Host-trust law: once a first-contact endpoint's record is accepted
/// into the store, later checks are settled by it — the recorded
/// fingerprint is found for that endpoint, so an unchanged key is
/// trusted without a prompt and a changed key is a hard mismatch — and
/// the records of every other endpoint read as before.
pub proof fn lemma_trust_record_settles(
    records: Seq<TrustRecord>,
    rec: TrustRecord,
    h2: Seq<char>,
    p2: u16,
)
    requires
        spec_lookup(records, rec.host@, rec.port) is None,
    ensures
        spec_lookup(records.push(rec), rec.host@, rec.port) == Option::Some(rec.fingerprint@),
        !(h2 == rec.host@ && p2 == rec.port) ==> spec_lookup(records.push(rec), h2, p2)
            == spec_lookup(records, h2, p2),
{
    lemma_lookup_push(records, rec, rec.host@, rec.port);
    lemma_lookup_push(records, rec, h2, p2);
}

// ---------------------------------------------------------------------------
// The credential rounds.
// ---------------------------------------------------------------------------
/// How many times one round may prompt for a password.
pub const PASSWORD_ATTEMPT_LIMIT: u64 = 3;

/// What one authentication round should try, given the methods the
/// server offers.
pub struct RoundPlan {
    pub try_agent: bool,
    pub prompt_password: bool,
}

/// The credential phase of one session: up to three scans of the
/// server's offered methods, with at most one password-prompt phase over
/// all of them.
pub struct AuthState {
    rounds_left: u8,
    has_entered_password: bool,
}

impl AuthState {
    /// How many method scans are still allowed.
    pub closed spec fn spec_rounds_left(&self) -> u8 {
        self.rounds_left
    }

    /// Whether the password prompt has already been spent.
    pub closed spec fn spec_password_done(&self) -> bool {
        self.has_entered_password
    }

    /// A fresh phase: three rounds, password prompt unspent.
    pub fn new() -> (r: AuthState)
        ensures
            r.spec_rounds_left() == 3,
            !r.spec_password_done(),
    {
        AuthState { rounds_left: 3, has_entered_password: false }
    }

    /// Take one round if any is left; `false` means the rounds are
    /// exhausted.
    pub fn begin_round(&mut self) -> (r: bool)
        ensures
            r == (old(self).spec_rounds_left() > 0),
            r ==> final(self).spec_rounds_left() == old(self).spec_rounds_left() - 1,
            !r ==> final(self).spec_rounds_left() == old(self).spec_rounds_left(),
            final(self).spec_password_done() == old(self).spec_password_done(),
    {
        if self.rounds_left > 0 {
            self.rounds_left = self.rounds_left - 1;
            true
        } else {
            false
        }
    }

    /// The actions for one round: agent authentication whenever public
    /// keys are offered, and a password prompt when passwords are
    /// offered and the one prompt phase is unspent.
    pub fn plan_round(&self, offers_publickey: bool, offers_password: bool) -> (p: RoundPlan)
        ensures
            p.try_agent == offers_publickey,
            p.prompt_password == (offers_password && !self.spec_password_done()),
    {
        RoundPlan {
            try_agent: offers_publickey,
            prompt_password: offers_password && !self.has_entered_password,
        }
    }

    /// Spend the password prompt phase.
    pub fn mark_password_entered(&mut self)
        ensures
            final(self).spec_rounds_left() == old(self).spec_rounds_left(),
            final(self).spec_password_done(),
    {
        self.has_entered_password = true;
    }

    /// The verdict once the rounds are over or the session reports
    /// authenticated: success exactly then, else the authentication
    /// failure naming the user.
    pub fn conclude(&self, authenticated: bool, username: &str) -> (r: Result<(), ErrorKind>)
        ensures
            authenticated ==> r is Ok,
            !authenticated ==> (r matches Err(ErrorKind::UserAuthenticationError(u)) && u@
                == username@),
    {
        if authenticated {
            Result::Ok(())
        } else {
            Result::Err(ErrorKind::UserAuthenticationError(username.to_owned()))
        }
    }
}

/// The home directory read from the remote shell's `pwd` output: its
/// trimmed text on a zero exit status, else the channel's failure.
pub fn parse_home_dir_output(output: &str, exit_status: i32) -> (r: Result<String, ErrorKind>)
    ensures
        exit_status == 0 ==> (r matches Ok(s) && s@ == spec_trim(output@)),
        exit_status != 0 ==> r == Result::<String, ErrorKind>::Err(
            ErrorKind::Ssh2ChannelClosed(exit_status),
        ),
{
    if exit_status == 0 {
        Result::Ok(trim_str(output))
    } else {
        Result::Err(ErrorKind::Ssh2ChannelClosed(exit_status))
    }
}

} // verus!
