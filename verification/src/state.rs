//! The credential record: an access/refresh token pair with the instant it
//! was issued, and pure validity checks against a clock reading.

use vstd::prelude::*;

use crate::text::dec_of;
use crate::text::find_char;
use crate::text::find_char_in;
use crate::text::is_digit;
use crate::text::lemma_find_char_at;
use crate::text::lemma_take_digits_of;
use crate::text::pow10;
use crate::text::push_dec;
use crate::text::take_digits;
use crate::text::take_digits_str;

verus! {

/// Latest issuance instant (unix seconds) the store accepts; keeps every
/// expiry computation inside `i64` and every serialized timestamp within
/// twelve decimal digits.
pub const WRITTEN_AT_MAX: i64 = 999_999_999_999;

/// Errors of the token store.
#[derive(Debug, PartialEq, Eq, Clone, Copy)]
pub enum StoreError {
    /// No state file exists.
    NotFound,
    /// The file's content is not a well-formed serialized record.
    ParseError,
    /// The record could not be serialized or written.
    Io,
}

/// The fields of the remote token-issue reply the client consumes.
#[derive(Debug)]
pub struct AuthorizeReply {
    pub access: String,
    pub access_expires: u32,
    pub refresh: String,
    pub refresh_expires: u32,
}

/// A persisted credential record: the access token with its time-to-live,
/// the refresh token with its time-to-live, and the single issuance instant
/// both lives are measured from.
#[derive(Debug)]
pub struct NordigenState {
    pub token: String,
    pub token_expires: u32,
    pub refresh_token: String,
    pub refresh_expires: u32,
    pub written_at: i64,
}

impl NordigenState {
    /// The issuance instant is a real unix timestamp: non-negative and small
    /// enough that adding a `u32` time-to-live cannot overflow `i64`.
    pub open spec fn wf(self) -> bool {
        0 <= self.written_at <= WRITTEN_AT_MAX
    }

    /// Instant the access token stops being valid.
    pub open spec fn spec_token_expires_on(self) -> int {
        self.written_at + self.token_expires
    }

    /// Instant the refresh token stops being valid.
    pub open spec fn spec_refresh_expires_on(self) -> int {
        self.written_at + self.refresh_expires
    }

    /// Build a fresh record issued at `now`, as after an initial token
    /// exchange.
    pub fn new(
        token: String,
        refresh: String,
        token_ttl: u32,
        refresh_ttl: u32,
        now: i64,
    ) -> (r: NordigenState)
        requires
            0 <= now <= WRITTEN_AT_MAX,
        ensures
            r.token == token,
            r.token_expires == token_ttl,
            r.refresh_token == refresh,
            r.refresh_expires == refresh_ttl,
            r.written_at == now,
            r.wf(),
    {
        NordigenState {
            token,
            token_expires: token_ttl,
            refresh_token: refresh,
            refresh_expires: refresh_ttl,
            written_at: now,
        }
    }

    /// Record left by a fresh token exchange at `now`: every field comes
    /// from the reply, and the issuance instant is `now`.
    pub fn from_authorize(reply: AuthorizeReply, now: i64) -> (r: NordigenState)
        requires
            0 <= now <= WRITTEN_AT_MAX,
        ensures
            r.token == reply.access,
            r.token_expires == reply.access_expires,
            r.refresh_token == reply.refresh,
            r.refresh_expires == reply.refresh_expires,
            r.written_at == now,
            r.wf(),
    {
        NordigenState {
            token: reply.access,
            token_expires: reply.access_expires,
            refresh_token: reply.refresh,
            refresh_expires: reply.refresh_expires,
            written_at: now,
        }
    }

    /// Record left by a refresh at `now`: the access token and its
    /// time-to-live are replaced and the issuance instant moves to `now`,
    /// while the refresh token and its time-to-live are kept unchanged.
    pub fn refreshed(&self, access: String, access_ttl: u32, now: i64) -> (r: NordigenState)
        requires
            0 <= now <= WRITTEN_AT_MAX,
        ensures
            r.token == access,
            r.token_expires == access_ttl,
            r.refresh_token == self.refresh_token,
            r.refresh_expires == self.refresh_expires,
            r.written_at == now,
            r.wf(),
    {
        NordigenState {
            token: access,
            token_expires: access_ttl,
            refresh_token: self.refresh_token.clone(),
            refresh_expires: self.refresh_expires,
            written_at: now,
        }
    }

    /// Instant the access token expires.
    pub fn token_expires_on(&self) -> (t: i64)
        requires
            self.wf(),
        ensures
            t == self.spec_token_expires_on(),
    {
        self.written_at + (self.token_expires as i64)
    }

    /// Instant the refresh token expires.
    pub fn refresh_expires_on(&self) -> (t: i64)
        requires
            self.wf(),
        ensures
            t == self.spec_refresh_expires_on(),
    {
        self.written_at + (self.refresh_expires as i64)
    }

    /// The access token is valid strictly before its expiry instant and
    /// invalid from that instant on.
    pub fn is_access_valid(&self, now: i64) -> (r: bool)
        requires
            self.wf(),
        ensures
            r == (now < self.spec_token_expires_on()),
    {
        now < self.token_expires_on()
    }

    /// The refresh token is valid strictly before its expiry instant and
    /// invalid from that instant on.
    pub fn is_refresh_valid(&self, now: i64) -> (r: bool)
        requires
            self.wf(),
        ensures
            r == (now < self.spec_refresh_expires_on()),
    {
        now < self.refresh_expires_on()
    }

    /// The access token is expired at `now` exactly when it is not valid.
    pub fn is_token_expired(&self, now: i64) -> (r: bool)
        requires
            self.wf(),
        ensures
            r == (now >= self.spec_token_expires_on()),
    {
        !self.is_access_valid(now)
    }

    /// The refresh token is expired at `now` exactly when it is not valid.
    pub fn is_refresh_expired(&self, now: i64) -> (r: bool)
        requires
            self.wf(),
        ensures
            r == (now >= self.spec_refresh_expires_on()),
    {
        !self.is_refresh_valid(now)
    }

    /// Whether the access token is expired against a fresh system-clock
    /// reading, with the reading the flag was computed from: whatever the
    /// clock returned, the flag is exact for that reading.
    pub fn is_token_expired_now(&self) -> (r: (bool, i64))
        requires
            self.wf(),
        ensures
            r.0 == (r.1 >= self.spec_token_expires_on()),
    {
        let now = crate::clock::now_unix();
        (self.is_token_expired(now), now)
    }

    /// Whether the refresh token is expired against a fresh system-clock
    /// reading, with the reading the flag was computed from.
    pub fn is_refresh_expired_now(&self) -> (r: (bool, i64))
        requires
            self.wf(),
        ensures
            r.0 == (r.1 >= self.spec_refresh_expires_on()),
    {
        let now = crate::clock::now_unix();
        (self.is_refresh_expired(now), now)
    }

    /// Serialize the record into its state-file form, per `json_of`; a
    /// record whose strings cannot stand in the file, or whose issuance
    /// instant is out of range, cannot be serialized.
    pub fn to_json(&self) -> (r: Result<String, StoreError>)
        ensures
            self.wf() && json_safe(self.token@) && json_safe(self.refresh_token@) ==> (r matches Ok(
                s,
            ) && s@ == json_of(
                self.token@,
                self.token_expires,
                self.refresh_token@,
                self.refresh_expires,
                self.written_at,
            )),
            !(self.wf() && json_safe(self.token@) && json_safe(self.refresh_token@)) ==> r == Err::<
                String,
                _,
            >(StoreError::Io),
    {
        if !(self.written_at >= 0 && self.written_at <= WRITTEN_AT_MAX) {
            return Err(StoreError::Io);
        }
        if !is_json_safe(self.token.as_str()) {
            return Err(StoreError::Io);
        }
        if !is_json_safe(self.refresh_token.as_str()) {
            return Err(StoreError::Io);
        }
        let mut out = String::new();
        out.append("{\"token\":\"");
        out.append(self.token.as_str());
        out.append("\"");
        out.append(",\"token_expires\":");
        push_dec(&mut out, self.token_expires as u64);
        out.append(",\"refresh_token\":\"");
        out.append(self.refresh_token.as_str());
        out.append("\"");
        out.append(",\"refresh_expires\":");
        push_dec(&mut out, self.refresh_expires as u64);
        out.append(",\"written_at\":");
        push_dec(&mut out, self.written_at as u64);
        out.append("}");
        proof {
            reveal_strlit("\"");
            assert("\""@ =~= seq!['"']);
            assert(out@ =~= json_of(
                self.token@,
                self.token_expires,
                self.refresh_token@,
                self.refresh_expires,
                self.written_at,
            ));
        }
        Ok(out)
    }

    /// Load a record from the content of the state file: no content at all
    /// means there is no record, content that is not a well-formed
    /// serialized record is rejected, and a well-formed one yields exactly
    /// the five fields it denotes.
    pub fn parse(contents: Option<&str>) -> (r: Result<NordigenState, StoreError>)
        ensures
            contents is None ==> r == Err::<NordigenState, _>(StoreError::NotFound),
            contents matches Some(s) ==> match parse_state(s@) {
                None => r == Err::<NordigenState, _>(StoreError::ParseError),
                Some(f) => (r matches Ok(st) && st.token@ == f.0 && st.token_expires == f.1
                    && st.refresh_token@ == f.2 && st.refresh_expires == f.3 && st.written_at
                    == f.4 && st.wf()),
            },
    {
        let s = match contents {
            None => {
                return Err(StoreError::NotFound);
            },
            Some(s) => s,
        };
        let s1 = match strip_lit(s, "{\"token\":\"") {
            None => {
                return Err(StoreError::ParseError);
            },
            Some(x) => x,
        };
        let (token, s2) = match take_str_part(s1) {
            None => {
                return Err(StoreError::ParseError);
            },
            Some(p) => p,
        };
        let s3 = match strip_lit(s2, ",\"token_expires\":") {
            None => {
                return Err(StoreError::ParseError);
            },
            Some(x) => x,
        };
        let (te, s4) = match take_digits_str(s3) {
            None => {
                return Err(StoreError::ParseError);
            },
            Some(p) => p,
        };
        if te > 0xFFFF_FFFF {
            return Err(StoreError::ParseError);
        }
        let s5 = match strip_lit(s4, ",\"refresh_token\":\"") {
            None => {
                return Err(StoreError::ParseError);
            },
            Some(x) => x,
        };
        let (refresh, s6) = match take_str_part(s5) {
            None => {
                return Err(StoreError::ParseError);
            },
            Some(p) => p,
        };
        let s7 = match strip_lit(s6, ",\"refresh_expires\":") {
            None => {
                return Err(StoreError::ParseError);
            },
            Some(x) => x,
        };
        let (re, s8) = match take_digits_str(s7) {
            None => {
                return Err(StoreError::ParseError);
            },
            Some(p) => p,
        };
        if re > 0xFFFF_FFFF {
            return Err(StoreError::ParseError);
        }
        let s9 = match strip_lit(s8, ",\"written_at\":") {
            None => {
                return Err(StoreError::ParseError);
            },
            Some(x) => x,
        };
        let (wa, s10) = match take_digits_str(s9) {
            None => {
                return Err(StoreError::ParseError);
            },
            Some(p) => p,
        };
        if wa > 999_999_999_999 {
            return Err(StoreError::ParseError);
        }
        let closed = s10.unicode_len() == 1 && s10.get_char(0) == '}';
        proof {
            reveal_strlit("}");
            if s10@.len() == 1 && s10@[0] == '}' {
                assert(s10@ =~= lit_obj_close());
            } else {
                assert(s10@ != lit_obj_close());
            }
        }
        if !closed {
            return Err(StoreError::ParseError);
        }
        Ok(
            NordigenState {
                token,
                token_expires: te as u32,
                refresh_token: refresh,
                refresh_expires: re as u32,
                written_at: wa as i64,
            },
        )
    }
}

/// Opening of the state file, up to the first string value.
pub open spec fn lit_obj_open() -> Seq<char> {
    "{\"token\":\""@
}

/// Separator between the token and its time-to-live.
pub open spec fn lit_token_expires() -> Seq<char> {
    ",\"token_expires\":"@
}

/// Separator before the refresh token string.
pub open spec fn lit_refresh_token() -> Seq<char> {
    ",\"refresh_token\":\""@
}

/// Separator between the refresh token and its time-to-live.
pub open spec fn lit_refresh_expires() -> Seq<char> {
    ",\"refresh_expires\":"@
}

/// Separator before the issuance instant.
pub open spec fn lit_written_at() -> Seq<char> {
    ",\"written_at\":"@
}

/// Closing of the state file.
pub open spec fn lit_obj_close() -> Seq<char> {
    "}"@
}

/// Characters a stored string may hold: no quote, no backslash, no control
/// character, so the emitted file is plain JSON and scanning to the next
/// quote recovers the string exactly.
pub open spec fn json_safe(s: Seq<char>) -> bool {
    forall|i: int| 0 <= i < s.len() ==> s[i] != '"' && s[i] != '\\' && s[i] as u32 >= 32
}

/// The serialized form of a record's five logical fields: a single-line JSON
/// object with the fields in fixed order and timestamps as integers.
pub open spec fn json_of(token: Seq<char>, te: u32, refresh: Seq<char>, re: u32, wa: i64) -> Seq<
    char,
> {
    lit_obj_open() + token + seq!['"'] + lit_token_expires() + dec_of(te as nat)
        + lit_refresh_token() + refresh + seq!['"'] + lit_refresh_expires() + dec_of(re as nat)
        + lit_written_at() + dec_of(wa as nat) + lit_obj_close()
}

/// Strip `lit` off the front of `s`, if it is a prefix.
pub open spec fn expect(s: Seq<char>, lit: Seq<char>) -> Option<Seq<char>> {
    if lit.len() <= s.len() && s.subrange(0, lit.len() as int) == lit {
        Some(s.subrange(lit.len() as int, s.len() as int))
    } else {
        None
    }
}

/// Read a string value: everything up to the next quote, and what follows
/// the quote.
pub open spec fn take_str(s: Seq<char>) -> Option<(Seq<char>, Seq<char>)> {
    let i = find_char(s, '"');
    if i < 0 {
        None
    } else {
        Some((s.subrange(0, i), s.subrange(i + 1, s.len() as int)))
    }
}

/// The five logical fields a well-formed state file denotes, if it is one:
/// the fixed literals in order, two quote-free strings, and three decimal
/// numbers within the fields' ranges.
pub open spec fn parse_state(s: Seq<char>) -> Option<(Seq<char>, u32, Seq<char>, u32, i64)> {
    match expect(s, lit_obj_open()) {
        None => None,
        Some(s1) => match take_str(s1) {
            None => None,
            Some((token, s2)) => match expect(s2, lit_token_expires()) {
                None => None,
                Some(s3) => match take_digits(s3) {
                    None => None,
                    Some((te, s4)) => if te > u32::MAX as nat {
                        None
                    } else {
                        match expect(s4, lit_refresh_token()) {
                            None => None,
                            Some(s5) => match take_str(s5) {
                                None => None,
                                Some((refresh, s6)) => match expect(s6, lit_refresh_expires()) {
                                    None => None,
                                    Some(s7) => match take_digits(s7) {
                                        None => None,
                                        Some((re, s8)) => if re > u32::MAX as nat {
                                            None
                                        } else {
                                            match expect(s8, lit_written_at()) {
                                                None => None,
                                                Some(s9) => match take_digits(s9) {
                                                    None => None,
                                                    Some((wa, s10)) => if wa > WRITTEN_AT_MAX as nat
                                                        || s10 != lit_obj_close() {
                                                        None
                                                    } else {
                                                        Some(
                                                            (
                                                                token,
                                                                te as u32,
                                                                refresh,
                                                                re as u32,
                                                                wa as i64,
                                                            ),
                                                        )
                                                    },
                                                },
                                            }
                                        },
                                    },
                                },
                            },
                        }
                    },
                },
            },
        },
    }
}

proof fn lemma_expect_prefix(lit: Seq<char>, rest: Seq<char>)
    ensures
        expect(lit + rest, lit) == Some(rest),
{
    let s = lit + rest;
    assert(s.subrange(0, lit.len() as int) =~= lit);
    assert(s.subrange(lit.len() as int, s.len() as int) =~= rest);
}

proof fn lemma_take_str_prefix(tok: Seq<char>, rest: Seq<char>)
    requires
        forall|i: int| 0 <= i < tok.len() ==> tok[i] != '"',
    ensures
        take_str(tok + seq!['"'] + rest) == Some((tok, rest)),
{
    let s = tok + seq!['"'] + rest;
    lemma_find_char_at(s, '"', tok.len() as int);
    assert(s.subrange(0, tok.len() as int) =~= tok);
    assert(s.subrange(tok.len() as int + 1, s.len() as int) =~= rest);
}

/// Law: the store round-trips — parsing an emitted record recovers exactly
/// the record's five logical fields, for every record the store accepts.
#[verifier::rlimit(80)]
pub proof fn lemma_store_round_trip(
    token: Seq<char>,
    te: u32,
    refresh: Seq<char>,
    re: u32,
    wa: i64,
)
    requires
        json_safe(token),
        json_safe(refresh),
        0 <= wa <= WRITTEN_AT_MAX,
    ensures
        parse_state(json_of(token, te, refresh, re, wa)) == Some((token, te, refresh, re, wa)),
{
    reveal_strlit(",\"token_expires\":");
    reveal_strlit(",\"refresh_token\":\"");
    reveal_strlit(",\"refresh_expires\":");
    reveal_strlit(",\"written_at\":");
    reveal_strlit("}");
    assert(pow10(12) == 1_000_000_000_000) by {
        reveal_with_fuel(pow10, 13);
    }
    let d1 = dec_of(te as nat);
    let d2 = dec_of(re as nat);
    let d3 = dec_of(wa as nat);
    let t9 = lit_obj_close();
    let t8 = d3 + t9;
    let t7 = lit_written_at() + t8;
    let t6 = d2 + t7;
    let t5 = lit_refresh_expires() + t6;
    let t4 = refresh + seq!['"'] + t5;
    let t3 = lit_refresh_token() + t4;
    let t2 = d1 + t3;
    let t1 = lit_token_expires() + t2;
    let t0 = token + seq!['"'] + t1;
    assert(json_of(token, te, refresh, re, wa) =~= lit_obj_open() + t0);
    lemma_expect_prefix(lit_obj_open(), t0);
    lemma_take_str_prefix(token, t1);
    lemma_expect_prefix(lit_token_expires(), t2);
    assert(t3[0] == ',' && !is_digit(','));
    lemma_take_digits_of(te as nat, t3);
    lemma_expect_prefix(lit_refresh_token(), t4);
    lemma_take_str_prefix(refresh, t5);
    lemma_expect_prefix(lit_refresh_expires(), t6);
    assert(t7[0] == ',' && !is_digit(','));
    lemma_take_digits_of(re as nat, t7);
    lemma_expect_prefix(lit_written_at(), t8);
    assert(t9[0] == '}' && !is_digit('}'));
    lemma_take_digits_of(wa as nat, t9);
}

fn is_json_safe(s: &str) -> (b: bool)
    ensures
        b == json_safe(s@),
{
    let n = s.unicode_len();
    let mut i: usize = 0;
    while i < n
        invariant
            i <= n,
            n == s@.len(),
            forall|k: int| 0 <= k < i ==> s@[k] != '"' && s@[k] != '\\' && s@[k] as u32 >= 32,
        decreases n - i,
    {
        let c = s.get_char(i);
        if c == '"' || c == '\\' || (c as u32) < 32 {
            return false;
        }
        i = i + 1;
    }
    true
}

fn strip_lit<'a>(s: &'a str, lit: &str) -> (r: Option<&'a str>)
    ensures
        r matches Some(t) ==> expect(s@, lit@) == Some(t@),
        r is None ==> expect(s@, lit@) is None,
{
    let ll = lit.unicode_len();
    let n = s.unicode_len();
    if ll > n {
        return None;
    }
    let mut i: usize = 0;
    while i < ll
        invariant
            i <= ll <= n,
            n == s@.len(),
            ll == lit@.len(),
            forall|k: int| 0 <= k < i ==> s@[k] == lit@[k],
        decreases ll - i,
    {
        if s.get_char(i) != lit.get_char(i) {
            proof {
                assert(s@.subrange(0, ll as int)[i as int] != lit@[i as int]);
            }
            return None;
        }
        i = i + 1;
    }
    proof {
        assert(s@.subrange(0, ll as int) =~= lit@);
    }
    Some(s.substring_char(ll, n))
}

fn take_str_part<'a>(s: &'a str) -> (r: Option<(String, &'a str)>)
    ensures
        r matches Some(p) ==> take_str(s@) == Some((p.0@, p.1@)),
        r is None ==> take_str(s@) is None,
{
    let n = s.unicode_len();
    match find_char_in(s, '"') {
        None => None,
        Some(i) => {
            let tok = String::from_str(s.substring_char(0, i));
            let rest = s.substring_char(i + 1, n);
            Some((tok, rest))
        },
    }
}

} // verus!
