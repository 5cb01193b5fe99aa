//! The token codec: claims are rendered into a textual payload, signed
//! with HMAC-SHA256, and read back with signature and expiry checks.
//!
//! A token is `payload ++ tag`, where the tag is the 64-character
//! hexadecimal rendering of the HMAC-SHA256 of the payload under the
//! signing key. The payload starts with a kind marker (`R` for refresh,
//! `A` for access) so that an access token can never be replayed as a
//! refresh token; an access payload never carries the user's capability
//! token.
use vstd::prelude::*;

use crate::hex::{
    all_hex, append_hex, hex_num, hex_of_width, lemma_hex_num_bound, lemma_hex_of_width_len_all_hex,
    lemma_hex_round_trip, parse_hex, pow16,
};
use crate::model::{
    Claims, ClaimsView, ProjectInClaims, ProjectInClaimsView, Role, RoleView, UserInClaims,
    UserInClaimsView,
};

verus! {

/// How `decode_refresh` and `decode_access` fail: a token that is
/// malformed or carries a wrong signature, against one that is genuine
/// but past its expiry.
#[derive(PartialEq, Eq, Structural, Debug, Clone, Copy)]
pub enum DecodeError {
    InvalidToken,
    Expired,
}

/// The unsigned 32-bit value whose bit pattern is `x`.
pub open spec fn u32_bits(x: i32) -> nat {
    if x >= 0 {
        x as nat
    } else {
        (x + 0x100000000) as nat
    }
}

/// The signed 32-bit value whose bit pattern is `b`.
pub open spec fn i32_of_bits(b: nat) -> i32 {
    if b < 0x80000000 {
        b as i32
    } else {
        (b - 0x100000000) as i32
    }
}

pub open spec fn ser_i32(x: i32) -> Seq<char> {
    hex_of_width(u32_bits(x), 8)
}

/// A string field: a 16-digit length followed by the characters.
pub open spec fn ser_str(s: Seq<char>) -> Seq<char> {
    hex_of_width(s.len(), 16) + s
}

/// The optional capability token: a presence marker, then the field.
pub open spec fn ser_opt_token(t: Option<Seq<char>>) -> Seq<char> {
    match t {
        None => seq!['0'],
        Some(s) => seq!['1'] + ser_str(s),
    }
}

/// The complete payload of a token of kind `kind` for the claims `cv`.
pub open spec fn ser_claims(kind: char, cv: ClaimsView) -> Seq<char> {
    seq![kind] + hex_of_width(cv.exp as nat, 16) + ser_i32(cv.user.id) + ser_i32(cv.user.role.id)
        + ser_str(cv.user.role.name) + ser_i32(cv.user.project.id) + ser_i32(
        cv.user.project.project_id,
    ) + seq![if cv.user.project.active {
        '1'
    } else {
        '0'
    }] + ser_opt_token(cv.user.user_token)
}

/// The same claims with the capability token removed; this is what an
/// access token carries.
pub open spec fn strip_secret(cv: ClaimsView) -> ClaimsView {
    ClaimsView {
        user: UserInClaimsView { user_token: None, ..cv.user },
        ..cv
    }
}

/// String lengths small enough for the 16-digit length fields; every
/// value held in a real `String` satisfies this.
pub open spec fn wf_claims(cv: ClaimsView) -> bool {
    &&& cv.user.role.name.len() < 0x10000000000000000
    &&& (cv.user.user_token is Some ==> cv.user.user_token->Some_0.len() < 0x10000000000000000)
}

/// The tag that HMAC-SHA256 assigns to `msg` under `key`; fixed by the
/// two character sequences alone.
pub uninterp spec fn hmac_sha256_of(key: Seq<char>, msg: Seq<char>) -> Seq<u8>;

/// Relies on hmac's `Hmac<Sha256>`: the tag depends on the key and
/// message bytes alone, a key of any length is accepted, and the tag of
/// SHA-256 is 32 bytes long.
#[verifier::external_body]
fn hmac_sha256(key: &str, msg: &str) -> (r: Vec<u8>)
    ensures
        r@ == hmac_sha256_of(key@, msg@),
        r@.len() == 32,
{
    let mut mac = <hmac::Hmac<sha2::Sha256> as hmac::Mac>::new_from_slice(key.as_bytes())
        .expect("HMAC accepts keys of any length");
    hmac::Mac::update(&mut mac, msg.as_bytes());
    hmac::Mac::finalize(mac).into_bytes().to_vec()
}

/// Bytes rendered as lowercase hexadecimal, two digits per byte.
pub open spec fn hex_bytes(b: Seq<u8>) -> Seq<char>
    decreases b.len(),
{
    if b.len() == 0 {
        Seq::empty()
    } else {
        hex_bytes(b.drop_last()) + hex_of_width(b.last() as nat, 2)
    }
}

pub proof fn lemma_hex_bytes_len(b: Seq<u8>)
    ensures
        hex_bytes(b).len() == 2 * b.len(),
    decreases b.len(),
{
    if b.len() > 0 {
        lemma_hex_bytes_len(b.drop_last());
        lemma_hex_of_width_len_all_hex(b.last() as nat, 2);
    }
}

/// A refresh token for the claims `cv` under the signing key `key`.
pub open spec fn spec_refresh_token(cv: ClaimsView, key: Seq<char>) -> Seq<char> {
    ser_claims('R', cv) + hex_bytes(hmac_sha256_of(key, ser_claims('R', cv)))
}

/// An access token: the stripped claims, signed.
pub open spec fn spec_access_token(cv: ClaimsView, key: Seq<char>) -> Seq<char> {
    ser_claims('A', strip_secret(cv)) + hex_bytes(
        hmac_sha256_of(key, ser_claims('A', strip_secret(cv))),
    )
}

fn append_i32(out: &mut String, x: i32)
    ensures
        final(out)@ == old(out)@ + ser_i32(x),
{
    let bits: u64 = if x >= 0 {
        x as u64
    } else {
        ((x as i64) + 0x100000000) as u64
    };
    proof {
        assert(bits as nat == u32_bits(x));
    }
    append_hex(out, bits, 8);
}

fn append_str_field(out: &mut String, s: &str)
    ensures
        final(out)@ == old(out)@ + ser_str(s@),
{
    let l = s.unicode_len();
    append_hex(out, l as u64, 16);
    out.append(s);
}

fn append_hex_bytes(out: &mut String, b: &Vec<u8>)
    ensures
        final(out)@ == old(out)@ + hex_bytes(b@),
{
    let mut i: usize = 0;
    while i < b.len()
        invariant
            i <= b.len(),
            out@ == old(out)@ + hex_bytes(b@.subrange(0, i as int)),
        decreases b.len() - i,
    {
        append_hex(out, b[i] as u64, 2);
        proof {
            assert(b@.subrange(0, i + 1).drop_last() =~= b@.subrange(0, i as int));
            assert(b@.subrange(0, i + 1).last() == b@[i as int]);
        }
        i = i + 1;
    }
    proof {
        assert(b@.subrange(0, b@.len() as int) =~= b@);
    }
}

/// Renders the payload of a token for `user` expiring at `exp`. A
/// refresh payload keeps the capability token; an access payload never
/// carries it.
fn serialize_claims(user: &UserInClaims, exp: u64, refresh: bool) -> (out: String)
    ensures
        refresh ==> out@ == ser_claims('R', ClaimsView { user: user@, exp }),
        !refresh ==> out@ == ser_claims('A', strip_secret(ClaimsView { user: user@, exp })),
{
    proof {
        reveal_strlit("R");
        reveal_strlit("A");
        reveal_strlit("0");
        reveal_strlit("1");
    }
    let mut out = if refresh {
        String::from_str("R")
    } else {
        String::from_str("A")
    };
    append_hex(&mut out, exp, 16);
    append_i32(&mut out, user.id);
    append_i32(&mut out, user.role.id);
    append_str_field(&mut out, user.role.name.as_str());
    append_i32(&mut out, user.project.id);
    append_i32(&mut out, user.project.project_id);
    if user.project.active {
        out.append("1");
    } else {
        out.append("0");
    }
    if refresh {
        match &user.user_token {
            Some(t) => {
                out.append("1");
                append_str_field(&mut out, t.as_str());
            },
            None => {
                out.append("0");
            },
        }
    } else {
        out.append("0");
    }
    proof {
        let cv = ClaimsView { user: user@, exp };
        if refresh {
            assert(out@ =~= ser_claims('R', cv));
        } else {
            assert(strip_secret(cv).user.user_token is None);
            assert(out@ =~= ser_claims('A', strip_secret(cv)));
        }
    }
    out
}

impl Claims {
    /// Builds the claims set embedded in a token for `user`.
    pub fn from_user(user: UserInClaims, exp: u64) -> (c: Claims)
        ensures
            c@ == (ClaimsView { user: user@, exp }),
    {
        Claims { user, exp }
    }

    /// Signs the full claims, capability token included, as a refresh
    /// token.
    pub fn encode_for_refresh(&self, key: &str) -> (token: String)
        ensures
            token@ == spec_refresh_token(self@, key@),
    {
        let mut out = serialize_claims(&self.user, self.exp, true);
        let tag = hmac_sha256(key, out.as_str());
        append_hex_bytes(&mut out, &tag);
        out
    }

    /// Signs the claims with the capability token stripped, as an
    /// access token.
    pub fn encode_for_access(&self, key: &str) -> (token: String)
        ensures
            token@ == spec_access_token(self@, key@),
    {
        let mut out = serialize_claims(&self.user, self.exp, false);
        let tag = hmac_sha256(key, out.as_str());
        append_hex_bytes(&mut out, &tag);
        out
    }
}

/// The number at `pos`, read from `w` hexadecimal digits.
pub open spec fn parse_num(s: Seq<char>, pos: int, w: int) -> Option<nat> {
    if 0 <= pos && 0 <= w && pos + w <= s.len() && all_hex(s.subrange(pos, pos + w)) {
        Some(hex_num(s.subrange(pos, pos + w)))
    } else {
        None
    }
}

/// Reads a payload back into its kind marker and claims; `None` for
/// any character sequence that no claims set serializes to.
pub open spec fn parse_claims(s: Seq<char>) -> Option<(char, ClaimsView)> {
    if s.len() < 1 {
        None
    } else {
        let kind = s[0];
        if kind != 'R' && kind != 'A' {
            None
        } else {
            match parse_num(s, 1, 16) {
                None => None,
                Some(exp) => match parse_num(s, 17, 8) {
                    None => None,
                    Some(uid) => match parse_num(s, 25, 8) {
                        None => None,
                        Some(rid) => match parse_num(s, 33, 16) {
                            None => None,
                            Some(nlen) => {
                                if 49 + nlen > s.len() {
                                    None
                                } else {
                                    let name = s.subrange(49, 49 + nlen as int);
                                    let p0 = 49 + nlen as int;
                                    match parse_num(s, p0, 8) {
                                        None => None,
                                        Some(pid) => match parse_num(s, p0 + 8, 8) {
                                            None => None,
                                            Some(ppid) => parse_claims_tail(
                                                s,
                                                kind,
                                                exp,
                                                uid,
                                                rid,
                                                name,
                                                pid,
                                                ppid,
                                            ),
                                        },
                                    }
                                }
                            },
                        },
                    },
                },
            }
        }
    }
}

/// The active flag, the capability-token field and the end-of-payload
/// check; the last step of `parse_claims`.
pub open spec fn parse_claims_tail(
    s: Seq<char>,
    kind: char,
    exp: nat,
    uid: nat,
    rid: nat,
    name: Seq<char>,
    pid: nat,
    ppid: nat,
) -> Option<(char, ClaimsView)> {
    let p0 = 49 + name.len() as int;
    if p0 + 18 > s.len() {
        None
    } else {
        let ac = s[p0 + 16];
        let mk = s[p0 + 17];
        if ac != '0' && ac != '1' {
            None
        } else if mk == '0' {
            if p0 + 18 == s.len() {
                Some((kind, assemble_claims(exp, uid, rid, name, pid, ppid, ac == '1', None)))
            } else {
                None
            }
        } else if mk == '1' {
            match parse_num(s, p0 + 18, 16) {
                None => None,
                Some(tlen) => {
                    if p0 + 34 + tlen == s.len() {
                        Some(
                            (
                                kind,
                                assemble_claims(
                                    exp,
                                    uid,
                                    rid,
                                    name,
                                    pid,
                                    ppid,
                                    ac == '1',
                                    Some(s.subrange(p0 + 34, p0 + 34 + tlen)),
                                ),
                            ),
                        )
                    } else {
                        None
                    }
                },
            }
        } else {
            None
        }
    }
}

pub open spec fn assemble_claims(
    exp: nat,
    uid: nat,
    rid: nat,
    name: Seq<char>,
    pid: nat,
    ppid: nat,
    active: bool,
    token: Option<Seq<char>>,
) -> ClaimsView {
    ClaimsView {
        user: UserInClaimsView {
            id: i32_of_bits(uid),
            role: RoleView { id: i32_of_bits(rid), name },
            project: ProjectInClaimsView {
                id: i32_of_bits(pid),
                project_id: i32_of_bits(ppid),
                active,
            },
            user_token: token,
        },
        exp: exp as u64,
    }
}

/// The outcome of reading a refresh token: the signature is checked
/// over the payload, the payload is parsed, the kind marker must be
/// `R`, and the expiry is compared with `now`.
pub open spec fn spec_decode_refresh(t: Seq<char>, key: Seq<char>, now: u64) -> Result<
    ClaimsView,
    DecodeError,
> {
    spec_decode_kind(t, key, now, 'R')
}

/// The same checks for an access token (kind marker `A`).
pub open spec fn spec_decode_access(t: Seq<char>, key: Seq<char>, now: u64) -> Result<
    ClaimsView,
    DecodeError,
> {
    spec_decode_kind(t, key, now, 'A')
}

pub open spec fn spec_decode_kind(t: Seq<char>, key: Seq<char>, now: u64, want: char) -> Result<
    ClaimsView,
    DecodeError,
> {
    if t.len() < 64 {
        Err(DecodeError::InvalidToken)
    } else {
        let payload = t.subrange(0, t.len() - 64);
        let tag = t.subrange(t.len() - 64, t.len() as int);
        if tag != hex_bytes(hmac_sha256_of(key, payload)) {
            Err(DecodeError::InvalidToken)
        } else {
            match parse_claims(payload) {
                None => Err(DecodeError::InvalidToken),
                Some((kind, cv)) => if kind != want {
                    Err(DecodeError::InvalidToken)
                } else if cv.exp < now {
                    Err(DecodeError::Expired)
                } else {
                    Ok(cv)
                },
            }
        }
    }
}

/// The signed value whose 32-bit pattern is `b`.
fn bits_to_i32(b: u64) -> (r: i32)
    requires
        b < 0x100000000,
    ensures
        r == i32_of_bits(b as nat),
{
    if b < 0x80000000 {
        b as i32
    } else {
        ((b as i64) - 0x100000000) as i32
    }
}

/// True exactly when the characters of `t` stand in `s` at `pos`.
fn str_eq_at(s: &str, pos: usize, t: &str, tl: usize) -> (r: bool)
    requires
        tl == t@.len(),
        pos + tl <= s@.len(),
        pos + tl <= usize::MAX,
    ensures
        r <==> s@.subrange(pos as int, pos + t@.len()) == t@,
{
    let mut i: usize = 0;
    while i < tl
        invariant
            i <= tl,
            tl == t@.len(),
            pos + tl <= s@.len(),
            pos + tl <= usize::MAX,
            forall|j: int| 0 <= j < i ==> s@[pos + j] == t@[j],
        decreases tl - i,
    {
        if s.get_char(pos + i) != t.get_char(i) {
            proof {
                assert(s@.subrange(pos as int, pos + t@.len())[i as int] != t@[i as int]);
            }
            return false;
        }
        i = i + 1;
    }
    proof {
        assert(s@.subrange(pos as int, pos + t@.len()) =~= t@);
    }
    true
}

/// Reads a payload; returns exactly what `parse_claims` yields on it.
fn decode_payload(s: &str) -> (r: Option<(char, Claims)>)
    ensures
        r is Some <==> parse_claims(s@) is Some,
        r is Some ==> parse_claims(s@) == Some(
            (r->Some_0.0, r->Some_0.1@),
        ),
{
    let n = s.unicode_len();
    if n < 1 {
        return None;
    }
    let kind = s.get_char(0);
    if kind != 'R' && kind != 'A' {
        return None;
    }
    if n < 17 {
        return None;
    }
    let exp = match parse_hex(s, 1, 16) {
        None => { return None; },
        Some(v) => v,
    };
    if n < 25 {
        return None;
    }
    let uid = match parse_hex(s, 17, 8) {
        None => { return None; },
        Some(v) => v,
    };
    if n < 33 {
        return None;
    }
    let rid = match parse_hex(s, 25, 8) {
        None => { return None; },
        Some(v) => v,
    };
    if n < 49 {
        return None;
    }
    let nlen = match parse_hex(s, 33, 16) {
        None => { return None; },
        Some(v) => v,
    };
    if nlen > (n - 49) as u64 {
        return None;
    }
    let nl = nlen as usize;
    let name = s.substring_char(49, 49 + nl).to_owned();
    let p0: usize = 49 + nl;
    if n - p0 < 8 {
        return None;
    }
    let pid = match parse_hex(s, p0, 8) {
        None => { return None; },
        Some(v) => v,
    };
    if n - p0 < 16 {
        return None;
    }
    let ppid = match parse_hex(s, p0 + 8, 8) {
        None => { return None; },
        Some(v) => v,
    };
    if n - p0 < 18 {
        return None;
    }
    let ac = s.get_char(p0 + 16);
    let mk = s.get_char(p0 + 17);
    if ac != '0' && ac != '1' {
        return None;
    }
    let token: Option<String> = if mk == '0' {
        if p0 + 18 != n {
            return None;
        }
        None
    } else if mk == '1' {
        if n - p0 < 34 {
            return None;
        }
        let tlen = match parse_hex(s, p0 + 18, 16) {
            None => { return None; },
            Some(v) => v,
        };
        if tlen != (n - (p0 + 34)) as u64 {
            return None;
        }
        let tl = tlen as usize;
        Some(s.substring_char(p0 + 34, p0 + 34 + tl).to_owned())
    } else {
        return None;
    };
    proof {
        lemma_hex_num_bound(s@.subrange(17, 25));
        lemma_hex_num_bound(s@.subrange(25, 33));
        lemma_hex_num_bound(s@.subrange(p0 as int, p0 + 8));
        lemma_hex_num_bound(s@.subrange(p0 + 8, p0 + 16));
        reveal_with_fuel(pow16, 9);
    }
    let claims = Claims {
        user: UserInClaims {
            id: bits_to_i32(uid),
            role: Role { id: bits_to_i32(rid), name },
            project: ProjectInClaims {
                id: bits_to_i32(pid),
                project_id: bits_to_i32(ppid),
                active: ac == '1',
            },
            user_token: token,
        },
        exp,
    };
    Some((kind, claims))
}

/// Verifies the signature of `token`, checks that it is a token of
/// kind `want`, and compares its expiry with `now`.
fn decode_kind(token: &str, key: &str, now: u64, want: char) -> (r: Result<Claims, DecodeError>)
    requires
        want == 'R' || want == 'A',
    ensures
        r is Ok ==> spec_decode_kind(token@, key@, now, want) == Ok::<ClaimsView, DecodeError>(
            r->Ok_0@,
        ),
        r is Err ==> spec_decode_kind(token@, key@, now, want) == Err::<ClaimsView, DecodeError>(
            r->Err_0,
        ),
{
    let n = token.unicode_len();
    if n < 64 {
        return Err(DecodeError::InvalidToken);
    }
    let payload = token.substring_char(0, n - 64);
    let tag = hmac_sha256(key, payload);
    let mut expected = payload.to_owned();
    append_hex_bytes(&mut expected, &tag);
    proof {
        lemma_hex_bytes_len(tag@);
    }
    if !str_eq_at(token, 0, expected.as_str(), n) {
        proof {
            let t = token@;
            let pl = t.subrange(0, t.len() - 64);
            let tg = t.subrange(t.len() - 64, t.len() as int);
            assert(expected@ == pl + hex_bytes(hmac_sha256_of(key@, pl)));
            if tg == hex_bytes(hmac_sha256_of(key@, pl)) {
                assert(t.subrange(0, t.len() as int) =~= t);
                assert(pl + tg =~= t);
            }
        }
        return Err(DecodeError::InvalidToken);
    }
    proof {
        let t = token@;
        let pl = t.subrange(0, t.len() - 64);
        assert(t.subrange(0, t.len() as int) =~= t);
        assert(t == pl + hex_bytes(hmac_sha256_of(key@, pl)));
        assert(t.subrange(t.len() - 64, t.len() as int) =~= hex_bytes(hmac_sha256_of(key@, pl)));
    }
    match decode_payload(payload) {
        None => Err(DecodeError::InvalidToken),
        Some((kind, claims)) => {
            if kind != want {
                Err(DecodeError::InvalidToken)
            } else if claims.exp < now {
                Err(DecodeError::Expired)
            } else {
                Ok(claims)
            }
        },
    }
}

/// Reading a serialized payload back yields exactly the claims that
/// were rendered, for either token kind.
pub proof fn lemma_parse_ser_claims(kind: char, cv: ClaimsView)
    requires
        kind == 'R' || kind == 'A',
        wf_claims(cv),
    ensures
        parse_claims(ser_claims(kind, cv)) == Some((kind, cv)),
{
    reveal_with_fuel(pow16, 17);
    let s = ser_claims(kind, cv);
    let name = cv.user.role.name;
    let nlen = name.len() as int;
    let p0 = 49 + nlen;
    let e_exp = hex_of_width(cv.exp as nat, 16);
    let e_uid = ser_i32(cv.user.id);
    let e_rid = ser_i32(cv.user.role.id);
    let e_nlen = hex_of_width(name.len(), 16);
    let e_pid = ser_i32(cv.user.project.id);
    let e_ppid = ser_i32(cv.user.project.project_id);
    lemma_hex_of_width_len_all_hex(cv.exp as nat, 16);
    lemma_hex_of_width_len_all_hex(u32_bits(cv.user.id), 8);
    lemma_hex_of_width_len_all_hex(u32_bits(cv.user.role.id), 8);
    lemma_hex_of_width_len_all_hex(name.len(), 16);
    lemma_hex_of_width_len_all_hex(u32_bits(cv.user.project.id), 8);
    lemma_hex_of_width_len_all_hex(u32_bits(cv.user.project.project_id), 8);
    assert(s[0] == kind);
    assert(s.subrange(1, 17) =~= e_exp);
    assert(s.subrange(17, 25) =~= e_uid);
    assert(s.subrange(25, 33) =~= e_rid);
    assert(s.subrange(33, 49) =~= e_nlen);
    assert(s.subrange(49, 49 + nlen) =~= name);
    assert(s.subrange(p0, p0 + 8) =~= e_pid);
    assert(s.subrange(p0 + 8, p0 + 16) =~= e_ppid);
    assert(s[p0 + 16] == (if cv.user.project.active {
        '1'
    } else {
        '0'
    }));
    lemma_hex_round_trip(cv.exp as nat, 16);
    lemma_hex_round_trip(u32_bits(cv.user.id), 8);
    lemma_hex_round_trip(u32_bits(cv.user.role.id), 8);
    lemma_hex_round_trip(name.len(), 16);
    lemma_hex_round_trip(u32_bits(cv.user.project.id), 8);
    lemma_hex_round_trip(u32_bits(cv.user.project.project_id), 8);
    assert(parse_num(s, 1, 16) == Some(cv.exp as nat));
    assert(parse_num(s, 17, 8) == Some(u32_bits(cv.user.id)));
    assert(parse_num(s, 25, 8) == Some(u32_bits(cv.user.role.id)));
    assert(parse_num(s, 33, 16) == Some(name.len()));
    assert(parse_num(s, p0, 8) == Some(u32_bits(cv.user.project.id)));
    assert(parse_num(s, p0 + 8, 8) == Some(u32_bits(cv.user.project.project_id)));
    assert(i32_of_bits(u32_bits(cv.user.id)) == cv.user.id);
    assert(i32_of_bits(u32_bits(cv.user.role.id)) == cv.user.role.id);
    assert(i32_of_bits(u32_bits(cv.user.project.id)) == cv.user.project.id);
    assert(i32_of_bits(u32_bits(cv.user.project.project_id)) == cv.user.project.project_id);
    match cv.user.user_token {
        None => {
            assert(s[p0 + 17] == '0');
            assert(s.len() == p0 + 18);
            let parsed = parse_claims_tail(
                s,
                kind,
                cv.exp as nat,
                u32_bits(cv.user.id),
                u32_bits(cv.user.role.id),
                name,
                u32_bits(cv.user.project.id),
                u32_bits(cv.user.project.project_id),
            );
            assert(parsed is Some && parsed->Some_0.0 == kind);
            assert(parsed->Some_0.1 =~= cv);
        },
        Some(tok) => {
            lemma_hex_of_width_len_all_hex(tok.len(), 16);
            lemma_hex_round_trip(tok.len(), 16);
            assert(s[p0 + 17] == '1');
            assert(s.subrange(p0 + 18, p0 + 34) =~= hex_of_width(tok.len(), 16));
            assert(parse_num(s, p0 + 18, 16) == Some(tok.len()));
            assert(s.len() == p0 + 34 + tok.len());
            assert(s.subrange(p0 + 34, p0 + 34 + tok.len() as int) =~= tok);
            let parsed = parse_claims_tail(
                s,
                kind,
                cv.exp as nat,
                u32_bits(cv.user.id),
                u32_bits(cv.user.role.id),
                name,
                u32_bits(cv.user.project.id),
                u32_bits(cv.user.project.project_id),
            );
            assert(parsed is Some && parsed->Some_0.0 == kind);
            assert(parsed->Some_0.1 =~= cv);
        },
    }
}

/// Round trip: a refresh token decodes, under the key that signed it
/// and before its expiry, to exactly the claims that were encoded —
/// the capability token included. The tag-length hypothesis restates
/// what the HMAC-SHA256 primitive guarantees of every tag.
pub proof fn lemma_refresh_round_trip(cv: ClaimsView, key: Seq<char>, now: u64)
    requires
        wf_claims(cv),
        now <= cv.exp,
        hmac_sha256_of(key, ser_claims('R', cv)).len() == 32,
    ensures
        spec_decode_refresh(spec_refresh_token(cv, key), key, now) == Ok::<
            ClaimsView,
            DecodeError,
        >(cv),
{
    let payload = ser_claims('R', cv);
    let tag = hex_bytes(hmac_sha256_of(key, payload));
    let t = spec_refresh_token(cv, key);
    lemma_hex_bytes_len(hmac_sha256_of(key, payload));
    assert(t.subrange(0, t.len() - 64) =~= payload);
    assert(t.subrange(t.len() - 64, t.len() as int) =~= tag);
    lemma_parse_ser_claims('R', cv);
}

/// A genuine refresh token past its expiry is reported as `Expired`,
/// distinguishable from a malformed or forged one.
pub proof fn lemma_expired_refresh_token(cv: ClaimsView, key: Seq<char>, now: u64)
    requires
        wf_claims(cv),
        cv.exp < now,
        hmac_sha256_of(key, ser_claims('R', cv)).len() == 32,
    ensures
        spec_decode_refresh(spec_refresh_token(cv, key), key, now) == Err::<
            ClaimsView,
            DecodeError,
        >(DecodeError::Expired),
{
    let payload = ser_claims('R', cv);
    let tag = hex_bytes(hmac_sha256_of(key, payload));
    let t = spec_refresh_token(cv, key);
    lemma_hex_bytes_len(hmac_sha256_of(key, payload));
    assert(t.subrange(0, t.len() - 64) =~= payload);
    assert(t.subrange(t.len() - 64, t.len() as int) =~= tag);
    lemma_parse_ser_claims('R', cv);
}

/// An access token decodes to the stripped claims: whatever the input
/// claims held, the capability token is absent from what any reader of
/// the access token can recover.
pub proof fn lemma_access_token_strips_secret(cv: ClaimsView, key: Seq<char>, now: u64)
    requires
        wf_claims(cv),
        now <= cv.exp,
        hmac_sha256_of(key, ser_claims('A', strip_secret(cv))).len() == 32,
    ensures
        spec_decode_access(spec_access_token(cv, key), key, now) == Ok::<
            ClaimsView,
            DecodeError,
        >(strip_secret(cv)),
        strip_secret(cv).user.user_token is None,
{
    let scv = strip_secret(cv);
    let payload = ser_claims('A', scv);
    let tag = hex_bytes(hmac_sha256_of(key, payload));
    let t = spec_access_token(cv, key);
    lemma_hex_bytes_len(hmac_sha256_of(key, payload));
    assert(t.subrange(0, t.len() - 64) =~= payload);
    assert(t.subrange(t.len() - 64, t.len() as int) =~= tag);
    lemma_parse_ser_claims('A', scv);
}

/// An access token is never accepted where a refresh token is
/// expected: the kind markers differ.
pub proof fn lemma_access_token_is_not_refresh(cv: ClaimsView, key: Seq<char>, now: u64)
    requires
        wf_claims(cv),
        hmac_sha256_of(key, ser_claims('A', strip_secret(cv))).len() == 32,
    ensures
        spec_decode_refresh(spec_access_token(cv, key), key, now) == Err::<
            ClaimsView,
            DecodeError,
        >(DecodeError::InvalidToken),
{
    let scv = strip_secret(cv);
    let payload = ser_claims('A', scv);
    let tag = hex_bytes(hmac_sha256_of(key, payload));
    let t = spec_access_token(cv, key);
    lemma_hex_bytes_len(hmac_sha256_of(key, payload));
    assert(t.subrange(0, t.len() - 64) =~= payload);
    assert(t.subrange(t.len() - 64, t.len() as int) =~= tag);
    lemma_parse_ser_claims('A', scv);
}

/// Reads a refresh token back into claims: `InvalidToken` for a
/// malformed payload, a wrong signature or an access token presented
/// here; `Expired` for a genuine refresh token past its expiry.
pub fn decode_refresh(token: &str, key: &str, now: u64) -> (r: Result<Claims, DecodeError>)
    ensures
        r is Ok ==> spec_decode_refresh(token@, key@, now) == Ok::<ClaimsView, DecodeError>(
            r->Ok_0@,
        ),
        r is Err ==> spec_decode_refresh(token@, key@, now) == Err::<ClaimsView, DecodeError>(
            r->Err_0,
        ),
{
    decode_kind(token, key, now, 'R')
}

/// Reads an access token back into (stripped) claims.
pub fn decode_access(token: &str, key: &str, now: u64) -> (r: Result<Claims, DecodeError>)
    ensures
        r is Ok ==> spec_decode_access(token@, key@, now) == Ok::<ClaimsView, DecodeError>(
            r->Ok_0@,
        ),
        r is Err ==> spec_decode_access(token@, key@, now) == Err::<ClaimsView, DecodeError>(
            r->Err_0,
        ),
{
    decode_kind(token, key, now, 'A')
}

} // verus!
