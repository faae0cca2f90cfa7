//! Operator authentication: reading HTTP Basic credentials, and checking a
//! password against the stored hash so that an unknown username and a wrong
//! password cost the same work and fail the same way.
use vstd::prelude::*;
use vstd::utf8::{decode_utf8, valid_utf8};
use crate::text::push_char;

verus! {

/// What standard-alphabet, padded base64 decoding gives for `s`, if it decodes.
pub uninterp spec fn base64_decoded(s: Seq<char>) -> Option<Seq<u8>>;

/// Relies on base64's `Engine::decode` with the `STANDARD` engine: the bytes
/// that `s` encodes, or an error; the outcome depends on `s` alone.
#[verifier::external_body]
fn decode_base64(s: &str) -> (r: Option<Vec<u8>>)
    ensures
        r is Some <==> base64_decoded(s@) is Some,
        r matches Some(v) ==> base64_decoded(s@) == Some(v@),
{
    match base64::Engine::decode(&base64::engine::general_purpose::STANDARD, s) {
        Ok(v) => Some(v),
        Err(_) => None,
    }
}

/// Relies on `String::from_utf8`: succeeds exactly on valid UTF-8 and keeps
/// the characters that the bytes encode.
#[verifier::external_body]
fn utf8_to_string(b: Vec<u8>) -> (r: Option<String>)
    ensures
        r is Some <==> valid_utf8(b@),
        r matches Some(s) ==> s@ == decode_utf8(b@),
{
    match String::from_utf8(b) {
        Ok(s) => Some(s),
        Err(_) => None,
    }
}

/// Whether `password` matches the PHC-format `hash`: `None` where the hash
/// does not parse or cannot be used to verify.
pub uninterp spec fn argon2_verdict(hash: Seq<char>, password: Seq<char>) -> Option<bool>;

/// Relies on argon2's `PasswordHash::new` and `Argon2::verify_password`: the
/// hash string is parsed, then the password is hashed again with the
/// algorithm, version, parameters and salt written in it and compared in
/// constant time. Only the `Password` error means a mismatch; any other error
/// says the hash is unusable. The outcome depends on the two strings alone.
#[verifier::external_body]
fn verify_password_hash(hash: &str, password: &str) -> (r: Option<bool>)
    ensures
        r == argon2_verdict(hash@, password@),
{
    match argon2::PasswordHash::new(hash) {
        Err(_) => None,
        Ok(parsed) => match argon2::PasswordVerifier::verify_password(
            &argon2::Argon2::default(),
            password.as_bytes(),
            &parsed,
        ) {
            Ok(()) => Some(true),
            Err(argon2::password_hash::Error::Password) => Some(false),
            Err(_) => None,
        },
    }
}

/// A well-formed hash that no stored user has, checked against when the
/// username is unknown so that both failure paths do the same hashing work.
pub const FALLBACK_PASSWORD_HASH: &'static str = "$argon2id$v=19$m=15000,t=2,p=1$gZiV/M1gPc22ElAH/Jh1Hw$CWOrkoo7oJBQ/iyh7uJ0LO2aLEfrHwTWllSAxT0zRno";

/// Username and password as the operator presented them.
pub struct Credentials {
    pub username: String,
    pub password: String,
}

/// What the store holds for one operator.
pub struct StoredCredentials {
    pub user_id: u128,
    pub password_hash: String,
}

#[derive(Clone, Copy, Debug, PartialEq, Eq, Structural)]
pub enum AuthError {
    /// Unknown username or wrong password: the two are not told apart.
    InvalidCredentials,
    /// The stored hash could not be read.
    UnexpectedError,
}

/// Why an `Authorization` header gave no credentials.
#[derive(Clone, Copy, Debug, PartialEq, Eq, Structural)]
pub enum AuthHeaderError {
    Missing,
    NotVisibleAscii,
    NotBasicScheme,
    NotBase64,
    NotUtf8,
    MissingPassword,
}

/// The text that explains each header error.
pub open spec fn header_error_text(e: AuthHeaderError) -> Seq<char> {
    match e {
        AuthHeaderError::Missing => "The 'Authorization' header was missing."@,
        AuthHeaderError::NotVisibleAscii => "The 'Authorization' header was not a valid UTF-8 string."@,
        AuthHeaderError::NotBasicScheme => "The 'Authorization' scheme was not 'Basic'."@,
        AuthHeaderError::NotBase64 => "Failed to base64-decode 'Basic' credentials."@,
        AuthHeaderError::NotUtf8 => "The decoded credentials string is not valid UTF-8."@,
        AuthHeaderError::MissingPassword => "A password must be provided in 'Basic' auth."@,
    }
}

impl AuthHeaderError {
    pub fn message(&self) -> (r: String)
        ensures
            r@ == header_error_text(*self),
    {
        match self {
            AuthHeaderError::Missing => String::from_str("The 'Authorization' header was missing."),
            AuthHeaderError::NotVisibleAscii => String::from_str(
                "The 'Authorization' header was not a valid UTF-8 string.",
            ),
            AuthHeaderError::NotBasicScheme => String::from_str(
                "The 'Authorization' scheme was not 'Basic'.",
            ),
            AuthHeaderError::NotBase64 => String::from_str(
                "Failed to base64-decode 'Basic' credentials.",
            ),
            AuthHeaderError::NotUtf8 => String::from_str(
                "The decoded credentials string is not valid UTF-8.",
            ),
            AuthHeaderError::MissingPassword => String::from_str(
                "A password must be provided in 'Basic' auth.",
            ),
        }
    }
}

/// Bytes that a header value may hold and still read as text.
pub open spec fn visible_ascii(b: u8) -> bool {
    (32 <= b && b < 127) || b == 9
}

/// The bytes of `Basic ` that open a Basic header value.
pub open spec fn basic_scheme() -> Seq<u8> {
    seq![66u8, 97u8, 115u8, 105u8, 99u8, 32u8]
}

/// The position of the first `:` in `s`, if there is one.
pub open spec fn first_colon(s: Seq<char>) -> Option<int> {
    if exists|k: int| 0 <= k < s.len() && #[trigger] s[k] == ':' {
        Some(
            choose|k: int|
                0 <= k < s.len() && #[trigger] s[k] == ':' && forall|j: int|
                    0 <= j < k ==> #[trigger] s[j] != ':',
        )
    } else {
        None
    }
}

/// Username and password read from decoded `user:password` bytes: they are
/// split at the first colon.
pub open spec fn credentials_spec(bytes: Seq<u8>) -> Result<(Seq<char>, Seq<char>), AuthHeaderError> {
    if !valid_utf8(bytes) {
        Err(AuthHeaderError::NotUtf8)
    } else {
        let text = decode_utf8(bytes);
        match first_colon(text) {
            None => Err(AuthHeaderError::MissingPassword),
            Some(k) => Ok((text.subrange(0, k), text.subrange(k + 1, text.len() as int))),
        }
    }
}

/// Credentials read from the raw bytes of an `Authorization` header.
pub open spec fn basic_auth_spec(header: Option<Seq<u8>>) -> Result<(Seq<char>, Seq<char>), AuthHeaderError> {
    match header {
        None => Err(AuthHeaderError::Missing),
        Some(h) => {
            if !(forall|i: int| 0 <= i < h.len() ==> visible_ascii(#[trigger] h[i])) {
                Err(AuthHeaderError::NotVisibleAscii)
            } else {
                if !(h.len() >= 6 && h.subrange(0, 6) == basic_scheme()) {
                    Err(AuthHeaderError::NotBasicScheme)
                } else {
                    match base64_decoded(h.subrange(6, h.len() as int).map_values(|b: u8| b as char)) {
                        None => Err(AuthHeaderError::NotBase64),
                        Some(bytes) => credentials_spec(bytes),
                    }
                }
            }
        }
    }
}

pub open spec fn credentials_view(r: Result<Credentials, AuthHeaderError>) -> Result<(Seq<char>, Seq<char>), AuthHeaderError> {
    match r {
        Ok(c) => Ok((c.username@, c.password@)),
        Err(e) => Err(e),
    }
}

/// Splits decoded `user:password` bytes at the first colon.
pub fn credentials_from_decoded(bytes: Vec<u8>) -> (r: Result<Credentials, AuthHeaderError>)
    ensures
        credentials_view(r) == credentials_spec(bytes@),
{
    let ghost b = bytes@;
    let text = match utf8_to_string(bytes) {
        Some(t) => t,
        None => return Err(AuthHeaderError::NotUtf8),
    };
    let n = text.as_str().unicode_len();
    let mut username = String::new();
    let mut i: usize = 0;
    while i < n && text.as_str().get_char(i) != ':'
        invariant
            n == text@.len(),
            i <= n,
            username@ == text@.subrange(0, i as int),
            forall|j: int| 0 <= j < i ==> #[trigger] text@[j] != ':',
        decreases n - i,
    {
        let c = text.as_str().get_char(i);
        push_char(&mut username, c);
        proof {
            assert(username@ =~= text@.subrange(0, i + 1));
        }
        i = i + 1;
    }
    if i == n {
        proof {
            assert(first_colon(text@) is None);
        }
        return Err(AuthHeaderError::MissingPassword);
    }
    let mut password = String::new();
    let mut k: usize = i + 1;
    while k < n
        invariant
            n == text@.len(),
            i < k <= n,
            password@ == text@.subrange(i + 1, k as int),
        decreases n - k,
    {
        push_char(&mut password, text.as_str().get_char(k));
        proof {
            assert(password@ =~= text@.subrange(i + 1, k + 1));
        }
        k = k + 1;
    }
    proof {
        assert(text@[i as int] == ':');
        let f = choose|f: int|
            0 <= f < text@.len() && #[trigger] text@[f] == ':' && forall|j: int|
                0 <= j < f ==> #[trigger] text@[j] != ':';
        assert(f == i);
    }
    Ok(Credentials { username, password })
}

/// Reads HTTP Basic credentials from the raw bytes of an `Authorization`
/// header (`None` where the request has none).
pub fn basic_authentication(header: Option<&Vec<u8>>) -> (r: Result<Credentials, AuthHeaderError>)
    ensures
        credentials_view(r) == basic_auth_spec(
            match header {
                Some(h) => Some(h@),
                None => None,
            },
        ),
{
    let h = match header {
        Some(h) => h,
        None => return Err(AuthHeaderError::Missing),
    };
    let mut i: usize = 0;
    while i < h.len()
        invariant
            header == Some(h),
            i <= h@.len(),
            forall|j: int| 0 <= j < i ==> visible_ascii(#[trigger] h@[j]),
        decreases h@.len() - i,
    {
        let b = h[i];
        if !((32 <= b && b < 127) || b == 9) {
            proof {
                assert(!visible_ascii(h@[i as int]));
            }
            return Err(AuthHeaderError::NotVisibleAscii);
        }
        i = i + 1;
    }
    let scheme: [u8; 6] = [66, 97, 115, 105, 99, 32];
    if h.len() < 6 {
        return Err(AuthHeaderError::NotBasicScheme);
    }
    let mut p: usize = 0;
    while p < 6
        invariant
            header == Some(h),
            h@.len() >= 6,
            p <= 6,
            forall|j: int| 0 <= j < h@.len() ==> visible_ascii(#[trigger] h@[j]),
            scheme@ == seq![66u8, 97u8, 115u8, 105u8, 99u8, 32u8],
            forall|j: int| 0 <= j < p ==> #[trigger] h@[j] == scheme@[j],
        decreases 6 - p,
    {
        if h[p] != scheme[p] {
            proof {
                assert(h@.subrange(0, 6)[p as int] != basic_scheme()[p as int]);
            }
            return Err(AuthHeaderError::NotBasicScheme);
        }
        p = p + 1;
    }
    proof {
        assert(h@.subrange(0, 6) =~= basic_scheme());
    }
    let mut encoded = String::new();
    let mut q: usize = 6;
    while q < h.len()
        invariant
            header == Some(h),
            6 <= q <= h@.len(),
            h@.subrange(0, 6) == basic_scheme(),
            forall|j: int| 0 <= j < h@.len() ==> visible_ascii(#[trigger] h@[j]),
            encoded@ == h@.subrange(6, q as int).map_values(|b: u8| b as char),
        decreases h@.len() - q,
    {
        push_char(&mut encoded, h[q] as char);
        proof {
            assert(encoded@ =~= h@.subrange(6, q + 1).map_values(|b: u8| b as char));
        }
        q = q + 1;
    }
    match decode_base64(encoded.as_str()) {
        None => Err(AuthHeaderError::NotBase64),
        Some(bytes) => credentials_from_decoded(bytes),
    }
}

/// The outcome of a credential check, given the stored user id (if the
/// username is known) and the verdict of the hash check.
pub open spec fn decision_spec(user_id: Option<u128>, verdict: Option<bool>) -> Result<u128, AuthError> {
    match verdict {
        None => Err(AuthError::UnexpectedError),
        Some(false) => Err(AuthError::InvalidCredentials),
        Some(true) => match user_id {
            Some(id) => Ok(id),
            None => Err(AuthError::InvalidCredentials),
        },
    }
}

/// Decides a credential check once the hash has been verified.
pub fn credential_decision(user_id: Option<u128>, verdict: Option<bool>) -> (r: Result<u128, AuthError>)
    ensures
        r == decision_spec(user_id, verdict),
{
    match verdict {
        None => Err(AuthError::UnexpectedError),
        Some(false) => Err(AuthError::InvalidCredentials),
        Some(true) => match user_id {
            Some(id) => Ok(id),
            None => Err(AuthError::InvalidCredentials),
        },
    }
}

/// The hash that a check of `stored` verifies against: the stored one, or the
/// fallback for an unknown username.
pub open spec fn hash_checked(stored: Option<StoredCredentials>) -> Seq<char> {
    match stored {
        Some(c) => c.password_hash@,
        None => FALLBACK_PASSWORD_HASH@,
    }
}

/// Checks `password` for the operator whose stored record is `stored`
/// (`None` where the username is unknown). One hash verification is made in
/// either case, against the fallback hash where there is no record.
pub fn validate_credentials(stored: Option<StoredCredentials>, password: &str) -> (r: Result<
    u128,
    AuthError,
>)
    ensures
        r == decision_spec(
            match stored {
                Some(c) => Some(c.user_id),
                None => None,
            },
            argon2_verdict(hash_checked(stored), password@),
        ),
{
    let (user_id, hash) = match stored {
        Some(c) => (Some(c.user_id), c.password_hash),
        None => (None, String::from_str(FALLBACK_PASSWORD_HASH)),
    };
    let verdict = verify_password_hash(hash.as_str(), password);
    credential_decision(user_id, verdict)
}

/// An unknown username fails exactly as a known username with a wrong
/// password does, whatever the fallback hash check says.
pub proof fn lemma_unknown_user_fails_like_wrong_password(id: u128, fallback_matches: bool)
    ensures
        decision_spec(None, Some(fallback_matches)) == decision_spec(Some(id), Some(false)),
        decision_spec(Some(id), Some(false)) == Err::<u128, AuthError>(AuthError::InvalidCredentials),
{
}

/// One operator record.
pub struct UserRecord {
    pub user_id: u128,
    pub username: String,
    pub password_hash: String,
}

/// The operators, each under a username of its own.
pub struct UserStore {
    users: Vec<UserRecord>,
}

impl View for UserStore {
    type V = Seq<(u128, Seq<char>, Seq<char>)>;

    closed spec fn view(&self) -> Seq<(u128, Seq<char>, Seq<char>)> {
        self.users@.map_values(|u: UserRecord| (u.user_id, u.username@, u.password_hash@))
    }
}

pub open spec fn has_username(users: Seq<(u128, Seq<char>, Seq<char>)>, name: Seq<char>) -> bool {
    exists|i: int| 0 <= i < users.len() && (#[trigger] users[i]).1 == name
}

impl UserStore {
    pub open spec fn wf(&self) -> bool {
        forall|i: int, j: int|
            0 <= i < self@.len() && 0 <= j < self@.len() && i != j ==> (#[trigger] self@[i]).1
                != (#[trigger] self@[j]).1
    }

    pub fn new() -> (r: UserStore)
        ensures
            r.wf(),
            r@.len() == 0,
    {
        UserStore { users: Vec::new() }
    }

    /// The record stored under `username`, if any.
    pub fn lookup(&self, username: &str) -> (r: Option<StoredCredentials>)
        requires
            self.wf(),
        ensures
            r is Some <==> has_username(self@, username@),
            r matches Some(c) ==> exists|i: int|
                0 <= i < self@.len() && (#[trigger] self@[i]).1 == username@ && self@[i].0
                    == c.user_id && self@[i].2 == c.password_hash@,
    {
        let wanted = String::from_str(username);
        let mut i: usize = 0;
        while i < self.users.len()
            invariant
                i <= self.users@.len(),
                wanted@ == username@,
                self@.len() == self.users@.len(),
                forall|k: int|
                    0 <= k < self.users@.len() ==> #[trigger] self@[k] == (
                        self.users@[k].user_id,
                        self.users@[k].username@,
                        self.users@[k].password_hash@,
                    ),
                forall|k: int| 0 <= k < i ==> (#[trigger] self@[k]).1 != username@,
            decreases self.users@.len() - i,
        {
            if self.users[i].username == wanted {
                proof {
                    assert(self@[i as int].1 == username@);
                }
                return Some(
                    StoredCredentials {
                        user_id: self.users[i].user_id,
                        password_hash: self.users[i].password_hash.clone(),
                    },
                );
            }
            i = i + 1;
        }
        None
    }

    /// Adds an operator; refused (returning `false`) where the username is taken.
    pub fn add(&mut self, user: UserRecord) -> (r: bool)
        requires
            old(self).wf(),
        ensures
            final(self).wf(),
            r == !has_username(old(self)@, user.username@),
            r ==> final(self)@ == old(self)@.push((user.user_id, user.username@, user.password_hash@)),
            !r ==> final(self)@ == old(self)@,
    {
        if self.lookup(user.username.as_str()).is_some() {
            return false;
        }
        let ghost before = self@;
        let ghost entry = (user.user_id, user.username@, user.password_hash@);
        self.users.push(user);
        proof {
            assert(self@ =~= before.push(entry));
            assert forall|i: int, j: int|
                0 <= i < self@.len() && 0 <= j < self@.len() && i != j implies (#[trigger] self@[i]).1
                != (#[trigger] self@[j]).1 by {
                if i < before.len() && j < before.len() {
                    assert(self@[i] == before[i]);
                    assert(self@[j] == before[j]);
                } else if i < before.len() {
                    assert(self@[i] == before[i]);
                } else {
                    assert(self@[j] == before[j]);
                }
            }
        }
        true
    }
}

} // verus!
