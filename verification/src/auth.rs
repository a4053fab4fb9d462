//! Credential storage and token gatekeeping.
//!
//! Registration hashes the password irreversibly and binds the new identity
//! into a signed token carrying subject id, subject email and a 24-hour
//! expiry. Login fails identically for an unknown email and a wrong
//! password, so nothing reveals which accounts exist. Identity extraction
//! accepts a `Bearer <token>` header, and every failure collapses to one
//! Unauthorized outcome. The signing secret is injected configuration,
//! passed explicitly.

use vstd::prelude::*;
use vstd::string::*;
use vstd::pervasive::unreached;

use crate::errors::EmsError;
use crate::models::{Admin, AdminLogin, AdminRegister, LoginResponse};

verus! {

/// Seconds a freshly issued token stays valid.
pub const TOKEN_LIFETIME: i64 = 86400;

// ---------------------------------------------------------------------------
// Trusted boundary: password hashing and the token codec
// ---------------------------------------------------------------------------

#[verifier::external_type_specification]
#[verifier::external_body]
pub struct ExBcryptError(bcrypt::BcryptError);

#[verifier::external_type_specification]
#[verifier::external_body]
pub struct ExJwtError(jsonwebtoken::errors::Error);

/// Whether the bcrypt verifier accepts this password against this hash
/// string; the outcome depends on the two arguments alone.
pub uninterp spec fn bcrypt_matches(password: Seq<char>, hashed: Seq<char>) -> bool;

/// Relies on `bcrypt::hash` at the default cost: the salt is drawn fresh,
/// and on success the returned 60-character hash string embeds it, so
/// `bcrypt::verify` recomputes the same digest and accepts the password
/// against the returned hash.
#[verifier::external_body]
fn bcrypt_hash(password: &str) -> (r: Result<String, bcrypt::BcryptError>)
    ensures
        r matches Ok(h) ==> h@.len() == 60 && bcrypt_matches(password@, h@),
{
    bcrypt::hash(password, bcrypt::DEFAULT_COST)
}

/// Relies on `bcrypt::verify`: acceptance is a function of the password and
/// the hash string alone; a malformed hash is reported as an error, which
/// counts as rejection here.
#[verifier::external_body]
fn bcrypt_check(password: &str, hashed: &str) -> (r: bool)
    ensures
        r == bcrypt_matches(password@, hashed@),
{
    bcrypt::verify(password, hashed).unwrap_or(false)
}

/// The signed token for these claims under this secret; HS256 signing is
/// deterministic, so the result depends on the arguments alone.
pub uninterp spec fn token_of(admin_id: int, email: Seq<char>, exp: int, secret: Seq<u8>) -> Seq<
    char,
>;

/// Relies on `jsonwebtoken::encode` with the default HS256 header. The call
/// cannot fail here: `EncodingKey::from_secret` pins the HMAC family, which
/// matches the default header's algorithm; the HS256 signer accepts a key of
/// any length; and serializing the string-keyed claims map and HMAC signing
/// are infallible. The claims serialize with sorted keys and HMAC signing is
/// deterministic, so the produced token is a function of the claims and the
/// secret.
#[verifier::external_body]
fn sign_token(admin_id: i32, email: &str, exp: i64, secret: &[u8]) -> (r: Result<
    String,
    jsonwebtoken::errors::Error,
>)
    ensures
        r is Ok,
        r matches Ok(t) ==> t@ == token_of(admin_id as int, email@, exp as int, secret@),
{
    let mut claims = serde_json::Map::new();
    claims.insert("admin_id".to_string(), serde_json::Value::from(admin_id));
    claims.insert("email".to_string(), serde_json::Value::from(email));
    claims.insert("exp".to_string(), serde_json::Value::from(exp));
    jsonwebtoken::encode(
        &jsonwebtoken::Header::default(),
        &serde_json::Value::Object(claims),
        &jsonwebtoken::EncodingKey::from_secret(secret),
    )
}

/// Relies on `jsonwebtoken::decode` with the algorithm pinned to HS256 and
/// default validation, which checks the expiry claim against the clock: the
/// outcome depends on the present time, so nothing relates two calls. On
/// acceptance the token's subject id claim is handed out.
#[verifier::external_body]
fn decode_admin_id(token: &str, secret: &[u8]) -> (r: Option<i64>)
{
    let key = jsonwebtoken::DecodingKey::from_secret(secret);
    let validation = jsonwebtoken::Validation::new(jsonwebtoken::Algorithm::HS256);
    match jsonwebtoken::decode::<serde_json::Value>(token, &key, &validation) {
        Ok(data) => data.claims.get("admin_id").and_then(|v| v.as_i64()),
        Err(_) => None,
    }
}

// ---------------------------------------------------------------------------
// Token issuance
// ---------------------------------------------------------------------------

/// Issues the signed bearer token for an admin identity, expiring 24 hours
/// from now. Signing under the pinned algorithm cannot fail, so success is
/// owed outright.
pub fn create_token(admin_id: i32, email: &str, now: i64, secret: &[u8]) -> (r: Result<
    String,
    EmsError,
>)
    requires
        0 <= now <= i64::MAX - TOKEN_LIFETIME,
    ensures
        r matches Ok(t) && t@ == token_of(
            admin_id as int,
            email@,
            now + TOKEN_LIFETIME,
            secret@,
        ),
{
    let exp = now + TOKEN_LIFETIME;
    match sign_token(admin_id, email, exp, secret) {
        Ok(t) => Ok(t),
        Err(_) => unreached(),
    }
}

// ---------------------------------------------------------------------------
// The credential store
// ---------------------------------------------------------------------------

/// Some stored account carries this email, exactly.
pub open spec fn has_admin_email(s: Seq<Admin>, email: Seq<char>) -> bool {
    exists|i: int| 0 <= i < s.len() && (#[trigger] s[i]).email@ == email
}

/// The position of the account with this email; meaningful only under
/// `has_admin_email` and a well-formed store, where the email is unique.
pub open spec fn admin_index_of(s: Seq<Admin>, email: Seq<char>) -> int {
    choose|i: int| 0 <= i < s.len() && (#[trigger] s[i]).email@ == email
}

/// The store of admin accounts, append-only and immutable post-creation.
pub struct CredentialStore {
    pub admins: Vec<Admin>,
    pub next_id: i32,
}

/// Login is denied exactly when no account carries the email, or the
/// password fails verification against the stored hash. The two causes are
/// deliberately indistinguishable in every observable way.
pub open spec fn login_denied(store: CredentialStore, email: Seq<char>, password: Seq<char>) -> bool {
    ||| !has_admin_email(store.admins@, email)
    ||| !bcrypt_matches(
        password,
        store.admins@[admin_index_of(store.admins@, email)].password_hash@,
    )
}

impl CredentialStore {
    /// Ids are at least 1, strictly ascending, below the next id to hand
    /// out; emails are unique.
    pub open spec fn wf(self) -> bool {
        &&& 1 <= self.next_id
        &&& forall|i: int|
            0 <= i < self.admins@.len() ==> 1 <= (#[trigger] self.admins@[i]).admin_id
                < self.next_id
        &&& forall|i: int, j: int|
            #![trigger self.admins@[i].admin_id, self.admins@[j].admin_id]
            0 <= i < j < self.admins@.len() ==> self.admins@[i].admin_id
                < self.admins@[j].admin_id
        &&& forall|i: int, j: int|
            #![trigger self.admins@[i].email, self.admins@[j].email]
            0 <= i < j < self.admins@.len() ==> self.admins@[i].email@ != self.admins@[j].email@
    }

    /// An empty store; the first account will get id 1.
    pub fn new() -> (r: CredentialStore)
        ensures
            r.wf(),
            r.admins@.len() == 0,
            r.next_id == 1,
    {
        CredentialStore { admins: Vec::new(), next_id: 1 }
    }

    /// In a well-formed store, an account's position determines
    /// `admin_index_of` for its email.
    proof fn lemma_admin_at(self, email: Seq<char>, k: int)
        requires
            self.wf(),
            0 <= k < self.admins@.len(),
            self.admins@[k].email@ == email,
        ensures
            has_admin_email(self.admins@, email),
            admin_index_of(self.admins@, email) == k,
    {
        assert(has_admin_email(self.admins@, email));
        let c = admin_index_of(self.admins@, email);
        assert(0 <= c < self.admins@.len() && self.admins@[c].email@ == email);
        if c != k {
            assert(self.admins@[c].email@ != self.admins@[k].email@);
        }
    }

    /// The position of the account with this email, or nothing.
    fn find_admin(&self, email: &String) -> (r: Option<usize>)
        ensures
            r matches Some(i) ==> i < self.admins@.len() && self.admins@[i as int].email@
                == email@,
            r is None ==> !has_admin_email(self.admins@, email@),
    {
        let n = self.admins.len();
        let mut i: usize = 0;
        while i < n
            invariant
                n == self.admins@.len(),
                i <= n,
                forall|j: int| 0 <= j < i ==> (#[trigger] self.admins@[j]).email@ != email@,
            decreases n - i,
        {
            if self.admins[i].email.eq(email) {
                return Some(i);
            }
            i += 1;
        }
        None
    }

    /// Registers a new admin account and issues its first token. An email
    /// already taken, compared exactly, is refused as a duplicate. The
    /// password is then irreversibly hashed and the account stored; only the
    /// hashing step can fail, surfaced as an opaque internal error, and every
    /// failure leaves the store untouched: the account is stored exactly when
    /// the call succeeds.
    pub fn register(&mut self, data: &AdminRegister, now: i64, secret: &[u8]) -> (r: Result<
        LoginResponse,
        EmsError,
    >)
        requires
            old(self).wf(),
            old(self).next_id < i32::MAX,
            0 <= now <= i64::MAX - TOKEN_LIFETIME,
        ensures
            final(self).wf(),
            r == Err::<LoginResponse, EmsError>(EmsError::DuplicateAccount) <==> has_admin_email(
                old(self).admins@,
                data.email@,
            ),
            r matches Err(e) ==> e == EmsError::DuplicateAccount || e == EmsError::InternalError,
            r is Err ==> *final(self) == *old(self),
            !has_admin_email(old(self).admins@, data.email@) ==> (r is Ok <==> *final(self)
                != *old(self)),
            r is Ok ==> registered_one(*old(self), *final(self), *data, now) && {
                let resp = r.unwrap();
                &&& resp.token@ == token_of(
                    old(self).next_id as int,
                    data.email@,
                    now + TOKEN_LIFETIME,
                    secret@,
                )
                &&& resp.message@ == "Admin registered successfully"@
            },
    {
        match self.find_admin(&data.email) {
            Some(_) => Err(EmsError::DuplicateAccount),
            None => {
                let password_hash = match bcrypt_hash(data.password.as_str()) {
                    Ok(h) => h,
                    Err(_) => {
                        return Err(EmsError::InternalError);
                    },
                };
                let admin_id = self.next_id;
                self.next_id = self.next_id + 1;
                self.admins.push(
                    Admin { admin_id, email: data.email.clone(), password_hash, created_at: now },
                );
                proof {
                    assert(self.admins@.subrange(0, old(self).admins@.len() as int)
                        =~= old(self).admins@);
                }
                let token = match create_token(admin_id, data.email.as_str(), now, secret) {
                    Ok(t) => t,
                    Err(_) => unreached(),
                };
                proof {
                    assert(self.admins@.len() != old(self).admins@.len());
                }
                Ok(
                    LoginResponse {
                        token,
                        message: String::from_str("Admin registered successfully"),
                    },
                )
            },
        }
    }

    /// Authenticates an admin and issues a fresh token: success exactly when
    /// some account carries the email and the password verifies against its
    /// stored hash. An unknown email and a wrong password are rejected with
    /// one and the same error. The store is never changed.
    pub fn login(&self, data: &AdminLogin, now: i64, secret: &[u8]) -> (r: Result<
        LoginResponse,
        EmsError,
    >)
        requires
            self.wf(),
            0 <= now <= i64::MAX - TOKEN_LIFETIME,
        ensures
            r is Ok <==> !login_denied(*self, data.email@, data.password@),
            r matches Err(e) ==> e == EmsError::InvalidCredentials,
            r is Ok ==> {
                let resp = r.unwrap();
                &&& resp.token@ == token_of(
                    self.admins@[admin_index_of(self.admins@, data.email@)].admin_id as int,
                    data.email@,
                    now + TOKEN_LIFETIME,
                    secret@,
                )
                &&& resp.message@ == "Login successful"@
            },
    {
        match self.find_admin(&data.email) {
            None => Err(EmsError::InvalidCredentials),
            Some(i) => {
                proof {
                    self.lemma_admin_at(data.email@, i as int);
                }
                if bcrypt_check(data.password.as_str(), self.admins[i].password_hash.as_str()) {
                    match create_token(
                        self.admins[i].admin_id,
                        data.email.as_str(),
                        now,
                        secret,
                    ) {
                        Ok(token) => Ok(
                            LoginResponse { token, message: String::from_str("Login successful") },
                        ),
                        Err(_) => unreached(),
                    }
                } else {
                    Err(EmsError::InvalidCredentials)
                }
            },
        }
    }
}

/// Exactly one account was appended: the earlier accounts stand untouched,
/// and the new last account carries the next id, the given email, a hash
/// the password verifies against, and the present moment.
pub open spec fn registered_one(
    pre: CredentialStore,
    post: CredentialStore,
    data: AdminRegister,
    now: i64,
) -> bool {
    &&& post.admins@.len() == pre.admins@.len() + 1
    &&& post.admins@.subrange(0, pre.admins@.len() as int) == pre.admins@
    &&& post.admins@.last().admin_id == pre.next_id
    &&& post.admins@.last().email == data.email
    &&& bcrypt_matches(data.password@, post.admins@.last().password_hash@)
    &&& post.admins@.last().created_at == now
    &&& post.next_id == pre.next_id + 1
}

/// An unknown email and a wrong password are both denied, so with `login`'s
/// contract both produce the very same error value and message: nothing
/// observable separates the two causes.
pub proof fn lemma_login_uniform_rejection(
    store: CredentialStore,
    unknown_email: Seq<char>,
    password_a: Seq<char>,
    known_email: Seq<char>,
    wrong_password: Seq<char>,
)
    requires
        !has_admin_email(store.admins@, unknown_email),
        has_admin_email(store.admins@, known_email),
        !bcrypt_matches(
            wrong_password,
            store.admins@[admin_index_of(store.admins@, known_email)].password_hash@,
        ),
    ensures
        login_denied(store, unknown_email, password_a),
        login_denied(store, known_email, wrong_password),
{
}

// ---------------------------------------------------------------------------
// Identity extraction
// ---------------------------------------------------------------------------

/// The decision on a decoded subject id: an id in range is accepted, and an
/// absent or out-of-range one is Unauthorized.
pub fn admin_of_claims(claims: Option<i64>) -> (r: Result<i32, EmsError>)
    ensures
        match claims {
            Some(id) => if i32::MIN <= id <= i32::MAX {
                r == Ok::<i32, EmsError>(id as i32)
            } else {
                r == Err::<i32, EmsError>(EmsError::Unauthorized)
            },
            None => r == Err::<i32, EmsError>(EmsError::Unauthorized),
        },
{
    match claims {
        Some(id) => {
            if i32::MIN as i64 <= id && id <= i32::MAX as i64 {
                Ok(id as i32)
            } else {
                Err(EmsError::Unauthorized)
            }
        },
        None => Err(EmsError::Unauthorized),
    }
}

/// Extracts the admin identity from a `Bearer <token>` header. A missing
/// header, a malformed one, and a token the codec rejects — bad signature,
/// wrong algorithm, expired — all collapse to the one Unauthorized outcome.
/// Acceptance is decided by the token codec against the clock; whatever it
/// answers, an identity is handed out only from a well-formed bearer
/// header.
pub fn extract_admin_id(auth_header: Option<&str>, secret: &[u8]) -> (r: Result<i32, EmsError>)
    ensures
        r matches Err(e) ==> e == EmsError::Unauthorized,
        r is Ok ==> (auth_header matches Some(h) && h@.len() >= 7 && h@.subrange(0, 7)
            == "Bearer "@),
{
    let header = match auth_header {
        Some(h) => h,
        None => {
            return Err(EmsError::Unauthorized);
        },
    };
    let marker = "Bearer ";
    proof {
        reveal_strlit("Bearer ");
    }
    let n = header.unicode_len();
    if n < 7 {
        return Err(EmsError::Unauthorized);
    }
    let mut i: usize = 0;
    while i < 7
        invariant
            n == header@.len(),
            n >= 7,
            i <= 7,
            marker@ == "Bearer "@,
            marker@.len() == 7,
            forall|j: int| 0 <= j < i ==> header@[j] == marker@[j],
        decreases 7 - i,
    {
        if header.get_char(i) != marker.get_char(i) {
            return Err(EmsError::Unauthorized);
        }
        i += 1;
    }
    proof {
        assert(header@.subrange(0, 7) =~= "Bearer "@);
    }
    let token = header.substring_char(7, n);
    admin_of_claims(decode_admin_id(token, secret))
}

} // verus!
