//! Accounts and sessions: how a password is turned into its stored digest,
//! when a login is accepted, and what a session token claims.

use vstd::prelude::*;
use crate::digest;
use crate::text;

verus! {

/// How long a session token stays valid: thirty days, in seconds.
pub const TOKEN_LIFETIME_SECS: u64 = 30 * 24 * 60 * 60;

/// The largest number of seconds since the epoch that the system clock can
/// hold.
pub const CLOCK_MAX_SECS: u64 = 9223372036854775807;

/// The claims of a session token: the user it was issued to and the second
/// (since the epoch) at which it expires.
#[derive(Debug)]
pub struct AuthPayload {
    pub sub: String,
    pub exp: usize,
}

/// The form that registers a new user.
#[derive(Debug)]
pub struct AuthNewUser {
    pub user: String,
    pub email: String,
    pub passwd: String,
}

/// The form that asks for a session token.
#[derive(Debug)]
pub struct AuthRequest {
    pub user: String,
    pub passwd: String,
}

/// A password as it is hashed: every `-` is read as `=`.
pub open spec fn normalized_password(p: Seq<char>) -> Seq<char> {
    text::replaced(p, seq!['-'], seq!['='])
}

/// The digest that is stored for the password `p`.
pub open spec fn password_digest(p: Seq<char>) -> Seq<char> {
    digest::hash_text(vstd::utf8::encode_utf8(normalized_password(p)))
}

/// The second at which a token issued at `now` expires, as the clock's
/// seconds are stored in a `usize`.
pub open spec fn expiry_after(now: u64) -> usize {
    (now + TOKEN_LIFETIME_SECS) as usize
}

/// Whether the passwords `p` and `q` differ at most in that one has `-`
/// where the other has `=`.
pub open spec fn same_up_to_dash(p: Seq<char>, q: Seq<char>) -> bool {
    &&& p.len() == q.len()
    &&& forall|i: int|
        0 <= i < p.len() ==> (p[i] == q[i] || ((p[i] == '-' || p[i] == '=') && (q[i] == '-'
            || q[i] == '=')))
}

/// Whether a login with `passwd` is accepted against the stored digest `stored`.
pub open spec fn login_accepted(passwd: Seq<char>, stored: Seq<char>) -> bool {
    stored == password_digest(passwd)
}

/// A normalized password holds no `-`.
pub proof fn law_normalized_password_has_no_dash(p: Seq<char>)
    ensures
        !normalized_password(p).contains('-'),
{
    text::lemma_replaced_char(p, '-', '=');
}

/// Reading a password for hashing changes each `-` into `=` and keeps every
/// other character, in place: same length, no letter touched.
pub proof fn law_normalized_password_rewrites_only_dashes(p: Seq<char>)
    ensures
        normalized_password(p).len() == p.len(),
        forall|i: int|
            0 <= i < p.len() ==> #[trigger] normalized_password(p)[i] == (if p[i] == '-' {
                '='
            } else {
                p[i]
            }),
{
    text::lemma_replaced_char(p, '-', '=');
}

/// Two passwords that differ at a position where they are not `-` and `=`
/// (for instance in the case of a letter) get different stored digests, so
/// one does not log in an account registered with the other, unless SHA-256
/// collides on the two passwords' bytes.
pub proof fn law_other_characters_tell_passwords_apart(p: Seq<char>, q: Seq<char>, i: int)
    requires
        0 <= i < p.len(),
        i < q.len(),
        p[i] != q[i],
        !((p[i] == '-' || p[i] == '=') && (q[i] == '-' || q[i] == '=')),
        ({
            let x = vstd::utf8::encode_utf8(
                p.map_values(|c: char| if c == '-' { '=' } else { c }),
            );
            let y = vstd::utf8::encode_utf8(
                q.map_values(|c: char| if c == '-' { '=' } else { c }),
            );
            x != y ==> digest::sha256(x) != digest::sha256(y)
        }),
    ensures
        password_digest(p) != password_digest(q),
        !login_accepted(q, password_digest(p)),
{
    law_normalized_password_rewrites_only_dashes(p);
    law_normalized_password_rewrites_only_dashes(q);
    let np = normalized_password(p);
    let nq = normalized_password(q);
    let f = |c: char| if c == '-' { '=' } else { c };
    assert(np =~= p.map_values(f));
    assert(nq =~= q.map_values(f));
    assert(np[i] != nq[i]);
    assert(np != nq);
    law_login_refuses_other_password(p, q);
}

/// A user who registered with password `p` is let in when logging in with
/// `p`: the digest stored at registration is the one a login checks against.
pub proof fn law_login_accepts_registered_password(p: Seq<char>)
    ensures
        login_accepted(p, password_digest(p)),
{
}

/// A login is refused when its password, with every `-` read as `=`, differs
/// from the registered one, unless the two SHA-256 digests collide.
pub proof fn law_login_refuses_other_password(registered: Seq<char>, attempt: Seq<char>)
    requires
        normalized_password(attempt) != normalized_password(registered),
        ({
            let x = vstd::utf8::encode_utf8(normalized_password(attempt));
            let y = vstd::utf8::encode_utf8(normalized_password(registered));
            x != y ==> digest::sha256(x) != digest::sha256(y)
        }),
    ensures
        !login_accepted(attempt, password_digest(registered)),
{
    let a = normalized_password(attempt);
    let r = normalized_password(registered);
    vstd::utf8::encode_utf8_decode_utf8(a);
    vstd::utf8::encode_utf8_decode_utf8(r);
    let x = vstd::utf8::encode_utf8(a);
    let y = vstd::utf8::encode_utf8(r);
    assert(x != y);
    if password_digest(registered) == password_digest(attempt) {
        digest::lemma_bcrypt_base64_injective(digest::sha256(x), digest::sha256(y));
    }
}

/// A token issued at second `now` expires exactly thirty days (2592000
/// seconds) later.
pub proof fn law_token_lasts_thirty_days(now: u64)
    requires
        now + 2592000 <= usize::MAX,
    ensures
        expiry_after(now) == now + 2592000,
{
}

/// Passwords that differ only in `-` against `=` have the same digest, so
/// either of them logs in an account registered with the other.
pub proof fn law_dash_and_equals_are_interchangeable(p: Seq<char>, q: Seq<char>)
    requires
        same_up_to_dash(p, q),
    ensures
        password_digest(p) == password_digest(q),
        login_accepted(q, password_digest(p)),
{
    text::lemma_replaced_char(p, '-', '=');
    text::lemma_replaced_char(q, '-', '=');
    assert(normalized_password(p) =~= normalized_password(q));
}

/// The digest stored for `passwd`: the password with every `-` read as `=`,
/// hashed with `do_hash`.
pub fn password_hash(passwd: &str) -> (r: String)
    ensures
        r@ == password_digest(passwd@),
        r@.len() == 43,
        forall|i: int| 0 <= i < r@.len() ==> digest::is_bcrypt_char(#[trigger] r@[i]),
{
    proof {
        reveal_strlit("-");
        reveal_strlit("=");
        assert("-"@ =~= seq!['-']);
        assert("="@ =~= seq!['=']);
    }
    let normalized = text::replace(passwd, "-", "=");
    digest::do_hash(normalized.as_str().as_bytes())
}

/// Whether `passwd` is the password whose digest is `stored`.
pub fn password_matches(passwd: &str, stored: &String) -> (r: bool)
    ensures
        r == login_accepted(passwd@, stored@),
{
    let digest = password_hash(passwd);
    digest == *stored
}

impl AuthPayload {
    /// The claims of a token issued to `sub` at second `now`; it expires
    /// `TOKEN_LIFETIME_SECS` later. The clock cannot go past `CLOCK_MAX_SECS`.
    pub fn issue(sub: String, now: u64) -> (r: AuthPayload)
        requires
            now + TOKEN_LIFETIME_SECS <= CLOCK_MAX_SECS,
        ensures
            r.sub@ == sub@,
            r.exp == expiry_after(now),
    {
        let exp = (now + TOKEN_LIFETIME_SECS) as usize;
        AuthPayload { sub, exp }
    }
}

impl AuthNewUser {
    /// Registers the user: the digest to store for the password, and the
    /// claims of the token that is handed back at second `now`.
    pub fn register(self, now: u64) -> (r: (String, AuthPayload))
        requires
            now + TOKEN_LIFETIME_SECS <= CLOCK_MAX_SECS,
        ensures
            r.0@ == password_digest(self.passwd@),
            r.1.sub@ == self.user@,
            r.1.exp == expiry_after(now),
    {
        let passhash = password_hash(self.passwd.as_str());
        let payload = AuthPayload::issue(self.user, now);
        (passhash, payload)
    }
}

impl AuthRequest {
    /// Logs the user in against the digest `stored` for that user: the claims
    /// of a new token when the password matches, `None` (refused) otherwise.
    pub fn login(self, stored: &String, now: u64) -> (r: Option<AuthPayload>)
        requires
            now + TOKEN_LIFETIME_SECS <= CLOCK_MAX_SECS,
        ensures
            r is Some <==> login_accepted(self.passwd@, stored@),
            r matches Some(p) ==> p.sub@ == self.user@ && p.exp == expiry_after(now),
    {
        if password_matches(self.passwd.as_str(), stored) {
            Some(AuthPayload::issue(self.user, now))
        } else {
            None
        }
    }
}

} // verus!
