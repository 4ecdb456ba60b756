//! Accounts and sessions: reading the bearer token of a request, and the
//! decisions taken when an account is opened or a user signs in.
//!
//! Password hashes come from the `bcrypt` crate and account ids from the
//! `uuid` crate; looking accounts up and storing them is left to callers.

use vstd::prelude::*;
use vstd::string::*;
use vstd::set_lib::{lemma_int_range, lemma_len_subset, lemma_map_size, set_int_range};
use crate::models::{LoginRequest, RegisterRequest};
use crate::text::{same_text, strip_text_prefix, text_result};

verus! {

/// A refusal sent back to the client: an HTTP status and the error text.
pub struct ErrorReply {
    pub status: u16,
    pub message: String,
}

/// The token after the `Bearer ` scheme of an `authorization` header value.
pub open spec fn bearer_token_of(v: Seq<char>) -> Option<Seq<char>> {
    let scheme = "Bearer "@;
    if scheme.len() <= v.len() && v.subrange(0, scheme.len() as int) == scheme {
        Some(v.skip(scheme.len() as int))
    } else {
        None
    }
}

/// The token carried by an `authorization` header value, if it uses the
/// `Bearer ` scheme.
pub fn bearer_token(header_value: &str) -> (token: Option<&str>)
    ensures
        match bearer_token_of(header_value@) {
            None => token is None,
            Some(t) => token matches Some(x) && x@ == t,
        },
{
    strip_text_prefix(header_value, "Bearer ")
}

/// A token sent with the `Bearer ` scheme is read back as sent.
pub proof fn lemma_bearer_round_trip(token: Seq<char>)
    ensures
        bearer_token_of("Bearer "@ + token) == Some(token),
{
    let v = "Bearer "@ + token;
    assert(v.subrange(0, "Bearer "@.len() as int) =~= "Bearer "@);
    assert(v.skip("Bearer "@.len() as int) =~= token);
}

/// A lowercase hexadecimal digit.
pub open spec fn is_lower_hex(c: char) -> bool {
    ('0' <= c && c <= '9') || ('a' <= c && c <= 'f')
}

/// The hyphenated text of a random (version 4, RFC 4122 variant) UUID:
/// 36 characters, hyphens at 8, 13, 18 and 23, lowercase hexadecimal digits
/// elsewhere, the version digit `4` at 14 and one of `8`, `9`, `a`, `b` at
/// 19.
pub open spec fn is_uuid_v4_text(s: Seq<char>) -> bool {
    &&& s.len() == 36
    &&& forall|i: int|
        0 <= i < 36 ==> (if i == 8 || i == 13 || i == 18 || i == 23 {
            #[trigger] s[i] == '-'
        } else {
            is_lower_hex(s[i])
        })
    &&& s[14] == '4'
    &&& (s[19] == '8' || s[19] == '9' || s[19] == 'a' || s[19] == 'b')
}

/// The lowercase hexadecimal digit of a value below 16.
pub open spec fn hex_char(n: u64) -> char {
    "0123456789abcdef"@[n as int]
}

/// The value of a lowercase hexadecimal digit.
pub open spec fn hex_value(c: char) -> int {
    if c <= '9' {
        (c as int) - ('0' as int)
    } else {
        (c as int) - ('a' as int) + 10
    }
}

proof fn lemma_hex_chars()
    ensures
        forall|n: u64| n < 16 ==> is_lower_hex(#[trigger] hex_char(n)) && hex_value(hex_char(n)) == n,
{
    reveal_strlit("0123456789abcdef");
    assert(hex_char(0u64) == '0');
    assert(hex_char(1u64) == '1');
    assert(hex_char(2u64) == '2');
    assert(hex_char(3u64) == '3');
    assert(hex_char(4u64) == '4');
    assert(hex_char(5u64) == '5');
    assert(hex_char(6u64) == '6');
    assert(hex_char(7u64) == '7');
    assert(hex_char(8u64) == '8');
    assert(hex_char(9u64) == '9');
    assert(hex_char(10u64) == 'a');
    assert(hex_char(11u64) == 'b');
    assert(hex_char(12u64) == 'c');
    assert(hex_char(13u64) == 'd');
    assert(hex_char(14u64) == 'e');
    assert(hex_char(15u64) == 'f');
    assert(hex_value(hex_char(0u64)) == 0);
    assert(hex_value(hex_char(1u64)) == 1);
    assert(hex_value(hex_char(2u64)) == 2);
    assert(hex_value(hex_char(3u64)) == 3);
    assert(hex_value(hex_char(4u64)) == 4);
    assert(hex_value(hex_char(5u64)) == 5);
    assert(hex_value(hex_char(6u64)) == 6);
    assert(hex_value(hex_char(7u64)) == 7);
    assert(hex_value(hex_char(8u64)) == 8);
    assert(hex_value(hex_char(9u64)) == 9);
    assert(hex_value(hex_char(10u64)) == 10);
    assert(hex_value(hex_char(11u64)) == 11);
    assert(hex_value(hex_char(12u64)) == 12);
    assert(hex_value(hex_char(13u64)) == 13);
    assert(hex_value(hex_char(14u64)) == 14);
    assert(hex_value(hex_char(15u64)) == 15);
    assert forall|n: u64| n < 16 implies is_lower_hex(#[trigger] hex_char(n)) && hex_value(hex_char(n)) == n by {
        if n < 8 {
            if n < 4 {
                if n < 2 { if n == 0 {} else {} } else { if n == 2 {} else {} }
            } else {
                if n < 6 { if n == 4 {} else {} } else { if n == 6 {} else {} }
            }
        } else {
            if n < 12 {
                if n < 10 { if n == 8 {} else {} } else { if n == 10 {} else {} }
            } else {
                if n < 14 { if n == 12 {} else {} } else { if n == 14 {} else {} }
            }
        }
    }
}

/// The 4-bit group `j` (from the lowest) of `k`.
pub open spec fn nibble(k: u64, j: int) -> u64 {
    (k >> ((4 * j) as u64)) & 0xfu64
}

/// Which 4-bit group of a number a fallback id writes at position `i`,
/// or -1: positions 17, 20 to 22 and 24 to 35, none of them a hyphen, the
/// version digit or the variant digit.
pub open spec fn position_slot(i: int) -> int {
    if i == 17 {
        0
    } else if 20 <= i <= 22 {
        i - 19
    } else if 24 <= i <= 35 {
        i - 20
    } else {
        -1
    }
}

/// The fallback id number `k` made from the UUID text `base`: the base
/// with the sixteen hexadecimal digits of `k` written over its free
/// positions.
pub open spec fn fallback_id(base: Seq<char>, k: u64) -> Seq<char> {
    Seq::new(
        36,
        |i: int|
            if position_slot(i) >= 0 {
                hex_char(nibble(k, position_slot(i)))
            } else {
                base[i]
            },
    )
}

proof fn lemma_fallback_shape(base: Seq<char>, k: u64)
    requires
        is_uuid_v4_text(base),
    ensures
        is_uuid_v4_text(fallback_id(base, k)),
{
    lemma_hex_chars();
    let s = fallback_id(base, k);
    assert forall|i: int| 0 <= i < 36 implies (if i == 8 || i == 13 || i == 18 || i == 23 {
        #[trigger] s[i] == '-'
    } else {
        is_lower_hex(s[i])
    }) by {
        if position_slot(i) >= 0 {
            let x = ((4 * position_slot(i)) as u64);
            assert(((k >> x) & 0xfu64) < 16u64) by (bit_vector);
        } else {
            assert(s[i] == base[i]);
        }
    }
    assert(s[14] == base[14] && s[19] == base[19]);
}

proof fn lemma_fallback_injective(base: Seq<char>, k1: u64, k2: u64)
    requires
        fallback_id(base, k1) == fallback_id(base, k2),
    ensures
        k1 == k2,
{
    lemma_hex_chars();
    let s1 = fallback_id(base, k1);
    let s2 = fallback_id(base, k2);
    assert forall|j: int| 0 <= j < 16 implies nibble(k1, j) < 16 && nibble(k2, j) < 16 by {
        let x = ((4 * j) as u64);
        assert(((k1 >> x) & 0xfu64) < 16u64 && ((k2 >> x) & 0xfu64) < 16u64) by (bit_vector);
    }
    assert(s1[17] == s2[17]);
    assert(nibble(k1, 0) == nibble(k2, 0));
    assert(s1[20] == s2[20]);
    assert(nibble(k1, 1) == nibble(k2, 1));
    assert(s1[21] == s2[21]);
    assert(nibble(k1, 2) == nibble(k2, 2));
    assert(s1[22] == s2[22]);
    assert(nibble(k1, 3) == nibble(k2, 3));
    assert(s1[24] == s2[24]);
    assert(nibble(k1, 4) == nibble(k2, 4));
    assert(s1[25] == s2[25]);
    assert(nibble(k1, 5) == nibble(k2, 5));
    assert(s1[26] == s2[26]);
    assert(nibble(k1, 6) == nibble(k2, 6));
    assert(s1[27] == s2[27]);
    assert(nibble(k1, 7) == nibble(k2, 7));
    assert(s1[28] == s2[28]);
    assert(nibble(k1, 8) == nibble(k2, 8));
    assert(s1[29] == s2[29]);
    assert(nibble(k1, 9) == nibble(k2, 9));
    assert(s1[30] == s2[30]);
    assert(nibble(k1, 10) == nibble(k2, 10));
    assert(s1[31] == s2[31]);
    assert(nibble(k1, 11) == nibble(k2, 11));
    assert(s1[32] == s2[32]);
    assert(nibble(k1, 12) == nibble(k2, 12));
    assert(s1[33] == s2[33]);
    assert(nibble(k1, 13) == nibble(k2, 13));
    assert(s1[34] == s2[34]);
    assert(nibble(k1, 14) == nibble(k2, 14));
    assert(s1[35] == s2[35]);
    assert(nibble(k1, 15) == nibble(k2, 15));
    assert(k1 == k2) by (bit_vector)
        requires
            (k1 >> 0u64) & 0xfu64 == (k2 >> 0u64) & 0xfu64,
            (k1 >> 4u64) & 0xfu64 == (k2 >> 4u64) & 0xfu64,
            (k1 >> 8u64) & 0xfu64 == (k2 >> 8u64) & 0xfu64,
            (k1 >> 12u64) & 0xfu64 == (k2 >> 12u64) & 0xfu64,
            (k1 >> 16u64) & 0xfu64 == (k2 >> 16u64) & 0xfu64,
            (k1 >> 20u64) & 0xfu64 == (k2 >> 20u64) & 0xfu64,
            (k1 >> 24u64) & 0xfu64 == (k2 >> 24u64) & 0xfu64,
            (k1 >> 28u64) & 0xfu64 == (k2 >> 28u64) & 0xfu64,
            (k1 >> 32u64) & 0xfu64 == (k2 >> 32u64) & 0xfu64,
            (k1 >> 36u64) & 0xfu64 == (k2 >> 36u64) & 0xfu64,
            (k1 >> 40u64) & 0xfu64 == (k2 >> 40u64) & 0xfu64,
            (k1 >> 44u64) & 0xfu64 == (k2 >> 44u64) & 0xfu64,
            (k1 >> 48u64) & 0xfu64 == (k2 >> 48u64) & 0xfu64,
            (k1 >> 52u64) & 0xfu64 == (k2 >> 52u64) & 0xfu64,
            (k1 >> 56u64) & 0xfu64 == (k2 >> 56u64) & 0xfu64,
            (k1 >> 60u64) & 0xfu64 == (k2 >> 60u64) & 0xfu64,
    ;
}

/// The hyphenated UUID text `base` with the sixteen hexadecimal digits of
/// `k` written over its free positions.
fn fallback(base: &String, k: u64) -> (s: String)
    requires
        base@.len() == 36,
    ensures
        s@ == fallback_id(base@, k),
{
    let hex = "0123456789abcdef";
    proof {
        reveal_strlit("0123456789abcdef");
    }
    let b = base.as_str();
    let mut s = String::new();
    let mut i: usize = 0;
    while i < 36
        invariant
            i <= 36,
            b@ == base@,
            base@.len() == 36,
            hex@ == "0123456789abcdef"@,
            hex@.len() == 16,
            s@ == fallback_id(base@, k).take(i as int),
        decreases 36 - i,
    {
        let slot: u64 = if i == 17 {
            0
        } else if 20 <= i && i <= 22 {
            (i - 19) as u64
        } else if 24 <= i && i <= 35 {
            (i - 20) as u64
        } else {
            16
        };
        let ghost before = s@;
        let piece = if slot < 16 {
            let x = 4 * slot;
            let n64 = (k >> x) & 0xf;
            assert(n64 < 16u64) by (bit_vector)
                requires
                    n64 == (k >> x) & 0xfu64,
            ;
            let n = n64 as usize;
            assert(nibble(k, position_slot(i as int)) == n64);
            hex.substring_char(n, n + 1)
        } else {
            b.substring_char(i, i + 1)
        };
        assert(piece@ =~= seq![fallback_id(base@, k)[i as int]]);
        s.append(piece);
        assert(s@ =~= fallback_id(base@, k).take(i + 1));
        i = i + 1;
    }
    assert(fallback_id(base@, k).take(36) =~= fallback_id(base@, k));
    s
}

/// The texts of a list of strings.
pub open spec fn id_texts(ids: Seq<String>) -> Seq<Seq<char>> {
    ids.map_values(|x: String| x@)
}

/// Whether `t` is among `ids`.
fn contains_text(ids: &Vec<String>, t: &String) -> (found: bool)
    ensures
        found == id_texts(ids@).contains(t@),
{
    let mut j: usize = 0;
    while j < ids.len()
        invariant
            j <= ids.len(),
            forall|m: int| 0 <= m < j ==> ids@[m]@ != t@,
        decreases ids.len() - j,
    {
        if same_text(ids[j].as_str(), t.as_str()) {
            assert(id_texts(ids@)[j as int] == t@);
            return true;
        }
        j = j + 1;
    }
    assert(!id_texts(ids@).contains(t@)) by {
        if id_texts(ids@).contains(t@) {
            let m = choose|m: int| 0 <= m < id_texts(ids@).len() && id_texts(ids@)[m] == t@;
            assert(ids@[m]@ == t@);
        }
    }
    false
}

/// A UUID text like `base` that is not among `ids`: the first fallback id
/// made from `base` that is not taken. There always is one, since there
/// are more fallback ids than taken ones.
fn distinct_from(ids: &Vec<String>, base: &String) -> (s: String)
    requires
        is_uuid_v4_text(base@),
    ensures
        is_uuid_v4_text(s@),
        !id_texts(ids@).contains(s@),
{
    let n = ids.len();
    let mut k: usize = 0;
    while k < n
        invariant
            k <= n,
            n == ids.len(),
            is_uuid_v4_text(base@),
            forall|m: int| 0 <= m < k ==> id_texts(ids@).contains(#[trigger] fallback_id(base@, m as u64)),
        decreases n - k,
    {
        let cand = fallback(base, k as u64);
        if !contains_text(ids, &cand) {
            proof {
                lemma_fallback_shape(base@, k as u64);
            }
            return cand;
        }
        k = k + 1;
    }
    let cand = fallback(base, n as u64);
    proof {
        lemma_fallback_shape(base@, n as u64);
    }
    if !contains_text(ids, &cand) {
        return cand;
    }
    proof {
        let texts = id_texts(ids@);
        let range = set_int_range(0, n + 1);
        let f = |m: int| fallback_id(base@, m as u64);
        lemma_int_range(0, n + 1);
        assert forall|a: int, b: int| range.contains(a) && range.contains(b) && #[trigger] f(a) == #[trigger] f(b)
            implies a == b by {
            lemma_fallback_injective(base@, a as u64, b as u64);
        }
        let image = range.map(f);
        lemma_map_size(range, image, f);
        assert forall|y: Seq<char>| image.contains(y) implies texts.to_set().contains(y) by {
            let m = choose|m: int| range.contains(m) && f(m) == y;
            if m < n {
                assert(texts.contains(fallback_id(base@, m as u64)));
            }
        }
        texts.lemma_cardinality_of_set();
        lemma_len_subset(image, texts.to_set());
        assert(false);
    }
    cand
}

/// Calls `uuid::Uuid::new_v4` and writes the id in its hyphenated form.
/// The id is random: only its shape is claimed, which the source fixes
/// (random bits with the version and variant bits set, written in
/// lowercase hexadecimal with hyphens). (The call panics if the system has
/// no randomness to give.)
#[verifier::external_body]
pub(crate) fn new_id() -> (id: String)
    ensures
        is_uuid_v4_text(id@),
{
    uuid::Uuid::new_v4().to_string()
}

/// Name for what `bcrypt::verify` answers for a password and a stored
/// hash: whether they match, or the text of its error.
pub uninterp spec fn bcrypt_verdict(password: Seq<char>, hash: Seq<char>) -> Result<bool, Seq<char>>;

/// Calls `bcrypt::verify`, with the error turned into its text. The
/// verdict is a function of the two arguments and is named
/// `bcrypt_verdict`; the bcrypt algorithm itself is not spelled out.
#[verifier::external_body]
fn verify_password(password: &str, hash: &str) -> (r: Result<bool, String>)
    ensures
        text_result(r) == bcrypt_verdict(password@, hash@),
{
    match bcrypt::verify(password, hash) {
        Ok(b) => Ok(b),
        Err(e) => Err(e.to_string()),
    }
}

/// Calls `bcrypt::hash` with `bcrypt::DEFAULT_COST`, with the error turned
/// into its text. The salt is random, so the hash is not named; what is
/// claimed of every hash it gives is what its source shows: the hash is 60
/// characters long, starts with `$2b$12$` (version 2b, cost 12), and
/// `bcrypt::verify` accepts the same password against it. Errors (the
/// system had no randomness to give) are passed on as text.
#[verifier::external_body]
fn hash_password(password: &str) -> (r: Result<String, String>)
    ensures
        (r matches Ok(h) ==> h@.len() == 60 && h@.subrange(0, 7) == "$2b$12$"@ && bcrypt_verdict(
            password@,
            h@,
        ) == Ok::<bool, Seq<char>>(true)),
{
    match bcrypt::hash(password, bcrypt::DEFAULT_COST) {
        Ok(h) => Ok(h),
        Err(e) => Err(e.to_string()),
    }
}

/// What opening an account comes to.
pub enum Registration {
    /// The e-mail address is already taken.
    Refused(ErrorReply),
    /// A new account, with its id and the hash of its password, to store.
    Accepted { id: String, password_hash: String },
}

/// Opens an account for `req`, given whether its e-mail address is
/// already registered: a taken address is refused with 409 and
/// `Email already registered`; otherwise the account gets a fresh id and
/// the hash of its password, which signing in with that password accepts;
/// the stored hash starts with `$2b$12$`, so it differs from the password
/// unless the password itself is a 60-character text with that start. A
/// failure of the hashing is passed on as its text.
pub fn register_account(req: &RegisterRequest, email_taken: bool) -> (r: Result<Registration, String>)
    ensures
        email_taken ==> (r matches Ok(Registration::Refused(reply)) && reply.status == 409
            && reply.message@ == "Email already registered"@),
        !email_taken ==> !(r matches Ok(Registration::Refused(_))),
        r matches Ok(Registration::Accepted { id, password_hash }) ==> is_uuid_v4_text(id@)
            && password_hash@.len() == 60 && password_hash@.subrange(0, 7) == "$2b$12$"@
            && bcrypt_verdict(req.password@, password_hash@) == Ok::<bool, Seq<char>>(true)
            && (password_hash@ != req.password@ || (req.password@.len() == 60
            && req.password@.subrange(0, 7) == "$2b$12$"@)),
{
    if email_taken {
        return Ok(
            Registration::Refused(
                ErrorReply { status: 409, message: String::from_str("Email already registered") },
            ),
        );
    }
    let id = new_id();
    match hash_password(req.password.as_str()) {
        Ok(password_hash) => Ok(Registration::Accepted { id, password_hash }),
        Err(e) => Err(e),
    }
}

/// What signing in comes to.
pub enum Access {
    /// The credentials are refused.
    Refused(ErrorReply),
    /// The user with this id is signed in.
    Granted(String),
}

/// What signing in comes to, in mathematical terms.
pub enum AccessView {
    Refused(u16, Seq<char>),
    Granted(Seq<char>),
}

impl View for Access {
    type V = AccessView;

    open spec fn view(&self) -> AccessView {
        match self {
            Access::Refused(reply) => AccessView::Refused(reply.status, reply.message@),
            Access::Granted(id) => AccessView::Granted(id@),
        }
    }
}

pub open spec fn access_result(r: Result<Access, String>) -> Result<AccessView, Seq<char>> {
    match r {
        Ok(a) => Ok(a@),
        Err(e) => Err(e@),
    }
}

/// The refusal for unknown or wrong credentials.
pub open spec fn invalid_credentials() -> AccessView {
    AccessView::Refused(401, "Invalid credentials"@)
}

/// Signing in to the account `id` once the password has been checked
/// against its stored hash with `verdict`.
pub open spec fn login_decision_of(id: Seq<char>, verdict: Result<bool, Seq<char>>) -> Result<
    AccessView,
    Seq<char>,
> {
    match verdict {
        Err(e) => Err(e),
        Ok(false) => Ok(invalid_credentials()),
        Ok(true) => Ok(AccessView::Granted(id)),
    }
}

/// Signing in with `password` to `account` (its id and stored hash), or
/// to no account at all.
pub open spec fn login_outcome(account: Option<(Seq<char>, Seq<char>)>, password: Seq<char>) -> Result<
    AccessView,
    Seq<char>,
> {
    match account {
        None => Ok(invalid_credentials()),
        Some((id, hash)) => login_decision_of(id, bcrypt_verdict(password, hash)),
    }
}

/// Decides a sign-in to the account `id` from the verdict of checking the
/// password against its stored hash.
pub fn login_decision(id: String, verdict: Result<bool, String>) -> (r: Result<Access, String>)
    ensures
        access_result(r) == login_decision_of(id@, text_result(verdict)),
{
    match verdict {
        Err(e) => Err(e),
        Ok(false) => Ok(
            Access::Refused(ErrorReply { status: 401, message: String::from_str("Invalid credentials") }),
        ),
        Ok(true) => Ok(Access::Granted(id)),
    }
}

/// Signs in with `req` to `account`, the id and stored password hash found
/// for its e-mail address, if any.
pub fn check_login(req: &LoginRequest, account: Option<(String, String)>) -> (r: Result<Access, String>)
    ensures
        access_result(r) == login_outcome(
            match account {
                None => None,
                Some((id, hash)) => Some((id@, hash@)),
            },
            req.password@,
        ),
{
    match account {
        None => Ok(
            Access::Refused(ErrorReply { status: 401, message: String::from_str("Invalid credentials") }),
        ),
        Some((id, hash)) => {
            let verdict = verify_password(req.password.as_str(), hash.as_str());
            login_decision(id, verdict)
        },
    }
}

/// An account opened with a password signs in with that password: when
/// the password checks against the stored hash, as it does for every hash
/// that opening the account stored, signing in grants the account.
pub proof fn lemma_registered_password_signs_in(password: Seq<char>, id: Seq<char>, hash: Seq<char>)
    requires
        bcrypt_verdict(password, hash) == Ok::<bool, Seq<char>>(true),
    ensures
        login_outcome(Some((id, hash)), password) == Ok::<AccessView, Seq<char>>(AccessView::Granted(id)),
{
}

/// An unknown e-mail address and a wrong password get the same refusal.
pub proof fn lemma_refusals_alike(password: Seq<char>, id: Seq<char>, hash: Seq<char>)
    requires
        bcrypt_verdict(password, hash) == Ok::<bool, Seq<char>>(false),
    ensures
        login_outcome(Some((id, hash)), password) == login_outcome(None, password),
{
}


/// The refusal of a request that carries no valid session token.
pub fn unauthorized() -> (reply: ErrorReply)
    ensures
        reply.status == 401,
        reply.message@ == "Unauthorized"@,
{
    ErrorReply { status: 401, message: String::from_str("Unauthorized") }
}

/// What a request may name that is not there.
#[derive(Debug, Clone, Copy, PartialEq, Eq, Structural)]
pub enum Resource {
    Config,
    Item,
}

/// The error text for a configuration or an item that is not there.
pub open spec fn not_found_text(resource: Resource) -> Seq<char> {
    match resource {
        Resource::Config => "Config not found"@,
        Resource::Item => "Item not found"@,
    }
}

/// The refusal of a request that names a configuration or an item that
/// the user does not have.
pub fn not_found(resource: Resource) -> (reply: ErrorReply)
    ensures
        reply.status == 404,
        reply.message@ == not_found_text(resource),
{
    match resource {
        Resource::Config => ErrorReply { status: 404, message: String::from_str("Config not found") },
        Resource::Item => ErrorReply { status: 404, message: String::from_str("Item not found") },
    }
}

/// Whether a request may go on, given whether the configuration or item it
/// names was found among the user's: nothing to refuse when it was, a 404
/// refusal when it was not.
pub fn refuse_unless_found(found: bool, resource: Resource) -> (refusal: Option<ErrorReply>)
    ensures
        (refusal is None) == found,
        refusal matches Some(reply) ==> reply.status == 404 && reply.message@ == not_found_text(resource),
{
    if found {
        None
    } else {
        Some(not_found(resource))
    }
}

/// Fresh ids for `count` new rows (the usages of an item), one drawn per
/// row, each in the hyphenated form of a random UUID, no two alike. (A
/// drawn id that repeats an earlier one, which chance all but rules out,
/// is replaced by the first fallback id not yet taken.)
pub fn fresh_ids(count: usize) -> (ids: Vec<String>)
    ensures
        ids.len() == count,
        forall|i: int| 0 <= i < count ==> is_uuid_v4_text((#[trigger] ids@[i])@),
        forall|a: int, b: int| 0 <= a < b < count ==> (#[trigger] ids@[a])@ != (#[trigger] ids@[b])@,
{
    let mut ids: Vec<String> = Vec::new();
    let mut i: usize = 0;
    while i < count
        invariant
            i <= count,
            ids.len() == i,
            forall|k: int| 0 <= k < i ==> is_uuid_v4_text((#[trigger] ids@[k])@),
            forall|a: int, b: int| 0 <= a < b < i ==> (#[trigger] ids@[a])@ != (#[trigger] ids@[b])@,
        decreases count - i,
    {
        let drawn = new_id();
        let id = if contains_text(&ids, &drawn) {
            distinct_from(&ids, &drawn)
        } else {
            drawn
        };
        let ghost before = ids@;
        proof {
            assert forall|a: int| 0 <= a < i implies before[a]@ != id@ by {
                assert(id_texts(before)[a] == before[a]@);
            }
        }
        ids.push(id);
        assert(ids@ == before.push(id));
        i = i + 1;
    }
    ids
}

} // verus!
