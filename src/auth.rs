//! Authentication to the control port: the methods the daemon offers, the
//! commands of each method, and the safe-cookie challenge-response check.
use vstd::prelude::*;
use hmac::{Hmac, Mac};
use rand::Rng;
use sha2::Sha256;
use crate::hexcode::{from_hex, hex_bytes, is_hex_text, to_hex_upper, upper_hex};
use crate::text::{
    contains, contains_exec, find_char, find_from, find_str, first_occurrence, has_prefix,
    slice_string, split_by, split_on, starts_with, strip_char, strip_char_string, views,
};

verus! {

/// Why authentication could not be completed.
#[derive(Debug, Clone, Copy, PartialEq, Eq, Structural)]
pub enum AuthError {
    /// The cookie file that the daemon named could not be read.
    CookieUnreadable,
    /// The challenge reply lacks a server hash or nonce, or one is not hex.
    MalformedChallenge,
    /// The daemon could not prove that it knows the cookie.
    ServerHashMismatch,
    /// No offered method was accepted.
    AllMethodsFailed,
}

/// What the daemon announced in its `PROTOCOLINFO` reply.
pub struct AuthOffer {
    pub methods: Vec<String>,
    pub cookie_file: Option<String>,
}

pub open spec fn opt_view(o: Option<String>) -> Option<Seq<char>> {
    match o {
        Some(s) => Some(s@),
        None => None,
    }
}

impl AuthOffer {
    pub open spec fn methods_view(&self) -> Seq<Seq<char>> {
        views(self.methods@)
    }

    pub open spec fn cookie_view(&self) -> Option<Seq<char>> {
        opt_view(self.cookie_file)
    }
}

/// The first line at or after `i` that announces the methods.
pub open spec fn auth_line_from(lines: Seq<Seq<char>>, i: int) -> Option<Seq<char>>
    decreases lines.len() - i,
{
    if i < 0 || i >= lines.len() {
        None
    } else if contains(lines[i], "AUTH METHODS="@) {
        Some(lines[i])
    } else {
        auth_line_from(lines, i + 1)
    }
}

/// The comma-separated methods after `METHODS=`, up to the next space, each
/// without surrounding quotes.
pub open spec fn methods_of_line(line: Seq<char>) -> Seq<Seq<char>> {
    match first_occurrence(line, "METHODS="@, 0) {
        Some(k) => split_on(line.subrange(k + 8, find_from(line, ' ', k + 8)), ',').map_values(
            |m: Seq<char>| strip_char(m, '"'),
        ),
        None => seq![],
    }
}

/// The quoted path after `COOKIEFILE=`.
pub open spec fn cookie_of_line(line: Seq<char>) -> Option<Seq<char>> {
    match first_occurrence(line, "COOKIEFILE=\""@, 0) {
        Some(k) => Some(line.subrange(k + 12, find_from(line, '"', k + 12))),
        None => None,
    }
}

/// The methods and cookie file that a `PROTOCOLINFO` reply announces.
pub open spec fn offer_of(lines: Seq<Seq<char>>) -> (Seq<Seq<char>>, Option<Seq<char>>) {
    match auth_line_from(lines, 0) {
        Some(l) => (methods_of_line(l), cookie_of_line(l)),
        None => (seq![], None),
    }
}

pub fn protocol_info_command() -> (r: String)
    ensures
        r@ == "PROTOCOLINFO"@,
{
    "PROTOCOLINFO".to_owned()
}

fn parse_methods(line: &str) -> (r: Vec<String>)
    ensures
        views(r@) == methods_of_line(line@),
{
    match find_str(line, "METHODS=") {
        Some(k) => {
            proof {
                reveal_strlit("METHODS=");
            }
            let _n = line.unicode_len();
            let end = find_char(line, ' ', k + 8);
            let field = slice_string(line, k + 8, end);
            let parts = split_by(field.as_str(), ',');
            let ghost pv = views(parts@);
            let mut out: Vec<String> = Vec::new();
            let mut i: usize = 0;
            while i < parts.len()
                invariant
                    i <= parts@.len(),
                    pv == views(parts@),
                    pv == split_on(field@, ','),
                    views(out@) =~= pv.take(i as int).map_values(|m: Seq<char>| strip_char(m, '"')),
                decreases parts@.len() - i,
            {
                let m = strip_char_string(parts[i].as_str(), '"');
                proof {
                    assert(views(out@.push(m)) =~= views(out@).push(m@));
                    assert(pv.take(i + 1) =~= pv.take(i as int).push(pv[i as int]));
                }
                out.push(m);
                i = i + 1;
            }
            assert(pv.take(parts@.len() as int) =~= pv);
            out
        },
        None => Vec::new(),
    }
}

fn parse_cookie_file(line: &str) -> (r: Option<String>)
    ensures
        opt_view(r) == cookie_of_line(line@),
{
    match find_str(line, "COOKIEFILE=\"") {
        Some(k) => {
            proof {
                reveal_strlit("COOKIEFILE=\"");
            }
            let _n = line.unicode_len();
            let end = find_char(line, '"', k + 12);
            Some(slice_string(line, k + 12, end))
        },
        None => None,
    }
}

/// Parses the content of a `PROTOCOLINFO` reply.
pub fn parse_auth_offer(lines: &[String]) -> (r: AuthOffer)
    ensures
        (r.methods_view(), r.cookie_view()) == offer_of(views(lines@)),
{
    let ghost lv = views(lines@);
    let mut i: usize = 0;
    while i < lines.len()
        invariant
            i <= lines@.len(),
            lv == views(lines@),
            auth_line_from(lv, i as int) == auth_line_from(lv, 0),
        decreases lines@.len() - i,
    {
        let line = lines[i].as_str();
        if contains_exec(line, "AUTH METHODS=") {
            return AuthOffer { methods: parse_methods(line), cookie_file: parse_cookie_file(line) };
        }
        i = i + 1;
    }
    AuthOffer { methods: Vec::new(), cookie_file: None }
}

/// One way of authenticating, with the data that it needs.
pub enum AuthMethod {
    Null,
    Cookie { cookie_file: String },
    SafeCookie { cookie_file: String },
}

/// The kind of a method, without its data.
#[derive(Debug, Clone, Copy, PartialEq, Eq, Structural)]
pub enum MethodKind {
    Null,
    Cookie,
    SafeCookie,
}

impl AuthMethod {
    pub open spec fn kind(&self) -> MethodKind {
        match self {
            AuthMethod::Null => MethodKind::Null,
            AuthMethod::Cookie { .. } => MethodKind::Cookie,
            AuthMethod::SafeCookie { .. } => MethodKind::SafeCookie,
        }
    }

    pub open spec fn cookie_path(&self) -> Seq<char> {
        match self {
            AuthMethod::Null => seq![],
            AuthMethod::Cookie { cookie_file } => cookie_file@,
            AuthMethod::SafeCookie { cookie_file } => cookie_file@,
        }
    }
}

pub open spec fn offers(methods: Seq<Seq<char>>, name: Seq<char>) -> bool {
    exists|i: int| 0 <= i < methods.len() && methods[i] == name
}

/// The methods to try, in order: cookie, then safe cookie (both only with a
/// known cookie file), then null where it is offered or nothing is.
pub open spec fn plan_of(methods: Seq<Seq<char>>, cookie: Option<Seq<char>>) -> Seq<(MethodKind, Seq<char>)> {
    let path = match cookie {
        Some(p) => p,
        None => seq![],
    };
    let c: Seq<(MethodKind, Seq<char>)> = if cookie is Some && offers(methods, "COOKIE"@) {
        seq![(MethodKind::Cookie, path)]
    } else {
        seq![]
    };
    let s: Seq<(MethodKind, Seq<char>)> = if cookie is Some && offers(methods, "SAFECOOKIE"@) {
        seq![(MethodKind::SafeCookie, path)]
    } else {
        seq![]
    };
    let n: Seq<(MethodKind, Seq<char>)> = if offers(methods, "NULL"@) || methods.len() == 0 {
        seq![(MethodKind::Null, seq![])]
    } else {
        seq![]
    };
    c + s + n
}

pub open spec fn method_views(ms: Seq<AuthMethod>) -> Seq<(MethodKind, Seq<char>)> {
    ms.map_values(|m: AuthMethod| (m.kind(), m.cookie_path()))
}

fn offers_exec(methods: &Vec<String>, name: &str) -> (r: bool)
    ensures
        r == offers(views(methods@), name@),
{
    let ghost mv = views(methods@);
    let mut i: usize = 0;
    while i < methods.len()
        invariant
            i <= methods@.len(),
            mv == views(methods@),
            forall|j: int| 0 <= j < i ==> mv[j] != name@,
        decreases methods@.len() - i,
    {
        if methods[i].eq(&name.to_owned()) {
            assert(mv[i as int] == name@);
            return true;
        }
        i = i + 1;
    }
    false
}

/// The methods to try for what the daemon offered, in order.
pub fn auth_plan(offer: &AuthOffer) -> (r: Vec<AuthMethod>)
    ensures
        method_views(r@) == plan_of(offer.methods_view(), offer.cookie_view()),
{
    let mut plan: Vec<AuthMethod> = Vec::new();
    match &offer.cookie_file {
        Some(path) => {
            if offers_exec(&offer.methods, "COOKIE") {
                plan.push(AuthMethod::Cookie { cookie_file: path.clone() });
            }
            if offers_exec(&offer.methods, "SAFECOOKIE") {
                plan.push(AuthMethod::SafeCookie { cookie_file: path.clone() });
            }
        },
        None => {},
    }
    if offers_exec(&offer.methods, "NULL") || offer.methods.len() == 0 {
        plan.push(AuthMethod::Null);
    }
    assert(method_views(plan@) =~= plan_of(offer.methods_view(), offer.cookie_view()));
    plan
}

/// The command that authenticates with no credential.
pub fn null_command() -> (r: String)
    ensures
        r@ == "AUTHENTICATE"@,
{
    "AUTHENTICATE".to_owned()
}

/// The command that authenticates with the cookie itself.
pub fn cookie_command(cookie: &[u8]) -> (r: String)
    ensures
        r@ == "AUTHENTICATE "@ + upper_hex(cookie@),
{
    "AUTHENTICATE ".to_owned().concat(to_hex_upper(cookie).as_str())
}

/// The command that opens a safe-cookie exchange with the client's nonce.
pub fn challenge_command(client_nonce: &[u8]) -> (r: String)
    ensures
        r@ == "AUTHCHALLENGE SAFECOOKIE "@ + upper_hex(client_nonce@),
{
    "AUTHCHALLENGE SAFECOOKIE ".to_owned().concat(to_hex_upper(client_nonce).as_str())
}

/// An authentication reply accepts when one of its lines is `OK`.
pub open spec fn is_accepted(lines: Seq<Seq<char>>) -> bool {
    exists|i: int| 0 <= i < lines.len() && lines[i] == "OK"@
}

pub fn reply_is_ok(lines: &[String]) -> (r: bool)
    ensures
        r == is_accepted(views(lines@)),
{
    let ghost lv = views(lines@);
    let mut i: usize = 0;
    while i < lines.len()
        invariant
            i <= lines@.len(),
            lv == views(lines@),
            forall|j: int| 0 <= j < i ==> lv[j] != "OK"@,
        decreases lines@.len() - i,
    {
        if lines[i].eq(&"OK".to_owned()) {
            assert(lv[i as int] == "OK"@);
            return true;
        }
        i = i + 1;
    }
    false
}

/// The length of the client's nonce in a safe-cookie exchange.
pub const CLIENT_NONCE_LEN: usize = 32;

/// Relies on rand::thread_rng with Rng::fill: every byte of the result comes
/// from a cryptographically secure generator; nothing is known of their values.
#[verifier::external_body]
fn random_bytes(len: usize) -> (r: Vec<u8>)
    ensures
        r@.len() == len,
{
    let mut bytes = vec![0u8; len];
    rand::thread_rng().fill(&mut bytes[..]);
    bytes
}

/// A fresh client nonce.
pub fn new_client_nonce() -> (r: Vec<u8>)
    ensures
        r@.len() == CLIENT_NONCE_LEN,
{
    random_bytes(CLIENT_NONCE_LEN)
}

/// The first line at or after `i` that carries a server hash.
pub open spec fn challenge_line_from(lines: Seq<Seq<char>>, i: int) -> Option<Seq<char>>
    decreases lines.len() - i,
{
    if i < 0 || i >= lines.len() {
        None
    } else if contains(lines[i], "SERVERHASH="@) {
        Some(lines[i])
    } else {
        challenge_line_from(lines, i + 1)
    }
}

/// The value of the first token at or after `i` that starts with `key`.
pub open spec fn token_value(tokens: Seq<Seq<char>>, key: Seq<char>, i: int) -> Option<Seq<char>>
    decreases tokens.len() - i,
{
    if i < 0 || i >= tokens.len() {
        None
    } else if has_prefix(tokens[i], key) {
        Some(tokens[i].subrange(key.len() as int, tokens[i].len() as int))
    } else {
        token_value(tokens, key, i + 1)
    }
}

/// Server hash and server nonce of an `AUTHCHALLENGE` reply, where both are
/// present and hex.
pub open spec fn challenge_of(lines: Seq<Seq<char>>) -> Option<(Seq<u8>, Seq<u8>)> {
    match challenge_line_from(lines, 0) {
        Some(l) => {
            let ts = split_on(l, ' ');
            match (token_value(ts, "SERVERHASH="@, 0), token_value(ts, "SERVERNONCE="@, 0)) {
                (Some(h), Some(n)) => if is_hex_text(h) && is_hex_text(n) {
                    Some((hex_bytes(h), hex_bytes(n)))
                } else {
                    None
                },
                _ => None,
            }
        },
        None => None,
    }
}

/// What the daemon answered to the client's nonce.
pub struct Challenge {
    pub server_hash: Vec<u8>,
    pub server_nonce: Vec<u8>,
}

fn find_token(tokens: &Vec<String>, key: &str) -> (r: Option<String>)
    ensures
        opt_view(r) == token_value(views(tokens@), key@, 0),
{
    let ghost tv = views(tokens@);
    let mut i: usize = 0;
    while i < tokens.len()
        invariant
            i <= tokens@.len(),
            tv == views(tokens@),
            token_value(tv, key@, i as int) == token_value(tv, key@, 0),
        decreases tokens@.len() - i,
    {
        let t = tokens[i].as_str();
        if starts_with(t, key) {
            let n = t.unicode_len();
            let k = key.unicode_len();
            return Some(slice_string(t, k, n));
        }
        i = i + 1;
    }
    None
}

/// Parses the content of an `AUTHCHALLENGE` reply.
pub fn parse_challenge(lines: &[String]) -> (r: Result<Challenge, AuthError>)
    ensures
        match challenge_of(views(lines@)) {
            Some((h, n)) => r matches Ok(c) && c.server_hash@ == h && c.server_nonce@ == n,
            None => r == Err::<Challenge, AuthError>(AuthError::MalformedChallenge),
        },
{
    let ghost lv = views(lines@);
    let mut i: usize = 0;
    while i < lines.len()
        invariant
            i <= lines@.len(),
            lv == views(lines@),
            challenge_line_from(lv, i as int) == challenge_line_from(lv, 0),
        decreases lines@.len() - i,
    {
        let line = lines[i].as_str();
        if contains_exec(line, "SERVERHASH=") {
            let tokens = split_by(line, ' ');
            let hash = find_token(&tokens, "SERVERHASH=");
            let nonce = find_token(&tokens, "SERVERNONCE=");
            return match (hash, nonce) {
                (Some(h), Some(n)) => match (from_hex(h.as_str()), from_hex(n.as_str())) {
                    (Some(hb), Some(nb)) => Ok(Challenge { server_hash: hb, server_nonce: nb }),
                    _ => Err(AuthError::MalformedChallenge),
                },
                _ => Err(AuthError::MalformedChallenge),
            };
        }
        i = i + 1;
    }
    Err(AuthError::MalformedChallenge)
}

/// HMAC-SHA256 under the bytes of `key`, as the hmac and sha2 crates compute it.
pub uninterp spec fn hmac_sha256_of(key: Seq<char>, msg: Seq<u8>) -> Seq<u8>;

/// Relies on hmac::Hmac over sha2::Sha256: `new_from_slice` accepts a key of
/// any length (it never returns its error), and the tag has 32 bytes.
#[verifier::external_body]
fn hmac_sha256(key: &str, msg: &[u8]) -> (r: Vec<u8>)
    ensures
        r@ == hmac_sha256_of(key@, msg@),
        r@.len() == 32,
{
    let mut mac = <Hmac<Sha256> as Mac>::new_from_slice(key.as_bytes()).expect("any key length");
    mac.update(msg);
    mac.finalize().into_bytes().to_vec()
}

pub open spec fn server_to_controller_key() -> Seq<char> {
    "Tor safe cookie authentication server-to-controller hash"@
}

pub open spec fn controller_to_server_key() -> Seq<char> {
    "Tor safe cookie authentication controller-to-server hash"@
}

/// What both hashes of a safe-cookie exchange are computed over.
pub open spec fn safecookie_message(cookie: Seq<u8>, client_nonce: Seq<u8>, server_nonce: Seq<u8>) -> Seq<u8> {
    cookie + client_nonce + server_nonce
}

/// The hash by which the daemon proves that it knows the cookie.
pub open spec fn server_hash_of(cookie: Seq<u8>, client_nonce: Seq<u8>, server_nonce: Seq<u8>) -> Seq<u8> {
    hmac_sha256_of(server_to_controller_key(), safecookie_message(cookie, client_nonce, server_nonce))
}

/// The hash by which the client proves that it knows the cookie.
pub open spec fn client_hash_of(cookie: Seq<u8>, client_nonce: Seq<u8>, server_nonce: Seq<u8>) -> Seq<u8> {
    hmac_sha256_of(controller_to_server_key(), safecookie_message(cookie, client_nonce, server_nonce))
}

fn concat3(a: &[u8], b: &[u8], c: &[u8]) -> (r: Vec<u8>)
    ensures
        r@ == a@ + b@ + c@,
{
    let mut out: Vec<u8> = Vec::new();
    let mut i: usize = 0;
    while i < a.len()
        invariant
            i <= a@.len(),
            out@ == a@.take(i as int),
        decreases a@.len() - i,
    {
        out.push(a[i]);
        i = i + 1;
        assert(out@ =~= a@.take(i as int));
    }
    assert(a@.take(a@.len() as int) =~= a@);
    let mut j: usize = 0;
    while j < b.len()
        invariant
            j <= b@.len(),
            out@ == a@ + b@.take(j as int),
        decreases b@.len() - j,
    {
        out.push(b[j]);
        j = j + 1;
        assert(out@ =~= a@ + b@.take(j as int));
    }
    assert(b@.take(b@.len() as int) =~= b@);
    let mut k: usize = 0;
    while k < c.len()
        invariant
            k <= c@.len(),
            out@ == a@ + b@ + c@.take(k as int),
        decreases c@.len() - k,
    {
        out.push(c[k]);
        k = k + 1;
        assert(out@ =~= a@ + b@ + c@.take(k as int));
    }
    assert(c@.take(c@.len() as int) =~= c@);
    out
}

/// The server-to-controller hash of a safe-cookie exchange.
pub fn compute_server_hash(cookie: &[u8], client_nonce: &[u8], server_nonce: &[u8]) -> (r: Vec<u8>)
    ensures
        r@ == server_hash_of(cookie@, client_nonce@, server_nonce@),
        r@.len() == 32,
{
    let msg = concat3(cookie, client_nonce, server_nonce);
    hmac_sha256("Tor safe cookie authentication server-to-controller hash", msg.as_slice())
}

/// The controller-to-server hash of a safe-cookie exchange.
pub fn compute_client_hash(cookie: &[u8], client_nonce: &[u8], server_nonce: &[u8]) -> (r: Vec<u8>)
    ensures
        r@ == client_hash_of(cookie@, client_nonce@, server_nonce@),
        r@.len() == 32,
{
    let msg = concat3(cookie, client_nonce, server_nonce);
    hmac_sha256("Tor safe cookie authentication controller-to-server hash", msg.as_slice())
}

fn bytes_equal(a: &[u8], b: &[u8]) -> (r: bool)
    ensures
        r == (a@ == b@),
{
    if a.len() != b.len() {
        return false;
    }
    let mut i: usize = 0;
    while i < a.len()
        invariant
            i <= a@.len(),
            a@.len() == b@.len(),
            forall|j: int| 0 <= j < i ==> a@[j] == b@[j],
        decreases a@.len() - i,
    {
        if a[i] != b[i] {
            return false;
        }
        i = i + 1;
    }
    assert(a@ =~= b@);
    true
}

/// Checks the daemon's proof of the cookie and, only where it holds, gives the
/// command that proves the client's knowledge of it.
pub fn answer_challenge(cookie: &[u8], client_nonce: &[u8], challenge: &Challenge) -> (r: Result<String, AuthError>)
    ensures
        ({
            let sn = challenge.server_nonce@;
            if server_hash_of(cookie@, client_nonce@, sn) == challenge.server_hash@ {
                r matches Ok(cmd) && cmd@ == "AUTHENTICATE "@ + upper_hex(client_hash_of(cookie@, client_nonce@, sn))
            } else {
                r == Err::<String, AuthError>(AuthError::ServerHashMismatch)
            }
        }),
{
    let expected = compute_server_hash(cookie, client_nonce, challenge.server_nonce.as_slice());
    if !bytes_equal(expected.as_slice(), challenge.server_hash.as_slice()) {
        return Err(AuthError::ServerHashMismatch);
    }
    let client_hash = compute_client_hash(cookie, client_nonce, challenge.server_nonce.as_slice());
    Ok(cookie_command(client_hash.as_slice()))
}

/// Both safe-cookie hashes depend on the cookie and the two nonces alone, and
/// they are computed under two different keys.
pub proof fn lemma_safecookie_hashes(
    cookie: Seq<u8>,
    client_nonce: Seq<u8>,
    server_nonce: Seq<u8>,
    cookie2: Seq<u8>,
    client_nonce2: Seq<u8>,
    server_nonce2: Seq<u8>,
)
    requires
        cookie == cookie2,
        client_nonce == client_nonce2,
        server_nonce == server_nonce2,
    ensures
        server_hash_of(cookie, client_nonce, server_nonce) == server_hash_of(cookie2, client_nonce2, server_nonce2),
        client_hash_of(cookie, client_nonce, server_nonce) == client_hash_of(cookie2, client_nonce2, server_nonce2),
        server_to_controller_key() != controller_to_server_key(),
{
    reveal_strlit("Tor safe cookie authentication server-to-controller hash");
    reveal_strlit("Tor safe cookie authentication controller-to-server hash");
    assert(server_to_controller_key()[32] != controller_to_server_key()[32]);
}

/// A challenge whose server hash was computed under the controller-to-server
/// key fails the check of `answer_challenge`, wherever the two keys give
/// different tags for the message (a property of HMAC-SHA256 that is assumed
/// here, not proved).
pub proof fn lemma_swapped_key_rejected(cookie: Seq<u8>, client_nonce: Seq<u8>, server_nonce: Seq<u8>, received: Seq<u8>)
    requires
        received == client_hash_of(cookie, client_nonce, server_nonce),
        client_hash_of(cookie, client_nonce, server_nonce) != server_hash_of(cookie, client_nonce, server_nonce),
    ensures
        server_hash_of(cookie, client_nonce, server_nonce) != received,
{
}

} // verus!
