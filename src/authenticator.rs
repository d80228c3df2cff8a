//! The authentication exchange as a state machine: the caller performs each
//! action (a command to send, a cookie file to read) and hands back what came
//! of it. Methods are tried in the order of the plan until one is accepted.
use vstd::prelude::*;
use crate::auth::{
    answer_challenge, auth_plan, challenge_command, challenge_of, client_hash_of, cookie_command,
    is_accepted, method_views, new_client_nonce, null_command, offer_of, parse_auth_offer,
    parse_challenge, plan_of, protocol_info_command, reply_is_ok, server_hash_of, AuthError,
    AuthMethod, MethodKind, CLIENT_NONCE_LEN,
};
use crate::hexcode::upper_hex;
use crate::text::views;

verus! {

/// What the caller is to do next.
pub enum AuthAction {
    /// Send this command and hand its reply content to `on_reply`.
    Send(String),
    /// Read this cookie file and hand its bytes, or `None`, to `on_cookie`.
    ReadCookie(String),
    Succeeded,
    Failed(AuthError),
}

/// What the exchange waits for.
#[derive(Debug, Clone, Copy, PartialEq, Eq, Structural)]
pub enum Stage {
    ProtocolInfo,
    Cookie,
    CookieReply,
    Challenge,
    ClientHashReply,
    NullReply,
    Done,
}

pub struct Authenticator {
    pub plan: Vec<AuthMethod>,
    /// The method being tried.
    pub next: usize,
    pub stage: Stage,
    pub cookie: Vec<u8>,
    pub client_nonce: Vec<u8>,
}

/// `stage` and `r` are how the method at `next` of `plan` starts, or the
/// failure of the whole exchange where no method is left.
pub open spec fn starts_method(plan: Seq<(MethodKind, Seq<char>)>, next: int, stage: Stage, r: AuthAction) -> bool {
    if next >= plan.len() {
        stage == Stage::Done && r == AuthAction::Failed(AuthError::AllMethodsFailed)
    } else if plan[next].0 == MethodKind::Null {
        stage == Stage::NullReply && (r matches AuthAction::Send(c) && c@ == "AUTHENTICATE"@)
    } else {
        stage == Stage::Cookie && (r matches AuthAction::ReadCookie(p) && p@ == plan[next].1)
    }
}

impl Authenticator {
    pub open spec fn plan_view(&self) -> Seq<(MethodKind, Seq<char>)> {
        method_views(self.plan@)
    }

    pub open spec fn wf(&self) -> bool {
        &&& self.next <= self.plan@.len()
        &&& (self.stage != Stage::ProtocolInfo && self.stage != Stage::Done) ==> self.next < self.plan@.len()
        &&& self.stage == Stage::Cookie ==> self.plan_view()[self.next as int].0 != MethodKind::Null
        &&& self.stage == Stage::CookieReply ==> self.plan_view()[self.next as int].0 == MethodKind::Cookie
        &&& self.stage == Stage::Challenge ==> self.plan_view()[self.next as int].0 == MethodKind::SafeCookie
        &&& self.stage == Stage::ClientHashReply ==> self.plan_view()[self.next as int].0 == MethodKind::SafeCookie
        &&& self.stage == Stage::NullReply ==> self.plan_view()[self.next as int].0 == MethodKind::Null
        &&& self.stage == Stage::Challenge ==> self.client_nonce@.len() == CLIENT_NONCE_LEN
    }

    /// Starts the exchange by asking what the daemon offers.
    pub fn new() -> (r: (Authenticator, AuthAction))
        ensures
            r.0.wf(),
            r.0.stage == Stage::ProtocolInfo,
                (r.1 matches AuthAction::Send(c) && c@ == "PROTOCOLINFO"@),
    {
        let a = Authenticator {
            plan: Vec::new(),
            next: 0,
            stage: Stage::ProtocolInfo,
            cookie: Vec::new(),
            client_nonce: Vec::new(),
        };
        (a, AuthAction::Send(protocol_info_command()))
    }

    fn start_method(&mut self) -> (r: AuthAction)
        requires
            old(self).next <= old(self).plan@.len(),
        ensures
            final(self).wf(),
            starts_method(final(self).plan_view(), final(self).next as int, final(self).stage, r),
            final(self).plan == old(self).plan,
            final(self).next == old(self).next,
            final(self).cookie == old(self).cookie,
    {
        if self.next >= self.plan.len() {
            self.stage = Stage::Done;
            return AuthAction::Failed(AuthError::AllMethodsFailed);
        }
        let ghost pv = self.plan_view();
        assert(pv[self.next as int] == (self.plan@[self.next as int].kind(), self.plan@[self.next as int].cookie_path()));
        match &self.plan[self.next] {
            AuthMethod::Null => {
                self.stage = Stage::NullReply;
                AuthAction::Send(null_command())
            },
            AuthMethod::Cookie { cookie_file } => {
                let p = cookie_file.clone();
                self.stage = Stage::Cookie;
                AuthAction::ReadCookie(p)
            },
            AuthMethod::SafeCookie { cookie_file } => {
                let p = cookie_file.clone();
                self.stage = Stage::Cookie;
                AuthAction::ReadCookie(p)
            },
        }
    }

    /// Takes the content of the `PROTOCOLINFO` reply and starts the first method.
    pub fn on_protocol_info(&mut self, lines: &[String]) -> (r: AuthAction)
        requires
            old(self).stage == Stage::ProtocolInfo,
        ensures
            final(self).wf(),
            ({
                let (ms, cookie) = offer_of(views(lines@));
                &&& final(self).plan_view() == plan_of(ms, cookie)
                &&& final(self).next == 0
                &&& starts_method(final(self).plan_view(), 0, final(self).stage, r)
            }),
    {
        let offer = parse_auth_offer(lines);
        self.plan = auth_plan(&offer);
        self.next = 0;
        self.start_method()
    }

    /// Takes the cookie that was read, or `None` where the file could not be read.
    pub fn on_cookie(&mut self, cookie: Option<Vec<u8>>) -> (r: AuthAction)
        requires
            old(self).wf(),
            old(self).stage == Stage::Cookie,
        ensures
            final(self).wf(),
            final(self).plan == old(self).plan,
            final(self).next == old(self).next,
            match cookie {
                None => final(self).stage == Stage::Done
                    && r == AuthAction::Failed(AuthError::CookieUnreadable),
                Some(b) => final(self).cookie@ == b@ && if old(self).plan_view()[old(self).next as int].0 == MethodKind::Cookie {
                    final(self).stage == Stage::CookieReply
                        && (r matches AuthAction::Send(c) && c@ == "AUTHENTICATE "@ + upper_hex(b@))
                } else {
                    final(self).stage == Stage::Challenge
                        && final(self).client_nonce@.len() == CLIENT_NONCE_LEN
                        && (r matches AuthAction::Send(c)
                        && c@ == "AUTHCHALLENGE SAFECOOKIE "@ + upper_hex(final(self).client_nonce@))
                },
            },
    {
        match cookie {
            None => {
                self.stage = Stage::Done;
                AuthAction::Failed(AuthError::CookieUnreadable)
            },
            Some(b) => {
                let ghost pv = self.plan_view();
                assert(pv[self.next as int] == (self.plan@[self.next as int].kind(), self.plan@[self.next as int].cookie_path()));
                let is_cookie = match &self.plan[self.next] {
                    AuthMethod::Cookie { .. } => true,
                    _ => false,
                };
                if is_cookie {
                    let cmd = cookie_command(b.as_slice());
                    self.cookie = b;
                    self.stage = Stage::CookieReply;
                    AuthAction::Send(cmd)
                } else {
                    let nonce = new_client_nonce();
                    let cmd = challenge_command(nonce.as_slice());
                    self.cookie = b;
                    self.client_nonce = nonce;
                    self.stage = Stage::Challenge;
                    AuthAction::Send(cmd)
                }
            },
        }
    }

    /// Takes the content of the reply to the last command sent. The client's
    /// hash is sent only after the daemon's hash has been checked.
    pub fn on_reply(&mut self, lines: &[String]) -> (r: AuthAction)
        requires
            old(self).wf(),
            old(self).stage == Stage::CookieReply || old(self).stage == Stage::Challenge
                || old(self).stage == Stage::ClientHashReply || old(self).stage == Stage::NullReply,
        ensures
            final(self).wf(),
            final(self).plan == old(self).plan,
            if old(self).stage == Stage::Challenge {
                let cookie = old(self).cookie@;
                let nonce = old(self).client_nonce@;
                match challenge_of(views(lines@)) {
                    None => final(self).stage == Stage::Done
                        && r == AuthAction::Failed(AuthError::MalformedChallenge),
                    Some((h, n)) => if server_hash_of(cookie, nonce, n) == h {
                        final(self).stage == Stage::ClientHashReply && final(self).next == old(self).next
                            && (r matches AuthAction::Send(c)
                            && c@ == "AUTHENTICATE "@ + upper_hex(client_hash_of(cookie, nonce, n)))
                    } else {
                        final(self).stage == Stage::Done
                            && r == AuthAction::Failed(AuthError::ServerHashMismatch)
                    },
                }
            } else if is_accepted(views(lines@)) {
                final(self).stage == Stage::Done && r == AuthAction::Succeeded
            } else {
                final(self).next == old(self).next + 1
                    && starts_method(final(self).plan_view(), final(self).next as int, final(self).stage, r)
            },
    {
        if self.stage == Stage::Challenge {
            match parse_challenge(lines) {
                Err(e) => {
                    self.stage = Stage::Done;
                    AuthAction::Failed(e)
                },
                Ok(ch) => match answer_challenge(self.cookie.as_slice(), self.client_nonce.as_slice(), &ch) {
                    Err(e) => {
                        self.stage = Stage::Done;
                        AuthAction::Failed(e)
                    },
                    Ok(cmd) => {
                        self.stage = Stage::ClientHashReply;
                        AuthAction::Send(cmd)
                    },
                },
            }
        } else if reply_is_ok(lines) {
            self.stage = Stage::Done;
            AuthAction::Succeeded
        } else {
            let tried = self.next;
            assert(tried < self.plan.len());
            self.next = tried + 1;
            self.start_method()
        }
    }
}

} // verus!
