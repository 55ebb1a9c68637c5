//! The credential: how it is asked for and how the answer is read.

use crate::text::{chars_of, string_of};
use vstd::prelude::*;

verus! {

/// The authorization endpoint.
pub const AUTH_URI: &'static str = "https://oauth.vk.com/authorize";

/// The address the endpoint redirects to once access is granted.
pub const REDIRECT_URI: &'static str = "https://oauth.vk.com/blank.html";

/// The application id.
pub const CLIENT_ID: &'static str = "7720259";

/// The permissions asked for.
pub const SCOPE: &'static str = "offline,friends,groups,photos,audio,video,stories,status,notes,wall";

/// The version of the remote API the requests are written for.
pub const API_VERSION: &'static str = "5.131";

/// Reasons an authorization answer is refused.
#[derive(Debug)]
pub enum AuthResponseParseError {
    /// There is no fragment after `#`.
    Malformed,
    /// The fragment gives no access token.
    NoAccessToken,
    /// The fragment gives no user id.
    NoUserId,
}

impl AuthResponseParseError {
    /// A sentence that says what is missing.
    pub fn message(&self) -> (r: String)
        ensures
            r@ == match self {
                AuthResponseParseError::Malformed => "No fragment part (#) in the source URI"@,
                AuthResponseParseError::NoAccessToken => "access_token is not set in URI fragment"@,
                AuthResponseParseError::NoUserId => "user_id is not set in URI fragment"@,
            },
    {
        match self {
            AuthResponseParseError::Malformed => "No fragment part (#) in the source URI".to_owned(),
            AuthResponseParseError::NoAccessToken => "access_token is not set in URI fragment".to_owned(),
            AuthResponseParseError::NoUserId => "user_id is not set in URI fragment".to_owned(),
        }
    }
}

/// A credential: bearer token, optional expiry (unix seconds) and subject id.
pub struct AuthResponse {
    access_token: String,
    expires_on: Option<i64>,
    user_id: String,
}

/// The first index of `c` in `s`.
pub open spec fn find_char(s: Seq<char>, c: char) -> Option<int>
    decreases s.len(),
{
    if s.len() == 0 {
        None
    } else if s[0] == c {
        Some(0)
    } else {
        match find_char(s.drop_first(), c) {
            Some(i) => Some(i + 1),
            None => None,
        }
    }
}

/// The value of a string of decimal digits.
pub open spec fn digits_value(d: Seq<char>) -> int
    decreases d.len(),
{
    if d.len() == 0 {
        0
    } else {
        digits_value(d.drop_last()) * 10 + (d.last() as u32 - '0' as u32)
    }
}

/// Every character is a decimal digit.
pub open spec fn all_digits(d: Seq<char>) -> bool {
    forall|i: int| 0 <= i < d.len() ==> '0' <= #[trigger] d[i] <= '9'
}

/// A decimal `i64` as `str::parse` reads it: an optional sign, then one or
/// more digits, the value in range.
pub open spec fn parse_i64_spec(s: Seq<char>) -> Option<i64> {
    let neg = s.len() > 0 && s[0] == '-';
    let d = if s.len() > 0 && (s[0] == '-' || s[0] == '+') {
        s.drop_first()
    } else {
        s
    };
    let v = if neg {
        -digits_value(d)
    } else {
        digits_value(d)
    };
    if d.len() == 0 || !all_digits(d) || v < i64::MIN || v > i64::MAX {
        None
    } else {
        Some(v as i64)
    }
}

/// Relies on `str::parse::<i64>`: an optional `+` or `-`, then decimal
/// digits, the value in range; anything else is an error.
#[verifier::external_body]
fn parse_i64(s: &str) -> (r: Option<i64>)
    ensures
        r == parse_i64_spec(s@),
{
    s.parse::<i64>().ok()
}

/// The fields read so far: token, expiry, user id.
pub type AuthFields = (Option<Seq<char>>, Option<i64>, Option<Seq<char>>);

/// One `name=value` part of the fragment applied to the fields read so
/// far. A part without `=` or with an empty value is skipped; a later value
/// replaces an earlier one; an expiry counts only when it is a positive
/// number of seconds whose sum with `now` fits.
pub open spec fn apply_part(st: AuthFields, part: Seq<char>, now: i64) -> AuthFields {
    match find_char(part, '=') {
        None => st,
        Some(e) => {
            let name = part.take(e);
            let value = part.skip(e + 1);
            if value.len() == 0 {
                st
            } else if name == "access_token"@ {
                (Some(value), st.1, st.2)
            } else if name == "expires_in"@ {
                match parse_i64_spec(value) {
                    Some(n) => if n > 0 && now + n <= i64::MAX {
                        (st.0, Some((now + n) as i64), st.2)
                    } else {
                        st
                    },
                    None => st,
                }
            } else if name == "user_id"@ {
                (st.0, st.1, Some(value))
            } else {
                st
            }
        },
    }
}

/// The fields read from a fragment, part after `&`-separated part.
pub open spec fn parse_parts(frag: Seq<char>, st: AuthFields, now: i64) -> AuthFields
    decreases frag.len(),
{
    match find_char(frag, '&') {
        None => apply_part(st, frag, now),
        Some(k) => if 0 <= k < frag.len() {
            parse_parts(frag.skip(k + 1), apply_part(st, frag.take(k), now), now)
        } else {
            st
        },
    }
}

/// The fragment of a URI: what follows its first `#`.
pub open spec fn fragment_of(uri: Seq<char>) -> Option<Seq<char>> {
    match find_char(uri, '#') {
        Some(p) => Some(uri.skip(p + 1)),
        None => None,
    }
}

/// Reading an authorization answer at unix time `now`: the fields of the
/// fragment, or the reason it is refused.
pub open spec fn parse_auth(uri: Seq<char>, now: i64) -> Result<AuthFields, AuthResponseParseError> {
    match fragment_of(uri) {
        None => Err(AuthResponseParseError::Malformed),
        Some(frag) => if frag.len() == 0 {
            Err(AuthResponseParseError::Malformed)
        } else {
            let st = parse_parts(frag, (None, None, None), now);
            if st.0 is None {
                Err(AuthResponseParseError::NoAccessToken)
            } else if st.2 is None {
                Err(AuthResponseParseError::NoUserId)
            } else {
                Ok(st)
            }
        },
    }
}

proof fn lemma_find_char_bounds(s: Seq<char>, c: char)
    ensures
        find_char(s, c) matches Some(i) ==> 0 <= i < s.len() && s[i] == c && forall|k: int|
            0 <= k < i ==> s[k] != c,
        find_char(s, c) is None ==> forall|k: int| 0 <= k < s.len() ==> s[k] != c,
    decreases s.len(),
{
    if s.len() > 0 {
        lemma_find_char_bounds(s.drop_first(), c);
        if s[0] != c {
            assert forall|k: int| 1 <= k < s.len() implies s[k] == s.drop_first()[k - 1] by {}
        }
    }
}

/// The first index at or after `from` where `c` stands, or the length.
fn index_of(chars: &Vec<char>, c: char, from: usize) -> (r: usize)
    requires
        from <= chars@.len(),
    ensures
        from <= r <= chars@.len(),
        forall|k: int| from <= k < r ==> chars@[k] != c,
        r < chars@.len() ==> chars@[r as int] == c,
{
    let mut i = from;
    while i < chars.len() && chars[i] != c
        invariant
            from <= i <= chars@.len(),
            forall|k: int| from <= k < i ==> chars@[k] != c,
        decreases chars@.len() - i,
    {
        i = i + 1;
    }
    i
}

/// `chars[from..to]` as a string.
fn substring(chars: &Vec<char>, from: usize, to: usize) -> (r: String)
    requires
        from <= to <= chars@.len(),
    ensures
        r@ == chars@.subrange(from as int, to as int),
{
    let mut v: Vec<char> = Vec::new();
    let mut i = from;
    while i < to
        invariant
            from <= i <= to,
            to <= chars@.len(),
            v@ == chars@.subrange(from as int, i as int),
        decreases to - i,
    {
        v.push(chars[i]);
        i = i + 1;
        assert(v@ =~= chars@.subrange(from as int, i as int));
    }
    string_of(&v)
}

/// The fields after one part, `chars[from..to]`, is applied.
fn apply_part_exec(
    chars: &Vec<char>,
    from: usize,
    to: usize,
    access_token: &mut Option<String>,
    expires_on: &mut Option<i64>,
    user_id: &mut Option<String>,
    now: i64,
)
    requires
        from <= to <= chars@.len(),
    ensures
        (opt_str(*final(access_token)), *final(expires_on), opt_str(*final(user_id))) == apply_part(
            (opt_str(*old(access_token)), *old(expires_on), opt_str(*old(user_id))),
            chars@.subrange(from as int, to as int),
            now,
        ),
{
    let ghost part = chars@.subrange(from as int, to as int);
    let eq = index_of(chars, '=', from);
    proof {
        lemma_find_char_bounds(part, '=');
    }
    if eq >= to {
        proof {
            if let Some(e) = find_char(part, '=') {
                assert(part[e] == chars@[from + e]);
            }
        }
        return ;
    }
    proof {
        if let Some(e) = find_char(part, '=') {
            assert(part[e] == chars@[from + e]);
            assert(e == eq - from) by {
                if e < eq - from {
                } else if e > eq - from {
                    assert(part[eq - from] == chars@[eq as int]);
                }
            }
        } else {
            assert(part[eq - from] == chars@[eq as int]);
        }
        assert(part.take(eq - from) =~= chars@.subrange(from as int, eq as int));
        assert(part.skip(eq - from + 1) =~= chars@.subrange(eq + 1, to as int));
    }
    if eq + 1 == to {
        return ;
    }
    let name = substring(chars, from, eq);
    let value = substring(chars, eq + 1, to);
    if name == "access_token".to_owned() {
        *access_token = Some(value);
    } else if name == "expires_in".to_owned() {
        match parse_i64(value.as_str()) {
            Some(n) => {
                if n > 0 && now <= i64::MAX - n {
                    *expires_on = Some(now + n);
                }
            },
            None => {},
        }
    } else if name == "user_id".to_owned() {
        *user_id = Some(value);
    }
}

/// The view of an optional string.
pub open spec fn opt_str(o: Option<String>) -> Option<Seq<char>> {
    match o {
        Some(s) => Some(s@),
        None => None,
    }
}

impl AuthResponse {
    /// The bearer token.
    pub closed spec fn token(&self) -> Seq<char> {
        self.access_token@
    }

    /// The expiry, unix seconds, if there is one.
    pub closed spec fn expiry(&self) -> Option<i64> {
        self.expires_on
    }

    /// The subject id.
    pub closed spec fn user(&self) -> Seq<char> {
        self.user_id@
    }

    /// A credential of the given fields.
    pub fn new(access_token: String, expires_on: Option<i64>, user_id: String) -> (r: AuthResponse)
        ensures
            r.token() == access_token@,
            r.expiry() == expires_on,
            r.user() == user_id@,
    {
        AuthResponse { access_token, expires_on, user_id }
    }

    /// A credential as the credential file holds it, where an expiry of 0
    /// or less stands for none.
    pub fn from_stored(access_token: String, expires_on: i64, user_id: String) -> (r: AuthResponse)
        ensures
            r.token() == access_token@,
            r.expiry() == if expires_on > 0 {
                Some(expires_on)
            } else {
                None
            },
            r.user() == user_id@,
    {
        let expires_on = if expires_on > 0 {
            Some(expires_on)
        } else {
            None
        };
        AuthResponse { access_token, expires_on, user_id }
    }

    /// The expiry as the credential file holds it: 0 for none.
    pub fn stored_expiry(&self) -> (r: i64)
        ensures
            r == match self.expiry() {
                Some(t) => t,
                None => 0,
            },
    {
        match self.expires_on {
            Some(t) => t,
            None => 0,
        }
    }

    /// The bearer token.
    pub fn get_access_token(&self) -> (r: &str)
        ensures
            r@ == self.token(),
    {
        self.access_token.as_str()
    }

    /// The expiry, unix seconds, if there is one.
    pub fn get_expires_on(&self) -> (r: Option<i64>)
        ensures
            r == self.expiry(),
    {
        self.expires_on
    }

    /// The subject id.
    pub fn get_user_id(&self) -> (r: &str)
        ensures
            r@ == self.user(),
    {
        self.user_id.as_str()
    }

    /// Reads the answer of the authorization endpoint, the redirect URI with
    /// `access_token`, `expires_in` and `user_id` in its fragment, at unix
    /// time `now`: an expiry in seconds becomes `now` plus those seconds.
    pub fn parse_at(uri: &str, now: i64) -> (r: Result<AuthResponse, AuthResponseParseError>)
        ensures
            match parse_auth(uri@, now) {
                Ok(st) => r matches Ok(a) && a.token() == st.0->0 && a.expiry() == st.1
                    && a.user() == st.2->0,
                Err(e) => r matches Err(e2) && e2 == e,
            },
    {
        let chars = chars_of(uri);
        let n = chars.len();
        let hash = index_of(&chars, '#', 0);
        proof {
            lemma_find_char_bounds(chars@, '#');
            assert(chars@.skip(0) =~= chars@);
            if let Some(p) = find_char(chars@, '#') {
                assert(p == hash) by {
                    if p < hash {
                    } else if p > hash {
                        assert(chars@[hash as int] == '#');
                    }
                }
            }
        }
        if hash >= n {
            return Err(AuthResponseParseError::Malformed);
        }
        if hash + 1 == n {
            assert(chars@.skip(hash + 1).len() == 0);
            return Err(AuthResponseParseError::Malformed);
        }
        let ghost frag = chars@.skip(hash + 1);
        let mut access_token: Option<String> = None;
        let mut expires_on: Option<i64> = None;
        let mut user_id: Option<String> = None;
        let mut start: usize = hash + 1;
        let mut done = false;
        while !done
            invariant
                hash + 1 <= start <= n,
                n == chars@.len(),
                frag == chars@.skip(hash + 1),
                !done ==> parse_parts(
                    chars@.skip(start as int),
                    (opt_str(access_token), expires_on, opt_str(user_id)),
                    now,
                ) == parse_parts(frag, (None, None, None), now),
                done ==> (opt_str(access_token), expires_on, opt_str(user_id)) == parse_parts(
                    frag,
                    (None, None, None),
                    now,
                ),
            decreases n - start + (if done {
                0int
            } else {
                1int
            }),
        {
            let ghost rest = chars@.skip(start as int);
            let ghost st = (opt_str(access_token), expires_on, opt_str(user_id));
            let amp = index_of(&chars, '&', start);
            proof {
                lemma_find_char_bounds(rest, '&');
                if let Some(k) = find_char(rest, '&') {
                    assert(k == amp - start) by {
                        if k < amp - start {
                            assert(rest[k] == chars@[start + k]);
                        } else if k > amp - start {
                            assert(rest[amp - start] == chars@[amp as int]);
                        }
                    }
                } else {
                    if amp < n {
                        assert(rest[amp - start] == chars@[amp as int]);
                    }
                }
                assert(rest.take(amp - start) =~= chars@.subrange(start as int, amp as int));
                if amp < n {
                    assert(rest.skip(amp - start + 1) =~= chars@.skip(amp + 1));
                } else {
                    assert(rest =~= chars@.subrange(start as int, amp as int));
                }
            }
            apply_part_exec(
                &chars,
                start,
                amp,
                &mut access_token,
                &mut expires_on,
                &mut user_id,
                now,
            );
            if amp >= n {
                done = true;
            } else {
                start = amp + 1;
            }
        }
        match (access_token, user_id) {
            (None, _) => Err(AuthResponseParseError::NoAccessToken),
            (Some(_), None) => Err(AuthResponseParseError::NoUserId),
            (Some(t), Some(u)) => Ok(AuthResponse { access_token: t, expires_on, user_id: u }),
        }
    }
}

impl Default for AuthResponse {
    /// An empty credential that never expires.
    fn default() -> (r: AuthResponse)
        ensures
            r.token().len() == 0,
            r.expiry() is None,
            r.user().len() == 0,
    {
        AuthResponse { access_token: String::new(), expires_on: None, user_id: String::new() }
    }
}

/// How a credential is described in logs, given the text of its expiry:
/// the user, the first six characters of the token, and until when it is
/// valid.
pub open spec fn auth_description(a: AuthResponse, until: Seq<char>) -> Seq<char> {
    let shown = if a.token().len() > 6 {
        a.token().take(6)
    } else {
        a.token()
    };
    "user "@ + a.user() + " with token "@ + shown + "... valid "@ + match a.expiry() {
        Some(_) => "until "@ + until,
        None => "forever"@,
    }
}

impl AuthResponse {
    /// A description for logs, with `until` for the text of the expiry.
    pub fn describe(&self, until: &str) -> (r: String)
        ensures
            r@ == auth_description(*self, until@),
    {
        let chars = chars_of(self.access_token.as_str());
        let n: usize = if chars.len() > 6 {
            6
        } else {
            chars.len()
        };
        let shown = substring(&chars, 0, n);
        proof {
            if chars@.len() <= 6 {
                assert(chars@.subrange(0, n as int) =~= chars@);
            } else {
                assert(chars@.subrange(0, 6) =~= chars@.take(6));
            }
        }
        let valid = match self.expires_on {
            Some(_) => "until ".to_owned().concat(until),
            None => "forever".to_owned(),
        };
        let r = "user ".to_owned().concat(self.user_id.as_str()).concat(" with token ").concat(
            shown.as_str(),
        ).concat("... valid ").concat(valid.as_str());
        assert(r@ =~= auth_description(*self, until@));
        r
    }
}

impl std::str::FromStr for AuthResponse {
    type Err = AuthResponseParseError;

    /// Reads an authorization answer at the current time.
    fn from_str(uri: &str) -> (r: Result<AuthResponse, AuthResponseParseError>)
        ensures
            exists|now: i64|
                match #[trigger] parse_auth(uri@, now) {
                    Ok(st) => r matches Ok(a) && a.token() == st.0->0 && a.expiry() == st.1
                        && a.user() == st.2->0,
                    Err(e) => r matches Err(e2) && e2 == e,
                },
    {
        let now = crate::datetime::unix_now();
        AuthResponse::parse_at(uri, now)
    }
}

/// The parameters of the authorization request, in order.
pub open spec fn auth_params() -> Seq<(Seq<char>, Seq<char>)> {
    seq![
        ("client_id"@, CLIENT_ID@),
        ("display"@, "page"@),
        ("redirect_uri"@, REDIRECT_URI@),
        ("scope"@, SCOPE@),
        ("response_type"@, "token"@),
        ("v"@, API_VERSION@),
    ]
}

/// `name=value` pairs joined by `&`.
pub open spec fn query_of(ps: Seq<(Seq<char>, Seq<char>)>) -> Seq<char>
    decreases ps.len(),
{
    if ps.len() == 0 {
        seq![]
    } else if ps.len() == 1 {
        ps[0].0 + seq!['='] + ps[0].1
    } else {
        query_of(ps.drop_last()) + seq!['&'] + ps.last().0 + seq!['='] + ps.last().1
    }
}

/// `s` begins with `prefix`.
pub open spec fn starts_with(s: Seq<char>, prefix: Seq<char>) -> bool {
    prefix.len() <= s.len() && s.take(prefix.len() as int) == prefix
}

/// The authorization request, and the test of its answer.
pub struct AccessTokenProvider;

impl AccessTokenProvider {
    /// The address of the authorization page: the endpoint, `?`, then the
    /// request parameters.
    pub fn get_auth_uri() -> (r: String)
        ensures
            r@ == AUTH_URI@ + seq!['?'] + query_of(auth_params()),
    {
        let names = ["client_id", "display", "redirect_uri", "scope", "response_type", "v"];
        let values = [CLIENT_ID, "page", REDIRECT_URI, SCOPE, "token", API_VERSION];
        let ghost ps = auth_params();
        assert(forall|k: int| 0 <= k < 6 ==> #[trigger] ps[k] == (names@[k]@, values@[k]@));
        let mut uri = AUTH_URI.to_owned();
        uri.push('?');
        let ghost head = uri@;
        let mut n: usize = 0;
        assert(ps.take(0) =~= Seq::<(Seq<char>, Seq<char>)>::empty());
        while n < 6
            invariant
                n <= 6,
                ps == auth_params(),
                ps.len() == 6,
                forall|k: int| 0 <= k < 6 ==> #[trigger] ps[k] == (names@[k]@, values@[k]@),
                uri@ == head + query_of(ps.take(n as int)),
                head == AUTH_URI@ + seq!['?'],
            decreases 6 - n,
        {
            if n > 0 {
                uri.push('&');
            }
            uri = uri.concat(names[n]);
            uri.push('=');
            uri = uri.concat(values[n]);
            proof {
                let t = ps.take(n + 1);
                assert(t.drop_last() =~= ps.take(n as int));
                assert(t.last() == ps[n as int]);
                if n == 0 {
                    assert(uri@ =~= head + query_of(t));
                } else {
                    assert(uri@ =~= head + query_of(t));
                }
            }
            n = n + 1;
        }
        assert(ps.take(6) =~= ps);
        uri
    }

    /// The page shown is the redirect that follows a granted access: the
    /// address has a fragment, and what precedes it begins with the redirect
    /// address.
    pub fn is_auth_succeeded_uri(uri: &str) -> (r: bool)
        ensures
            r == match find_char(uri@, '#') {
                Some(p) => starts_with(uri@.take(p), REDIRECT_URI@),
                None => false,
            },
    {
        let chars = chars_of(uri);
        let hash = index_of(&chars, '#', 0);
        proof {
            lemma_find_char_bounds(chars@, '#');
            if let Some(p) = find_char(chars@, '#') {
                assert(p == hash) by {
                    if p < hash {
                    } else if p > hash {
                        assert(chars@[hash as int] == '#');
                    }
                }
            }
        }
        if hash >= chars.len() {
            return false;
        }
        assert(find_char(chars@, '#') == Some(hash as int)) by {
            if find_char(chars@, '#') is None {
                assert(chars@[hash as int] == '#');
            }
        }
        let prefix = chars_of(REDIRECT_URI);
        assert(prefix@ == REDIRECT_URI@);
        if prefix.len() > hash {
            assert(chars@.take(hash as int).len() == hash);
            assert(!starts_with(chars@.take(hash as int), REDIRECT_URI@));
            return false;
        }
        let mut i: usize = 0;
        while i < prefix.len()
            invariant
                i <= prefix@.len(),
                prefix@.len() <= hash,
                hash < chars@.len(),
                chars@ == uri@,
                prefix@ == REDIRECT_URI@,
                find_char(chars@, '#') == Some(hash as int),
                forall|k: int| 0 <= k < i ==> prefix@[k] == chars@[k],
            decreases prefix@.len() - i,
        {
            if prefix[i] != chars[i] {
                assert(chars@.take(hash as int).take(prefix@.len() as int)[i as int] != prefix@[i as int]);
                return false;
            }
            i = i + 1;
        }
        assert(chars@.take(hash as int).take(prefix@.len() as int) =~= prefix@);
        true
    }
}

} // verus!
