//! How the coordinator is addressed, and what its failures mean.
use vstd::prelude::*;

use crate::pathgrammar::without_trailing;
use crate::proto::ChaprError;
use crate::text::{chars_of, join, joined, mentions, own, slice_of, spelled, trim, trimmed, views};

verus! {

/// The variable that names a certificate to be trusted.
pub const CA_CERT_ENV: &'static str = "CHAPR_COORD_CA_CERT";

/// How long a connection may take, in seconds.
pub const CONNECT_TIMEOUT_SECS: u64 = 3;

/// How long a request may take, in seconds.
pub const REQUEST_TIMEOUT_SECS: u64 = 120;

/// Where the coordinator is, and as whom it is spoken to.
pub struct CoordClient {
    /// Its address, without a slash at the end.
    pub base: String,
    /// The user that the endpoint acts for.
    pub principal: Option<String>,
    /// The deployment's secret.
    pub token: Option<String>,
}

impl CoordClient {
    /// A coordinator at an address.
    pub fn new(base_url: &str) -> (r: CoordClient)
        ensures
            r.base@ == without_trailing(base_url@, '/'),
            r.principal is None,
            r.token is None,
    {
        let v = chars_of(base_url);
        let mut to: usize = v.len();
        assert(v@.take(v@.len() as int) =~= v@);
        while to > 0 && v[to - 1] == '/'
            invariant
                to <= v@.len(),
                without_trailing(v@, '/') == without_trailing(v@.take(to as int), '/'),
            decreases to,
        {
            assert(v@.take(to as int).drop_last() =~= v@.take(to - 1));
            to = to - 1;
        }
        assert(v@.subrange(0, to as int) =~= v@.take(to as int));
        CoordClient { base: spelled(slice_of(&v, 0, to).as_slice()), principal: None, token: None }
    }

    /// The same coordinator, spoken to on behalf of a user.
    pub fn with_principal(self, principal: &str) -> (r: CoordClient)
        ensures
            r.base == self.base,
            r.token == self.token,
            r.principal matches Some(p) && p@ == principal@,
    {
        CoordClient { base: self.base, principal: Some(own(principal)), token: self.token }
    }

    /// The same coordinator, spoken to with a secret. A blank one is none.
    pub fn with_token(self, token: &str) -> (r: CoordClient)
        ensures
            r.base == self.base,
            r.principal == self.principal,
            if trimmed(token@).len() == 0 {
                r.token is None
            } else {
                r.token matches Some(t) && t@ == trimmed(token@)
            },
    {
        let t = trim(token);
        let token = if t.as_str().is_empty() { None } else { Some(t) };
        CoordClient { base: self.base, principal: self.principal, token }
    }

    /// The address of a route.
    pub fn url(&self, path: &str) -> (r: String)
        ensures
            r@ == self.base@ + path@,
    {
        let mut s = self.base.clone();
        s.append(path);
        s
    }

    /// The header that presents the secret.
    pub fn authorization(&self) -> (r: Option<String>)
        ensures
            match self.token {
                Some(t) => r matches Some(h) && h@ == "Bearer "@ + t@,
                None => r is None,
            },
    {
        match &self.token {
            Some(t) => {
                let mut s = own("Bearer ");
                s.append(t.as_str());
                Some(s)
            },
            None => None,
        }
    }
}

/// Whether a text holds another.
pub open spec fn holds(s: Seq<char>, part: Seq<char>) -> bool {
    exists|i: int| 0 <= i && i + part.len() <= s.len() && #[trigger] s.subrange(i, i + part.len()) == part
}

fn same_at(s: &Vec<char>, part: &Vec<char>, at: usize) -> (r: bool)
    requires
        at + part@.len() <= s@.len(),
    ensures
        r == (s@.subrange(at as int, at + part@.len()) == part@),
{
    let n = s.len();
    let mut k: usize = 0;
    while k < part.len()
        invariant
            n == s@.len(),
            k <= part@.len(),
            at + part@.len() <= n,
            forall|m: int| 0 <= m < k ==> s@[at + m] == part@[m],
        decreases part@.len() - k,
    {
        if s[at + k] != part[k] {
            assert(s@.subrange(at as int, at + part@.len())[k as int] != part@[k as int]);
            return false;
        }
        k = k + 1;
    }
    assert(s@.subrange(at as int, at + part@.len()) =~= part@);
    true
}

/// Whether a text holds another.
pub fn contains(s: &str, part: &str) -> (r: bool)
    ensures
        r == holds(s@, part@),
{
    let v = chars_of(s);
    let p = chars_of(part);
    if p.len() > v.len() {
        return false;
    }
    let last: usize = v.len() - p.len();
    let mut i: usize = 0;
    loop
        invariant
            v@ == s@,
            p@ == part@,
            p@.len() <= v@.len(),
            last == v@.len() - p@.len(),
            i <= last,
            forall|k: int| 0 <= k < i ==> #[trigger] v@.subrange(k, k + p@.len()) != p@,
        decreases last - i,
    {
        if same_at(&v, &p, i) {
            assert(s@.subrange(i as int, i + part@.len()) == part@);
            return true;
        }
        if i == last {
            return false;
        }
        i = i + 1;
    }
}

/// An ASCII letter in lower case; any other character as it is.
pub open spec fn ascii_lower(c: char) -> char {
    if c == 'A' { 'a' } else if c == 'B' { 'b' } else if c == 'C' { 'c' } else if c == 'D' { 'd' }
    else if c == 'E' { 'e' } else if c == 'F' { 'f' } else if c == 'G' { 'g' } else if c == 'H' { 'h' }
    else if c == 'I' { 'i' } else if c == 'J' { 'j' } else if c == 'K' { 'k' } else if c == 'L' { 'l' }
    else if c == 'M' { 'm' } else if c == 'N' { 'n' } else if c == 'O' { 'o' } else if c == 'P' { 'p' }
    else if c == 'Q' { 'q' } else if c == 'R' { 'r' } else if c == 'S' { 's' } else if c == 'T' { 't' }
    else if c == 'U' { 'u' } else if c == 'V' { 'v' } else if c == 'W' { 'w' } else if c == 'X' { 'x' }
    else if c == 'Y' { 'y' } else if c == 'Z' { 'z' } else { c }
}

fn lower(c: char) -> (r: char)
    ensures
        r == ascii_lower(c),
{
    if c == 'A' { 'a' } else if c == 'B' { 'b' } else if c == 'C' { 'c' } else if c == 'D' { 'd' }
    else if c == 'E' { 'e' } else if c == 'F' { 'f' } else if c == 'G' { 'g' } else if c == 'H' { 'h' }
    else if c == 'I' { 'i' } else if c == 'J' { 'j' } else if c == 'K' { 'k' } else if c == 'L' { 'l' }
    else if c == 'M' { 'm' } else if c == 'N' { 'n' } else if c == 'O' { 'o' } else if c == 'P' { 'p' }
    else if c == 'Q' { 'q' } else if c == 'R' { 'r' } else if c == 'S' { 's' } else if c == 'T' { 't' }
    else if c == 'U' { 'u' } else if c == 'V' { 'v' } else if c == 'W' { 'w' } else if c == 'X' { 'x' }
    else if c == 'Y' { 'y' } else if c == 'Z' { 'z' } else { c }
}

/// A text with its ASCII letters in lower case.
pub open spec fn lowered_ascii(s: Seq<char>) -> Seq<char> {
    s.map_values(|c: char| ascii_lower(c))
}

/// The text with its ASCII letters in lower case.
pub fn to_ascii_lowercase(s: &str) -> (r: String)
    ensures
        r@ == lowered_ascii(s@),
{
    let v = chars_of(s);
    let mut r = String::new();
    let mut i: usize = 0;
    while i < v.len()
        invariant
            v@ == s@,
            i <= v@.len(),
            r@ == lowered_ascii(v@.take(i as int)),
        decreases v@.len() - i,
    {
        r.push(lower(v[i]));
        i = i + 1;
        assert(r@ =~= lowered_ascii(v@.take(i as int)));
    }
    assert(v@.take(v@.len() as int) =~= v@);
    r
}

/// Why a request did not get through: the failure and what caused it, down to
/// the bottom.
pub fn transport_cause(chain: &Vec<String>) -> (r: String)
    ensures
        r@ == joined(views(chain@), ": "@),
{
    join(chain.as_slice(), ": ")
}

/// Whether a request failed because the coordinator's certificate is not
/// trusted.
pub open spec fn is_distrust(cause: Seq<char>) -> bool {
    let c = lowered_ascii(cause);
    holds(c, "certificate"@) || holds(c, "unknownissuer"@) || holds(c, "notvalidforname"@)
}

/// Whether a request failed because the coordinator's certificate is not
/// trusted.
pub fn is_trust_failure(cause: &str) -> (r: bool)
    ensures
        r == is_distrust(cause@),
{
    let c = to_ascii_lowercase(cause);
    contains(c.as_str(), "certificate") || contains(c.as_str(), "unknownissuer") || contains(
        c.as_str(),
        "notvalidforname",
    )
}

/// What is said of a certificate that is not trusted, up to the cause.
pub const DISTRUST_TEXT: &'static str = "the coordinator answered, but this machine does not trust its TLS certificate. Install that certificate — or the CA that issued it — in this machine's trusted root store, or set CHAPR_COORD_CA_CERT to the path of the certificate file. The service itself is running; nothing is wrong with the port or the URL. (";

/// What a failed request for the coordinator's health means. A certificate that
/// is not trusted is not the same as a coordinator that is not there.
pub fn probe_failure(cause: &str) -> (r: ChaprError)
    ensures
        if is_distrust(cause@) {
            r matches ChaprError::Internal { message } && message@ == DISTRUST_TEXT@ + cause@ + ")"@
        } else {
            r == ChaprError::CoordUnreachable
        },
{
    if !is_trust_failure(cause) {
        return ChaprError::CoordUnreachable;
    }
    let mut message = own(DISTRUST_TEXT);
    message.append(cause);
    message.append(")");
    ChaprError::Internal { message }
}

/// What the coordinator's answer about its health means.
pub fn health(success: bool, status: &str) -> (r: Result<(), ChaprError>)
    ensures
        if success {
            r is Ok
        } else {
            r matches Err(ChaprError::Internal { message }) && message@ == "coord answered /healthz with HTTP "@ + status@
        },
{
    if success {
        Ok(())
    } else {
        let mut message = own("coord answered /healthz with HTTP ");
        message.append(status);
        Err(ChaprError::Internal { message })
    }
}

/// What a refusal by the coordinator means: what its body says, or else that it
/// refused.
pub fn parse_error(status: &str, body: Option<ChaprError>) -> (r: ChaprError)
    ensures
        match body {
            Some(e) => r == e,
            None => r matches ChaprError::Internal { message } && message@ == "coord returned HTTP "@ + status@,
        },
{
    match body {
        Some(e) => e,
        None => {
            let mut message = own("coord returned HTTP ");
            message.append(status);
            ChaprError::Internal { message }
        },
    }
}

/// What a reply that cannot be read means.
pub fn undecodable(why: &str) -> (r: ChaprError)
    ensures
        r matches ChaprError::Internal { message } && message@ == "coord response decode failed: "@ + why@,
{
    let mut message = own("coord response decode failed: ");
    message.append(why);
    ChaprError::Internal { message }
}

/// What is said of a coordinator that cannot note a move, up to its own words.
pub const OLD_COORD_TEXT: &'static str = "this coordinator has no /move/open route, so it is older than this endpoint. A move records its intent before renaming, so that an interrupted move can be finished; without the route it cannot, and the move is refused rather than made unrecoverable. Update the coordinator first, then the endpoints. (";

/// Whether a reply says that the coordinator has no such route.
pub open spec fn is_missing_route(r: Result<(), ChaprError>) -> bool {
    r matches Err(ChaprError::Internal { message }) && holds(message@, "404"@)
}

/// What the reply to the note of a move means. A coordinator without the route
/// is an old one, and says so.
pub fn open_move_reply(reply: Result<(), ChaprError>) -> (r: Result<(), ChaprError>)
    ensures
        if is_missing_route(reply) {
            match reply {
                Err(ChaprError::Internal { message: words }) => r matches Err(ChaprError::Internal { message })
                    && message@ == OLD_COORD_TEXT@ + words@ + ")"@,
                _ => true,
            }
        } else {
            r == reply
        },
{
    match reply {
        Err(ChaprError::Internal { message }) => if contains(message.as_str(), "404") {
            let mut told = own(OLD_COORD_TEXT);
            told.append(message.as_str());
            told.append(")");
            Err(ChaprError::Internal { message: told })
        } else {
            Err(ChaprError::Internal { message })
        },
        other => other,
    }
}

/// Lowering a text changes its ASCII capitals to the small letters, thirty-two further on,
/// and nothing else.
pub proof fn lowering_changes_capitals_alone(s: Seq<char>, i: int)
    requires
        0 <= i < s.len(),
    ensures
        lowered_ascii(s).len() == s.len(),
        'A' <= s[i] <= 'Z' ==> lowered_ascii(s)[i] as u32 == s[i] as u32 + 32,
        !('A' <= s[i] <= 'Z') ==> lowered_ascii(s)[i] == s[i],
{
}

/// A text holds a part exactly where the part stands somewhere in it.
pub proof fn holding_is_mentioning(before: Seq<char>, part: Seq<char>, behind: Seq<char>)
    ensures
        holds(before + part + behind, part),
{
    let s = before + part + behind;
    let at = before.len() as int;
    assert(s.subrange(at, at + part.len()) =~= part);
}

/// What is held stands somewhere, with something before it and something behind.
pub proof fn what_is_held_stands_there(s: Seq<char>, part: Seq<char>)
    requires
        holds(s, part),
    ensures
        mentions(s, part),
{
    let at = choose|at: int| 0 <= at && at + part.len() <= s.len() && #[trigger] s.subrange(at, at + part.len()) == part;
    assert(s =~= s.take(at) + part + s.skip(at + part.len()));
}

/// A failure that speaks of a certificate, in whatever case, is a matter of trust.
pub proof fn certificates_are_a_matter_of_trust(before: Seq<char>, word: Seq<char>, behind: Seq<char>)
    requires
        lowered_ascii(word) == "certificate"@ || lowered_ascii(word) == "unknownissuer"@ || lowered_ascii(word) == "notvalidforname"@,
    ensures
        is_distrust(before + word + behind),
{
    let s = before + word + behind;
    assert(lowered_ascii(s) =~= lowered_ascii(before) + lowered_ascii(word) + lowered_ascii(behind));
    holding_is_mentioning(lowered_ascii(before), lowered_ascii(word), lowered_ascii(behind));
}

/// A coordinator that answers the note of a move with 404 has no such route; any other
/// answer is taken as it is.
pub proof fn a_missing_route_says_404(before: Seq<char>, behind: Seq<char>, message: String, r: Result<(), ChaprError>)
    ensures
        message@ == before + seq!['4', '0', '4'] + behind ==> is_missing_route(Err(ChaprError::Internal { message })),
        is_missing_route(r) ==> (r matches Err(ChaprError::Internal { message: m }) && mentions(m@, seq!['4', '0', '4'])),
{
    reveal_strlit("404");
    assert("404"@ =~= seq!['4', '0', '4']);
    holding_is_mentioning(before, "404"@, behind);
    if let Err(ChaprError::Internal { message: m }) = r {
        if holds(m@, "404"@) {
            what_is_held_stands_there(m@, "404"@);
        }
    }
}

} // verus!
