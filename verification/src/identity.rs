//! Who the endpoint acts for: the user who is logged in.
use vstd::prelude::*;

use crate::proto::Principal;
use crate::settings::{set_to, setting, shown};
use crate::text::own;

verus! {

/// The name for what is known of the user: an override as it is, a Windows user
/// with the domain where there is one, a Unix user, or a name that says that
/// nothing is known.
pub open spec fn principal_text(
    override_principal: Option<Seq<char>>,
    win_domain: Option<Seq<char>>,
    win_user: Option<Seq<char>>,
    unix_user: Option<Seq<char>>,
) -> Seq<char> {
    match override_principal {
        Some(p) => p,
        None => match (win_domain, win_user, unix_user) {
            (Some(d), Some(u), _) => d + "\\"@ + u,
            (None, Some(u), _) => u,
            (_, None, Some(u)) => u,
            (_, None, None) => "UNKNOWN\\user"@,
        },
    }
}

/// The name for what is known of the user.
pub fn principal_from_parts(
    override_principal: Option<String>,
    win_domain: Option<String>,
    win_user: Option<String>,
    unix_user: Option<String>,
) -> (r: String)
    ensures
        r@ == principal_text(shown(override_principal), shown(win_domain), shown(win_user), shown(unix_user)),
{
    if let Some(p) = override_principal {
        return p;
    }
    match (win_domain, win_user, unix_user) {
        (Some(d), Some(u), _) => {
            let mut s = d;
            s.append("\\");
            s.append(u.as_str());
            s
        },
        (None, Some(u), _) => u,
        (_, None, Some(u)) => u,
        (_, None, None) => own("UNKNOWN\\user"),
    }
}

/// The user who is logged in, as the environment has it.
pub fn logged_in_principal(vars: &Vec<(String, String)>) -> (r: Principal)
    ensures
        r@ == principal_text(
            set_to(vars@, "CHAPR_PRINCIPAL"@),
            set_to(vars@, "USERDOMAIN"@),
            set_to(vars@, "USERNAME"@),
            match set_to(vars@, "USER"@) {
                Some(u) => Some(u),
                None => set_to(vars@, "LOGNAME"@),
            },
        ),
{
    let unix_user = match setting(vars, "USER") {
        Some(u) => Some(u),
        None => setting(vars, "LOGNAME"),
    };
    Principal(
        principal_from_parts(
            setting(vars, "CHAPR_PRINCIPAL"),
            setting(vars, "USERDOMAIN"),
            setting(vars, "USERNAME"),
            unix_user,
        ),
    )
}

/// An override is taken as it is, whatever else is known of the user.
pub proof fn an_override_wins(p: Seq<char>, d: Option<Seq<char>>, u: Option<Seq<char>>, x: Option<Seq<char>>)
    ensures
        principal_text(Some(p), d, u, x) == p,
{
}

/// A Windows user is named before a Unix one, behind the domain and a backslash where
/// there is a domain; a domain alone names nobody. Users whose names differ have
/// different names here.
pub proof fn users_are_named_by_their_names(d: Seq<char>, u: Seq<char>, x: Option<Seq<char>>, any: Option<Seq<char>>)
    ensures
        principal_text(None, Some(d), Some(u), x) == d + seq!['\\'] + u,
        principal_text(None, None, Some(u), x) == u,
        principal_text(None, any, None, Some(u)) == u,
        principal_text(None, any, None, None) == principal_text(None, None, None, None),
{
    reveal_strlit("\\");
    assert("\\"@ =~= seq!['\\']);
}

} // verus!
