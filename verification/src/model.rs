//! The identity records exchanged with the directory service and the
//! reduced claims view of a user that is carried inside session tokens.
use vstd::prelude::*;

verus! {

/// A role as the directory service reports it.
pub struct Role {
    pub id: i32,
    pub name: String,
}

pub struct RoleView {
    pub id: i32,
    pub name: Seq<char>,
}

impl View for Role {
    type V = RoleView;

    open spec fn view(&self) -> RoleView {
        RoleView { id: self.id, name: self.name@ }
    }
}

/// A bare directory user record.
pub struct PubUser {
    pub id: i32,
    pub depends_on: i32,
    pub role_id: i32,
    pub user_token: Option<String>,
    pub created_at: i64,
    pub updated_at: i64,
}

/// A user's membership in one project.
pub struct UserProject {
    pub id: i32,
    pub user_id: i32,
    pub project_id: i32,
    pub active: bool,
    pub keys: Option<Vec<String>>,
    pub record: Option<String>,
}

/// The expanded directory record: the user together with its anchor
/// account, role and project membership.
pub struct PubUserExpanded {
    pub id: i32,
    pub depends_on: PubUser,
    pub role: Role,
    pub user_token: Option<String>,
    pub project: UserProject,
    pub created_at: i64,
    pub updated_at: i64,
}

/// The body sent to the directory's user-creation endpoint when a guest
/// identity is provisioned.
pub struct PubNewUser {
    pub depends_on: i32,
    pub role_id: i32,
    pub active: Option<bool>,
    pub project_id: i32,
}

/// The project fields that are kept inside session claims.
pub struct ProjectInClaims {
    pub id: i32,
    pub project_id: i32,
    pub active: bool,
}

pub struct ProjectInClaimsView {
    pub id: i32,
    pub project_id: i32,
    pub active: bool,
}

impl View for ProjectInClaims {
    type V = ProjectInClaimsView;

    open spec fn view(&self) -> ProjectInClaimsView {
        ProjectInClaimsView { id: self.id, project_id: self.project_id, active: self.active }
    }
}

/// The reduced projection of a directory identity that session tokens
/// carry: only what downstream authorization decisions need.
pub struct UserInClaims {
    pub id: i32,
    pub role: Role,
    pub project: ProjectInClaims,
    /// A forwardable capability credential. It must survive inside the
    /// refresh token and must never appear in an access token.
    pub user_token: Option<String>,
}

pub struct UserInClaimsView {
    pub id: i32,
    pub role: RoleView,
    pub project: ProjectInClaimsView,
    pub user_token: Option<Seq<char>>,
}

impl View for UserInClaims {
    type V = UserInClaimsView;

    open spec fn view(&self) -> UserInClaimsView {
        UserInClaimsView {
            id: self.id,
            role: self.role@,
            project: self.project@,
            user_token: match self.user_token {
                Some(ref t) => Some(t@),
                None => None,
            },
        }
    }
}

/// The full claims set of a session token: the user view plus the
/// token's expiry instant (seconds since the Unix epoch).
pub struct Claims {
    pub user: UserInClaims,
    pub exp: u64,
}

pub struct ClaimsView {
    pub user: UserInClaimsView,
    pub exp: u64,
}

impl View for Claims {
    type V = ClaimsView;

    open spec fn view(&self) -> ClaimsView {
        ClaimsView { user: self.user@, exp: self.exp }
    }
}

impl PubUserExpanded {
    /// The lossy, total conversion from the expanded directory record to
    /// the claims view: timestamps and the anchor account are dropped,
    /// the capability token and the authorization fields are kept.
    pub fn into_user_in_claims(self) -> (r: UserInClaims)
        ensures
            r.id == self.id,
            r.role@ == self.role@,
            r.project@ == (ProjectInClaimsView {
                id: self.project.id,
                project_id: self.project.project_id,
                active: self.project.active,
            }),
            r.user_token is Some <==> self.user_token is Some,
            r.user_token is Some ==> r.user_token->Some_0@ == self.user_token->Some_0@,
    {
        UserInClaims {
            id: self.id,
            role: self.role,
            project: ProjectInClaims {
                id: self.project.id,
                project_id: self.project.project_id,
                active: self.project.active,
            },
            user_token: self.user_token,
        }
    }
}

} // verus!
