//! Role and permission checks of the request boundary.

use vstd::prelude::*;

use crate::errors::SandboxError;
use crate::text::str_eq;

verus! {

/// The closed set of user roles.
#[derive(Debug, Clone, Copy, PartialEq, Eq, Structural)]
pub enum Role {
    Admin,
    Developer,
    Viewer,
}

/// What a request may ask of the system.
#[derive(Debug, Clone, Copy, PartialEq, Eq, Structural)]
pub enum Permission {
    FsRead,
    FsWrite,
    Execute,
    AgentView,
    AgentControl,
    LlmUse,
    LlmAdmin,
}

/// The role a label names, if any.
pub open spec fn role_of(s: Seq<char>) -> Option<Role> {
    if s == "admin"@ {
        Some(Role::Admin)
    } else if s == "developer"@ {
        Some(Role::Developer)
    } else if s == "viewer"@ {
        Some(Role::Viewer)
    } else {
        None
    }
}

impl Role {
    pub fn parse(value: &str) -> (r: Option<Role>)
        ensures
            r == role_of(value@),
    {
        if str_eq(value, "admin") {
            Some(Role::Admin)
        } else if str_eq(value, "developer") {
            Some(Role::Developer)
        } else if str_eq(value, "viewer") {
            Some(Role::Viewer)
        } else {
            None
        }
    }

    /// Which permissions the role grants: everyone reads and watches agents,
    /// admins and developers change and execute, only admins administer the
    /// model server.
    pub open spec fn spec_allows(self, permission: Permission) -> bool {
        match permission {
            Permission::FsRead | Permission::AgentView => true,
            Permission::FsWrite | Permission::Execute | Permission::AgentControl
                | Permission::LlmUse => self is Admin || self is Developer,
            Permission::LlmAdmin => self is Admin,
        }
    }

    pub fn allows(self, permission: Permission) -> (r: bool)
        ensures
            r == self.spec_allows(permission),
    {
        match permission {
            Permission::FsRead | Permission::AgentView => true,
            Permission::FsWrite | Permission::Execute | Permission::AgentControl
                | Permission::LlmUse => match self {
                Role::Admin | Role::Developer => true,
                Role::Viewer => false,
            },
            Permission::LlmAdmin => match self {
                Role::Admin => true,
                _ => false,
            },
        }
    }

    pub open spec fn spec_as_str(self) -> Seq<char> {
        match self {
            Role::Admin => "admin"@,
            Role::Developer => "developer"@,
            Role::Viewer => "viewer"@,
        }
    }

    pub fn as_str(self) -> (r: &'static str)
        ensures
            r@ == self.spec_as_str(),
    {
        match self {
            Role::Admin => "admin",
            Role::Developer => "developer",
            Role::Viewer => "viewer",
        }
    }
}

/// Accepts an absent role or one of the known labels; anything else is an
/// `InvalidOperation`.
pub fn validate_role(role: &Option<String>) -> (r: Result<(), SandboxError>)
    ensures
        role is None ==> r is Ok,
        role matches Some(s) ==> (r is Ok <==> role_of(s@) is Some),
        r matches Err(e) ==> e is InvalidOperation,
{
    match role {
        None => Ok(()),
        Some(s) => {
            if Role::parse(s.as_str()).is_some() {
                Ok(())
            } else {
                let mut msg = String::from_str("unsupported role '");
                msg.append(s.as_str());
                msg.append("'");
                Err(SandboxError::InvalidOperation(msg))
            }
        },
    }
}

} // verus!
