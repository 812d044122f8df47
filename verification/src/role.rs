//! The node's role: a collator cannot run as a light client.

use vstd::prelude::*;
use vstd::string::StringExecFns;

verus! {

/// The role under which the node was started.
#[derive(Clone, Copy, Debug, PartialEq, Eq, Structural)]
pub enum Role {
    /// A full node.
    Full,
    /// A light client.
    Light,
    /// A full node that also authors blocks.
    Authority,
}

/// The node is configured in a way under which no collator can run. The
/// operator has to change the configuration: nothing is retried.
#[derive(Clone, Copy, Debug, PartialEq, Eq, Structural)]
pub enum ConfigurationError {
    /// The role of the node is not supported.
    RoleNotSupported(Role),
}

impl ConfigurationError {
    /// The words that tell the operator what is wrong.
    pub fn message(&self) -> (text: String)
        ensures
            text@ == "Light client not supported"@,
    {
        String::from_str("Light client not supported")
    }
}

/// What [`check`] returns, as a function of the role.
pub open spec fn check_spec(role: Role) -> Result<(), ConfigurationError> {
    if role is Light {
        Err(ConfigurationError::RoleNotSupported(role))
    } else {
        Ok(())
    }
}

/// Lets every role pass but that of a light client, for which it returns
/// the error that names the role.
pub fn check(role: Role) -> (outcome: Result<(), ConfigurationError>)
    ensures
        outcome == check_spec(role),
        outcome is Err <==> role is Light,
{
    match role {
        Role::Light => Err(ConfigurationError::RoleNotSupported(role)),
        _ => Ok(()),
    }
}

} // verus!
