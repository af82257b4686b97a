//! Which interfaces are checked and which implementations are reported:
//! one pipeline, parameterized by the scope.
use vstd::prelude::*;
use crate::model::{Implementation, Interface};
use crate::pattern::{full_match, matches_whole, pattern_valid};

verus! {

/// The two analysis modes.
pub enum ScopePolicy {
    /// Interfaces declared in the analyzed unit and reachable from outside
    /// it; implementations declared in that unit.
    Local,
    /// Interfaces whose name matches the first pattern as a whole, and
    /// implementations from any unit whose name matches the second. Sound
    /// only when run on a unit whose instances subsume every unit of
    /// interest (the workspace's root); the caller answers for that.
    Workspace { interface_pattern: String, unit_pattern: String },
}

/// A configuration error, fatal before any analysis runs.
#[derive(Clone, Copy, Debug, PartialEq, Eq, Structural)]
pub enum ConfigError {
    InvalidInterfacePattern,
    InvalidUnitPattern,
}

/// How a finding reaches the host's diagnostics.
#[derive(Clone, Copy, Debug, PartialEq, Eq, Structural)]
pub enum Route {
    /// Through the analyzed unit's lint levels, so that allow/deny at the
    /// implementation applies.
    UnitLint,
    /// At the fixed default severity (warning), for implementations of
    /// another unit.
    DefaultWarn,
}

impl ScopePolicy {
    /// Both patterns of the workspace mode compile.
    pub open spec fn valid(&self) -> bool {
        match self {
            ScopePolicy::Local => true,
            ScopePolicy::Workspace { interface_pattern, unit_pattern } => pattern_valid(
                interface_pattern@,
            ) && pattern_valid(unit_pattern@),
        }
    }

    /// The interface is checked for unused implementations.
    pub open spec fn checks(&self, iface: Interface) -> bool {
        match self {
            ScopePolicy::Local => iface.local && iface.exported,
            ScopePolicy::Workspace { interface_pattern, .. } => full_match(
                interface_pattern@,
                iface.name@,
            ),
        }
    }

    /// Implementations declared where the policy looks for them.
    pub open spec fn sources(&self, imp: Implementation) -> bool {
        match self {
            ScopePolicy::Local => imp.local,
            ScopePolicy::Workspace { unit_pattern, .. } => full_match(unit_pattern@, imp.unit@),
        }
    }

    /// The first pattern that does not compile, if any.
    pub open spec fn config_error(&self) -> Option<ConfigError> {
        match self {
            ScopePolicy::Local => None,
            ScopePolicy::Workspace { interface_pattern, unit_pattern } => {
                if !pattern_valid(interface_pattern@) {
                    Some(ConfigError::InvalidInterfacePattern)
                } else if !pattern_valid(unit_pattern@) {
                    Some(ConfigError::InvalidUnitPattern)
                } else {
                    None
                }
            },
        }
    }

    /// Checks the patterns; the error names the first that does not compile.
    pub fn check(&self) -> (r: Result<(), ConfigError>)
        ensures
            r is Ok <==> self.valid(),
            self.config_error() is None ==> r is Ok,
            self.config_error() matches Some(e) ==> r == Err::<(), ConfigError>(e),
    {
        match self {
            ScopePolicy::Local => Ok(()),
            ScopePolicy::Workspace { interface_pattern, unit_pattern } => {
                if matches_whole(interface_pattern.as_str(), "").is_none() {
                    Err(ConfigError::InvalidInterfacePattern)
                } else if matches_whole(unit_pattern.as_str(), "").is_none() {
                    Err(ConfigError::InvalidUnitPattern)
                } else {
                    Ok(())
                }
            },
        }
    }

    /// Decides whether the interface is checked.
    pub fn is_checked(&self, iface: &Interface) -> (r: bool)
        requires
            self.valid(),
        ensures
            r == self.checks(*iface),
    {
        match self {
            ScopePolicy::Local => iface.local && iface.exported,
            ScopePolicy::Workspace { interface_pattern, .. } => {
                match matches_whole(interface_pattern.as_str(), iface.name.as_str()) {
                    Some(b) => b,
                    None => false,
                }
            },
        }
    }

    /// Decides whether the implementation's unit is one the policy reports on.
    pub fn is_source(&self, imp: &Implementation) -> (r: bool)
        requires
            self.valid(),
        ensures
            r == self.sources(*imp),
    {
        match self {
            ScopePolicy::Local => imp.local,
            ScopePolicy::Workspace { unit_pattern, .. } => {
                match matches_whole(unit_pattern.as_str(), imp.unit.as_str()) {
                    Some(b) => b,
                    None => false,
                }
            },
        }
    }
}

/// Local implementations go through the unit's lint levels; foreign ones
/// at the default severity.
pub open spec fn route_of(imp: Implementation) -> Route {
    if imp.local {
        Route::UnitLint
    } else {
        Route::DefaultWarn
    }
}

} // verus!
