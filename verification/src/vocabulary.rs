//! The vocabulary a declaration is written in: [`Type`], [`Stability`],
//! [`Since`], [`Deprecation`], [`ConfigKeyRef`] and [`GatedBy`].
use vstd::prelude::*;
use crate::version::Version;

verus! {

/// The kind of value an input takes. It also fixes the arity of the argument
/// form: none for [`Type::Bool`], one for everything else.
#[derive(Clone, Copy, Debug, PartialEq, Eq, Structural)]
pub enum Type {
    String,
    Bool,
    Int,
    Uint,
    Path,
    Enum,
    List,
}

impl Type {
    /// The name written into the portable contract.
    pub open spec fn spec_name(self) -> Seq<char> {
        match self {
            Type::String => "string"@,
            Type::Bool => "bool"@,
            Type::Int => "int"@,
            Type::Uint => "uint"@,
            Type::Path => "path"@,
            Type::Enum => "enum"@,
            Type::List => "list"@,
        }
    }

    /// The name written into the portable contract, e.g. `"bool"`.
    pub fn as_str(&self) -> (r: &'static str)
        ensures
            r@ == self.spec_name(),
    {
        match self {
            Type::String => "string",
            Type::Bool => "bool",
            Type::Int => "int",
            Type::Uint => "uint",
            Type::Path => "path",
            Type::Enum => "enum",
            Type::List => "list",
        }
    }
}

/// How much a consumer may rely on an input.
#[derive(Clone, Copy, Debug, PartialEq, Eq, Structural)]
pub enum Stability {
    Unknown,
    Experimental,
    Stable,
    Deprecated,
}

impl Stability {
    pub open spec fn spec_name(self) -> Seq<char> {
        match self {
            Stability::Unknown => "unknown"@,
            Stability::Experimental => "experimental"@,
            Stability::Stable => "stable"@,
            Stability::Deprecated => "deprecated"@,
        }
    }

    /// The name written into the portable contract, e.g. `"stable"`.
    pub fn as_str(&self) -> (r: &'static str)
        ensures
            r@ == self.spec_name(),
    {
        match self {
            Stability::Unknown => "unknown",
            Stability::Experimental => "experimental",
            Stability::Stable => "stable",
            Stability::Deprecated => "deprecated",
        }
    }
}

/// The release in which an input was introduced.
#[derive(Clone, Copy, Debug, PartialEq, Eq, Structural)]
pub enum Since {
    /// Nobody recorded it.
    Unknown,
    /// Introduced in this release.
    Release(Version),
}

impl Since {
    pub open spec fn spec_resolve(self) -> Option<Version> {
        match self {
            Since::Unknown => None,
            Since::Release(v) => Some(v),
        }
    }

    /// The release, where one is recorded.
    pub fn resolve(&self) -> (r: Option<Version>)
        ensures
            r == self.spec_resolve(),
    {
        match self {
            Since::Unknown => None,
            Since::Release(v) => Some(*v),
        }
    }
}

/// Why and since when an input is deprecated.
#[derive(Clone, Copy, Debug)]
pub struct Deprecation {
    /// The release that deprecated it.
    pub since: Version,
    /// The key of the input that replaces it, if any.
    pub replacement: Option<&'static str>,
    /// A note for readers.
    pub note: &'static str,
}

/// A key in another configuration surface that an input bridges to.
#[derive(Clone, Copy, Debug)]
pub struct ConfigKeyRef(pub &'static str);

/// Scopes an input to one branch of the program: it is active only when the
/// selector (the single ungated enum positional) resolved to `value`.
#[derive(Clone, Copy, Debug)]
pub struct GatedBy {
    /// The selector token that selects the branch, e.g. `"add"`.
    pub value: &'static str,
    /// The prefix every environment name of the input carries, e.g.
    /// `"APP_ADD_"`.
    pub env_prefix: &'static str,
}

} // verus!
