//! A declared, typed contract for a program's invocation surface.
use vstd::prelude::*;

pub mod binding;
pub mod date;
pub mod ext;
pub mod from_raw;
pub mod input;
pub mod json;
pub mod laws;
pub mod lint;
pub mod model;
pub mod names;
pub mod problems;
pub mod record;
pub mod resolve;
pub mod scan;
pub mod report;
pub mod text;
pub mod version;
pub mod vocabulary;

pub use binding::{Arg, Env};
pub use date::ReviewDate;
pub use ext::{InputResolveDefaultExt, InputResolveExt};
pub use from_raw::{FromRaw, LogLevel, Tristate};
pub use input::{Input, NoCommand, Problem};
pub use json::{json_text_token, scalar_token, JsonValue};
pub use lint::{lint, Finding, Severity};
pub use problems::{should_exit, should_report, OnProblems};
pub use model::{check_gates, check_unique};
pub use resolve::{EnvVars, Invocation, Resolution, Resolved, Source};
pub use scan::Event;
pub use record::{ArgBinding, DeprecationRecord, EnvBinding, GateBinding, Record};
pub use version::{this_version, Version};
pub use vocabulary::{ConfigKeyRef, Deprecation, GatedBy, Since, Stability, Type};

verus! {
} // verus!
