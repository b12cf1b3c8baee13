//! Build configuration read from a JSON description: a flat list of
//! options, each naming the scope it applies to. Classifying a scope is
//! the one decision made per option; applying it to the schema compiler
//! is the caller's affair.
use vstd::prelude::*;

verus! {

/// One option of the configuration.
pub struct BuildOption {
    /// scope of the attribute: `type`, `field`, `bytes` or `btree_map`
    pub scope: String,
    /// description of the option
    pub description: String,
    /// the full attribute text to put on the paths
    pub attr: String,
    /// the paths to put the attribute on
    pub paths: Vec<String>,
}

/// The whole build configuration.
pub struct BuildConfig {
    /// include dirs for the schema files
    pub includes: Vec<String>,
    /// the schema files
    pub files: Vec<String>,
    /// dir for generated code
    pub output: String,
    /// the options
    pub opts: Vec<BuildOption>,
}

impl Default for BuildOption {
    fn default() -> (d: Self)
        ensures
            d.scope@ == Seq::<char>::empty(),
            d.description@ == Seq::<char>::empty(),
            d.attr@ == Seq::<char>::empty(),
            d.paths@ == Seq::<String>::empty(),
    {
        BuildOption {
            scope: String::new(),
            description: String::new(),
            attr: String::new(),
            paths: Vec::new(),
        }
    }
}

impl Default for BuildConfig {
    fn default() -> (d: Self)
        ensures
            d.includes@ == Seq::<String>::empty(),
            d.files@ == Seq::<String>::empty(),
            d.output@ == Seq::<char>::empty(),
            d.opts@ == Seq::<BuildOption>::empty(),
    {
        BuildConfig {
            includes: Vec::new(),
            files: Vec::new(),
            output: String::new(),
            opts: Vec::new(),
        }
    }
}

/// What a scope name selects on the schema compiler.
#[derive(Clone, Copy, Debug, PartialEq, Eq, Structural)]
pub enum AttrScope {
    /// an attribute on a generated type
    Type,
    /// an attribute on a single field
    Field,
    /// byte fields of the named paths use the shared buffer type
    Bytes,
    /// maps of the named paths become ordered maps
    BtreeMap,
}

/// The classification of a scope name; any name but the four known ones
/// is unsupported.
pub open spec fn spec_scope_of(s: Seq<char>) -> Option<AttrScope> {
    if s == "type"@ {
        Some(AttrScope::Type)
    } else if s == "field"@ {
        Some(AttrScope::Field)
    } else if s == "bytes"@ {
        Some(AttrScope::Bytes)
    } else if s == "btree_map"@ {
        Some(AttrScope::BtreeMap)
    } else {
        None
    }
}

/// Classifies an option's scope name; `None` marks an unsupported scope,
/// which the caller surfaces as a hard configuration error.
pub fn classify_scope(scope: &String) -> (r: Option<AttrScope>)
    ensures
        r == spec_scope_of(scope@),
{
    proof {
        reveal_strlit("type");
        reveal_strlit("field");
        reveal_strlit("bytes");
        reveal_strlit("btree_map");
    }
    let ty = String::from_str("type");
    let field = String::from_str("field");
    let bytes = String::from_str("bytes");
    let btree = String::from_str("btree_map");
    if scope.eq(&ty) {
        Some(AttrScope::Type)
    } else if scope.eq(&field) {
        Some(AttrScope::Field)
    } else if scope.eq(&bytes) {
        Some(AttrScope::Bytes)
    } else if scope.eq(&btree) {
        Some(AttrScope::BtreeMap)
    } else {
        None
    }
}

} // verus!
