//! The parsed RTIC application, as the code generator reads it.
use vstd::prelude::*;

verus! {

/// A field of the `#[shared]` or of the `#[local]` struct.
pub struct Resource {
    /// The `#[cfg(..)]` attributes on the field, as source text.
    pub cfgs: Vec<String>,
}

/// A field of the `#[shared]` struct.
pub type SharedResource = Resource;

/// A field of the `#[local]` struct.
pub type LocalResource = Resource;

/// A parsed `#[app]` module.
pub struct App {
    /// The name of the application module.
    pub name: String,
    /// The path of the device crate (`device = ..`).
    pub device: String,
    /// Whether the core peripherals are taken (`peripherals = true`).
    pub core: bool,
    /// The shared resources, in declaration order, each with its name.
    pub shared_resources: Vec<(String, SharedResource)>,
    /// The local resources, in declaration order, each with its name.
    pub local_resources: Vec<(String, LocalResource)>,
    /// The `use` items of the module, as source text.
    pub user_imports: Vec<String>,
    /// The other items of the module, as source text.
    pub user_code: Vec<String>,
}

/// Whether `name` can be a resource name: an identifier, which is never
/// empty and never holds a `.`.
pub open spec fn is_resource_name(name: Seq<char>) -> bool {
    name.len() > 0 && forall|i: int| 0 <= i < name.len() ==> name[i] != '.'
}

impl App {
    /// The resource maps of a parsed application: each name is an
    /// identifier and no name occurs twice within the shared or within the
    /// local resources.
    pub open spec fn wf(&self) -> bool {
        &&& forall|i: int|
            0 <= i < self.shared_resources.len() ==> is_resource_name(
                #[trigger] self.shared_resources@[i].0@,
            )
        &&& forall|i: int, j: int|
            0 <= i < j < self.shared_resources.len() ==> #[trigger] self.shared_resources@[i].0@
                != #[trigger] self.shared_resources@[j].0@
        &&& forall|i: int|
            0 <= i < self.local_resources.len() ==> is_resource_name(
                #[trigger] self.local_resources@[i].0@,
            )
        &&& forall|i: int, j: int|
            0 <= i < j < self.local_resources.len() ==> #[trigger] self.local_resources@[i].0@
                != #[trigger] self.local_resources@[j].0@
    }
}

/// What the parser learned of the application before code generation.
pub struct SyntaxAnalysis {
    /// The names of the shared resources that some task uses.
    pub shared_resources: Vec<String>,
    /// The names of the local resources that some task uses.
    pub local_resources: Vec<String>,
}

} // verus!
