//! Names of the items that the generated code defines.
use vstd::prelude::*;

verus! {

/// The name of the static that holds the shared resource `name`.
pub open spec fn shared_resource_static(name: Seq<char>) -> Seq<char> {
    "__rtic_internal_shared_resource_"@ + name
}

/// The name of the static that holds the local resource `name`.
pub open spec fn local_resource_static(name: Seq<char>) -> Seq<char> {
    "__rtic_internal_local_resource_"@ + name
}

/// The name under which the device crate is imported; it tells the user
/// what is wrong when the device crate lacks its `rt` feature.
pub open spec fn rt_err_name() -> Seq<char> {
    "you_must_enable_the_rt_feature_for_the_pac_in_your_cargo_toml"@
}

/// The name of the static that holds the shared resource `name`.
pub fn static_shared_resource_ident(name: &String) -> (res: String)
    ensures
        res@ == shared_resource_static(name@),
{
    let mut s = String::from_str("__rtic_internal_shared_resource_");
    s.append(name.as_str());
    s
}

/// The name of the static that holds the local resource `name`.
pub fn static_local_resource_ident(name: &String) -> (res: String)
    ensures
        res@ == local_resource_static(name@),
{
    let mut s = String::from_str("__rtic_internal_local_resource_");
    s.append(name.as_str());
    s
}

/// The name under which the device crate is imported.
pub fn rt_err_ident() -> (res: String)
    ensures
        res@ == rt_err_name(),
{
    String::from_str("you_must_enable_the_rt_feature_for_the_pac_in_your_cargo_toml")
}

} // verus!
