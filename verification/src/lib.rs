use vstd::prelude::*;

pub mod text;
pub mod types;
pub mod urls;
pub mod versions;
pub mod names;
pub mod dist;
pub mod validate;
pub mod plan;
pub mod laws;
pub mod driver;

verus! {

/// Tag recorded by this tool in each installation it makes; installations
/// carrying any other tag belong to a different installer.
pub open spec fn spec_our_installer() -> Seq<char> {
    "uv-pixi"@
}

pub fn installer_tag() -> (r: &'static str)
    ensures
        r@ == spec_our_installer(),
{
    "uv-pixi"
}

} // verus!
