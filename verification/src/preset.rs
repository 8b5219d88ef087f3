use vstd::prelude::*;
use crate::text::str_equal;

verus! {

/// How a preset keeps its samples: by path only, or copied next to it.
#[derive(Debug, Clone, Copy, PartialEq, Eq, Structural)]
pub enum KitMode {
    Lightweight,
    Portable,
}

/// A pad colour: display name, hex code and Launchpad colour velocity.
#[derive(Debug, Clone)]
pub struct ColorDef {
    pub name: String,
    pub hex: String,
    pub midi_velocity: u8,
}

/// File extension of preset files.
pub open spec fn spec_preset_extension() -> Seq<char> {
    "sampleur2"@
}

/// The kit mode a save command names: "portable", anything else lightweight.
pub open spec fn spec_kit_mode(name: Seq<char>) -> KitMode {
    if name == "portable"@ { KitMode::Portable } else { KitMode::Lightweight }
}

/// Reads the kit mode of a save command.
pub fn parse_kit_mode(name: &str) -> (mode: KitMode)
    ensures
        mode == spec_kit_mode(name@),
{
    if str_equal(name, "portable") {
        KitMode::Portable
    } else {
        KitMode::Lightweight
    }
}

/// Whether a file extension is the preset extension `sampleur2`.
pub fn is_preset_extension(ext: Option<&str>) -> (b: bool)
    ensures
        b == match ext {
            Some(e) => e@ == spec_preset_extension(),
            None => false,
        },
{
    match ext {
        Some(e) => str_equal(e, "sampleur2"),
        None => false,
    }
}

/// Name of the folder a portable preset copies its samples to: the preset
/// file's stem (or "preset" when it has none) followed by `_samples`.
pub fn samples_dir_name(stem: Option<&str>) -> (name: String)
    ensures
        name@ == match stem {
            Some(s) => s@,
            None => "preset"@,
        } + "_samples"@,
{
    let mut name = match stem {
        Some(s) => String::from_str(s),
        None => String::from_str("preset"),
    };
    name.append("_samples");
    name
}

/// Path of a copied sample relative to the preset file: `dir/file`.
pub fn sample_relative_path(samples_dir: &str, file_name: &str) -> (path: String)
    ensures
        path@ == samples_dir@ + "/"@ + file_name@,
{
    let mut path = String::from_str(samples_dir);
    path.append("/");
    path.append(file_name);
    path
}

/// The sample path recorded after loading a preset: the path relative to
/// the preset file when that file exists, the stored hint otherwise.
pub fn resolved_path_hint(relative_candidate: String, relative_exists: bool, hint: String) -> (path: String)
    ensures
        path@ == if relative_exists { relative_candidate@ } else { hint@ },
{
    if relative_exists { relative_candidate } else { hint }
}

} // verus!
