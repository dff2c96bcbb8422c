//! Per-round presentation options and the key-binding help text that a
//! front-end shows beside the sky.

use vstd::prelude::*;
use vstd::string::StringExecFns;

verus! {

/// What a front-end currently shows and which sky it plays on: the
/// single configuration record every renderer variant consumes.
#[derive(Clone, Debug)]
pub struct Options {
    pub show_distance: bool,
    pub show_star_names: bool,
    pub catalog_filename: Option<String>,
    pub nstars: usize,
    pub show_help: bool,
    pub only_target: bool,
}

/// The help overlay, one line per key binding.
pub fn get_help_lines() -> (r: Vec<String>)
    ensures
        r@.len() == 13,
        r@[0]@ == "y/Y  : yaw"@,
        r@[1]@ == "p/P  : pitch"@,
        r@[2]@ == "r/R  : roll"@,
        r@[3]@ == "z/Z  : zoom"@,
        r@[4]@ == "s/S  : scale"@,
        r@[5]@ == "d    : show/hide distance"@,
        r@[6]@ == "n    : show/hide star names"@,
        r@[7]@ == "c    : use real/random catalog"@,
        r@[8]@ == "v/V  : number of stars"@,
        r@[9]@ == "space: score and restart"@,
        r@[10]@ == "t    : show only target"@,
        r@[11]@ == "h    : show/hide this help"@,
        r@[12]@ == "q    : end playing the game"@,
{
    let mut lines: Vec<String> = Vec::new();
    lines.push(String::from_str("y/Y  : yaw"));
    lines.push(String::from_str("p/P  : pitch"));
    lines.push(String::from_str("r/R  : roll"));
    lines.push(String::from_str("z/Z  : zoom"));
    lines.push(String::from_str("s/S  : scale"));
    lines.push(String::from_str("d    : show/hide distance"));
    lines.push(String::from_str("n    : show/hide star names"));
    lines.push(String::from_str("c    : use real/random catalog"));
    lines.push(String::from_str("v/V  : number of stars"));
    lines.push(String::from_str("space: score and restart"));
    lines.push(String::from_str("t    : show only target"));
    lines.push(String::from_str("h    : show/hide this help"));
    lines.push(String::from_str("q    : end playing the game"));
    lines
}

} // verus!
