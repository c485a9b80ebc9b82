//! What a script can ask about the player and its machine.

use vstd::prelude::*;
use vstd::string::StringExecFns;
use crate::strings::decimal;
use crate::strings::to_decimal;
use crate::value::Value;

verus! {

/// The text of the player's version: the platform, and the major version
/// followed by three zeros.
pub open spec fn version_text(player_version: u8) -> Seq<char> {
    "LNX "@ + decimal(player_version as nat) + ",0,0,0"@
}

/// The version of the player, as scripts see it.
pub fn get_version(player_version: u8) -> (r: String)
    ensures
        r@ == version_text(player_version),
{
    let mut text = String::from_str("LNX ");
    let number = to_decimal(player_version as u64);
    text.append(number.as_str());
    text.append(",0,0,0");
    text
}

/// The kind of the player: a plug-in in a browser, else a program of its
/// own.
pub fn get_player_type(in_browser: bool) -> (r: &'static str)
    ensures
        r@ == (if in_browser {
            "PlugIn"@
        } else {
            "StandAlone"@
        }),
{
    if in_browser {
        "PlugIn"
    } else {
        "StandAlone"
    }
}

/// The ratio of a pixel's width to its height: always one.
pub fn get_pixel_aspect_ratio() -> (r: Value)
    ensures
        r == Value::Integer(1),
{
    Value::Integer(1)
}

/// The dots per inch of the screen: always 72.
pub fn get_screen_dpi() -> (r: Value)
    ensures
        r == Value::Integer(72),
{
    Value::Integer(72)
}

} // verus!
