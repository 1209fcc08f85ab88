//! The application's own settings file.
//!
//! Settings live at a fixed spot under the private application-data
//! directory — `Settings/settings.json` — which the session grants to
//! itself at startup, so the resolver never has to trust the front end for
//! it. Reading settings that do not exist yet yields the empty object.

use vstd::prelude::*;

use crate::json::empty_object_value;
use crate::json::parse_json_text;
use crate::json::parsed_value_of;
use crate::paths::join_spec;
use crate::paths::join_under;

verus! {

/// The byte string `Settings/settings.json`.
pub open spec fn settings_rel_spec() -> Seq<u8> {
    seq![
        83u8,
        101u8,
        116u8,
        116u8,
        105u8,
        110u8,
        103u8,
        115u8,
        47u8,
        115u8,
        101u8,
        116u8,
        116u8,
        105u8,
        110u8,
        103u8,
        115u8,
        46u8,
        106u8,
        115u8,
        111u8,
        110u8,
    ]
}

/// The relative path of the settings file below the application-data
/// directory: `Settings/settings.json`.
pub fn settings_relative_path() -> (r: Vec<u8>)
    ensures
        r@ == settings_rel_spec(),
{
    let mut v: Vec<u8> = Vec::new();
    v.push(83);
    v.push(101);
    v.push(116);
    v.push(116);
    v.push(105);
    v.push(110);
    v.push(103);
    v.push(115);
    v.push(47);
    v.push(115);
    v.push(101);
    v.push(116);
    v.push(116);
    v.push(105);
    v.push(110);
    v.push(103);
    v.push(115);
    v.push(46);
    v.push(106);
    v.push(115);
    v.push(111);
    v.push(110);
    proof {
        assert(v@ =~= settings_rel_spec());
    }
    v
}

/// The full path of the settings file below the application-data
/// directory.
pub fn settings_file_path(app_data_dir: &Vec<u8>) -> (r: Vec<u8>)
    ensures
        r@ == join_spec(app_data_dir@, settings_rel_spec()),
{
    let rel = settings_relative_path();
    join_under(app_data_dir, &rel)
}

/// Turns the settings file's contents into the settings value: absent
/// contents default to the empty object — the value `{}` parses to —
/// and present contents must parse.
pub fn settings_from_contents(contents: &Option<String>) -> (r: Result<serde_json::Value, String>)
    ensures
        contents matches Some(c) ==> (r is Ok <==> parsed_value_of(c@) is Some),
        contents matches Some(c) ==> (r matches Ok(v) ==> parsed_value_of(c@) == Some(v)),
        contents is None ==> (r matches Ok(v) && parsed_value_of("{}"@) == Some(v)),
{
    match contents {
        Some(c) => parse_json_text(c.as_str()),
        None => Ok(empty_object_value()),
    }
}

} // verus!
