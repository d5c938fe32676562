//! The microphone preference in a file of its own: the word `auto`, or the name
//! of a device.

use crate::ui::audio::DeviceChoice;
use crate::ui::settings::model::{self, config_to_device_choice, device_choice_to_config};
use vstd::prelude::*;

verus! {

/// The preference that the file's contents state. A file that is missing or
/// cannot be read states none.
pub fn load(contents: Option<&str>) -> (r: DeviceChoice)
    ensures
        r@ == (match contents {
            Some(raw) => model::choice_of(raw@),
            None => None,
        }),
{
    match contents {
        Some(raw) => config_to_device_choice(raw),
        None => DeviceChoice::Auto,
    }
}

/// The contents of the file for a preference.
pub fn save(choice: &DeviceChoice) -> (r: String)
    ensures
        r@ == model::stored_choice(choice@),
{
    device_choice_to_config(choice)
}

} // verus!
