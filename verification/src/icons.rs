//! Glyphs of the Phosphor icon font (regular variant).

use vstd::prelude::*;

verus! {

pub const ARROW_CIRCLE_UP: &'static str = "\u{E030}";

pub const ARROW_U_UP_LEFT: &'static str = "\u{E08A}";

pub const CARET_DOWN: &'static str = "\u{E136}";

pub const CARET_UP: &'static str = "\u{E13C}";

pub const CHECK_CIRCLE: &'static str = "\u{E184}";

pub const CLOCK: &'static str = "\u{E19A}";

pub const DOWNLOAD_SIMPLE: &'static str = "\u{E20C}";

pub const EYE: &'static str = "\u{E220}";

pub const GAME_CONTROLLER: &'static str = "\u{E26E}";

pub const INFO: &'static str = "\u{E2CE}";

pub const LIGHTNING: &'static str = "\u{E2DE}";

pub const LIST_CHECKS: &'static str = "\u{EADC}";

pub const MAGNIFYING_GLASS: &'static str = "\u{E30C}";

pub const PACKAGE: &'static str = "\u{E390}";

pub const PULSE: &'static str = "\u{E000}";

pub const SPARKLE: &'static str = "\u{E6A2}";

pub const STACK: &'static str = "\u{E466}";

pub const WRENCH: &'static str = "\u{E5D4}";

} // verus!
