//! Configuration as the core sees it: geometry, margins, interaction
//! settings, and the ordered window-rule list. The unverified shell parses
//! the on-disk format and hands over these plain values; an unparseable file
//! falls back to [`Config::default`].
use vstd::prelude::*;

use crate::window_rules::Pattern;

verus! {

/// Which screen edge the sidebar is stacked along.
#[derive(Debug, Clone, Copy, PartialEq, Eq, Structural)]
pub enum SidebarPosition {
    Left,
    Right,
    Top,
    Bottom,
}

/// Default width and height of a sidebar window, and the gap between
/// neighbours along the stacking axis.
#[derive(Debug, Clone, Copy, PartialEq, Eq, Structural)]
pub struct Geometry {
    pub width: i32,
    pub height: i32,
    pub gap: i32,
}

/// Margins from each screen edge, in logical pixels.
#[derive(Debug, Clone, Copy, PartialEq, Eq, Structural)]
pub struct Margins {
    pub top: i32,
    pub right: i32,
    pub left: i32,
    pub bottom: i32,
}

/// Interaction settings: peek distances, the sidebar edge, and the two
/// behaviour toggles.
#[derive(Debug, Clone, Copy, PartialEq, Eq)]
pub struct Interaction {
    pub peek: i32,
    pub focus_peek: Option<i32>,
    pub position: SidebarPosition,
    pub sticky: bool,
    pub focus_on_unhide: bool,
}

impl Interaction {
    /// The focus-peek distance, falling back to the plain peek when unset.
    pub open spec fn spec_focus_peek(self) -> i32 {
        match self.focus_peek {
            Some(p) => p,
            None => self.peek,
        }
    }

    /// The focus-peek distance, falling back to the plain peek when unset.
    pub fn get_focus_peek(&self) -> (r: i32)
        ensures
            r == self.spec_focus_peek(),
    {
        match self.focus_peek {
            Some(p) => p,
            None => self.peek,
        }
    }
}

/// One window rule. Both patterns must match (an unset pattern always does)
/// for the rule to apply; each unset override falls back to the global
/// default for that field.
#[derive(Debug)]
pub struct WindowRule {
    pub app_id: Option<Pattern>,
    pub title: Option<Pattern>,
    pub width: Option<i32>,
    pub height: Option<i32>,
    pub peek: Option<i32>,
    pub focus_peek: Option<i32>,
    pub auto_add: bool,
}

impl Default for WindowRule {
    /// A rule that matches every window and overrides nothing.
    fn default() -> (r: WindowRule)
        ensures
            r.app_id is None,
            r.title is None,
            r.width is None,
            r.height is None,
            r.peek is None,
            r.focus_peek is None,
            !r.auto_add,
    {
        WindowRule {
            app_id: None,
            title: None,
            width: None,
            height: None,
            peek: None,
            focus_peek: None,
            auto_add: false,
        }
    }
}

/// The whole configuration.
#[derive(Debug)]
pub struct Config {
    pub geometry: Geometry,
    pub margins: Margins,
    pub interaction: Interaction,
    pub window_rule: Vec<WindowRule>,
}

/// Default stickiness: the sidebar does not follow workspace switches.
pub fn default_sticky() -> (r: bool)
    ensures
        !r,
{
    false
}

/// Default sidebar edge.
pub fn default_position() -> (r: SidebarPosition)
    ensures
        r == SidebarPosition::Right,
{
    SidebarPosition::Right
}

/// Default margin for any edge.
pub fn default_margin() -> (r: i32)
    ensures
        r == 0,
{
    0
}

impl Default for Config {
    /// The built-in configuration used when no file can be read.
    fn default() -> (r: Config)
        ensures
            r.geometry == (Geometry { width: 300, height: 200, gap: 10 }),
            r.margins == (Margins { top: 0, right: 0, left: 0, bottom: 0 }),
            r.interaction.peek == 10,
            r.interaction.focus_peek is None,
            r.interaction.position == SidebarPosition::Right,
            !r.interaction.sticky,
            !r.interaction.focus_on_unhide,
            r.window_rule@ =~= Seq::<WindowRule>::empty(),
    {
        Config {
            geometry: Geometry { width: 300, height: 200, gap: 10 },
            margins: Margins { top: default_margin(), right: default_margin(), left: default_margin(), bottom: default_margin() },
            interaction: Interaction {
                peek: 10,
                focus_peek: None,
                position: default_position(),
                sticky: default_sticky(),
                focus_on_unhide: false,
            },
            window_rule: Vec::new(),
        }
    }
}

} // verus!
