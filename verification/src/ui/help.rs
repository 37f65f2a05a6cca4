//! The help box.
use crate::text::copy_str;
use vstd::prelude::*;

verus! {

/// A rectangle of the screen.
#[derive(Clone, Copy, Debug, PartialEq, Eq, Structural)]
pub struct Area {
    pub x: u16,
    pub y: u16,
    pub width: u16,
    pub height: u16,
}

pub open spec fn centered(width: u16, height: u16, area: Area) -> Area {
    Area {
        x: (area.x + (if area.width >= width { area.width - width } else { 0 }) / 2) as u16,
        y: (area.y + (if area.height >= height { area.height - height } else { 0 }) / 2) as u16,
        width: if width < area.width { width } else { area.width },
        height: if height < area.height { height } else { area.height },
    }
}

/// A box of `width` by `height` in the middle of `area`, no larger than it.
pub fn centered_rect(width: u16, height: u16, area: Area) -> (r: Area)
    requires
        area.x + area.width <= u16::MAX,
        area.y + area.height <= u16::MAX,
    ensures
        r == centered(width, height, area),
        r.x + r.width <= area.x + area.width,
        r.y + r.height <= area.y + area.height,
{
    let x = area.x + area.width.saturating_sub(width) / 2;
    let y = area.y + area.height.saturating_sub(height) / 2;
    Area {
        x,
        y,
        width: if width < area.width { width } else { area.width },
        height: if height < area.height { height } else { area.height },
    }
}

/// The text of the help box.
pub fn help_text() -> (r: String)
    ensures
        r@ == "Press any key to close\n\nq         Quit\nTab       Switch pane focus\n1/2/3     Transcript / Tools / Raw\nj/k       Scroll / Select\n/         Search\n?         Help\nf         Follow live run\nEnter     Expand tool detail"@,
{
    copy_str("Press any key to close\n\nq         Quit\nTab       Switch pane focus\n1/2/3     Transcript / Tools / Raw\nj/k       Scroll / Select\n/         Search\n?         Help\nf         Follow live run\nEnter     Expand tool detail")
}

} // verus!
