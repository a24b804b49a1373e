//! The measures of a page: how many items it holds, its geometry, the
//! image it shows and the sizes of its text.

use vstd::prelude::*;

verus! {

/// The left edge of every text line.
pub const TEXT_X: i64 = 50;

/// The baseline of the title line.
pub const TITLE_Y: i64 = 800;

/// The baseline of the rule below the title.
pub const RULE_Y: i64 = 720;

/// The baseline of the caption above the items.
pub const CAPTION_Y: i64 = 700;

/// The corner at which the image is placed.
pub const IMAGE_X: i64 = 100;

pub const IMAGE_Y: i64 = 210;

/// The measures of a page.
#[derive(Clone, Copy, Debug, PartialEq, Eq, Structural)]
pub struct Layout {
    /// Items per page.
    pub capacity: u32,
    pub page_width: u32,
    pub page_height: u32,
    /// The pixel size of the image of each page.
    pub image_width: u32,
    pub image_height: u32,
    /// The image is shown at its pixel size divided by this.
    pub image_divisor: u32,
    /// The distance between two item lines.
    pub line_height: u16,
    pub title_size: u16,
    pub body_size: u16,
}

impl Layout {
    /// A page holds at least one item, and the divisor is not zero.
    pub open spec fn wf(self) -> bool {
        self.capacity > 0 && self.image_divisor > 0
    }

    /// The horizontal factor of the image transform: the corner plus the
    /// width shown, in whole units.
    pub open spec fn scale_x(self) -> int {
        IMAGE_X + self.image_width as int / self.image_divisor as int
    }

    /// The vertical factor of the image transform.
    pub open spec fn scale_y(self) -> int {
        IMAGE_Y + self.image_height as int / self.image_divisor as int
    }

    /// The baseline of the item line at `index` on its page: the first is
    /// one line below the caption, each further one a line lower.
    pub open spec fn line_y(self, index: int) -> int {
        CAPTION_Y - self.line_height * (index + 1)
    }

    /// Whether both conditions of `wf` hold.
    pub fn is_valid(&self) -> (valid: bool)
        ensures
            valid == self.wf(),
    {
        self.capacity > 0 && self.image_divisor > 0
    }
}

impl Default for Layout {
    /// Fifty items on a page of 595 by 842, an image of 814 by 613 shown
    /// at a third, lines 12 apart, a title of size 24 over text of size 12.
    fn default() -> (layout: Layout)
        ensures
            layout == (Layout {
                capacity: 50,
                page_width: 595,
                page_height: 842,
                image_width: 814,
                image_height: 613,
                image_divisor: 3,
                line_height: 12,
                title_size: 24,
                body_size: 12,
            }),
    {
        Layout {
            capacity: 50,
            page_width: 595,
            page_height: 842,
            image_width: 814,
            image_height: 613,
            image_divisor: 3,
            line_height: 12,
            title_size: 24,
            body_size: 12,
        }
    }
}

} // verus!
