//! Decisions of the desktop host: the placeholder view and its style sheet,
//! the click counter, the surface size, and when the layout is rebuilt.

use vstd::prelude::*;

use crate::text::{decimal_text, push_decimal, push_str};

verus! {

/// The placeholder style sheet, dark.
pub open spec fn placeholder_sheet_text() -> Seq<char> {
    "
.root { width: 100%; height: 100%; box-sizing: border-box; background-color: #17151b;
        color: #d8d4dc; font-family: sans-serif; font-size: 14px; padding: 28px; }
.title { font-size: 30px; color: #f0ead6; margin-bottom: 6px; }
.subtitle { font-size: 14px; color: #8a8391; margin-bottom: 28px; }
.btn { display: inline-block; background-color: #2a2630; color: #d8d4dc;
       padding: 10px 18px; border-radius: 8px; }
.btn:hover { background-color: #3a3442; }
"@
}

/// The hardcoded dark placeholder style sheet of the host.
pub fn placeholder_sheet() -> (r: String)
    ensures
        r@ == placeholder_sheet_text(),
{
    String::from_str(
        "
.root { width: 100%; height: 100%; box-sizing: border-box; background-color: #17151b;
        color: #d8d4dc; font-family: sans-serif; font-size: 14px; padding: 28px; }
.title { font-size: 30px; color: #f0ead6; margin-bottom: 6px; }
.subtitle { font-size: 14px; color: #8a8391; margin-bottom: 28px; }
.btn { display: inline-block; background-color: #2a2630; color: #d8d4dc;
       padding: 10px 18px; border-radius: 8px; }
.btn:hover { background-color: #3a3442; }
",
    )
}

/// The state of the placeholder view: how often its button was clicked.
#[derive(Clone, Copy, PartialEq, Eq, Debug, Structural)]
pub struct Ui {
    pub clicks: u32,
}

impl Default for Ui {
    /// No clicks yet.
    fn default() -> (r: Self)
        ensures
            r.clicks == 0,
    {
        Ui { clicks: 0 }
    }
}

impl Ui {
    /// Counts one click of the button.
    pub fn click(&mut self)
        requires
            old(self).clicks < u32::MAX,
        ensures
            final(self).clicks == old(self).clicks + 1,
    {
        self.clicks = self.clicks + 1;
    }

    /// The text of the counter button.
    pub fn counter_text(&self) -> (r: String)
        ensures
            r@ == "clicked "@ + decimal_text(self.clicks as nat) + " times \u{2014} the host loop works"@,
    {
        let mut r = String::new();
        push_str(&mut r, "clicked ");
        push_decimal(&mut r, self.clicks as u64);
        push_str(&mut r, " times \u{2014} the host loop works");
        r
    }
}

/// The size a surface is made at: each side at least one pixel.
pub fn surface_extent(width: u32, height: u32) -> (r: (u32, u32))
    ensures
        r.0 == if width == 0 {
            1
        } else {
            width
        },
        r.1 == if height == 0 {
            1
        } else {
            height
        },
{
    let w = if width == 0 {
        1
    } else {
        width
    };
    let h = if height == 0 {
        1
    } else {
        height
    };
    (w, h)
}

/// What a redraw does with the retained layout.
#[derive(Clone, Copy, PartialEq, Eq, Debug, Structural)]
pub enum LayoutStep {
    /// Build a fresh layout at the current size.
    Rebuild,
    /// Apply the pending attribute changes to the retained layout.
    Apply,
    /// Reuse the retained layout as it is.
    Keep,
}

/// Whether any pending mutation changes the tree's structure rather than
/// an attribute.
pub open spec fn any_structural(attribute_only: Seq<bool>) -> bool {
    exists|i: int| 0 <= i < attribute_only.len() && !attribute_only[i]
}

/// The layout a redraw uses: the retained one survives only when it exists,
/// every pending mutation is an attribute change and the size is unchanged;
/// it is then updated when anything is pending. `attribute_only[i]` says
/// whether pending mutation `i` only changes an attribute.
pub fn layout_step(has_layout: bool, attribute_only: &Vec<bool>, size_changed: bool) -> (r:
    LayoutStep)
    ensures
        (!has_layout || any_structural(attribute_only@) || size_changed) ==> r
            == LayoutStep::Rebuild,
        r == LayoutStep::Rebuild <==> (!has_layout || size_changed || exists|i: int|
            0 <= i < attribute_only@.len() && !#[trigger] attribute_only@[i]),
        r == LayoutStep::Keep <==> (has_layout && !size_changed && attribute_only@.len() == 0),
        (has_layout && !any_structural(attribute_only@) && !size_changed) ==> r == (if attribute_only@.len()
            == 0 {
            LayoutStep::Keep
        } else {
            LayoutStep::Apply
        }),
{
    let mut structural = false;
    let mut i: usize = 0;
    while i < attribute_only.len()
        invariant
            i <= attribute_only@.len(),
            structural <==> exists|k: int| 0 <= k < i && !attribute_only@[k],
        decreases attribute_only@.len() - i,
    {
        if !attribute_only[i] {
            structural = true;
        }
        i = i + 1;
    }
    if has_layout && !structural && !size_changed {
        if attribute_only.len() == 0 {
            LayoutStep::Keep
        } else {
            LayoutStep::Apply
        }
    } else {
        LayoutStep::Rebuild
    }
}

} // verus!
