//! The Examples screens' catalogue: the six categories, their titles, the
//! grid cell of each category button, and what each category's detail
//! panel shows.

use vstd::prelude::*;
use crate::navigation::{EXAMPLE_CATEGORIES, STRESS_CATEGORY};
use crate::text::{chars_of, string_of};

verus! {

/// What a category's detail panel holds.
#[derive(Clone, Copy, Debug, PartialEq, Eq, Structural)]
pub enum ExampleContent {
    Effects,
    Text,
    TransformsAndAnimation,
    StressTests,
    /// The shared "not built yet" message.
    Placeholder,
}

/// Category `idx`'s title.
pub open spec fn category_title_text(idx: int) -> Seq<char> {
    if idx == 0 {
        "Effects"@
    } else if idx == 1 {
        "Text"@
    } else if idx == 2 {
        "Transforms & Animation"@
    } else if idx == 3 {
        "Stress Tests"@
    } else if idx == 4 {
        "Layout"@
    } else {
        "3D"@
    }
}

/// What category `idx`'s panel holds: real content for the first four,
/// the placeholder for Layout and 3D.
pub open spec fn content_of(idx: int) -> ExampleContent {
    if idx == 0 {
        ExampleContent::Effects
    } else if idx == 1 {
        ExampleContent::Text
    } else if idx == 2 {
        ExampleContent::TransformsAndAnimation
    } else if idx == STRESS_CATEGORY {
        ExampleContent::StressTests
    } else {
        ExampleContent::Placeholder
    }
}

/// The message shown by the categories that are not built yet.
pub open spec fn placeholder_text() -> Seq<char> {
    "This example isn't built yet — check back in a future update."@
}

/// Category `idx`'s title.
pub fn category_title(idx: usize) -> (r: String)
    requires
        idx < EXAMPLE_CATEGORIES,
    ensures
        r@ == category_title_text(idx as int),
{
    let s = if idx == 0 {
        "Effects"
    } else if idx == 1 {
        "Text"
    } else if idx == 2 {
        "Transforms & Animation"
    } else if idx == 3 {
        "Stress Tests"
    } else if idx == 4 {
        "Layout"
    } else {
        "3D"
    };
    string_of(chars_of(s).as_slice())
}

/// What category `idx`'s panel holds.
pub fn example_content(idx: usize) -> (r: ExampleContent)
    requires
        idx < EXAMPLE_CATEGORIES,
    ensures
        r == content_of(idx as int),
{
    if idx == 0 {
        ExampleContent::Effects
    } else if idx == 1 {
        ExampleContent::Text
    } else if idx == 2 {
        ExampleContent::TransformsAndAnimation
    } else if idx == STRESS_CATEGORY {
        ExampleContent::StressTests
    } else {
        ExampleContent::Placeholder
    }
}

/// The message shown by the categories that are not built yet.
pub fn placeholder_message() -> (r: String)
    ensures
        r@ == placeholder_text(),
{
    string_of(chars_of("This example isn't built yet — check back in a future update.").as_slice())
}

/// The grid cell (column, row) of category button `idx`: three columns of
/// two, filled column by column, top button first.
pub fn category_button_cell(idx: usize) -> (r: (usize, usize))
    requires
        idx < EXAMPLE_CATEGORIES,
    ensures
        r == (idx / 2, idx % 2),
        r.0 < 3,
        r.1 < 2,
        r.0 * 2 + r.1 == idx,
{
    (idx / 2, idx % 2)
}

/// Of the six categories, only Layout and 3D (the last two) show the
/// placeholder, only Stress Tests shows its runs, and the first three each
/// show their own content.
pub proof fn law_only_layout_and_3d_are_placeholders(idx: int)
    requires
        0 <= idx < EXAMPLE_CATEGORIES,
    ensures
        (content_of(idx) == ExampleContent::Placeholder) == (idx >= 4),
        (content_of(idx) == ExampleContent::StressTests) == (idx == STRESS_CATEGORY),
        forall|j: int|
            0 <= j < 4 && j != idx ==> content_of(idx) != #[trigger] content_of(j),
{
}

} // verus!
