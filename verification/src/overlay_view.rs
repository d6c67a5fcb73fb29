//! What the layer-shell overlay shows, and how large and where its window is.

use crate::gtk_overlay::{OptionModel, OverlayModel, OverlayState};
use crate::preview_buffer::DisplayStyle;
use crate::text;
use crate::text::decimal_text;
use vstd::prelude::*;
use vstd::string::*;

verus! {

/// Style of a line of text.
#[derive(Debug, Clone, Copy, PartialEq, Eq, Structural)]
pub enum LabelClass {
    Waiting,
    Committed,
    Active,
}

impl LabelClass {
    /// The style class of the line.
    pub open spec fn class(self) -> Seq<char> {
        match self {
            LabelClass::Waiting => "waiting-text"@,
            LabelClass::Committed => "committed-text"@,
            LabelClass::Active => "active-text"@,
        }
    }

    /// The style class of the line.
    pub fn css_class(&self) -> (r: &'static str)
        ensures
            r@ == self.class(),
    {
        match self {
            LabelClass::Waiting => "waiting-text",
            LabelClass::Committed => "committed-text",
            LabelClass::Active => "active-text",
        }
    }
}

/// An item in the content of the overlay.
#[derive(Debug, PartialEq, Eq)]
pub enum ContentItem {
    /// A line of text.
    Label { text: String, class: LabelClass },
    /// A line between sections.
    Separator,
    /// A text offered for review.
    Choice { label: String, rejected: bool, text: String, selected: bool },
}

/// What an item holds.
pub enum ContentModel {
    Label { text: Seq<char>, class: LabelClass },
    Separator,
    Choice { label: Seq<char>, rejected: bool, text: Seq<char>, selected: bool },
}

impl View for ContentItem {
    type V = ContentModel;

    open spec fn view(&self) -> ContentModel {
        match self {
            ContentItem::Label { text, class } => ContentModel::Label {
                text: text@,
                class: *class,
            },
            ContentItem::Separator => ContentModel::Separator,
            ContentItem::Choice { label, rejected, text, selected } => ContentModel::Choice {
                label: label@,
                rejected: *rejected,
                text: text@,
                selected: *selected,
            },
        }
    }
}

/// The views of a list of items.
pub open spec fn item_views(items: Seq<ContentItem>) -> Seq<ContentModel> {
    items.map_values(|item: ContentItem| item@)
}

/// How a section of the preview buffer is shown.
pub open spec fn section_item(section: (Seq<char>, DisplayStyle)) -> ContentModel {
    match section.1 {
        DisplayStyle::Committed => ContentModel::Label {
            text: section.0,
            class: LabelClass::Committed,
        },
        DisplayStyle::Active => ContentModel::Label {
            text: section.0,
            class: LabelClass::Active,
        },
        DisplayStyle::Separator => ContentModel::Separator,
    }
}

/// How a text offered for review is shown.
pub open spec fn choice_item(option: OptionModel, selected: bool) -> ContentModel {
    ContentModel::Choice {
        label: if option.rejected() {
            option.caption() + " (rejected)"@
        } else {
            option.caption()
        },
        rejected: option.rejected(),
        text: option.text,
        selected,
    }
}

impl OverlayModel {
    /// The content from top to bottom: in a review its options, else the sections of the
    /// buffer, and a line that says so where there is nothing.
    pub open spec fn content(self) -> Seq<ContentModel> {
        let sections = self.buffer.display();
        if self.review_active {
            if self.options.len() == 0 {
                seq![ContentModel::Label { text: "No review options"@, class: LabelClass::Waiting }]
            } else {
                Seq::new(
                    self.options.len(),
                    |i: int| choice_item(self.options[i], i == self.selected),
                )
            }
        } else if sections.len() == 0 {
            seq![ContentModel::Label { text: "Waiting for speech..."@, class: LabelClass::Waiting }]
        } else {
            sections.map_values(|section: (Seq<char>, DisplayStyle)| section_item(section))
        }
    }

    /// The line at the lower right: the number of active words, or how to use the review.
    pub open spec fn footer(self) -> Seq<char> {
        if !self.review_active {
            text::decimal(self.buffer.active.len()) + " words"@
        } else if self.pending is Some && self.pending_type_output {
            "release shift to type"@
        } else {
            "↑/↓ select · → paste · Esc cancel"@
        }
    }
}

impl OverlayState {
    /// The content to show, from top to bottom.
    pub fn content(&self) -> (r: Vec<ContentItem>)
        ensures
            item_views(r@) == self@.content(),
    {
        if self.review_active {
            return self.review_content();
        }
        let sections = self.buffer.display_sections();
        let mut items: Vec<ContentItem> = Vec::new();
        if sections.len() == 0 {
            items.push(
                ContentItem::Label {
                    text: "Waiting for speech...".to_owned(),
                    class: LabelClass::Waiting,
                },
            );
            assert(self@.buffer.display().len() == 0) by {
                assert(crate::preview_buffer::section_views(sections@).len() == 0);
            }
            assert(item_views(items@) =~= self@.content());
            return items;
        }
        let ghost views = crate::preview_buffer::section_views(sections@);
        assert(views.len() == sections@.len());
        let mut i: usize = 0;
        while i < sections.len()
            invariant
                i <= sections.len(),
                views == crate::preview_buffer::section_views(sections@),
                items@.len() == i,
                forall|k: int|
                    0 <= k < i ==> #[trigger] items@[k]@ == section_item(sections@[k]@),
            decreases sections.len() - i,
        {
            let shown = sections[i].text.clone();
            let item = match sections[i].style {
                DisplayStyle::Committed => ContentItem::Label {
                    text: shown,
                    class: LabelClass::Committed,
                },
                DisplayStyle::Active => ContentItem::Label {
                    text: shown,
                    class: LabelClass::Active,
                },
                DisplayStyle::Separator => ContentItem::Separator,
            };
            items.push(item);
            i += 1;
        }
        assert(item_views(items@) =~= self@.content());
        items
    }

    /// The options to show in a review.
    fn review_content(&self) -> (r: Vec<ContentItem>)
        requires
            self.review_active,
        ensures
            item_views(r@) == self@.content(),
    {
        let mut items: Vec<ContentItem> = Vec::new();
        if self.review_options.len() == 0 {
            items.push(
                ContentItem::Label {
                    text: "No review options".to_owned(),
                    class: LabelClass::Waiting,
                },
            );
            assert(item_views(items@) =~= self@.content());
            return items;
        }
        let mut i: usize = 0;
        while i < self.review_options.len()
            invariant
                i <= self.review_options.len(),
                items@.len() == i,
                forall|k: int|
                    0 <= k < i ==> #[trigger] items@[k]@ == choice_item(
                        self@.options[k],
                        k == self@.selected,
                    ),
            decreases self.review_options.len() - i,
        {
            let option = &self.review_options[i];
            let rejected = option.is_rejected();
            let mut label = option.label().to_owned();
            if rejected {
                label.append(" (rejected)");
            }
            items.push(
                ContentItem::Choice {
                    label,
                    rejected,
                    text: option.text.clone(),
                    selected: i == self.review_selected,
                },
            );
            i += 1;
        }
        assert(item_views(items@) =~= self@.content());
        items
    }

    /// The line at the lower right.
    pub fn footer(&self) -> (r: String)
        ensures
            r@ == self@.footer(),
    {
        if !self.review_active {
            let mut line = decimal_text(self.buffer.active_word_count());
            line.append(" words");
            line
        } else if self.pending_selection.is_some() && self.pending_type_output {
            "release shift to type".to_owned()
        } else {
            "↑/↓ select · → paste · Esc cancel".to_owned()
        }
    }
}

/// An unsigned number read as a signed one of the same width.
pub open spec fn signed(n: u32) -> int {
    if n < 0x8000_0000 {
        n as int
    } else {
        n - 0x1_0000_0000
    }
}

/// The smaller of two numbers.
pub open spec fn smaller(a: int, b: int) -> int {
    if a < b {
        a
    } else {
        b
    }
}

/// The larger of two numbers.
pub open spec fn larger(a: int, b: int) -> int {
    if a < b {
        b
    } else {
        a
    }
}

/// The space between the window, which stands at the bottom right, and the edges of the
/// monitor there.
pub const WINDOW_MARGIN: i32 = 32;

/// Size of the monitor and of the window on it.
#[derive(Debug, Clone, Copy, PartialEq, Eq, Structural)]
pub struct Geometry {
    pub monitor_width: i32,
    pub monitor_height: i32,
    pub default_width: i32,
    pub default_height: i32,
}

/// The monitor's extent: as reported, or just around a window of twice the given extent.
pub open spec fn monitor_extent(window: u32, reported: Option<i32>) -> int {
    match reported {
        Some(extent) => extent as int,
        None => 2 * signed(window) + 64,
    }
}

/// The window's extent: twice the given one, but 40 less than the monitor's at most, for
/// which at least 200 is assumed.
pub open spec fn window_extent(window: u32, reported: Option<i32>) -> int {
    smaller(2 * signed(window), larger(monitor_extent(window, reported) - 40, 200))
}

/// Whether the extents can be computed.
pub open spec fn extent_in_range(window: u32, reported: Option<i32>) -> bool {
    &&& i32::MIN <= 2 * signed(window)
    &&& 2 * signed(window) + 64 <= i32::MAX
    &&& i32::MIN <= monitor_extent(window, reported) - 40
}

/// An unsigned number read as a signed one of the same width.
fn read_signed(n: u32) -> (r: i32)
    ensures
        r == signed(n),
{
    if n < 0x8000_0000 {
        n as i32
    } else {
        (n as i64 - 0x1_0000_0000) as i32
    }
}

/// The monitor's and the window's extent in one direction.
fn extents(window: u32, reported: Option<i32>) -> (r: (i32, i32))
    requires
        extent_in_range(window, reported),
    ensures
        r.0 == monitor_extent(window, reported),
        r.1 == window_extent(window, reported),
{
    let base: i32 = read_signed(window) * 2;
    let monitor: i32 = match reported {
        Some(extent) => extent,
        None => base + 64,
    };
    let most: i32 = if monitor - 40 < 200 { 200 } else { monitor - 40 };
    let extent: i32 = if base < most { base } else { most };
    (monitor, extent)
}

impl Geometry {
    /// The sizes for a window of the given size on a monitor whose size is known or not.
    pub fn new(window_width: u32, window_height: u32, monitor: Option<(i32, i32)>) -> (r: Self)
        requires
            extent_in_range(window_width, reported_width(monitor)),
            extent_in_range(window_height, reported_height(monitor)),
        ensures
            r.monitor_width == monitor_extent(window_width, reported_width(monitor)),
            r.monitor_height == monitor_extent(window_height, reported_height(monitor)),
            r.default_width == window_extent(window_width, reported_width(monitor)),
            r.default_height == window_extent(window_height, reported_height(monitor)),
    {
        let (width, height): (Option<i32>, Option<i32>) = match monitor {
            Some((width, height)) => (Some(width), Some(height)),
            None => (None, None),
        };
        let (monitor_width, default_width) = extents(window_width, width);
        let (monitor_height, default_height) = extents(window_height, height);
        Geometry { monitor_width, monitor_height, default_width, default_height }
    }

    /// The size for a review: as given, but not below the default size.
    pub fn review_size(&self, width: i32, height: i32) -> (r: (i32, i32))
        ensures
            r.0 == larger(width as int, self.default_width as int),
            r.1 == larger(height as int, self.default_height as int),
    {
        (
            if width < self.default_width { self.default_width } else { width },
            if height < self.default_height { self.default_height } else { height },
        )
    }
}

/// The reported width of the monitor.
pub open spec fn reported_width(monitor: Option<(i32, i32)>) -> Option<i32> {
    match monitor {
        Some(size) => Some(size.0),
        None => None,
    }
}

/// The reported height of the monitor.
pub open spec fn reported_height(monitor: Option<(i32, i32)>) -> Option<i32> {
    match monitor {
        Some(size) => Some(size.1),
        None => None,
    }
}

/// The window and its margin fit on a monitor that reports 240 or more.
pub proof fn law_window_fits_the_monitor(window: u32, reported: Option<i32>)
    requires
        monitor_extent(window, reported) >= 240,
    ensures
        window_extent(window, reported) + 40 <= monitor_extent(window, reported),
        window_extent(window, reported) + WINDOW_MARGIN <= monitor_extent(window, reported),
{
}

/// Something is always shown, and a review shows one item for each option, of which the
/// selected one is marked.
pub proof fn law_content_is_never_empty(overlay: OverlayModel)
    requires
        overlay.wf(),
    ensures
        overlay.content().len() > 0,
        overlay.review_active && overlay.options.len() > 0 ==> {
            &&& overlay.content().len() == overlay.options.len()
            &&& overlay.content()[overlay.selected as int] == choice_item(
                overlay.options[overlay.selected as int],
                true,
            )
        },
{
}

} // verus!
