//! Small decisions of the user interface: the classes of buttons, and how
//! a card is drawn.

use vstd::prelude::*;
use crate::text::{owned, push_str, str_eq};

verus! {

/// Button visual style, after the shadcn/ui variants (`Subtle` is the
/// variant shadcn/ui calls ghost).
#[derive(Clone, Copy, Debug, PartialEq, Eq, Default)]
pub enum ButtonVariant {
    #[default]
    Default,
    Destructive,
    Outline,
    Secondary,
    Subtle,
    Link,
}

impl ButtonVariant {
    pub open spec fn class_text(self) -> Seq<char> {
        match self {
            ButtonVariant::Default => "bg-primary text-primary-foreground hover:bg-primary/90"@,
            ButtonVariant::Destructive => "bg-destructive text-destructive-foreground hover:bg-destructive/90"@,
            ButtonVariant::Outline => "border border-input bg-background hover:bg-accent hover:text-accent-foreground"@,
            ButtonVariant::Secondary => "bg-secondary text-secondary-foreground hover:bg-secondary/80"@,
            ButtonVariant::Subtle => "hover:bg-accent hover:text-accent-foreground"@,
            ButtonVariant::Link => "text-primary underline-offset-4 hover:underline"@,
        }
    }

    /// The utility classes of the variant.
    pub fn classes(self) -> (r: &'static str)
        ensures
            r@ == self.class_text(),
    {
        match self {
            ButtonVariant::Default => "bg-primary text-primary-foreground hover:bg-primary/90",
            ButtonVariant::Destructive => "bg-destructive text-destructive-foreground hover:bg-destructive/90",
            ButtonVariant::Outline => "border border-input bg-background hover:bg-accent hover:text-accent-foreground",
            ButtonVariant::Secondary => "bg-secondary text-secondary-foreground hover:bg-secondary/80",
            ButtonVariant::Subtle => "hover:bg-accent hover:text-accent-foreground",
            ButtonVariant::Link => "text-primary underline-offset-4 hover:underline",
        }
    }
}

/// Button size, after the shadcn/ui sizes.
#[derive(Clone, Copy, Debug, PartialEq, Eq, Default)]
pub enum ButtonSize {
    #[default]
    Default,
    Sm,
    Lg,
    Icon,
}

impl ButtonSize {
    pub open spec fn class_text(self) -> Seq<char> {
        match self {
            ButtonSize::Default => "h-10 px-4 py-2"@,
            ButtonSize::Sm => "h-9 px-3"@,
            ButtonSize::Lg => "h-11 px-8"@,
            ButtonSize::Icon => "size-10"@,
        }
    }

    /// The utility classes of the size.
    pub fn classes(self) -> (r: &'static str)
        ensures
            r@ == self.class_text(),
    {
        match self {
            ButtonSize::Default => "h-10 px-4 py-2",
            ButtonSize::Sm => "h-9 px-3",
            ButtonSize::Lg => "h-11 px-8",
            ButtonSize::Icon => "size-10",
        }
    }
}

/// The `type` attribute of a button.
#[derive(Clone, Copy, Debug, PartialEq, Eq, Default)]
pub enum ButtonType {
    #[default]
    Button,
    Submit,
    Reset,
}

impl ButtonType {
    pub open spec fn attr_text(self) -> Seq<char> {
        match self {
            ButtonType::Button => "button"@,
            ButtonType::Submit => "submit"@,
            ButtonType::Reset => "reset"@,
        }
    }

    pub fn as_str(self) -> (r: &'static str)
        ensures
            r@ == self.attr_text(),
    {
        match self {
            ButtonType::Button => "button",
            ButtonType::Submit => "submit",
            ButtonType::Reset => "reset",
        }
    }
}

/// Which way a reviewed card leaves the screen.
#[derive(Clone, Copy, Debug, PartialEq, Eq)]
pub enum ReviewSway {
    Left,
    Center,
    Right,
}

impl ReviewSway {
    pub open spec fn class_text(self) -> Seq<char> {
        match self {
            ReviewSway::Left => "leaves-left"@,
            ReviewSway::Center => "leaves-center"@,
            ReviewSway::Right => "leaves-right"@,
        }
    }

    pub fn class_name(self) -> (r: &'static str)
        ensures
            r@ == self.class_text(),
    {
        match self {
            ReviewSway::Left => "leaves-left",
            ReviewSway::Center => "leaves-center",
            ReviewSway::Right => "leaves-right",
        }
    }
}

/// How many cards are drawn stacked behind a repeatable card: one per
/// pending card, at most three, none in full screen or for other types.
pub open spec fn stack_layers(tipcard_type: Seq<char>, pending_count: u32, fullscreen: bool) -> usize {
    if tipcard_type == "repeatable_tip"@ && !fullscreen {
        if pending_count < 3 {
            pending_count as usize
        } else {
            3
        }
    } else {
        0
    }
}

pub fn repeatable_stack_layers(tipcard_type: &str, pending_count: u32, fullscreen: bool) -> (r:
    usize)
    ensures
        r == stack_layers(tipcard_type@, pending_count, fullscreen),
        r <= 3,
{
    if str_eq(tipcard_type, "repeatable_tip") && !fullscreen {
        if pending_count < 3 {
            pending_count as usize
        } else {
            3
        }
    } else {
        0
    }
}

/// The card types whose names the interface translates.
pub open spec fn translated_type(tipcard_type: Seq<char>) -> bool {
    tipcard_type == "casual_tip"@ || tipcard_type == "repeatable_tip"@ || tipcard_type
        == "manual_tip"@ || tipcard_type == "custom_tip"@
}

/// The translation key of a card type's label; other types are shown as they are.
pub fn tip_type_key(tipcard_type: &str) -> (r: Option<String>)
    ensures
        match r {
            Some(k) => translated_type(tipcard_type@) && k@ == "tip_type."@ + tipcard_type@,
            None => !translated_type(tipcard_type@),
        },
{
    if str_eq(tipcard_type, "casual_tip") || str_eq(tipcard_type, "repeatable_tip") || str_eq(
        tipcard_type,
        "manual_tip",
    ) || str_eq(tipcard_type, "custom_tip") {
        let mut k = owned("tip_type.");
        push_str(&mut k, tipcard_type);
        Some(k)
    } else {
        None
    }
}


/// Which text a card shows.
#[derive(Clone, Copy, Debug, PartialEq, Eq)]
pub enum CardText {
    /// The message of a review that just happened.
    ReviewMessage,
    /// The compact text.
    Compressed,
    /// The full text.
    Full,
}

/// A card has a compact form when there is no review message and its
/// compact text is neither empty nor the full text.
pub open spec fn has_compact_form(has_review_message: bool, compressed: Seq<char>, full: Seq<char>) -> bool {
    !has_review_message && compressed.len() > 0 && compressed != full
}

pub fn has_compact(has_review_message: bool, compressed: &str, full: &str) -> (r: bool)
    ensures
        r == has_compact_form(has_review_message, compressed@, full@),
{
    !has_review_message && !compressed.is_empty() && !str_eq(compressed, full)
}

/// The text shown: a review message first; the compact text while the card
/// is collapsed and not in full screen; the full text otherwise.
pub open spec fn shown_text(has_review_message: bool, has_compact: bool, expanded: bool, fullscreen: bool) -> CardText {
    if has_review_message {
        CardText::ReviewMessage
    } else if !expanded && has_compact && !fullscreen {
        CardText::Compressed
    } else {
        CardText::Full
    }
}

pub fn card_text_choice(has_review_message: bool, has_compact: bool, expanded: bool, fullscreen: bool) -> (r: CardText)
    ensures
        r == shown_text(has_review_message, has_compact, expanded, fullscreen),
{
    if has_review_message {
        CardText::ReviewMessage
    } else if !expanded && has_compact && !fullscreen {
        CardText::Compressed
    } else {
        CardText::Full
    }
}

/// The badge of a card: manual and custom cards say so; others are known
/// once reviewed or no longer active, and new before.
pub open spec fn badge_text(tipcard_type: Seq<char>, repeat_count: u32, status: Seq<char>) -> Seq<char> {
    let known = repeat_count > 0 || status != "active"@;
    if tipcard_type == "manual_tip"@ {
        "Manual"@
    } else if tipcard_type == "custom_tip"@ {
        "Custom"@
    } else if known {
        "Known"@
    } else {
        "New"@
    }
}

pub fn badge_label(tipcard_type: &str, repeat_count: u32, status: &str) -> (r: &'static str)
    ensures
        r@ == badge_text(tipcard_type@, repeat_count, status@),
{
    let known = repeat_count > 0 || !str_eq(status, "active");
    if str_eq(tipcard_type, "manual_tip") {
        "Manual"
    } else if str_eq(tipcard_type, "custom_tip") {
        "Custom"
    } else if known {
        "Known"
    } else {
        "New"
    }
}

/// The name of a card type as the card shows it.
pub open spec fn type_text(tipcard_type: Seq<char>) -> Seq<char> {
    if tipcard_type == "casual_tip"@ {
        "Casual"@
    } else if tipcard_type == "repeatable_tip"@ {
        "Repeatable"@
    } else if tipcard_type == "manual_tip"@ {
        "Manual"@
    } else if tipcard_type == "custom_tip"@ {
        "Custom"@
    } else {
        "Card"@
    }
}

pub fn type_label(tipcard_type: &str) -> (r: &'static str)
    ensures
        r@ == type_text(tipcard_type@),
{
    if str_eq(tipcard_type, "casual_tip") {
        "Casual"
    } else if str_eq(tipcard_type, "repeatable_tip") {
        "Repeatable"
    } else if str_eq(tipcard_type, "manual_tip") {
        "Manual"
    } else if str_eq(tipcard_type, "custom_tip") {
        "Custom"
    } else {
        "Card"
    }
}

/// The layout of a card's frame.
#[derive(Clone, Copy, Debug, PartialEq, Eq)]
pub enum CardFrame {
    Fullscreen,
    List,
    Compact,
    Plain,
}

/// Full screen wins, then the list layout, then a collapsed compact card.
pub open spec fn frame_of(fullscreen: bool, list_mode: bool, expanded: bool, has_compact: bool) -> CardFrame {
    if fullscreen {
        CardFrame::Fullscreen
    } else if list_mode {
        CardFrame::List
    } else if !expanded && has_compact {
        CardFrame::Compact
    } else {
        CardFrame::Plain
    }
}

impl CardFrame {
    pub open spec fn class_text(self) -> Seq<char> {
        match self {
            CardFrame::Fullscreen => "flow-card is-fullscreen fullscreen-card-enter surface border fixed top-0 right-0 bottom-0 z-[70] overflow-hidden flex flex-col"@,
            CardFrame::List => "flow-card flow-card-list surface border relative overflow-hidden flex flex-col lg:flex-row"@,
            CardFrame::Compact => "flow-card surface border relative overflow-hidden min-h-[240px] flex flex-col"@,
            CardFrame::Plain => "flow-card surface border relative overflow-hidden flex flex-col"@,
        }
    }

    pub fn classes(self) -> (r: &'static str)
        ensures
            r@ == self.class_text(),
    {
        match self {
            CardFrame::Fullscreen => "flow-card is-fullscreen fullscreen-card-enter surface border fixed top-0 right-0 bottom-0 z-[70] overflow-hidden flex flex-col",
            CardFrame::List => "flow-card flow-card-list surface border relative overflow-hidden flex flex-col lg:flex-row",
            CardFrame::Compact => "flow-card surface border relative overflow-hidden min-h-[240px] flex flex-col",
            CardFrame::Plain => "flow-card surface border relative overflow-hidden flex flex-col",
        }
    }
}

pub fn card_frame(fullscreen: bool, list_mode: bool, expanded: bool, has_compact: bool) -> (r: CardFrame)
    ensures
        r == frame_of(fullscreen, list_mode, expanded, has_compact),
{
    if fullscreen {
        CardFrame::Fullscreen
    } else if list_mode {
        CardFrame::List
    } else if !expanded && has_compact {
        CardFrame::Compact
    } else {
        CardFrame::Plain
    }
}

/// The frame of the skeleton card shown while a card is generated: the list
/// layout, or a compact card.
pub fn skeleton_frame(list_mode: bool) -> (r: CardFrame)
    ensures
        r == (if list_mode {
            CardFrame::List
        } else {
            CardFrame::Compact
        }),
{
    if list_mode {
        CardFrame::List
    } else {
        CardFrame::Compact
    }
}

/// The classes of a card's text: it fills the card unless listed.
pub fn content_class(list_mode: bool) -> (r: &'static str)
    ensures
        r@ == (if list_mode {
            "text-base leading-7"@
        } else {
            "text-base leading-7 flex-1"@
        }),
{
    if list_mode {
        "text-base leading-7"
    } else {
        "text-base leading-7 flex-1"
    }
}

/// A repeatable card outside full screen stacks one layer per pending card,
/// three at most; any other card, or one in full screen, stacks none.
pub proof fn lemma_stack_layers(tipcard_type: Seq<char>, pending_count: u32, fullscreen: bool)
    ensures
        stack_layers(tipcard_type, pending_count, fullscreen) <= 3,
        stack_layers(tipcard_type, pending_count, fullscreen) <= pending_count,
        tipcard_type == "repeatable_tip"@ && !fullscreen && pending_count <= 3 ==> stack_layers(
            tipcard_type,
            pending_count,
            fullscreen,
        ) == pending_count,
        tipcard_type == "repeatable_tip"@ && !fullscreen && pending_count >= 3 ==> stack_layers(
            tipcard_type,
            pending_count,
            fullscreen,
        ) == 3,
        tipcard_type != "repeatable_tip"@ || fullscreen ==> stack_layers(
            tipcard_type,
            pending_count,
            fullscreen,
        ) == 0,
{
}

/// Each known card type is shown by its own name; any other type as a card.
pub proof fn lemma_type_names(t: Seq<char>)
    ensures
        t == "casual_tip"@ ==> type_text(t) == "Casual"@,
        t == "repeatable_tip"@ ==> type_text(t) == "Repeatable"@,
        t == "manual_tip"@ ==> type_text(t) == "Manual"@,
        t == "custom_tip"@ ==> type_text(t) == "Custom"@,
        t != "casual_tip"@ && t != "repeatable_tip"@ && t != "manual_tip"@ && t != "custom_tip"@
            ==> type_text(t) == "Card"@,
{
    reveal_strlit("repeatable_tip");
    reveal_strlit("casual_tip");
    reveal_strlit("manual_tip");
    reveal_strlit("custom_tip");
    assert("casual_tip"@.len() != "repeatable_tip"@.len());
    assert("manual_tip"@[0] != "casual_tip"@[0]);
    assert("custom_tip"@[1] != "casual_tip"@[1]);
    assert("custom_tip"@[0] != "manual_tip"@[0]);
    assert("manual_tip"@.len() != "repeatable_tip"@.len());
}

/// Manual and custom cards are badged as such whatever their state; any
/// other card is new while active and never reviewed, and known after.
pub proof fn lemma_badges(t: Seq<char>, repeat_count: u32, status: Seq<char>)
    ensures
        t == "manual_tip"@ ==> badge_text(t, repeat_count, status) == "Manual"@,
        t == "custom_tip"@ ==> badge_text(t, repeat_count, status) == "Custom"@,
        t != "manual_tip"@ && t != "custom_tip"@ && repeat_count == 0 && status == "active"@
            ==> badge_text(t, repeat_count, status) == "New"@,
        t != "manual_tip"@ && t != "custom_tip"@ && (repeat_count > 0 || status != "active"@)
            ==> badge_text(t, repeat_count, status) == "Known"@,
{
    reveal_strlit("manual_tip");
    reveal_strlit("custom_tip");
    assert("custom_tip"@[0] != "manual_tip"@[0]);
}

/// A review message is always shown first. Without one, a card shows its
/// compact text exactly when it has one, is collapsed and is not in full
/// screen, and its full text otherwise.
pub proof fn lemma_shown_text(has_review_message: bool, has_compact: bool, expanded: bool, fullscreen: bool)
    ensures
        has_review_message ==> shown_text(has_review_message, has_compact, expanded, fullscreen)
            == CardText::ReviewMessage,
        !has_review_message ==> (shown_text(has_review_message, has_compact, expanded, fullscreen)
            == CardText::Compressed <==> (has_compact && !expanded && !fullscreen)),
        !has_review_message && !(has_compact && !expanded && !fullscreen) ==> shown_text(
            has_review_message,
            has_compact,
            expanded,
            fullscreen,
        ) == CardText::Full,
{
}

/// A compact form exists only without a review message, for a compact text
/// that is not empty and differs from the full text.
pub proof fn lemma_compact_form(has_review_message: bool, compressed: Seq<char>, full: Seq<char>)
    ensures
        has_compact_form(has_review_message, compressed, full) <==> (!has_review_message
            && compressed.len() > 0 && compressed != full),
{
}

/// Full screen wins over the list layout, which wins over a collapsed
/// compact card; anything else is a plain frame.
pub proof fn lemma_frames(fullscreen: bool, list_mode: bool, expanded: bool, has_compact: bool)
    ensures
        fullscreen ==> frame_of(fullscreen, list_mode, expanded, has_compact) == CardFrame::Fullscreen,
        !fullscreen && list_mode ==> frame_of(fullscreen, list_mode, expanded, has_compact)
            == CardFrame::List,
        !fullscreen && !list_mode ==> (frame_of(fullscreen, list_mode, expanded, has_compact)
            == CardFrame::Compact <==> (!expanded && has_compact)),
        !fullscreen && !list_mode && !(!expanded && has_compact) ==> frame_of(
            fullscreen,
            list_mode,
            expanded,
            has_compact,
        ) == CardFrame::Plain,
{
}

/// Archived cards shown per page.
pub const ARCHIVE_PAGE_SIZE: usize = 24;

/// Above this many visible cards the archive turns off its glass effect.
pub const ARCHIVE_GLASS_THRESHOLD: usize = 8;

/// How many archived cards the first `page` pages show.
pub fn archive_visible_count(page: usize, matching: usize) -> (r: usize)
    requires
        page * ARCHIVE_PAGE_SIZE <= usize::MAX,
    ensures
        r == (if page * ARCHIVE_PAGE_SIZE < matching {
            page * ARCHIVE_PAGE_SIZE
        } else {
            matching as int
        }),
{
    let shown = page * ARCHIVE_PAGE_SIZE;
    if shown < matching {
        shown
    } else {
        matching
    }
}

/// Whether the archive turns off its glass effect for `visible` cards.
pub fn archive_glass_disabled(visible: usize) -> (r: bool)
    ensures
        r == (visible > ARCHIVE_GLASS_THRESHOLD),
{
    visible > ARCHIVE_GLASS_THRESHOLD
}

} // verus!
