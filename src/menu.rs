//! The decisions of the interactive menu in which the user classifies each
//! file: which entry is highlighted, and which key picks or aborts.

use vstd::prelude::*;
use crate::change::FileCategory;

verus! {

/// How many entries the menu has.
pub const MENU_LEN: usize = 4;

/// A key press, as far as the menu cares.
#[derive(Clone, Copy, Debug, PartialEq, Eq, Structural)]
pub enum MenuKey {
    Up,
    Down,
    Enter,
    Esc,
    Char(char),
    Other,
}

/// What a key press does.
#[derive(Clone, Copy, Debug, PartialEq, Eq, Structural)]
pub enum MenuStep {
    /// Highlight the entry at this index and wait for the next key.
    Highlight(usize),
    /// The user picked this category.
    Chosen(FileCategory),
    /// The user gave up.
    Aborted,
}

/// The category of the menu entry at `index`.
pub open spec fn entry_category(index: nat) -> FileCategory {
    if index == 0 {
        FileCategory::Main
    } else if index == 1 {
        FileCategory::Supporting
    } else if index == 2 {
        FileCategory::Consequence
    } else {
        FileCategory::Ignored
    }
}

/// The category of the menu entry at `index`.
pub fn category_at(index: usize) -> (r: FileCategory)
    requires
        index < MENU_LEN,
    ensures
        r == entry_category(index as nat),
{
    if index == 0 {
        FileCategory::Main
    } else if index == 1 {
        FileCategory::Supporting
    } else if index == 2 {
        FileCategory::Consequence
    } else {
        FileCategory::Ignored
    }
}

/// The label of the menu entry at `index`.
pub fn entry_label(index: usize) -> (r: &'static str)
    requires
        index < MENU_LEN,
    ensures
        index == 0 ==> r@ == "1) Main purpose"@,
        index == 1 ==> r@ == "2) Supporting change"@,
        index == 2 ==> r@ == "3) Consequence / ripple"@,
        index == 3 ==> r@ == "4) Ignore / unrelated cleanup"@,
{
    if index == 0 {
        "1) Main purpose"
    } else if index == 1 {
        "2) Supporting change"
    } else if index == 2 {
        "3) Consequence / ripple"
    } else {
        "4) Ignore / unrelated cleanup"
    }
}

/// The effect of `key` while the entry at `selected` is highlighted: the
/// arrows move the highlight round the menu, the digits 1 to 4 pick an entry
/// directly, Enter picks the highlighted one, Esc aborts, and any other key
/// changes nothing.
pub fn menu_step(selected: usize, key: MenuKey) -> (r: MenuStep)
    requires
        selected < MENU_LEN,
    ensures
        r == match key {
            MenuKey::Up => MenuStep::Highlight(
                if selected == 0 {
                    (MENU_LEN - 1) as usize
                } else {
                    (selected - 1) as usize
                },
            ),
            MenuKey::Down => MenuStep::Highlight(((selected + 1) % MENU_LEN as int) as usize),
            MenuKey::Enter => MenuStep::Chosen(entry_category(selected as nat)),
            MenuKey::Esc => MenuStep::Aborted,
            MenuKey::Char(c) => if '1' <= c <= '4' {
                MenuStep::Chosen(entry_category((c as nat - '1' as nat) as nat))
            } else {
                MenuStep::Highlight(selected)
            },
            MenuKey::Other => MenuStep::Highlight(selected),
        },
        r matches MenuStep::Highlight(i) ==> i < MENU_LEN,
{
    match key {
        MenuKey::Up => {
            if selected == 0 {
                MenuStep::Highlight(MENU_LEN - 1)
            } else {
                MenuStep::Highlight(selected - 1)
            }
        },
        MenuKey::Down => MenuStep::Highlight((selected + 1) % MENU_LEN),
        MenuKey::Enter => MenuStep::Chosen(category_at(selected)),
        MenuKey::Esc => MenuStep::Aborted,
        MenuKey::Char(c) => {
            if '1' <= c && c <= '4' {
                MenuStep::Chosen(category_at((c as u32 - '1' as u32) as usize))
            } else {
                MenuStep::Highlight(selected)
            }
        },
        MenuKey::Other => MenuStep::Highlight(selected),
    }
}

} // verus!
