use vstd::prelude::*;

use crate::app::Key;

verus! {

/// The kinds of modal prompt the interface can show.
#[derive(Clone, Copy, PartialEq, Eq, Structural, Debug)]
pub enum PromptType {
    YesNo,
    Info,
    Error,
}

/// What a key press decides inside a prompt: `Some(answer)` closes it,
/// `None` keeps waiting. An info prompt closes immediately.
pub open spec fn spec_prompt_decision(pt: PromptType, key: Key) -> Option<bool> {
    match pt {
        PromptType::Info => Option::Some(true),
        PromptType::YesNo => if key == Key::Char('y') || key == Key::Char('Y') {
            Option::Some(true)
        } else if key == Key::Char('n') || key == Key::Char('N') || key == Key::Esc {
            Option::Some(false)
        } else {
            Option::None
        },
        PromptType::Error => if key == Key::Enter {
            Option::Some(false)
        } else {
            Option::None
        },
    }
}

/// Decide what a key press does in a prompt of the given kind.
pub fn prompt_decision(pt: PromptType, key: Key) -> (r: Option<bool>)
    ensures
        r == spec_prompt_decision(pt, key),
{
    match pt {
        PromptType::Info => Some(true),
        PromptType::YesNo => {
            if key == Key::Char('y') || key == Key::Char('Y') {
                Some(true)
            } else if key == Key::Char('n') || key == Key::Char('N') || key == Key::Esc {
                Some(false)
            } else {
                None
            }
        },
        PromptType::Error => {
            if key == Key::Enter {
                Some(false)
            } else {
                None
            }
        },
    }
}

} // verus!
