//! The quick-add dialog and the one-line task entry: when a submission
//! goes through and what it carries.
use crate::text::{trim, trimmed};
use vstd::prelude::*;
use vstd::string::StringExecFns;

verus! {

/// What the quick-add dialog submits from its title and description
/// fields: nothing where the title trims to nothing, else the trimmed
/// title and the description as typed.
pub fn quick_add_submission(title_text: &str, description_text: &str) -> (r: Option<(String, String)>)
    ensures
        r is None <==> trimmed(title_text@).len() == 0,
        r matches Some((t, d)) ==> t@ == trimmed(title_text@) && d@ == description_text@,
{
    let title = trim(title_text);
    if title.as_str().is_empty() {
        return None;
    }
    Some((title, String::from_str(description_text)))
}

/// What the one-line entry submits: nothing for blank text, else the text
/// trimmed.
pub fn task_input_submission(text: &str) -> (r: Option<String>)
    ensures
        r is None <==> trimmed(text@).len() == 0,
        r matches Some(t) ==> t@ == trimmed(text@),
{
    let title = trim(text);
    if title.as_str().is_empty() {
        None
    } else {
        Some(title)
    }
}

} // verus!
