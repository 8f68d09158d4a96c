//! Interpretation of the operator's answer to a confirmation prompt.

use vstd::prelude::*;

verus! {

/// Whether one line of operator input confirms the candidate: only
/// input whose first character is `y` or `Y` is affirmative. Any other
/// input, the empty line included, declines; ambiguous input is never
/// an error, it always means "skip".
pub open spec fn is_affirmative(s: Seq<char>) -> bool {
    s.len() > 0 && (s[0] == 'y' || s[0] == 'Y')
}

/// Read an operator's answer line as a decision.
pub fn interpret_answer(input: &str) -> (r: bool)
    ensures
        r == is_affirmative(input@),
{
    if input.unicode_len() == 0 {
        false
    } else {
        let c = input.get_char(0);
        c == 'y' || c == 'Y'
    }
}

} // verus!
