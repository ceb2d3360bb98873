//! The decisions of the install command: whether the user agreed, and how
//! a run is summed up.

use vstd::prelude::*;
use vstd::string::*;
use crate::catalog::FontInfo;
use crate::catalog::models;
use crate::selector::select_fonts_by_name;
use crate::selector::select_fonts_interactively;
use crate::selector::selected_by_input;
use crate::selector::selected_by_names;
use crate::selector::texts;
use crate::text::decimal;
use crate::text::decimal_digits;
use crate::text::lowercase;
use crate::text::lowercased;
use crate::text::starts_with_char;
use crate::text::trim_text;
use crate::text::trimmed;

verus! {

/// An answer agrees if, trimmed and in lower case, it begins with `y`.
pub open spec fn is_yes(answer: Seq<char>) -> bool {
    let t = lowercased(trimmed(answer));
    t.len() > 0 && t[0] == 'y'
}

/// Whether the answer to the confirmation prompt agrees.
pub fn confirmed(answer: &str) -> (r: bool)
    ensures
        r == is_yes(answer@),
{
    let lowered = lowercase(trim_text(answer));
    starts_with_char(lowered.as_str(), 'y')
}

/// Selects the fonts to install: by the names given on the command line,
/// or, where none was given, by the line that the user typed.
pub fn select_fonts(all_fonts: &Vec<FontInfo>, names: &Vec<String>, input: &str) -> (selected: Vec<
    FontInfo,
>)
    ensures
        models(selected@) == if names@.len() == 0 {
            selected_by_input(models(all_fonts@), input@)
        } else {
            selected_by_names(models(all_fonts@), texts(names@))
        },
{
    if names.len() == 0 {
        select_fonts_interactively(all_fonts, input)
    } else {
        select_fonts_by_name(all_fonts, names)
    }
}

/// How many of the outcomes are successes.
pub open spec fn successes(outcomes: Seq<bool>) -> nat
    decreases outcomes.len(),
{
    if outcomes.len() == 0 {
        0
    } else {
        successes(outcomes.drop_last()) + if outcomes.last() {
            1nat
        } else {
            0nat
        }
    }
}

/// The line that sums up a run.
pub open spec fn summary_text(succeeded: nat, total: nat) -> Seq<char> {
    "Installed "@ + decimal_digits(succeeded) + "/"@ + decimal_digits(total)
        + " fonts successfully."@
}

/// Counts the fonts that were installed.
pub fn count_successes(outcomes: &Vec<bool>) -> (n: usize)
    ensures
        n == successes(outcomes@),
        n <= outcomes.len(),
{
    let mut n: usize = 0;
    let mut i: usize = 0;
    assert(outcomes@.subrange(0, 0) =~= Seq::<bool>::empty());
    while i < outcomes.len()
        invariant
            i <= outcomes.len(),
            n <= i,
            n == successes(outcomes@.subrange(0, i as int)),
        decreases outcomes.len() - i,
    {
        assert(outcomes@.subrange(0, i + 1).drop_last() =~= outcomes@.subrange(0, i as int));
        if outcomes[i] {
            n += 1;
        }
        i += 1;
    }
    assert(outcomes@.subrange(0, i as int) =~= outcomes@);
    n
}

/// Sums up a run in which each font in turn was installed or failed: a
/// failure does not end the run, so every font has an outcome.
pub fn install_summary(outcomes: &Vec<bool>) -> (line: String)
    ensures
        line@ == summary_text(successes(outcomes@), outcomes@.len()),
{
    let mut line = String::from_str("Installed ");
    line.append(decimal(count_successes(outcomes)).as_str());
    line.append("/");
    line.append(decimal(outcomes.len()).as_str());
    line.append(" fonts successfully.");
    line
}

} // verus!
