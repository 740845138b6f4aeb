//! Yes/no answers to the confirmations that a front end asks for, such as truncating the
//! timeline before pushing an event.

use vstd::prelude::*;
use vstd::string::StringExecFns;

verus! {

/// A yes/no answer. Defaults to no.
#[derive(Debug, Clone, Copy, PartialEq, Eq, Structural)]
pub enum YesNo {
    Yes,
    No,
}

impl Default for YesNo {
    fn default() -> (r: Self)
        ensures
            r == YesNo::No,
    {
        YesNo::No
    }
}

/// What `str::to_lowercase` makes of a text.
pub uninterp spec fn lower_of(s: Seq<char>) -> Seq<char>;

/// Relies on `str::to_lowercase`: the result depends on the characters alone.
#[verifier::external_body]
fn lowercase(s: &str) -> (r: String)
    ensures
        r@ == lower_of(s@),
{
    s.to_lowercase()
}

/// The answer that a lower-case text stands for, if any.
pub open spec fn answer_of(lowered: Seq<char>) -> Option<YesNo> {
    if lowered == "y"@ || lowered == "yes"@ {
        Some(YesNo::Yes)
    } else if lowered == "n"@ || lowered == "no"@ {
        Some(YesNo::No)
    } else {
        None
    }
}

/// The message for a text that is no answer.
pub open spec fn not_an_answer_message(lowered: Seq<char>) -> Seq<char> {
    "'"@ + lowered + "' is not a yes/no"@
}

impl YesNo {
    /// Reads an answer from text that is already in lower case: `y` or `yes`, `n` or `no`.
    pub fn from_lowered(lowered: &str) -> (r: Result<YesNo, String>)
        ensures
            answer_of(lowered@) is Some ==> r == Ok::<YesNo, String>(answer_of(lowered@)->Some_0),
            answer_of(lowered@) is None ==> r is Err && r->Err_0@ == not_an_answer_message(lowered@),
    {
        let text = lowered.to_owned();
        if text == "y".to_owned() || text == "yes".to_owned() {
            Ok(YesNo::Yes)
        } else if text == "n".to_owned() || text == "no".to_owned() {
            Ok(YesNo::No)
        } else {
            let mut msg = "'".to_owned();
            msg.append(lowered);
            msg.append("' is not a yes/no");
            Err(msg)
        }
    }

    /// Reads an answer, ignoring case.
    pub fn parse_answer(s: &str) -> (r: Result<YesNo, String>)
        ensures
            answer_of(lower_of(s@)) is Some ==> r == Ok::<YesNo, String>(
                answer_of(lower_of(s@))->Some_0,
            ),
            answer_of(lower_of(s@)) is None ==> r is Err && r->Err_0@ == not_an_answer_message(
                lower_of(s@),
            ),
    {
        let lowered = lowercase(s);
        YesNo::from_lowered(lowered.as_str())
    }
}

impl core::str::FromStr for YesNo {
    type Err = String;

    fn from_str(s: &str) -> Result<Self, String> {
        YesNo::parse_answer(s)
    }
}

} // verus!
