//! The format rule for a customer's e-mail address.

use vstd::prelude::*;

verus! {

/// An address is well formed when it holds exactly one `@`, at least one
/// character before it, at least one after it, and a `.` somewhere after it.
pub open spec fn well_formed(email: Seq<char>) -> bool {
    exists|at: int|
        {
            &&& 0 < at < email.len() - 1
            &&& #[trigger] email[at] == '@'
            &&& forall|i: int| 0 <= i < email.len() && i != at ==> #[trigger] email[i] != '@'
            &&& exists|dot: int| at < dot < email.len() && #[trigger] email[dot] == '.'
        }
}

/// The address that was refused.
#[derive(Debug, PartialEq, Eq)]
pub struct InvalidEmail {
    pub email: String,
}

impl InvalidEmail {
    /// The text shown for the refusal: a fixed prefix, then the address.
    pub fn message(&self) -> (text: String)
        ensures
            text@ == "invalid email format: "@ + self.email@,
    {
        let mut text = String::from_str("invalid email format: ");
        text.append(self.email.as_str());
        text
    }
}

/// Decides whether `email` is well formed, in one pass over its characters.
pub fn is_valid_email(email: &str) -> (ok: bool)
    ensures
        ok == well_formed(email@),
{
    // How many `@` were read, counted up to two.
    let mut ats: u8 = 0;
    let mut seen_any = false;
    // The first `@` read was the first character.
    let mut leading = false;
    // The last character read was an `@`.
    let mut trailing = false;
    // A `.` was read after the first `@`.
    let mut dotted = false;
    let ghost mut first_at: int = 0;
    let ghost mut second_at: int = 0;
    let ghost mut dot_at: int = 0;
    for c in it: email.chars()
        invariant
            it.seq() == email@,
            ats <= 2,
            seen_any == (it.index() > 0),
            ats == 0 ==> forall|i: int| 0 <= i < it.index() ==> email@[i] != '@',
            ats >= 1 ==> 0 <= first_at < it.index() && email@[first_at] == '@' && forall|i: int|
                0 <= i < first_at ==> email@[i] != '@',
            ats == 1 ==> forall|i: int| first_at < i < it.index() ==> email@[i] != '@',
            ats == 2 ==> first_at < second_at < it.index() && email@[second_at] == '@',
            ats >= 1 ==> leading == (first_at == 0),
            ats >= 1 ==> trailing == (email@[it.index() - 1] == '@'),
            dotted ==> ats >= 1 && first_at < dot_at < it.index() && email@[dot_at] == '.',
            !dotted && ats >= 1 ==> forall|i: int| first_at < i < it.index() ==> email@[i] != '.',
    {
        if c == '@' {
            if ats == 0 {
                ats = 1;
                leading = !seen_any;
                proof {
                    first_at = it.index();
                }
            } else {
                proof {
                    if ats == 1 {
                        second_at = it.index();
                    }
                }
                ats = 2;
            }
            trailing = true;
        } else {
            trailing = false;
            if c == '.' && ats >= 1 {
                dotted = true;
                proof {
                    dot_at = it.index();
                }
            }
        }
        seen_any = true;
    }
    let ok = ats == 1 && !leading && !trailing && dotted;
    proof {
        if ok {
            assert(email@[first_at] == '@');
            assert(email@[dot_at] == '.');
        }
        if well_formed(email@) {
            let at = choose|at: int|
                {
                    &&& 0 < at < email@.len() - 1
                    &&& #[trigger] email@[at] == '@'
                    &&& forall|i: int|
                        0 <= i < email@.len() && i != at ==> #[trigger] email@[i] != '@'
                    &&& exists|dot: int| at < dot < email@.len() && #[trigger] email@[dot] == '.'
                };
            assert(at == first_at);
        }
    }
    ok
}

/// Accepts a well-formed address unchanged and refuses every other one.
pub fn validate_email(email: String) -> (r: Result<String, InvalidEmail>)
    ensures
        well_formed(email@) ==> r == Ok::<String, InvalidEmail>(email),
        !well_formed(email@) ==> r == Err::<String, InvalidEmail>(InvalidEmail { email }),
{
    if is_valid_email(email.as_str()) {
        Ok(email)
    } else {
        Err(InvalidEmail { email })
    }
}

} // verus!
