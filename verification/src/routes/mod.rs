//! The handlers of the service, as functions of what they are given and of
//! the store.

pub mod admin;
pub mod login;
pub mod newsletters;
pub mod subscriptions;
pub mod subscriptions_confirm;


use vstd::prelude::*;
use vstd::string::StringExecFns;

verus! {

/// The texts of a list of strings, in order.
pub open spec fn cause_texts(causes: Seq<String>) -> Seq<Seq<char>> {
    Seq::new(causes.len(), |i: int| causes[i]@)
}

/// The lines that name the causes of an error, outermost first.
pub open spec fn caused_by(causes: Seq<Seq<char>>) -> Seq<char>
    decreases causes.len(),
{
    if causes.len() == 0 {
        Seq::empty()
    } else {
        caused_by(causes.drop_last()) + "Caused by:\n\t"@ + causes.last() + "\n"@
    }
}

/// An error with its chain of causes: the error's message, an empty line,
/// and one `Caused by:` entry for each cause.
pub open spec fn error_chain(error: Seq<char>, causes: Seq<Seq<char>>) -> Seq<char> {
    error + "\n\n"@ + caused_by(causes)
}

/// Writes out an error together with its chain of causes.
pub fn error_chain_fmt(error: &str, causes: &Vec<String>) -> (text: String)
    ensures
        text@ == error_chain(error@, cause_texts(causes@)),
{
    let mut text = String::from_str(error);
    text.append("\n\n");
    let mut i: usize = 0;
    assert(cause_texts(causes@).take(0) =~= Seq::empty());
    assert(text@ =~= error@ + "\n\n"@ + caused_by(Seq::empty()));
    while i < causes.len()
        invariant
            i <= causes.len(),
            text@ == error_chain(error@, cause_texts(causes@).take(i as int)),
        decreases causes.len() - i,
    {
        let ghost seen = cause_texts(causes@).take(i as int);
        let ghost before = text@;
        proof {
            assert(cause_texts(causes@).take(i + 1).drop_last() =~= seen);
            assert(cause_texts(causes@).take(i + 1).last() == causes[i as int]@);
        }
        text.append("Caused by:\n\t");
        text.append(causes[i].as_str());
        text.append("\n");
        assert(text@ =~= error@ + "\n\n"@ + (caused_by(seen) + "Caused by:\n\t"@
            + causes[i as int]@ + "\n"@));
        i += 1;
    }
    assert(cause_texts(causes@).take(i as int) =~= cause_texts(causes@));
    text
}

} // verus!
