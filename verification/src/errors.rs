//! Error text for clients: an error with all of its causes on one line.
use crate::text::push_str;
use vstd::prelude::*;
use vstd::string::*;

verus! {

#[verifier::external_type_specification]
#[verifier::external_body]
pub struct ExAnyhowError(anyhow::Error);

/// Messages joined with `; caused by: `, the outermost first.
pub open spec fn chain_text(messages: Seq<Seq<char>>) -> Seq<char>
    decreases messages.len(),
{
    if messages.len() <= 1 {
        if messages.len() == 0 {
            Seq::empty()
        } else {
            messages[0]
        }
    } else {
        chain_text(messages.drop_last()) + "; caused by: "@ + messages.last()
    }
}

/// Joins the messages of an error and its causes, the outermost first.
pub fn join_error_chain(messages: &Vec<String>) -> (r: String)
    ensures
        r@ == chain_text(messages@.map_values(|m: String| m@)),
{
    let ghost ms = messages@.map_values(|m: String| m@);
    let mut r = String::new();
    for i in 0..messages.len()
        invariant
            ms == messages@.map_values(|m: String| m@),
            r@ == chain_text(ms.take(i as int)),
    {
        proof {
            assert(ms.take(i + 1).drop_last() =~= ms.take(i as int));
        }
        if i > 0 {
            push_str(&mut r, "; caused by: ");
        }
        push_str(&mut r, messages[i].as_str());
        proof {
            if i == 0 {
                assert(r@ =~= ms.take(1)[0]);
            }
        }
    }
    proof {
        assert(ms.take(messages@.len() as int) =~= ms);
    }
    r
}

/// The number of errors in the chain of an error: the error itself and each
/// source below it.
pub uninterp spec fn chain_len(e: anyhow::Error) -> nat;

/// Calls `anyhow::Error::chain` and the `Display` of each error in it.
/// Claimed: one message per error in the chain, which starts with the error
/// itself, so at least one; the texts themselves are not stated.
#[verifier::external_body]
fn error_chain_messages(e: &anyhow::Error) -> (r: Vec<String>)
    ensures
        r@.len() == chain_len(*e),
        r@.len() >= 1,
{
    let mut v = Vec::new();
    for cause in e.chain() {
        v.push(cause.to_string());
    }
    v
}

/// An error and all its causes on one line, joined with `; caused by: `:
/// one message per error in the chain. The messages are the `Display` texts
/// of the errors, which the error types write (for operating-system errors,
/// text that differs between machines); nothing is stated of them. The
/// joining is `join_error_chain`, whose contract is exact.
pub fn format_anyhow_chain(e: &anyhow::Error) -> (r: String)
    ensures
        exists|ms: Seq<Seq<char>>|
            ms.len() == chain_len(*e) && ms.len() >= 1 && r@ == chain_text(ms),
{
    let messages = error_chain_messages(e);
    let r = join_error_chain(&messages);
    proof {
        let ms = messages@.map_values(|m: String| m@);
        assert(ms.len() == chain_len(*e) && ms.len() >= 1 && r@ == chain_text(ms));
    }
    r
}

} // verus!
