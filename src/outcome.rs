//! Building the outcome of an analysis.
use vstd::prelude::*;
use vstd::string::StringExecFns;
use crate::types::{
    ParseResult, ParseResultError, ParseResultErrorStateError, ParseResultSuccess,
    ParseResultSuccessStateSuccess, Prompt,
};

verus! {

/// The messages joined by `"; "`.
pub open spec fn joined(msgs: Seq<Seq<char>>) -> Seq<char>
    decreases msgs.len(),
{
    if msgs.len() == 0 {
        Seq::empty()
    } else if msgs.len() == 1 {
        msgs[0]
    } else {
        joined(msgs.drop_last()) + seq![';', ' '] + msgs.last()
    }
}

/// The message a failure reports: the front end's, or a generic one when
/// the front end gave none.
pub open spec fn failure_message(m: Seq<char>, generic: Seq<char>) -> Seq<char> {
    if m.len() > 0 {
        m
    } else {
        generic
    }
}

/// The front end's diagnostics as one message, joined by `"; "`.
pub fn join_messages(msgs: &Vec<String>) -> (r: String)
    ensures
        r@ == joined(msgs@.map_values(|m: String| m@)),
{
    let ghost views = msgs@.map_values(|m: String| m@);
    let mut out = String::new();
    let mut i: usize = 0;
    while i < msgs.len()
        invariant
            i <= msgs@.len(),
            views == msgs@.map_values(|m: String| m@),
            out@ == joined(views.subrange(0, i as int)),
        decreases msgs@.len() - i,
    {
        assert(views.subrange(0, i + 1).drop_last() =~= views.subrange(0, i as int));
        if i > 0 {
            out.append("; ");
            proof {
                reveal_strlit("; ");
            }
        } else {
            assert(out@ =~= Seq::<char>::empty());
        }
        out.append(msgs[i].as_str());
        proof {
            if i == 0 {
                assert(out@ =~= views.subrange(0, 1)[0]);
            }
        }
        i += 1;
    }
    assert(views.subrange(0, i as int) =~= views);
    out
}

/// A failed analysis with the front end's message, or with a generic one
/// when that message is empty: a failure never comes without a message.
pub fn failure(message: String) -> (r: ParseResult)
    ensures
        r matches ParseResult::ParseResultError(e) && e.error@ == failure_message(
            message@,
            "the source could not be parsed"@,
        ),
        r matches ParseResult::ParseResultError(e) && e.error@.len() > 0,
{
    let error = if !message.as_str().is_empty() {
        message
    } else {
        String::from_str("the source could not be parsed")
    };
    proof {
        reveal_strlit("the source could not be parsed");
    }
    ParseResult::ParseResultError(ParseResultError { state: ParseResultErrorStateError, error })
}

/// A successful analysis with the prompts found.
pub fn success(prompts: Vec<Prompt>) -> (r: ParseResult)
    ensures
        r matches ParseResult::ParseResultSuccess(s) && s.prompts@ == prompts@,
{
    ParseResult::ParseResultSuccess(
        ParseResultSuccess { state: ParseResultSuccessStateSuccess, prompts },
    )
}

} // verus!
