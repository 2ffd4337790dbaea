//! What the rule engine says of a request or a response.
//!
//! The engine itself is a collaborator outside this crate; here is how its
//! answers are read.

use crate::text::{decimal_of, decimal_text, string_of};
use vstd::prelude::*;
use vstd::string::StringExecFns;

verus! {

broadcast use vstd::string::group_string_axioms;

/// The decision of the rule engine for one phase.
#[derive(Debug, Clone, PartialEq, Eq)]
pub enum WafAction {
    /// Nothing stands against the request or response.
    Pass,
    /// It is to be refused with this status.
    Block { status: u16 },
    /// The client is to be sent elsewhere with this status.
    Redirect { status: u16, url: String },
}

/// Reads a return code of the engine: a code of zero or less lets pass; a
/// positive code is the status of a redirection where the engine has set an
/// address, and of a refusal where it has set none.
pub fn interpret_status(code: i32, url: Option<String>) -> (action: WafAction)
    ensures
        code <= 0 ==> action is Pass,
        code > 0 && url is None ==> action == (WafAction::Block { status: code as u16 }),
        code > 0 && url is Some ==> action == (WafAction::Redirect {
            status: code as u16,
            url: url->Some_0,
        }),
{
    if code <= 0 {
        return WafAction::Pass;
    }
    match url {
        Some(url) => WafAction::Redirect { status: code as u16, url },
        None => WafAction::Block { status: code as u16 },
    }
}

/// An `Include` line for each rule file.
pub open spec fn include_lines(files: Seq<String>) -> Seq<char>
    decreases files.len(),
{
    if files.len() == 0 {
        Seq::<char>::empty()
    } else {
        include_lines(files.drop_last()) + "Include "@ + files.last()@ + "\n"@
    }
}

/// The directives that the rule engine is started with: the engine on, the
/// rule files in the order given, and the limit on the request body.
pub open spec fn directives_text(files: Seq<String>, request_body_limit: usize) -> Seq<char> {
    "SecRuleEngine On\n"@ + include_lines(files) + "SecRequestBodyLimit "@ + decimal_text(
        request_body_limit as nat,
    ) + "\n"@
}

/// The directives for the rule engine, from the rule files that the
/// configured patterns name and the configured limit on the request body.
pub fn build_waf_directives(rule_files: &[String], request_body_limit: usize) -> (out: String)
    ensures
        out@ == directives_text(rule_files@, request_body_limit),
{
    let mut includes = String::new();
    let mut i: usize = 0;
    proof {
        assert(rule_files@.take(0) =~= Seq::<String>::empty());
    }
    while i < rule_files.len()
        invariant
            i <= rule_files.len(),
            includes@ == include_lines(rule_files@.take(i as int)),
        decreases rule_files.len() - i,
    {
        proof {
            assert(rule_files@.take(i + 1).drop_last() =~= rule_files@.take(i as int));
            assert(rule_files@.take(i + 1).last() == rule_files@[i as int]);
        }
        includes.append("Include ");
        includes.append(rule_files[i].as_str());
        includes.append("\n");
        i += 1;
    }
    proof {
        assert(rule_files@.take(rule_files.len() as int) =~= rule_files@);
    }
    let limit = decimal_of(request_body_limit as u64);
    let limit_text = string_of(limit.as_slice());
    let mut out = "SecRuleEngine On\n".to_owned();
    out.append(includes.as_str());
    out.append("SecRequestBodyLimit ");
    out.append(limit_text.as_str());
    out.append("\n");
    out
}

} // verus!
