//! Speculative parsing: try a rule, and undo it if it says that it was the wrong one.

use vstd::prelude::*;
use crate::parser::{lemma_checkpoint_extends, CompletedMarker, Parser};

verus! {

/// Runs `rule` as an attempt. If the rule answers with a node, what it recorded
/// stays, diagnostics included. If it answers `None`, the parser is rewound to
/// where it stood before the attempt: cursor, event buffer, diagnostics and state
/// are what they were, and nothing of the attempt is left.
///
/// Attempts nest: a rule may itself make attempts, and a rewind of the outer attempt
/// takes with it what an inner one had kept.
///
/// The contract names the run of the rule: there is a run of `rule` from the parser
/// as it was that gave the answer, and after a `Some` the parser is what that run
/// left.
pub fn try_parse<F>(p: &mut Parser, rule: F) -> (r: Option<CompletedMarker>) where
    F: FnOnce(&mut Parser) -> Option<CompletedMarker>,

    requires
        old(p)@.wf(),
        forall|q: &mut Parser| q@ == old(p)@ ==> call_requires(rule, (q,)),
        forall|q: &mut Parser, r: Option<CompletedMarker>|
            q@ == old(p)@ && #[trigger] call_ensures(rule, (q,), r) ==> final(q)@.answers_option(
                q@,
                r,
            ),
    ensures
        r is None ==> final(p)@ == old(p)@,
        exists|q: &mut Parser|
            {
                &&& q@ == old(p)@
                &&& #[trigger] call_ensures(rule, (q,), r)
                &&& r is Some ==> final(q)@ == final(p)@
            },
        final(p)@.answers_option(old(p)@, r),
{
    let checkpoint = p.checkpoint();
    let ghost entry = p@;
    let res = rule(p);
    if res.is_none() {
        proof {
            lemma_checkpoint_extends(entry, p@, checkpoint);
        }
        p.rewind(checkpoint);
    }
    res
}

} // verus!
