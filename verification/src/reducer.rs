//! The reducer: pure, synchronous state transitions. It mutates AppState and
//! returns Effects describing the IO the kernel must perform. Async
//! completions are consumed by the pair (purpose, payload).

use vstd::prelude::*;
use crate::event::{Plan, Purpose};
use crate::intent::{Intent, same_intent};
use crate::select::cand_models;
use crate::value::Ev;
use crate::mode::{Candidate, CmdToken};
use crate::text::owned;

verus! {

/// A user-facing notice produced by the reducer.
#[derive(Debug, Clone, PartialEq)]
pub struct Notice {
    pub text: String,
    pub error: bool,
}

impl Notice {
    pub fn info(text: &str) -> (n: Notice)
        ensures
            n.text@ == text@,
            !n.error,
    {
        Notice { text: owned(text), error: false }
    }

    pub fn error(text: &str) -> (n: Notice)
        ensures
            n.text@ == text@,
            n.error,
    {
        Notice { text: owned(text), error: true }
    }
}

/// The reducer's read-only view of its surroundings: the command registry
/// (for the RunCommand confirm action and the palette), the resolver chain
/// (option checkboxes and the command-line skeleton), and the few facts of
/// the filesystem and environment that a transition consults.
pub trait CommandLookup {
    /// Whether this lookup's commands are the ones `command_intent` and
    /// `command_models` describe. A lookup that does not say so (the default)
    /// is promised nothing by the contracts below.
    open spec fn obeys_commands(&self) -> bool {
        false
    }

    /// The intent registered under a command name.
    open spec fn command_intent(&self, name: Seq<char>) -> Option<Intent> {
        None
    }

    /// The (label, value) models of the palette candidates, one per command.
    open spec fn command_models(&self) -> Seq<(Seq<char>, Ev)> {
        Seq::empty()
    }

    /// A copy of the intent registered under `name`: `Some` exactly when
    /// one is, with the same data.
    fn intent_of(&self, name: &str) -> (r: Option<Intent>)
        ensures
            self.obeys_commands() ==> (r is Some == self.command_intent(name@) is Some),
            self.obeys_commands() && r is Some ==> same_intent(r->0, self.command_intent(name@)->0);

    /// The palette candidates, one per registered command.
    fn command_candidates(&self) -> (r: Vec<Candidate>)
        ensures
            self.obeys_commands() ==> cand_models(r@) == self.command_models();

    /// The selectable options (token, label) for a resolver op.
    fn resolver_options(&self, op: &str) -> (r: Vec<(String, String)>)
        default_ensures
            r@.len() == 0,
    {
        Vec::new()
    }

    /// The resolved command-line skeleton for an op.
    fn resolver_command(&self, op: &str) -> (r: Vec<CmdToken>)
        default_ensures
            r@.len() == 0,
    {
        Vec::new()
    }

    /// Whether `path` names a directory.
    fn is_dir(&self, path: &str) -> (r: bool)
        default_ensures
            !r,
    {
        false
    }

    /// The paths of the entries of directory `dir`.
    fn dir_children(&self, dir: &str) -> (r: Vec<String>)
        default_ensures
            r@.len() == 0,
    {
        Vec::new()
    }

    /// The editor command used by Edit.
    fn editor(&self) -> (r: String)
        default_ensures
            r@ == "vi"@,
    {
        "vi".to_owned()
    }
}

/// A lookup that knows no commands and no filesystem.
pub struct NoCommands;

impl CommandLookup for NoCommands {
    open spec fn obeys_commands(&self) -> bool {
        true
    }

    open spec fn command_intent(&self, name: Seq<char>) -> Option<Intent> {
        None
    }

    open spec fn command_models(&self) -> Seq<(Seq<char>, Ev)> {
        Seq::empty()
    }

    fn intent_of(&self, name: &str) -> (r: Option<Intent>)
        ensures
            r is None,
    {
        None
    }

    fn command_candidates(&self) -> (r: Vec<Candidate>)
        ensures
            r@.len() == 0,
    {
        let r: Vec<Candidate> = Vec::new();
        assert(cand_models(r@) =~= Seq::<(Seq<char>, Ev)>::empty());
        r
    }
}

/// The side effects returned by the reducer: plans to spawn, notices to show,
/// and follow-up intents to re-dispatch.
#[derive(Debug, Clone, PartialEq)]
pub struct Effects {
    pub plans: Vec<Plan>,
    pub notices: Vec<Notice>,
    pub intents: Vec<Intent>,
}

pub open spec fn fx_none(fx: Effects) -> bool {
    fx.plans@.len() == 0 && fx.notices@.len() == 0 && fx.intents@.len() == 0
}

/// Exactly one plan and nothing else.
pub open spec fn fx_plan(fx: Effects, p: Plan) -> bool {
    fx.plans@ == seq![p] && fx.notices@.len() == 0 && fx.intents@.len() == 0
}

/// Exactly one notice and nothing else.
pub open spec fn fx_notice(fx: Effects, text: Seq<char>, error: bool) -> bool {
    &&& fx.plans@.len() == 0
    &&& fx.intents@.len() == 0
    &&& fx.notices@.len() == 1
    &&& fx.notices@[0].text@ == text
    &&& fx.notices@[0].error == error
}

/// Exactly one follow-up intent and nothing else.
pub open spec fn fx_intent(fx: Effects, i: Intent) -> bool {
    fx.plans@.len() == 0 && fx.notices@.len() == 0 && fx.intents@ == seq![i]
}

impl Default for Effects {
    fn default() -> (fx: Effects)
        ensures
            fx_none(fx),
    {
        Effects { plans: Vec::new(), notices: Vec::new(), intents: Vec::new() }
    }
}

impl Effects {
    pub fn none() -> (fx: Effects)
        ensures
            fx_none(fx),
    {
        Effects { plans: Vec::new(), notices: Vec::new(), intents: Vec::new() }
    }

    pub fn plan(p: Plan) -> (fx: Effects)
        ensures
            fx_plan(fx, p),
    {
        let mut plans = Vec::new();
        plans.push(p);
        Effects { plans, notices: Vec::new(), intents: Vec::new() }
    }

    pub fn notice(n: Notice) -> (fx: Effects)
        ensures
            fx.plans@.len() == 0,
            fx.intents@.len() == 0,
            fx.notices@ == seq![n],
    {
        let mut notices = Vec::new();
        notices.push(n);
        Effects { plans: Vec::new(), notices, intents: Vec::new() }
    }

    pub fn emit(intents: Vec<Intent>) -> (fx: Effects)
        ensures
            fx.plans@.len() == 0,
            fx.notices@.len() == 0,
            fx.intents == intents,
    {
        Effects { plans: Vec::new(), notices: Vec::new(), intents }
    }

    pub fn emit_one(i: Intent) -> (fx: Effects)
        ensures
            fx_intent(fx, i),
    {
        let mut intents = Vec::new();
        intents.push(i);
        Effects { plans: Vec::new(), notices: Vec::new(), intents }
    }
}

/// The purpose a plan completes under.
pub open spec fn purpose_of(p: Plan) -> Purpose {
    match p {
        Plan::ReadDir { .. } => Purpose::Refresh,
        Plan::Search { .. } => Purpose::Search,
        Plan::Read { .. } => Purpose::Content,
        Plan::ResolveAndRun { .. } => Purpose::Resolver,
        Plan::Execute { .. } => Purpose::Execute,
        Plan::Suspend { .. } => Purpose::Execute,
        Plan::EvalScheme { .. } => Purpose::Scheme,
    }
}

impl Plan {
    pub fn purpose(&self) -> (r: Purpose)
        ensures
            r == purpose_of(*self),
    {
        match self {
            Plan::ReadDir { .. } => Purpose::Refresh,
            Plan::Search { .. } => Purpose::Search,
            Plan::Read { .. } => Purpose::Content,
            Plan::ResolveAndRun { .. } => Purpose::Resolver,
            Plan::Execute { .. } => Purpose::Execute,
            Plan::Suspend { .. } => Purpose::Execute,
            Plan::EvalScheme { .. } => Purpose::Scheme,
        }
    }
}

} // verus!
