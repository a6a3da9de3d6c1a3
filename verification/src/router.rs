//! The router's verified state and decisions: the registered command
//! list, recompiling every command for a bot identity, the per-chain
//! match plan for an incoming text, and which chain outcomes send a
//! failure to the error-handling chain.

use vstd::prelude::*;

use crate::commands::{CommandInput, CommandMeta};
use crate::filters::filter_command;

verus! {

/// Registered commands of one router. Handler chains and the error
/// chain run outside; their decisions are modelled by the match plan and
/// the chain-outcome classification below.
pub struct Router {
    pub commands: Vec<CommandMeta>,
}

impl Router {
    pub fn new() -> (r: Self)
        ensures
            r.commands@.len() == 0,
    {
        Router { commands: Vec::new() }
    }

    /// Register a command for introspection and identity recompilation.
    pub fn add_command(&mut self, command: CommandMeta)
        ensures
            final(self).commands@ == old(self).commands@.push(command),
    {
        self.commands.push(command);
    }

    /// Recompile every registered command to also accept
    /// `@bot_username`.
    pub fn reinit_command_regexes(&mut self, bot_username: &str)
        ensures
            final(self).commands@.len() == old(self).commands@.len(),
            forall|i: int|
                0 <= i < old(self).commands@.len() ==> (#[trigger] old(self).commands@[i]).reinited(
                    bot_username@,
                    &final(self).commands@[i],
                ),
            forall|i: int|
                0 <= i < old(self).commands@.len() ==> ((#[trigger] old(self).commands@[i]).wf()
                    ==> final(self).commands@[i].wf()),
    {
        let n: usize = self.commands.len();
        let mut i: usize = 0;
        while i < n
            invariant
                n == self.commands@.len(),
                0 <= i <= n,
                forall|m: int|
                    0 <= m < i ==> (#[trigger] old(self).commands@[m]).reinited(
                        bot_username@,
                        &self.commands@[m],
                    ),
                forall|m: int|
                    0 <= m < i ==> ((#[trigger] old(self).commands@[m]).wf()
                        ==> self.commands@[m].wf()),
                forall|m: int| i <= m < n ==> self.commands@[m] == old(self).commands@[m],
            decreases n - i,
        {
            let cmd: &mut CommandMeta = &mut self.commands[i];
            cmd.reinit_regex(bot_username);
            i += 1;
        }
    }

    /// The match plan of one dispatch: for each registered command, in
    /// order, the input its matcher derives from `text`, when it accepts.
    pub fn dispatch_matches(&self, text: &str) -> (r: Vec<Option<CommandInput>>)
        ensures
            r@.len() == self.commands@.len(),
            forall|i: int|
                0 <= i < r@.len() ==> ((#[trigger] r@[i]) is Some <==> self.commands@[i].accepts(
                    text@,
                )),
            forall|i: int|
                0 <= i < r@.len() ==> match #[trigger] r@[i] {
                    Some(ci) => exists|a: int, b: int| #[trigger]
                        crate::filters::is_match_result(&self.commands@[i], text@, &ci, a, b),
                    None => true,
                },
    {
        let n: usize = self.commands.len();
        let mut r: Vec<Option<CommandInput>> = Vec::new();
        let mut i: usize = 0;
        while i < n
            invariant
                n == self.commands@.len(),
                0 <= i <= n,
                r@.len() == i,
                forall|m: int|
                    0 <= m < i ==> ((#[trigger] r@[m]) is Some <==> self.commands@[m].accepts(
                        text@,
                    )),
                forall|m: int|
                    0 <= m < i ==> match #[trigger] r@[m] {
                        Some(ci) => exists|a: int, b: int| #[trigger]
                            crate::filters::is_match_result(&self.commands@[m], text@, &ci, a, b),
                        None => true,
                    },
            decreases n - i,
        {
            r.push(filter_command(&self.commands[i], text));
            i += 1;
        }
        r
    }
}

impl Clone for Router {
    fn clone(&self) -> (res: Self)
        ensures
            res.commands@.len() == self.commands@.len(),
            forall|i: int|
                0 <= i < self.commands@.len() ==> (#[trigger] res.commands@[i]).eqv(
                    &self.commands@[i],
                ),
            forall|i: int|
                0 <= i < self.commands@.len() ==> ((#[trigger] self.commands@[i]).wf()
                    ==> res.commands@[i].wf()),
    {
        let n: usize = self.commands.len();
        let mut commands: Vec<CommandMeta> = Vec::new();
        let mut i: usize = 0;
        while i < n
            invariant
                n == self.commands@.len(),
                0 <= i <= n,
                commands@.len() == i,
                forall|m: int|
                    0 <= m < i ==> (#[trigger] commands@[m]).eqv(&self.commands@[m]),
                forall|m: int|
                    0 <= m < i ==> ((#[trigger] self.commands@[m]).wf() ==> commands@[m].wf()),
            decreases n - i,
        {
            commands.push(self.commands[i].clone());
            i += 1;
        }
        Router { commands }
    }
}

impl CommandMeta {
    /// Register a copy of this command with the router and keep the
    /// original for further use.
    pub fn register(self, router: &mut Router) -> (r: Self)
        ensures
            r == self,
            final(router).commands@.len() == old(router).commands@.len() + 1,
            forall|i: int|
                0 <= i < old(router).commands@.len() ==> final(router).commands@[i] == old(
                    router,
                ).commands@[i],
            final(router).commands@.last().eqv(&self),
            self.wf() ==> final(router).commands@.last().wf(),
    {
        router.add_command(self.clone());
        self
    }
}

/// How one handler chain ended for one incoming message: a filter step
/// rejected it, the handler ran and succeeded, or the handler ran and
/// returned a failure.
pub enum ChainOutcome {
    Rejected,
    Completed,
    Failed(String),
}

/// Number of failed outcomes among `s`.
pub open spec fn spec_failed_count(s: Seq<ChainOutcome>) -> int
    decreases s.len()
{
    if s.len() == 0 {
        0
    } else {
        spec_failed_count(s.drop_last()) + if s.last() is Failed {
            1int
        } else {
            0int
        }
    }
}

/// The error-handling chain runs for a chain exactly when that chain's
/// handler returned a failure; a rejection or a success never triggers
/// it, and no other chain's outcome is consulted.
pub fn triggers_error_chain(outcome: &ChainOutcome) -> (r: bool)
    ensures
        r == (outcome is Failed),
{
    match outcome {
        ChainOutcome::Failed(_) => true,
        _ => false,
    }
}

/// How many error-chain runs one dispatch triggers: one for each failed
/// chain outcome.
pub fn error_chain_runs(outcomes: &Vec<ChainOutcome>) -> (r: usize)
    ensures
        r as int == spec_failed_count(outcomes@),
{
    let n: usize = outcomes.len();
    let mut count: usize = 0;
    let mut i: usize = 0;
    while i < n
        invariant
            n == outcomes@.len(),
            0 <= i <= n,
            count <= i,
            count as int == spec_failed_count(outcomes@.subrange(0, i as int)),
        decreases n - i,
    {
        proof {
            assert(outcomes@.subrange(0, i as int + 1).drop_last() =~= outcomes@.subrange(
                0,
                i as int,
            ));
            assert(outcomes@.subrange(0, i as int + 1).last() == outcomes@[i as int]);
        }
        if triggers_error_chain(&outcomes[i]) {
            count += 1;
        }
        i += 1;
    }
    proof {
        assert(outcomes@.subrange(0, n as int) =~= outcomes@);
    }
    count
}

} // verus!
