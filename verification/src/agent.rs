//! The conversational agent: resolved configuration, the conversation store,
//! the checks that precede a network exchange, and the committer that makes
//! a finished exchange durable as exactly one user turn and one assistant
//! turn. A whole exchange against a scripted transport can be run here; the
//! live event loop only feeds events and carries out commands.

use vstd::prelude::*;

use crate::context::{build_messages, Message};
use crate::errors::AgentError;
use crate::exchange::{
    events_view, init_model, run_model, ExchangeMachine, Outcome, OutcomeModel, Phase, PhaseModel,
    ResilienceConfig, TransportEvent,
};
use crate::store::{recent, ChatTurn, Memory, TurnRec};
use crate::stream::{completion_decode_of, fallback_reply, fallback_text};

verus! {

/// The single provider this build supports.
pub open spec fn provider_supported(p: Seq<char>) -> bool {
    p == "openai"@
}

/// The log grew by exactly two turns: the user prompt, then the reply, the
/// reply's id above the prompt's.
pub open spec fn committed(
    before: Seq<TurnRec>,
    after: Seq<TurnRec>,
    prompt: Seq<char>,
    reply: Seq<char>,
) -> bool {
    &&& after.len() == before.len() + 2
    &&& after.subrange(0, before.len() as int) == before
    &&& after[before.len() as int].1 == "user"@
    &&& after[before.len() as int].2 == prompt
    &&& after.last().1 == "assistant"@
    &&& after.last().2 == reply
    &&& after[before.len() as int].0 < after.last().0
}

/// The log gained exactly the user turn: a half-finished commit whose second
/// append failed.
pub open spec fn committed_prompt_only(
    before: Seq<TurnRec>,
    after: Seq<TurnRec>,
    prompt: Seq<char>,
) -> bool {
    &&& after.len() == before.len() + 1
    &&& after.subrange(0, before.len() as int) == before
    &&& after.last().1 == "user"@
    &&& after.last().2 == prompt
}

/// Configuration resolved once by the caller and passed in; the agent makes
/// no implicit lookups of its own.
#[derive(Debug)]
pub struct AgentConfig {
    /// Provider identifier; only "openai" is supported.
    pub provider: String,
    /// Model identifier, sent verbatim in each request.
    pub model: String,
    /// The bearer credential, when one was supplied.
    pub api_key: Option<String>,
    /// How many recent turns are given to the context builder.
    pub memory_turns: usize,
    /// Retry and backoff bounds for the streaming client.
    pub resilience: ResilienceConfig,
}

/// The agent: resolved configuration plus the opened conversation store.
pub struct AiAgent {
    /// The resolved configuration the agent was built with.
    pub config: AgentConfig,
    /// The opened conversation store.
    pub mem: Memory,
}

impl AiAgent {
    /// The store's invariant, threaded through every operation.
    pub closed spec fn inv(&self) -> bool {
        self.mem.inv()
    }

    /// The model of the conversation log the agent holds.
    pub closed spec fn history(&self) -> Seq<TurnRec> {
        self.mem@
    }

    /// Opens (or initializes) the store at `memory_path` and wires the
    /// already-resolved configuration.
    pub fn new(config: AgentConfig, memory_path: &str) -> (r: Result<AiAgent, AgentError>)
        ensures
            r matches Ok(a) ==> a.inv() && a.config == config,
            r matches Err(e) ==> e == AgentError::StorageFailure,
    {
        match Memory::open(memory_path) {
            Ok(mem) => Ok(AiAgent { config, mem }),
            Err(e) => Err(e),
        }
    }

    /// Checks the provider and the credential, reads the bounded recent
    /// history, and builds the request messages with the prompt appended.
    pub fn begin_exchange(&self, prompt: &str) -> (r: Result<Vec<Message>, AgentError>)
        requires
            self.inv(),
        ensures
            r == Err::<Vec<Message>, AgentError>(AgentError::UnsupportedProvider)
                <==> !provider_supported(self.config.provider@),
            r == Err::<Vec<Message>, AgentError>(AgentError::MissingCredential)
                <==> provider_supported(self.config.provider@) && self.config.api_key is None,
            r matches Err(e) ==> e == AgentError::UnsupportedProvider || e
                == AgentError::MissingCredential || e == AgentError::StorageFailure,
            r matches Ok(msgs) ==> ({
                let hist = recent(self.history(), self.config.memory_turns as int);
                &&& provider_supported(self.config.provider@)
                &&& self.config.api_key is Some
                &&& msgs@.len() == hist.len() + 1
                &&& forall|i: int|
                    0 <= i < hist.len() ==> (#[trigger] msgs@[i])@ == (hist[i].1, hist[i].2)
                &&& msgs@.last()@ == ("user"@, prompt@)
            }),
    {
        let openai = "openai".to_owned();
        if !(self.config.provider == openai) {
            return Err(AgentError::UnsupportedProvider);
        }
        match &self.config.api_key {
            None => {
                return Err(AgentError::MissingCredential);
            },
            Some(_) => {},
        }
        let hist = match self.mem.last_turns(self.config.memory_turns) {
            Ok(v) => v,
            Err(_) => {
                return Err(AgentError::StorageFailure);
            },
        };
        let msgs = build_messages(&hist, prompt);
        proof {
            let hmodel = recent(self.history(), self.config.memory_turns as int);
            assert forall|i: int| 0 <= i < hmodel.len() implies hist@[i]@ == hmodel[i] by {
                assert(crate::store::turns_view(hist@)[i] == hist@[i]@);
            }
        }
        Ok(msgs)
    }

    /// Appends the finished exchange to the store: the user prompt, then the
    /// assistant reply, exactly two new turns in that order, only after the
    /// full result is known. On failure the log gained at most the user turn,
    /// and the error is surfaced.
    pub fn commit_exchange(&mut self, prompt: &str, reply: &str) -> (r: Result<(), AgentError>)
        requires
            old(self).inv(),
        ensures
            final(self).inv(),
            final(self).config == old(self).config,
            r is Ok ==> committed(old(self).history(), final(self).history(), prompt@, reply@),
            r matches Err(e) ==> e == AgentError::StorageFailure,
            r is Err ==> ({
                let before = old(self).history();
                let after = final(self).history();
                after == before || committed_prompt_only(before, after, prompt@)
            }),
    {
        let ghost before = self.history();
        match self.mem.append("user", prompt) {
            Ok(()) => {},
            Err(e) => {
                return Err(e);
            },
        }
        let ghost mid = self.history();
        match self.mem.append("assistant", reply) {
            Ok(()) => {
                proof {
                    let after = self.history();
                    assert(mid.subrange(0, before.len() as int) == before);
                    assert forall|i: int| 0 <= i < before.len() implies after[i] == before[i] by {
                        assert(after.subrange(0, mid.len() as int)[i] == after[i]);
                        assert(mid.subrange(0, before.len() as int)[i] == mid[i]);
                    }
                    assert(after.subrange(0, before.len() as int) =~= before);
                    assert(after[before.len() as int] == after.subrange(0, mid.len() as int)[
                        before.len() as int
                    ]);
                    assert(after[before.len() as int] == mid.last());
                    assert(mid[before.len() as int].0 < after.last().0);
                }
                Ok(())
            },
            Err(e) => Err(e),
        }
    }

    /// Runs one whole exchange against a scripted transport: `events` stands
    /// for what the network delivered, in order, and `fallback_body` for the
    /// body of the synchronous fallback response, when one could be obtained.
    /// The finished pair is committed before the result is returned.
    #[verifier::loop_isolation(false)]
    pub fn run_scripted(
        &mut self,
        prompt: &str,
        events: &Vec<TransportEvent>,
        fallback_body: Option<&str>,
    ) -> (r: Result<String, AgentError>)
        requires
            old(self).inv(),
        ensures
            final(self).inv(),
            final(self).config == old(self).config,
            r == Err::<String, AgentError>(AgentError::StorageFailure) ==> ({
                let before = old(self).history();
                let after = final(self).history();
                after == before || committed_prompt_only(before, after, prompt@)
            }),
            !provider_supported(old(self).config.provider@) ==> r == Err::<
                String,
                AgentError,
            >(AgentError::UnsupportedProvider) && final(self).history() == old(self).history(),
            provider_supported(old(self).config.provider@) && old(self).config.api_key is None
                ==> r == Err::<String, AgentError>(AgentError::MissingCredential)
                    && final(self).history() == old(self).history(),
            provider_supported(old(self).config.provider@) && old(self).config.api_key is Some
                ==> ({
                let m2 = run_model(
                    init_model(old(self).config.resilience.max_retries as int),
                    events_view(events@),
                );
                match m2.phase {
                    PhaseModel::Finished(OutcomeModel::Streamed(text)) => {
                        &&& r matches Ok(s) ==> s@ == text && committed(
                            old(self).history(),
                            final(self).history(),
                            prompt@,
                            text,
                        )
                        &&& (r is Ok || r == Err::<String, AgentError>(AgentError::StorageFailure))
                    },
                    PhaseModel::Finished(OutcomeModel::NeedFallback) => match fallback_body {
                        Some(b) => {
                            &&& completion_decode_of(b@) is None ==> r == Err::<
                                String,
                                AgentError,
                            >(AgentError::TransportFailure)
                                && final(self).history() == old(self).history()
                            &&& completion_decode_of(b@) is Some ==> ({
                                let text = fallback_reply(b@);
                                &&& r matches Ok(s) ==> s@ == text && committed(
                                    old(self).history(),
                                    final(self).history(),
                                    prompt@,
                                    text,
                                )
                                &&& (r is Ok || r == Err::<String, AgentError>(
                                    AgentError::StorageFailure,
                                ))
                            })
                        },
                        None => r == Err::<String, AgentError>(AgentError::RateLimited)
                            && final(self).history() == old(self).history(),
                    },
                    PhaseModel::Finished(OutcomeModel::Fatal(_)) => r == Err::<
                        String,
                        AgentError,
                    >(AgentError::TransportFailure) && final(self).history() == old(self).history(),
                    _ => r == Err::<String, AgentError>(AgentError::TransportFailure)
                        && final(self).history() == old(self).history(),
                }
            }),
    {
        let openai = "openai".to_owned();
        if !(self.config.provider == openai) {
            return Err(AgentError::UnsupportedProvider);
        }
        match &self.config.api_key {
            None => {
                return Err(AgentError::MissingCredential);
            },
            Some(_) => {},
        }
        let mut machine = ExchangeMachine::new(self.config.resilience);
        let ghost evs = events_view(events@);
        let mut i: usize = 0;
        while i < events.len()
            invariant
                i <= events@.len(),
                machine@ == run_model(
                    init_model(old(self).config.resilience.max_retries as int),
                    evs.take(i as int),
                ),
            decreases events@.len() - i,
        {
            let ev = &events[i];
            let _cmd = machine.step(ev);
            proof {
                assert(evs.take(i as int).push(ev@) =~= evs.take(i as int + 1));
                crate::exchange::lemma_run_push(
                    init_model(old(self).config.resilience.max_retries as int),
                    evs.take(i as int),
                    ev@,
                );
            }
            i = i + 1;
        }
        proof {
            assert(evs.take(events@.len() as int) =~= evs);
        }
        match &machine.phase {
            Phase::Finished(Outcome::Streamed(text)) => {
                let reply = text.clone();
                match self.commit_exchange(prompt, reply.as_str()) {
                    Ok(()) => Ok(reply),
                    Err(e) => Err(e),
                }
            },
            Phase::Finished(Outcome::NeedFallback) => match fallback_body {
                Some(b) => match fallback_text(b) {
                    Ok(reply) => match self.commit_exchange(prompt, reply.as_str()) {
                        Ok(()) => Ok(reply),
                        Err(e) => Err(e),
                    },
                    Err(e) => Err(e),
                },
                None => Err(AgentError::RateLimited),
            },
            Phase::Finished(Outcome::Fatal(_)) => Err(AgentError::TransportFailure),
            _ => Err(AgentError::TransportFailure),
        }
    }

    /// Shows up to `limit` most recent turns, oldest first, with strictly
    /// increasing ids; the whole log when `limit` covers it.
    pub fn memory_show(&self, limit: usize) -> (r: Result<Vec<ChatTurn>, AgentError>)
        requires
            self.inv(),
        ensures
            r matches Ok(v) ==> ({
                &&& crate::store::turns_view(v@) == recent(self.history(), limit as int)
                &&& v@.len() <= limit
                &&& forall|i: int, j: int| 0 <= i < j < v@.len() ==> v@[i]@.0 < v@[j]@.0
            }),
            r matches Err(e) ==> e == AgentError::StorageFailure,
    {
        self.mem.last_turns(limit)
    }

    /// Clears the whole conversation log; irreversible.
    pub fn memory_clear(&mut self) -> (r: Result<(), AgentError>)
        requires
            old(self).inv(),
        ensures
            final(self).inv(),
            final(self).config == old(self).config,
            r is Ok ==> final(self).history().len() == 0,
            r matches Err(e) ==> e == AgentError::StorageFailure
                && final(self).history() == old(self).history(),
    {
        self.mem.clear()
    }
}

} // verus!
