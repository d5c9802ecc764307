//! Per-tenant settings and their defaults.

use vstd::prelude::*;

use crate::models::Provider;

verus! {

/// The model used when none is configured, as `provider/name`.
pub fn default_model() -> (r: String)
    ensures
        r@ == "OpenAI/gpt-4-turbo"@,
{
    "OpenAI/gpt-4-turbo".to_owned()
}

/// The embeddings model used when none is configured.
pub fn default_embeddings_model() -> (r: String)
    ensures
        r@ == "sentence-transformers/all-MiniLM-L6-v2"@,
{
    "sentence-transformers/all-MiniLM-L6-v2".to_owned()
}

/// The cap on execution steps used when none is configured.
pub fn default_execution_steps_limit() -> (r: i64)
    ensures
        r == 12,
{
    12
}

/// The planner's depth ceiling used when none is configured.
pub fn default_planning_depth_limit() -> (r: u8)
    ensures
        r == 5,
{
    5
}

/// Embeddings settings.
#[derive(Debug, Clone)]
pub struct Embeddings {
    pub model: String,
}

impl Default for Embeddings {
    fn default() -> (r: Embeddings)
        ensures
            r.model@ == "sentence-transformers/all-MiniLM-L6-v2"@,
    {
        Embeddings { model: default_embeddings_model() }
    }
}

/// Task-scheduling settings.
#[derive(Debug, Clone)]
pub struct Tasks {
    pub execution_concurrency: u16,
    pub planning_depth_limit: u8,
}

impl Default for Tasks {
    fn default() -> (r: Tasks)
        ensures
            r.execution_concurrency == 1,
            r.planning_depth_limit == 5,
    {
        Tasks { execution_concurrency: 1, planning_depth_limit: default_planning_depth_limit() }
    }
}

/// Agent-execution settings.
#[derive(Debug, Clone)]
pub struct Agents {
    pub execution_steps_limit: i64,
}

impl Default for Agents {
    fn default() -> (r: Agents)
        ensures
            r.execution_steps_limit == 12,
    {
        Agents { execution_steps_limit: default_execution_steps_limit() }
    }
}

/// One tenant's settings.
#[derive(Debug, Clone)]
pub struct Settings {
    /// The default model, as `provider/name`.
    pub default_model: String,
    /// API keys by provider.
    pub api_keys: Vec<(Provider, String)>,
    pub agents: Agents,
    pub embeddings: Embeddings,
    pub tasks: Tasks,
}

impl Default for Settings {
    fn default() -> (r: Settings)
        ensures
            r.default_model@ == "OpenAI/gpt-4-turbo"@,
            r.api_keys@.len() == 0,
            r.agents.execution_steps_limit == 12,
            r.embeddings.model@ == "sentence-transformers/all-MiniLM-L6-v2"@,
            r.tasks.execution_concurrency == 1,
            r.tasks.planning_depth_limit == 5,
    {
        Settings {
            default_model: default_model(),
            api_keys: Vec::new(),
            agents: Agents::default(),
            embeddings: Embeddings::default(),
            tasks: Tasks::default(),
        }
    }
}

impl Settings {
    /// The API key stored for a provider, if any: the first matching entry.
    pub fn api_key_for(&self, provider: Provider) -> (r: Option<&String>)
        ensures
            match r {
                Some(k) => exists|i: int|
                    #![trigger self.api_keys@[i]]
                    0 <= i < self.api_keys@.len() && self.api_keys@[i].0 == provider
                        && self.api_keys@[i].1 == k && (forall|j: int|
                        0 <= j < i ==> (#[trigger] self.api_keys@[j]).0 != provider),
                None => forall|i: int|
                    0 <= i < self.api_keys@.len() ==> (#[trigger] self.api_keys@[i]).0 != provider,
            },
    {
        let mut i: usize = 0;
        while i < self.api_keys.len()
            invariant
                0 <= i <= self.api_keys@.len(),
                forall|k: int| 0 <= k < i ==> self.api_keys@[k].0 != provider,
            decreases self.api_keys@.len() - i,
        {
            if self.api_keys[i].0 == provider {
                return Some(&self.api_keys[i].1);
            }
            i = i + 1;
        }
        None
    }
}

} // verus!
