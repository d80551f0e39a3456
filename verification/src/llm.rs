//! LLM provider contracts for onboarding and scheduling suggestions.
use crate::schedule::SchedulePlan;
use crate::task::Task;
use vstd::prelude::*;

verus! {

#[derive(Debug, Clone, Copy, PartialEq, Eq, Structural)]
pub enum LlmProviderKind {
    OpenAi,
    Anthropic,
    Ollama,
}

#[derive(Debug, Clone, PartialEq, Eq)]
pub struct LlmProviderConfig {
    pub id: String,
    pub kind: LlmProviderKind,
    pub model: String,
    pub base_url: Option<String>,
    pub auth_storage_ref: Option<String>,
    pub enabled: bool,
}

#[derive(Debug, Clone, PartialEq, Eq)]
pub enum LlmError {
    Disabled,
    MissingCredentials,
    InvalidStructuredOutput(String),
    Provider(String),
}

#[derive(Debug, Clone, PartialEq, Eq)]
pub struct TaskCaptureRequest {
    pub input: String,
    pub now_ms: i64,
}

#[derive(Debug, PartialEq, Eq)]
pub struct ScheduleExplanationRequest {
    pub tasks: Vec<Task>,
    pub plan: SchedulePlan,
}

pub trait LlmProvider {
    fn config(&self) -> &LlmProviderConfig;

    fn capture_tasks(&self, request: TaskCaptureRequest) -> Result<Vec<Task>, LlmError>;

    fn explain_schedule(&self, request: ScheduleExplanationRequest) -> Result<String, LlmError>;
}

/// A provider that answers without calling any model.
#[derive(Debug, Clone)]
pub struct ProviderStub {
    config: LlmProviderConfig,
}

impl View for ProviderStub {
    type V = LlmProviderConfig;

    closed spec fn view(&self) -> LlmProviderConfig {
        self.config
    }
}

pub open spec fn stub_explanation() -> Seq<char> {
    "This schedule is a provider stub and has not called an LLM."@
}

impl ProviderStub {
    pub fn new(config: LlmProviderConfig) -> (r: Self)
        ensures
            r@ == config,
    {
        Self { config }
    }
}

impl LlmProvider for ProviderStub {
    fn config(&self) -> (r: &LlmProviderConfig)
        ensures
            *r == self@,
    {
        &self.config
    }

    /// Refused when the provider is disabled; otherwise captures nothing.
    fn capture_tasks(&self, _request: TaskCaptureRequest) -> (r: Result<Vec<Task>, LlmError>)
        ensures
            !self@.enabled ==> r matches Err(LlmError::Disabled),
            self@.enabled ==> (r matches Ok(tasks) && tasks@.len() == 0),
    {
        if !self.config.enabled {
            return Err(LlmError::Disabled);
        }
        Ok(Vec::new())
    }

    /// Refused when the provider is disabled; otherwise a fixed note that no model was asked.
    fn explain_schedule(&self, _request: ScheduleExplanationRequest) -> (r: Result<String, LlmError>)
        ensures
            !self@.enabled ==> r matches Err(LlmError::Disabled),
            self@.enabled ==> (r matches Ok(s) && s@ == stub_explanation()),
    {
        if !self.config.enabled {
            return Err(LlmError::Disabled);
        }
        Ok(String::from_str("This schedule is a provider stub and has not called an LLM."))
    }
}

} // verus!
