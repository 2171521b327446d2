//! Runs, their operations and the compaction of their context.

use agl_core::agent::{
    AbsolutePath, AdmittedTool, AgentCheckpoint, AgentEventData, AgentFsm, AgentFsmError,
    AgentFsmInput, AgentFsmOutput, AgentFsmState, AgentOperation, AgentOperationDeliveryState,
    AgentOperationFailure, AgentOperationFailureKind, AgentOperationFsm, AgentOperationFsmError,
    AgentOperationFsmInput, AgentOperationKey, AgentOperationKind, AgentOperationRequest,
    AgentOperationResult, AgentOperationTerminalStatus, AgentRunFailureKind, AgentRunLimits,
    AgentRunStatus, AgentRunUsage, AssistantToolCall, CompactionContent, CompactionExactState,
    CompactionMetadata, CompactionRequest, CompactionResult, ContextCapacity, DeliveryClass,
    ExactPackageRef, ExtensionDefinitionDigest, ExtensionDefinitionRef,
    InferenceEngineBuildDigest, InferenceRealizationRef, InferenceRuntimeProfileDigest,
    InstructionBlock, InstructionSet, InstructionSource, MessageRole, MessageVisibility,
    ModelFinishReason, ModelGenerationOutput, ModelGenerationRequest, ModelGenerationResult,
    ModelUsage, PackageDigest, PhysicalResourceDigest, ReasoningSelection, RelativePath,
    SemanticSummary, SkillDefinitionRef, SummaryClaim, ToolCall, ToolDefinitionDigest, ToolFailure,
    ToolFailureKind,
    ToolRequest, ToolResult, WorkspaceScope, INVALID_MODEL_OUTPUT_CORRECTION,
};
use agl_core::agent::inference::Real;
use agl_core::json::{object, Json, JsonNumber};
use agl_core::num::NonZeroU32;
use agl_core::package::{PackageId, PackageVersion};
use agl_core::{
    AgentRunId, Content, ConversationId, ExtensionId, Fsm, JsonSchema, MessageId, ToolDefinition,
    ToolId, Transition, MAX_TEXT_BYTES,
};

// ---------------------------------------------------------------------------
// Values
// ---------------------------------------------------------------------------

fn package() -> ExactPackageRef {
    ExactPackageRef {
        id: PackageId::new("core").unwrap(),
        version: PackageVersion::new("1.0.0").unwrap(),
        digest: PackageDigest::from_bytes([1; 32]),
    }
}

fn admitted(id: &str, delivery: DeliveryClass) -> AdmittedTool {
    AdmittedTool {
        definition: ToolDefinition {
            id: ToolId::new(id).unwrap(),
            description: "A tool.".to_owned(),
            input_schema: JsonSchema::new(object(vec![])).unwrap(),
            required_effects: vec![],
            delivery,
        },
        extension: ExtensionDefinitionRef {
            id: ExtensionId::new("core").unwrap(),
            package: package(),
            definition_digest: ExtensionDefinitionDigest::from_bytes([2; 32]),
        },
        definition_digest: ToolDefinitionDigest::from_bytes([3; 32]),
    }
}

fn limits() -> AgentRunLimits {
    AgentRunLimits {
        deadline_ms: 1,
        model_input_tokens: Some(1_000),
        model_output_tokens: 100,
        model_calls: 4,
        correction_input_tokens: 10,
        correction_output_tokens: 10,
        correction_calls: 1,
        tool_calls: 2,
        tool_result_bytes: 1_000,
    }
}

fn machine(run_id: AgentRunId, limits: AgentRunLimits) -> AgentFsm {
    AgentFsm::new(
        run_id,
        None,
        limits,
        40,
        &[
            admitted("core:read", DeliveryClass::Retryable),
            admitted("core:write", DeliveryClass::AtMostOnce),
        ],
    )
}

fn ready(context: Vec<MessageId>) -> AgentFsmState {
    AgentFsmState {
        status: AgentRunStatus::Pending,
        checkpoint: AgentCheckpoint::Ready {
            context,
            next_operation_ordinal: NonZeroU32::min(),
        },
        usage: AgentRunUsage::default(),
    }
}

fn realization() -> InferenceRealizationRef {
    InferenceRealizationRef {
        runtime_profile_digest: InferenceRuntimeProfileDigest::from_bytes([4; 32]),
        engine_build_digest: InferenceEngineBuildDigest::from_bytes([5; 32]),
        physical_resource_digest: PhysicalResourceDigest::from_bytes([6; 32]),
    }
}

fn generated(output: ModelGenerationOutput, finish: ModelFinishReason) -> AgentOperationResult {
    AgentOperationResult::ModelGeneration(ModelGenerationResult {
        output,
        private_reasoning: None,
        finish_reason: finish,
        usage: ModelUsage {
            input_tokens: 7,
            output_tokens: 5,
        },
        realization: realization(),
        correction: None,
    })
}

fn call(id: &str) -> ToolCall {
    ToolCall {
        tool_id: ToolId::new(id).unwrap(),
        input: object(vec![]),
    }
}

fn succeeded(operation: &AgentOperation, result: AgentOperationResult) -> AgentOperation {
    AgentOperation {
        state: AgentOperationDeliveryState::Succeeded,
        result: Some(result),
        ..operation.clone()
    }
}

fn failed(operation: &AgentOperation, kind: AgentOperationFailureKind) -> AgentOperation {
    AgentOperation {
        state: AgentOperationDeliveryState::Failed,
        failure: Some(AgentOperationFailure { kind }),
        ..operation.clone()
    }
}

fn finished(operation: AgentOperation, message_id: Option<MessageId>) -> AgentFsmInput {
    AgentFsmInput::OperationFinished {
        operation,
        message_id,
    }
}

fn driven(machine: &AgentFsm, state: &AgentFsmState) -> Transition<AgentFsmState, AgentFsmOutput> {
    machine.transition(state, AgentFsmInput::Drive).unwrap()
}

fn told(output: &AgentFsmOutput, from: AgentRunStatus, to: AgentRunStatus) -> bool {
    output.events.iter().any(|event| {
        matches!(
            event,
            AgentEventData::RunStatusChanged { from: f, to: t, .. } if *f == from && *t == to,
        )
    })
}

// ---------------------------------------------------------------------------
// Runs
// ---------------------------------------------------------------------------

#[test]
fn a_run_that_is_driven_generates_within_its_output_limit() {
    let run_id = AgentRunId::generate();
    let context = vec![MessageId::generate()];
    let machine = machine(run_id, limits());
    let step = driven(&machine, &ready(context.clone()));
    let operation = step.output.operation.unwrap();
    assert_eq!(
        operation.key,
        AgentOperationKey {
            run_id,
            ordinal: NonZeroU32::min()
        }
    );
    assert_eq!(
        operation.request,
        AgentOperationRequest::ModelGeneration(ModelGenerationRequest {
            context,
            max_output_tokens: 40
        })
    );
    assert_eq!(step.state.status, AgentRunStatus::Running);
    let mut spent = ready(vec![]);
    spent.usage.model_output_tokens = 90;
    match driven(&machine, &spent).output.operation.unwrap().request {
        AgentOperationRequest::ModelGeneration(request) => {
            assert_eq!(request.max_output_tokens, 10)
        }
        _ => panic!("a generation is created"),
    }
}

#[test]
fn an_answer_completes_the_run() {
    let machine = machine(AgentRunId::generate(), limits());
    let step = driven(&machine, &ready(vec![]));
    let operation = step.output.operation.unwrap();
    let answer = generated(
        ModelGenerationOutput::Assistant(Content::text("done").unwrap()),
        ModelFinishReason::Stop,
    );
    let id = MessageId::generate();
    assert_eq!(
        machine
            .transition(&step.state, finished(succeeded(&operation, answer.clone()), None))
            .unwrap_err(),
        AgentFsmError::MissingMessageId
    );
    let ended = machine
        .transition(
            &step.state,
            finished(succeeded(&operation, answer.clone()), Some(id.clone())),
        )
        .unwrap();
    assert_eq!(ended.state.status, AgentRunStatus::Completed);
    assert_eq!(ended.state.usage.model_calls, 1);
    assert_eq!(ended.state.usage.model_input_tokens, 7);
    assert_eq!(ended.state.usage.model_output_tokens, 5);
    let message = ended.output.message.unwrap();
    assert_eq!(message.id, id);
    assert_eq!(message.role, MessageRole::Assistant);
    assert_eq!(message.visibility, MessageVisibility::Internal);
    assert_eq!(message.validate(), Ok(()));
    assert!(matches!(
        machine.transition(&ended.state, AgentFsmInput::Drive),
        Err(AgentFsmError::Terminal)
    ));
}

#[test]
fn tool_calls_are_made_one_after_the_other() {
    let machine = machine(AgentRunId::generate(), limits());
    let step = driven(&machine, &ready(vec![]));
    let operation = step.output.operation.unwrap();
    let wanted = generated(
        ModelGenerationOutput::ToolCalls(vec![call("core:read"), call("core:write")]),
        ModelFinishReason::ToolCall,
    );
    let first = machine
        .transition(&step.state, finished(succeeded(&operation, wanted), None))
        .unwrap();
    let reading = first.output.operation.unwrap();
    assert_eq!(reading.delivery, DeliveryClass::Retryable);
    assert_eq!(reading.kind(), AgentOperationKind::Tool);
    assert_eq!(reading.key.ordinal.get(), 2);
    let result = AgentOperationResult::Tool(ToolResult {
        content: Content::text("read").unwrap(),
        effect_receipts: vec![],
    });
    let id = MessageId::generate();
    let second = machine
        .transition(
            &first.state,
            finished(succeeded(&reading, result.clone()), Some(id.clone())),
        )
        .unwrap();
    let writing = second.output.operation.unwrap();
    assert_eq!(writing.delivery, DeliveryClass::AtMostOnce);
    assert_eq!(second.state.usage.tool_calls, 1);
    let third = machine
        .transition(
            &second.state,
            finished(succeeded(&writing, result), Some(MessageId::generate())),
        )
        .unwrap();
    assert!(third.output.operation.is_none());
    match third.state.checkpoint {
        AgentCheckpoint::Ready { context, .. } => {
            assert_eq!(context.len(), 2);
            assert_eq!(context[0], id);
        }
        _ => panic!("the run is ready"),
    }
}

#[test]
fn calls_of_unknown_tools_are_refused() {
    let machine = machine(AgentRunId::generate(), limits());
    let step = driven(&machine, &ready(vec![]));
    let operation = step.output.operation.unwrap();
    let wanted = generated(
        ModelGenerationOutput::ToolCall(call("core:delete")),
        ModelFinishReason::ToolCall,
    );
    assert_eq!(
        machine
            .transition(&step.state, finished(succeeded(&operation, wanted), None))
            .unwrap_err(),
        AgentFsmError::InvalidModelResult
    );
    let mixed = generated(
        ModelGenerationOutput::AssistantToolCall(AssistantToolCall {
            content: Content::text("reading").unwrap(),
            call: call("core:read"),
        }),
        ModelFinishReason::ToolCall,
    );
    assert_eq!(
        machine
            .transition(&step.state, finished(succeeded(&operation, mixed), None))
            .unwrap_err(),
        AgentFsmError::MissingMessageId
    );
    let lone = generated(
        ModelGenerationOutput::ToolCall(call("core:read")),
        ModelFinishReason::ToolCall,
    );
    assert_eq!(
        machine
            .transition(
                &step.state,
                finished(succeeded(&operation, lone), Some(MessageId::generate()))
            )
            .unwrap_err(),
        AgentFsmError::UnexpectedMessageId
    );
}

#[test]
fn limits_end_a_run() {
    let run_id = AgentRunId::generate();
    let mut spent = ready(vec![]);
    spent.usage.model_calls = 4;
    let step = driven(&machine(run_id, limits()), &spent);
    assert_eq!(step.state.status, AgentRunStatus::Failed);
    assert!(step.output.operation.is_none());
    assert!(step.output.events.iter().any(|event| matches!(
        event,
        AgentEventData::RunStatusChanged {
            failure_kind: Some(AgentRunFailureKind::LimitsExceeded),
            ..
        }
    )));
    let mut none = limits();
    none.tool_calls = 0;
    let machine = machine(run_id, none);
    let step = driven(&machine, &ready(vec![]));
    let wanted = generated(
        ModelGenerationOutput::ToolCall(call("core:read")),
        ModelFinishReason::ToolCall,
    );
    let operation = step.output.operation.unwrap();
    let over = machine
        .transition(&step.state, finished(succeeded(&operation, wanted), None))
        .unwrap();
    assert_eq!(over.state.status, AgentRunStatus::Failed);
    assert!(over.output.operation.is_none());
    let mut many = ready(vec![]);
    many.checkpoint = AgentCheckpoint::Ready {
        context: vec![],
        next_operation_ordinal: NonZeroU32::new(u32::MAX).unwrap(),
    };
    assert_eq!(
        machine.transition(&many, AgentFsmInput::Drive).unwrap_err(),
        AgentFsmError::OrdinalOverflow
    );
}

#[test]
fn invalid_model_output_is_corrected() {
    let machine = machine(AgentRunId::generate(), limits());
    let step = driven(&machine, &ready(vec![]));
    let operation = step.output.operation.unwrap();
    let id = MessageId::generate();
    let corrected = machine
        .transition(
            &step.state,
            finished(
                failed(
                    &operation,
                    AgentOperationFailureKind::InvalidModelOutput {
                        usage: ModelUsage {
                            input_tokens: 1,
                            output_tokens: 2,
                        },
                    },
                ),
                Some(id),
            ),
        )
        .unwrap();
    assert_eq!(corrected.state.status, AgentRunStatus::Running);
    assert_eq!(corrected.state.usage.model_calls, 1);
    assert_eq!(
        corrected.output.message.unwrap().content.as_text(),
        INVALID_MODEL_OUTPUT_CORRECTION
    );
}

#[test]
fn failed_operations_end_their_run() {
    let machine = machine(AgentRunId::generate(), limits());
    let step = driven(&machine, &ready(vec![]));
    let operation = step.output.operation.unwrap();
    let ended = machine
        .transition(
            &step.state,
            finished(failed(&operation, AgentOperationFailureKind::Deadline), None),
        )
        .unwrap();
    assert_eq!(ended.state.status, AgentRunStatus::Failed);
    assert!(told(&ended.output, AgentRunStatus::Running, AgentRunStatus::Failed));
    assert_eq!(
        machine
            .transition(&step.state, finished(operation.clone(), None))
            .unwrap_err(),
        AgentFsmError::OperationNotSucceeded
    );
    let mut other = operation;
    other.key.run_id = AgentRunId::generate();
    assert_eq!(
        machine
            .transition(&step.state, finished(other, None))
            .unwrap_err(),
        AgentFsmError::OperationMismatch
    );
}

#[test]
fn a_run_is_cancelled_between_operations() {
    let machine = machine(AgentRunId::generate(), limits());
    let cancelled = machine
        .transition(&ready(vec![]), AgentFsmInput::Cancel)
        .unwrap();
    assert_eq!(cancelled.state.status, AgentRunStatus::Cancelled);
    let late = machine
        .transition(&ready(vec![]), AgentFsmInput::DeadlineReached)
        .unwrap();
    assert_eq!(late.state.status, AgentRunStatus::Failed);
    let waiting = driven(&machine, &ready(vec![]));
    assert_eq!(
        machine
            .transition(&waiting.state, AgentFsmInput::Cancel)
            .unwrap_err(),
        AgentFsmError::NotReady
    );
    assert_eq!(
        AgentFsmError::NotReady.to_string(),
        "AgentRun is waiting"
    );
}

#[test]
fn messages_of_a_conversation_are_visible_in_it() {
    let machine = AgentFsm::new(
        AgentRunId::generate(),
        Some(ConversationId::generate()),
        limits(),
        40,
        &[],
    );
    let step = driven(&machine, &ready(vec![]));
    let operation = step.output.operation.unwrap();
    let answer = generated(
        ModelGenerationOutput::Assistant(Content::text("done").unwrap()),
        ModelFinishReason::Length,
    );
    let next = machine
        .transition(
            &step.state,
            finished(succeeded(&operation, answer), Some(MessageId::generate())),
        )
        .unwrap();
    assert_eq!(next.state.status, AgentRunStatus::Running);
    assert_eq!(
        next.output.message.unwrap().visibility,
        MessageVisibility::Conversation
    );
}

// ---------------------------------------------------------------------------
// Compaction
// ---------------------------------------------------------------------------

fn claim(text: &str, source: &MessageId) -> SummaryClaim {
    SummaryClaim {
        text: text.to_owned(),
        sources: vec![source.clone()],
    }
}

fn summary(source: &MessageId) -> SemanticSummary {
    SemanticSummary {
        objective: claim("objective", source),
        rationale: vec![],
        decisions: vec![],
        completed: vec![],
        discoveries: vec![],
        unresolved: vec![],
        next_position: claim("next", source),
        memory: vec![],
    }
}

#[test]
fn summaries_rest_on_their_sources() {
    let source = MessageId::generate();
    assert_eq!(summary(&source).validate(&[source.clone()]), Ok(()));
    assert!(summary(&source).validate(&[MessageId::generate()]).is_err());
    let mut empty = summary(&source);
    empty.objective.text = String::new();
    assert!(empty.validate(&[source.clone()]).is_err());
    let mut unfounded = summary(&source);
    unfounded.next_position.sources = vec![];
    assert!(unfounded.validate(&[source]).is_err());
}

#[test]
fn a_compaction_takes_the_place_of_its_sources() {
    let run_id = AgentRunId::generate();
    let machine = machine(run_id, limits());
    let source = MessageId::generate();
    let tail = MessageId::generate();
    let step = driven(&machine, &ready(vec![source.clone(), tail.clone()]));
    let operation = step.output.operation.unwrap();
    let before = ContextCapacity::new(900, 40, 1_000);
    let compacting = machine
        .transition(
            &step.state,
            finished(
                failed(&operation, AgentOperationFailureKind::CompactionRequired(before)),
                None,
            ),
        )
        .unwrap();
    let compaction = compacting.output.operation.unwrap();
    assert_eq!(
        compaction.request,
        AgentOperationRequest::Compaction(CompactionRequest {
            context: vec![source.clone(), tail.clone()],
            before,
            correction_of: None,
        })
    );
    let result = CompactionResult {
        content: CompactionContent {
            exact: CompactionExactState {
                snapshot_run: run_id,
                snapshot_digest: PackageDigest::from_bytes([7; 32]),
                workspace: WorkspaceScope {
                    root: AbsolutePath::new("/w".to_owned()).unwrap(),
                    working_directory: RelativePath::new(".".to_owned()).unwrap(),
                },
                operations: vec![],
                inspected_files: vec![],
            },
            semantic: summary(&source),
        },
        metadata: CompactionMetadata {
            source_start: source.clone(),
            source_end: source.clone(),
            source: vec![source.clone()],
            retained_checkpoints: vec![],
            tail_first: Some(tail.clone()),
            tail: vec![tail.clone()],
            tail_tokens: 10,
            summary_tokens: 20,
            before,
            summary_request: ContextCapacity::new(100, 125, 1_000),
            after: ContextCapacity::new(50, 40, 1_000),
            tokenizer_artifact: PackageDigest::from_bytes([8; 32]),
            realization: realization(),
            summary_operation: compaction.key,
            correction_of: None,
            reasoning: ReasoningSelection::Disabled,
            usage: ModelUsage {
                input_tokens: 100,
                output_tokens: 20,
            },
        },
    };
    let id = MessageId::generate();
    let input = |result: CompactionResult| {
        finished(
            succeeded(
                &compaction,
                AgentOperationResult::Compaction(Box::new(result)),
            ),
            Some(id.clone()),
        )
    };
    let compacted = machine
        .transition(&compacting.state, input(result.clone()))
        .unwrap();
    let text = format!(
        "{{\"exact\":{{\"snapshot_run\":\"{run}\",\"snapshot_digest\":\"sha256:{digest}\",\
         \"workspace\":{{\"root\":\"/w\",\"working_directory\":\".\"}},\
         \"operations\":[],\"inspected_files\":[]}},\
         \"semantic\":{{\"objective\":{{\"text\":\"objective\",\"sources\":[\"{source}\"]}},\
         \"rationale\":[],\"decisions\":[],\"completed\":[],\"discoveries\":[],\
         \"unresolved\":[],\"next_position\":{{\"text\":\"next\",\"sources\":[\"{source}\"]}},\
         \"memory\":[]}}}}",
        run = run_id.to_string(),
        digest = "07".repeat(32),
        source = source.as_str(),
    );
    assert_eq!(result.content.render().unwrap().as_text(), text);
    let message = compacted.output.message.unwrap();
    assert_eq!(message.id, id);
    assert_eq!(message.content.as_text(), text);
    match compacted.state.checkpoint {
        AgentCheckpoint::Ready { context, .. } => assert_eq!(context, [id.clone(), tail.clone()]),
        _ => panic!("the run is ready"),
    }
    let mut long = result.clone();
    long.content.semantic.rationale = vec![claim(&"x".repeat(MAX_TEXT_BYTES), &source)];
    assert!(long.content.render().is_err());
    assert_eq!(
        machine
            .transition(&compacting.state, input(long))
            .unwrap_err(),
        AgentFsmError::InvalidModelResult
    );
    let mut wrong = result;
    wrong.metadata.source = vec![source, tail];
    assert_eq!(
        machine
            .transition(&compacting.state, input(wrong))
            .unwrap_err(),
        AgentFsmError::InvalidModelResult
    );
}

// ---------------------------------------------------------------------------
// Operations
// ---------------------------------------------------------------------------

fn pending(request: AgentOperationRequest, delivery: DeliveryClass) -> AgentOperation {
    AgentOperation {
        key: AgentOperationKey {
            run_id: AgentRunId::generate(),
            ordinal: NonZeroU32::min(),
        },
        request,
        delivery,
        delivery_attempt: NonZeroU32::min(),
        state: AgentOperationDeliveryState::Pending,
        result: None,
        failure: None,
        revision: 0,
    }
}

fn generation() -> AgentOperation {
    pending(
        AgentOperationRequest::ModelGeneration(ModelGenerationRequest {
            context: vec![],
            max_output_tokens: 1,
        }),
        DeliveryClass::Retryable,
    )
}

fn start(operation: &AgentOperation) -> AgentOperationFsmInput {
    AgentOperationFsmInput::Start {
        key: operation.key,
        delivery_attempt: operation.delivery_attempt,
        request: operation.request.clone(),
    }
}

fn advanced(operation: &AgentOperation, input: AgentOperationFsmInput) -> AgentOperation {
    let machine = AgentOperationFsm::for_operation(operation);
    let step = machine.transition(&operation.state, input).unwrap();
    operation
        .apply_fsm_transition(step.state, &step.output)
        .unwrap()
}

#[test]
fn an_operation_is_delivered_and_succeeds() {
    let operation = generation();
    let running = advanced(&operation, start(&operation));
    assert_eq!(running.state, AgentOperationDeliveryState::Running);
    assert_eq!(running.revision, 1);
    let result = generated(
        ModelGenerationOutput::Assistant(Content::text("done").unwrap()),
        ModelFinishReason::Stop,
    );
    let done = advanced(
        &running,
        AgentOperationFsmInput::Result {
            key: running.key,
            delivery_attempt: running.delivery_attempt,
            result: result.clone(),
        },
    );
    assert_eq!(done.state, AgentOperationDeliveryState::Succeeded);
    assert_eq!(done.result, Some(result));
    assert_eq!(
        AgentOperationFsm::for_operation(&done)
            .transition(&done.state, start(&done))
            .unwrap_err(),
        AgentOperationFsmError::IllegalTransition
    );
}

fn broken(operation: &AgentOperation, retry_at_ms: Option<i64>) -> AgentOperationFsmInput {
    AgentOperationFsmInput::Failure {
        key: operation.key,
        delivery_attempt: operation.delivery_attempt,
        failure: AgentOperationFailure {
            kind: AgentOperationFailureKind::Unavailable,
        },
        retry_at_ms,
    }
}

#[test]
fn a_retry_is_a_new_attempt() {
    let operation = generation();
    let running = advanced(&operation, start(&operation));
    let scheduled = advanced(&running, broken(&running, Some(5)));
    assert_eq!(scheduled.state, AgentOperationDeliveryState::RetryScheduled);
    let again = advanced(
        &scheduled,
        AgentOperationFsmInput::RetryDue {
            key: scheduled.key,
            delivery_attempt: scheduled.delivery_attempt,
            request: scheduled.request.clone(),
        },
    );
    assert_eq!(again.state, AgentOperationDeliveryState::Running);
    assert_eq!(again.delivery_attempt.get(), 2);
    assert_eq!(
        AgentOperationFsm::for_operation(&running)
            .transition(&running.state, broken(&running, Some(-1)))
            .unwrap_err(),
        AgentOperationFsmError::InvalidRetryTime
    );
}

#[test]
fn tool_calls_are_never_retried() {
    let operation = pending(
        AgentOperationRequest::Tool(ToolRequest {
            tool_id: ToolId::new("core:write").unwrap(),
            input: object(vec![]),
        }),
        DeliveryClass::AtMostOnce,
    );
    let running = advanced(&operation, start(&operation));
    let machine = AgentOperationFsm::for_operation(&running);
    let failure = machine
        .transition(&running.state, broken(&running, Some(5)))
        .unwrap();
    assert_eq!(failure.state, AgentOperationDeliveryState::Failed);
    assert_eq!(
        failure.output.terminal.unwrap().status,
        AgentOperationTerminalStatus::Failed
    );
    let recovered = machine
        .transition(
            &running.state,
            AgentOperationFsmInput::Recover {
                key: running.key,
                delivery_attempt: running.delivery_attempt,
            },
        )
        .unwrap();
    assert_eq!(recovered.state, AgentOperationDeliveryState::OutcomeUnknown);
}

#[test]
fn inputs_of_other_operations_are_refused() {
    let operation = generation();
    let machine = AgentOperationFsm::for_operation(&operation);
    let other = generation();
    assert_eq!(
        machine
            .transition(&operation.state, start(&other))
            .unwrap_err(),
        AgentOperationFsmError::IdentityMismatch
    );
    let mut changed = operation.clone();
    changed.request = AgentOperationRequest::ModelGeneration(ModelGenerationRequest {
        context: vec![],
        max_output_tokens: 2,
    });
    assert_eq!(
        machine
            .transition(&operation.state, start(&changed))
            .unwrap_err(),
        AgentOperationFsmError::RequestMismatch
    );
    let tool = AgentOperationResult::Tool(ToolResult {
        content: Content::text("x").unwrap(),
        effect_receipts: vec![],
    });
    assert_eq!(
        machine
            .transition(
                &AgentOperationDeliveryState::Running,
                AgentOperationFsmInput::Result {
                    key: operation.key,
                    delivery_attempt: operation.delivery_attempt,
                    result: tool,
                }
            )
            .unwrap_err(),
        AgentOperationFsmError::ResultKindMismatch
    );
    let mut worn = operation.clone();
    worn.delivery_attempt = NonZeroU32::new(u32::MAX).unwrap();
    assert_eq!(
        machine
            .transition(
                &AgentOperationDeliveryState::RetryScheduled,
                AgentOperationFsmInput::RetryDue {
                    key: worn.key,
                    delivery_attempt: worn.delivery_attempt,
                    request: worn.request.clone(),
                }
            )
            .unwrap_err(),
        AgentOperationFsmError::DeliveryAttemptOverflow
    );
    worn.revision = u64::MAX;
    let step = machine.transition(&operation.state, start(&operation)).unwrap();
    assert_eq!(
        worn.apply_fsm_transition(step.state, &step.output).unwrap_err(),
        "operation revision overflow"
    );
}

#[test]
fn tool_failures_tell_whether_they_had_an_effect() {
    let absent = ToolFailure::no_effect(
        ToolFailureKind::InvalidInput,
        Some("path"),
        &["choose another path"],
    );
    assert_eq!(absent.kind, ToolFailureKind::InvalidInput);
    assert_ne!(absent, ToolFailure::unknown(ToolFailureKind::InvalidInput));
}

// ---------------------------------------------------------------------------
// Snapshots
// ---------------------------------------------------------------------------

#[test]
fn instructions_have_the_digest_of_their_text() {
    let brief = InstructionBlock {
        source: InstructionSource::Agent,
        content: Content::text("be brief").unwrap(),
    };
    let skill = InstructionBlock {
        source: InstructionSource::Skill(SkillDefinitionRef {
            id: PackageId::new("core").unwrap(),
            version: PackageVersion::new("1.0.0").unwrap(),
            digest: PackageDigest::from_bytes([1; 32]),
        }),
        content: Content::text("say \"x\"\n").unwrap(),
    };
    let set = InstructionSet::new(vec![brief.clone()]).unwrap();
    assert_eq!(
        set.digest.to_string(),
        "sha256:5161a908bb8b169b2db36a2459440e6e00eed8fb2c609d144dbea5022d4df9b2"
    );
    assert_eq!(set.validate(), Ok(()));
    let skilled = InstructionSet::new(vec![skill.clone()]).unwrap();
    assert_eq!(
        skilled.digest.to_string(),
        "sha256:98066a08e4a31b81c02b330b78e87aba9eb71741360056c037a6b2fa2ab1f9d0"
    );
    let mut swapped = InstructionSet::new(vec![brief.clone(), skill]).unwrap();
    assert_eq!(swapped.validate(), Ok(()));
    swapped.blocks.reverse();
    assert_eq!(
        swapped.validate(),
        Err("instruction digest does not match ordered blocks")
    );
    assert_eq!(
        InstructionSet::new(vec![brief.clone(); 257]).unwrap_err(),
        "instruction set exceeds 256 blocks"
    );
    assert!(InstructionSet::new(vec![brief; 256]).is_ok());
    let long = InstructionBlock {
        source: InstructionSource::Agent,
        content: Content::text(&"x".repeat(MAX_TEXT_BYTES)).unwrap(),
    };
    let many = 4 * 1024 * 1024 / MAX_TEXT_BYTES;
    assert_eq!(
        InstructionSet::new(vec![long; many]).unwrap_err(),
        "instruction set exceeds 4 MiB"
    );
}

#[test]
fn paths_are_equal_by_their_parts() {
    let absolute = |path: &str| AbsolutePath::new(path.to_owned()).unwrap();
    let relative = |path: &str| RelativePath::new(path.to_owned()).unwrap();
    assert_eq!(absolute("/w//a/./b/"), absolute("/w/a/b"));
    assert_ne!(absolute("/w/a"), absolute("/w/b"));
    assert_eq!(relative("a/b/"), relative("a/b"));
    assert_ne!(relative("./a"), relative("a"));
}

#[test]
fn numbers_in_requests_are_equal_as_numbers() {
    let zero = Real { bits: 0 };
    let negative_zero = Real { bits: (-0.0f64).to_bits() };
    let not_a_number = Real { bits: f64::NAN.to_bits() };
    assert_eq!(zero, negative_zero);
    assert_ne!(zero, Real { bits: 1.0f64.to_bits() });
    assert_ne!(not_a_number, not_a_number);
    let asking = |number: &str| {
        pending(
            AgentOperationRequest::Tool(ToolRequest {
                tool_id: ToolId::new("core:read").unwrap(),
                input: object(vec![(
                    "x",
                    Json::Number(JsonNumber::parse(number).unwrap()),
                )]),
            }),
            DeliveryClass::Retryable,
        )
    };
    let operation = asking("0.0");
    let machine = AgentOperationFsm::for_operation(&operation);
    let started = |number: &str| {
        machine.transition(
            &operation.state,
            AgentOperationFsmInput::Start {
                key: operation.key,
                delivery_attempt: operation.delivery_attempt,
                request: asking(number).request,
            },
        )
    };
    assert!(started("0.0").is_ok());
    assert!(started("-0.0").is_ok());
    assert!(started("0").is_err());
    assert!(started("1.0").is_err());
}

#[test]
fn workspace_paths_are_absolute_or_contained() {
    assert!(AbsolutePath::new("/w".to_owned()).is_ok());
    assert!(AbsolutePath::new("w".to_owned()).is_err());
    assert!(RelativePath::new("src/lib.rs".to_owned()).is_ok());
    assert!(RelativePath::new("../x".to_owned()).is_err());
    assert!(RelativePath::new("/x".to_owned()).is_err());
}
