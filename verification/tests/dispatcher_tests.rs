use galemind::dispatcher::EventDrivenModelManager;
use galemind::dispatcher::align_responses;
use galemind::errors::EngineError;
use galemind::inference::Data;
use galemind::inference::DataType;
use galemind::inference::InferenceError;
use galemind::inference::InferenceOutput;
use galemind::inference::InferenceRequest;
use galemind::inference::InferenceResponse;
use galemind::model_id::ModelId;
use galemind::runtime::InferenceRuntime;

fn echo_response(id: String) -> InferenceResponse {
    InferenceResponse::Success(InferenceOutput {
        name: id,
        shape: vec![1],
        datatype: DataType::Int64,
        parameters: None,
        data: Data::Int64(vec![0]),
    })
}

fn request(model: &str, id: &str) -> InferenceRequest {
    InferenceRequest {
        model_name: model.to_string(),
        model_version: None,
        id: id.to_string(),
        parameters: None,
        outputs: None,
    }
}

fn response_name(resp: &InferenceResponse) -> Option<String> {
    match resp {
        InferenceResponse::Success(output) => Some(output.name.clone()),
        InferenceResponse::Failure(_) => None,
    }
}

/// Echoes each request id back as the response name.
struct EchoRuntime {
    id: String,
}

impl InferenceRuntime for EchoRuntime {
    fn model_id(&self) -> ModelId {
        ModelId(self.id.clone())
    }

    fn process_single(&self, req: &InferenceRequest) -> InferenceResponse {
        echo_response(req.id.clone())
    }

    fn process_batch(&self, requests: Vec<InferenceRequest>) -> Vec<InferenceResponse> {
        requests.into_iter().map(|r| echo_response(r.id)).collect()
    }
}

/// Violates the batch contract by dropping the last response.
struct ShortRuntime {
    id: String,
}

impl InferenceRuntime for ShortRuntime {
    fn model_id(&self) -> ModelId {
        ModelId(self.id.clone())
    }

    fn process_single(&self, req: &InferenceRequest) -> InferenceResponse {
        echo_response(req.id.clone())
    }

    fn process_batch(&self, requests: Vec<InferenceRequest>) -> Vec<InferenceResponse> {
        let mut out: Vec<InferenceResponse> =
            requests.into_iter().map(|r| echo_response(r.id)).collect();
        out.pop();
        out
    }
}

#[test]
fn test_single_shot_request_is_answered_by_flush() {
    let mut dispatcher: EventDrivenModelManager<EchoRuntime> = EventDrivenModelManager::new();
    dispatcher.set_buffer_config(1, 100).unwrap();
    let id = dispatcher.register_model(EchoRuntime { id: "echo".to_string() });
    assert_eq!(id.0, "echo");

    let ticket = dispatcher.submit_request(request("echo", "req-1")).unwrap();
    let outcome = dispatcher.process_next_event().expect("a buffer event must be queued");
    assert_eq!(outcome.evicted.len(), 0);
    assert_eq!(outcome.completions.len(), 1);
    assert_eq!(outcome.completions[0].0, ticket);
    assert_eq!(response_name(&outcome.completions[0].1).unwrap(), "req-1");

    let stats = dispatcher.get_model_stats();
    assert_eq!(stats.len(), 1);
    assert_eq!(stats[0].0, "echo");
    assert_eq!(stats[0].1, 0, "buffer must be empty after the flush");
}

#[test]
fn test_threshold_crossing_flushes_all_callers() {
    let mut dispatcher: EventDrivenModelManager<EchoRuntime> = EventDrivenModelManager::new();
    dispatcher.set_buffer_config(10, 80).unwrap();
    dispatcher.register_model(EchoRuntime { id: "m".to_string() });

    let mut tickets = Vec::new();
    for i in 0..7 {
        tickets.push(dispatcher.submit_request(request("m", &format!("r{}", i))).unwrap());
    }
    assert!(dispatcher.process_next_event().is_none(), "no event before the watermark");

    tickets.push(dispatcher.submit_request(request("m", "r7")).unwrap());
    let outcome = dispatcher.process_next_event().expect("the eighth push crosses the watermark");
    assert_eq!(outcome.completions.len(), 8);
    assert_eq!(outcome.evicted.len(), 0);
    for (i, (ticket, resp)) in outcome.completions.iter().enumerate() {
        assert_eq!(*ticket, tickets[i]);
        assert_eq!(response_name(resp).unwrap(), format!("r{}", i));
    }
    assert!(dispatcher.process_next_event().is_none(), "exactly one threshold event fires");
}

#[test]
fn test_overflow_evicts_oldest_pending() {
    let mut dispatcher: EventDrivenModelManager<EchoRuntime> = EventDrivenModelManager::new();
    dispatcher.set_buffer_config(3, 100).unwrap();
    dispatcher.register_model(EchoRuntime { id: "m".to_string() });

    let mut tickets = Vec::new();
    for i in 1..=5 {
        tickets.push(dispatcher.submit_request(request("m", &format!("r{}", i))).unwrap());
    }
    let stats = dispatcher.get_model_stats();
    assert_eq!(stats[0].1, 3, "the ring holds three of the five requests");

    let outcome = dispatcher.process_next_event().expect("events were queued");
    assert_eq!(outcome.evicted, vec![tickets[0], tickets[1]]);
    assert_eq!(outcome.completions.len(), 3);
    let names: Vec<String> =
        outcome.completions.iter().map(|c| response_name(&c.1).unwrap()).collect();
    assert_eq!(names, vec!["r3", "r4", "r5"]);
    let kept: Vec<u64> = outcome.completions.iter().map(|c| c.0).collect();
    assert_eq!(kept, vec![tickets[2], tickets[3], tickets[4]]);
}

#[test]
fn test_unknown_model_is_rejected() {
    let mut dispatcher: EventDrivenModelManager<EchoRuntime> = EventDrivenModelManager::new();
    dispatcher.register_model(EchoRuntime { id: "known".to_string() });
    match dispatcher.submit_request(request("ghost", "r1")) {
        Err(EngineError::ModelNotFound { model_name }) => assert_eq!(model_name, "ghost"),
        _ => panic!("a request for an unregistered model must be refused"),
    }
}

#[test]
fn test_many_submissions_across_models() {
    let mut dispatcher: EventDrivenModelManager<EchoRuntime> = EventDrivenModelManager::new();
    dispatcher.set_buffer_config(250, 100).unwrap();
    let models = ["m0", "m1", "m2", "m3"];
    for m in models.iter() {
        dispatcher.register_model(EchoRuntime { id: m.to_string() });
    }

    let mut submitted: Vec<Vec<String>> = vec![Vec::new(), Vec::new(), Vec::new(), Vec::new()];
    for i in 0..1000 {
        let m = i % 4;
        let rid = format!("r{}", i);
        dispatcher.submit_request(request(models[m], &rid)).unwrap();
        submitted[m].push(rid);
    }

    let mut total = 0;
    let mut answered: Vec<Vec<String>> = vec![Vec::new(), Vec::new(), Vec::new(), Vec::new()];
    while let Some(outcome) = dispatcher.process_next_event() {
        assert_eq!(outcome.evicted.len(), 0);
        total += outcome.completions.len();
        for (_, resp) in outcome.completions.iter() {
            let name = response_name(resp).unwrap();
            let idx: usize = name[1..].parse::<usize>().unwrap() % 4;
            answered[idx].push(name);
        }
    }
    assert_eq!(total, 1000, "every submission resolves");
    for m in 0..4 {
        let mut got = answered[m].clone();
        let mut want = submitted[m].clone();
        got.sort();
        want.sort();
        assert_eq!(got, want, "each batch is a permutation of its submissions");
    }
}

#[test]
fn test_register_model_is_idempotent() {
    let mut dispatcher: EventDrivenModelManager<EchoRuntime> = EventDrivenModelManager::new();
    dispatcher.set_buffer_config(5, 100).unwrap();
    dispatcher.register_model(EchoRuntime { id: "m".to_string() });
    dispatcher.submit_request(request("m", "r1")).unwrap();

    // A second registration keeps the existing context and its content.
    dispatcher.register_model(EchoRuntime { id: "m".to_string() });
    let stats = dispatcher.get_model_stats();
    assert_eq!(stats.len(), 1);
    assert_eq!(stats[0].1, 1, "the buffered request survives re-registration");
}

#[test]
fn test_set_buffer_config_validates_inputs() {
    let mut dispatcher: EventDrivenModelManager<EchoRuntime> = EventDrivenModelManager::new();
    assert!(dispatcher.set_buffer_config(10, 80).is_ok());
    assert!(matches!(
        dispatcher.set_buffer_config(10, 101),
        Err(EngineError::InvalidConfiguration { .. })
    ));
    assert!(matches!(
        dispatcher.set_buffer_config(0, 50),
        Err(EngineError::InvalidConfiguration { .. })
    ));
}

#[test]
fn test_short_batch_yields_protocol_error_responses() {
    let mut dispatcher: EventDrivenModelManager<ShortRuntime> = EventDrivenModelManager::new();
    dispatcher.set_buffer_config(3, 100).unwrap();
    dispatcher.register_model(ShortRuntime { id: "m".to_string() });
    for i in 0..3 {
        dispatcher.submit_request(request("m", &format!("r{}", i))).unwrap();
    }
    let outcome = dispatcher.process_next_event().expect("the buffer filled up");
    assert_eq!(outcome.completions.len(), 3, "every kept caller gets an answer");
    assert!(response_name(&outcome.completions[0].1).is_some());
    assert!(response_name(&outcome.completions[1].1).is_some());
    match &outcome.completions[2].1 {
        InferenceResponse::Failure(e) => {
            assert_eq!(e.message, "batch runtime returned fewer responses than requests");
        },
        _ => panic!("the caller left without a response must see a protocol error"),
    }
}

#[test]
fn test_align_responses_pads_with_failures() {
    let responses = vec![echo_response("a".to_string())];
    let pairs = align_responses(vec![7, 8, 9], responses);
    assert_eq!(pairs.len(), 3);
    assert_eq!(pairs[0].0, 7);
    assert_eq!(response_name(&pairs[0].1).unwrap(), "a");
    assert!(matches!(pairs[1].1, InferenceResponse::Failure(_)));
    assert!(matches!(pairs[2].1, InferenceResponse::Failure(_)));
}

#[test]
fn test_event_queue_is_bounded() {
    let mut dispatcher: EventDrivenModelManager<EchoRuntime> = EventDrivenModelManager::new();
    dispatcher.set_buffer_config(1, 100).unwrap();
    dispatcher.register_model(EchoRuntime { id: "m".to_string() });
    // The first submission queues a threshold and a full event; each of
    // the next ones queues one more full event, until the queue is full.
    for i in 0..100 {
        dispatcher.submit_request(request("m", &format!("r{}", i))).unwrap();
    }
    let mut events = 0;
    while dispatcher.process_next_event().is_some() {
        events += 1;
    }
    assert_eq!(events, 64, "overflowing events are dropped, not queued");
}

#[test]
fn test_buffer_stats_events_are_observation_only() {
    let mut dispatcher: EventDrivenModelManager<EchoRuntime> = EventDrivenModelManager::new();
    dispatcher.set_buffer_config(4, 100).unwrap();
    dispatcher.register_model(EchoRuntime { id: "a".to_string() });
    dispatcher.register_model(EchoRuntime { id: "b".to_string() });
    dispatcher.submit_request(request("a", "r1")).unwrap();

    dispatcher.publish_buffer_stats();
    let mut heartbeats = 0;
    while let Some(outcome) = dispatcher.process_next_event() {
        assert!(outcome.completions.is_empty());
        assert!(outcome.evicted.is_empty());
        heartbeats += 1;
    }
    assert_eq!(heartbeats, 2, "one heartbeat per registered model");

    let stats = dispatcher.get_model_stats();
    assert_eq!(stats[0].1, 1, "a heartbeat does not drain the buffer");
    assert_eq!(stats[0].3, 25);
    assert_eq!(stats[1].1, 0);
}

#[test]
fn test_error_kind_labels() {
    assert_eq!(
        EngineError::ModelNotFound { model_name: "x".to_string() }.kind_label(),
        "model_not_found"
    );
    assert_eq!(
        EngineError::RegistryFailure { status: 500, body: String::new() }.kind_label(),
        "registry_failure"
    );
    assert_eq!(
        EngineError::RegistryTransport { message: String::new() }.kind_label(),
        "registry_transport"
    );
    assert_eq!(
        EngineError::InvalidConfiguration { message: String::new() }.kind_label(),
        "invalid_configuration"
    );
    assert_eq!(
        EngineError::RuntimeProtocolError { message: String::new() }.kind_label(),
        "runtime_protocol_error"
    );
    assert_eq!(EngineError::DispatcherUnavailable.kind_label(), "dispatcher_unavailable");
    assert_eq!(EngineError::SourceRejected.kind_label(), "source_rejected");
}

#[test]
fn test_inference_error_carries_message() {
    let resp = InferenceResponse::Failure(InferenceError { message: "boom".to_string() });
    match resp {
        InferenceResponse::Failure(e) => assert_eq!(e.message, "boom"),
        _ => unreachable!(),
    }
}
