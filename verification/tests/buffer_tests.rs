use galemind::buffer::InferenceBuffer;
use galemind::events::BufferEvent;
use galemind::inference::Data;
use galemind::inference::DataType;
use galemind::inference::InferenceRequest;
use galemind::inference::datatype_from_wire;
use galemind::protocol::InferenceProtocol;

fn request(id: &str) -> InferenceRequest {
    InferenceRequest {
        model_name: "m".to_string(),
        model_version: None,
        id: id.to_string(),
        parameters: None,
        outputs: None,
    }
}

#[test]
fn test_threshold_event_fires_once_between_drains() {
    let mut buffer = InferenceBuffer::new(10, "m".to_string(), 80);
    let mut threshold_events = 0;
    for i in 0..10 {
        let (threshold, _) = buffer.push(request(&format!("r{}", i)));
        if let Some(BufferEvent::ThresholdReached { current_size, capacity, fill_percentage, .. }) =
            threshold
        {
            threshold_events += 1;
            assert_eq!(current_size, 8);
            assert_eq!(capacity, 10);
            assert_eq!(fill_percentage, 80);
        }
    }
    assert_eq!(threshold_events, 1, "one crossing, one event");

    let drained = buffer.drain_contents();
    assert_eq!(drained.len(), 10);
    assert!(buffer.is_empty());

    // After a drain the watermark can fire again.
    let mut refired = 0;
    for i in 0..10 {
        let (threshold, _) = buffer.push(request(&format!("s{}", i)));
        if threshold.is_some() {
            refired += 1;
        }
    }
    assert_eq!(refired, 1);
}

#[test]
fn test_buffer_full_event_reports_the_filling_push() {
    let mut buffer = InferenceBuffer::new(3, "m".to_string(), 100);
    assert!(buffer.push(request("r1")).1.is_none());
    assert!(buffer.push(request("r2")).1.is_none());
    match buffer.push(request("r3")).1 {
        Some(BufferEvent::BufferFull { model_id, current_size, capacity }) => {
            assert_eq!(model_id, "m");
            assert_eq!(current_size, 3);
            assert_eq!(capacity, 3);
        },
        _ => panic!("the third push fills the buffer"),
    }
    // An overwriting push leaves the buffer at capacity and says so.
    assert!(buffer.push(request("r4")).1.is_some());
}

#[test]
fn test_fill_percentage_rounds_down() {
    let mut buffer = InferenceBuffer::new(3, "m".to_string(), 100);
    assert_eq!(buffer.fill_percentage(), 0);
    buffer.push(request("r1"));
    assert_eq!(buffer.fill_percentage(), 33);
    buffer.push(request("r2"));
    assert_eq!(buffer.fill_percentage(), 66);
    buffer.push(request("r3"));
    assert_eq!(buffer.fill_percentage(), 100);
}

#[test]
fn test_drain_returns_chronological_order_after_wrap() {
    let mut buffer = InferenceBuffer::new(3, "m".to_string(), 100);
    for i in 1..=5 {
        buffer.push(request(&format!("r{}", i)));
    }
    let drained = buffer.drain_contents();
    let ids: Vec<String> = drained.into_iter().map(|r| r.id).collect();
    assert_eq!(ids, vec!["r3", "r4", "r5"], "the oldest surviving request comes first");
}

#[test]
fn test_zero_threshold_fires_on_first_push() {
    let mut buffer = InferenceBuffer::new(4, "m".to_string(), 0);
    let (threshold, _) = buffer.push(request("r1"));
    assert!(threshold.is_some(), "a zero watermark is crossed at once");
    let (threshold, _) = buffer.push(request("r2"));
    assert!(threshold.is_none());
}

#[test]
fn test_datatype_wire_names_round_trip() {
    assert!(matches!(datatype_from_wire("FP32"), DataType::Float32));
    assert!(matches!(datatype_from_wire("FLOAT32"), DataType::Float32));
    assert!(matches!(datatype_from_wire("FP64"), DataType::Float64));
    assert!(matches!(datatype_from_wire("FLOAT64"), DataType::Float64));
    assert!(matches!(datatype_from_wire("INT32"), DataType::Int32));
    assert!(matches!(datatype_from_wire("INT64"), DataType::Int64));
    assert!(matches!(datatype_from_wire("BOOL"), DataType::Bool));
    assert!(matches!(datatype_from_wire("anything-else"), DataType::Float32));

    assert_eq!(DataType::Float32.wire_name(), "FP32");
    assert_eq!(DataType::Float64.wire_name(), "FP64");
    assert_eq!(DataType::Int32.wire_name(), "INT32");
    assert_eq!(DataType::Int64.wire_name(), "INT64");
    assert_eq!(DataType::Bool.wire_name(), "BOOL");
    assert_eq!(DataType::Vfloat.wire_name(), "FP64");
}

#[test]
fn test_float_payloads_travel_as_bit_patterns() {
    let bits: Vec<u64> = vec![1.5f64.to_bits(), 2.5f64.to_bits()];
    let data = Data::Float64(bits);
    match data {
        Data::Float64(stored) => {
            let back: Vec<f64> = stored.into_iter().map(f64::from_bits).collect();
            assert_eq!(back, vec![1.5, 2.5]);
        },
        _ => unreachable!(),
    }
}

#[test]
fn test_protocol_selection_from_header() {
    assert_eq!(InferenceProtocol::from_header_value(None), Some(InferenceProtocol::Galemind));
    assert_eq!(
        InferenceProtocol::from_header_value(Some("openai")),
        Some(InferenceProtocol::OpenAI)
    );
    assert_eq!(
        InferenceProtocol::from_header_value(Some("galemind")),
        Some(InferenceProtocol::Galemind)
    );
    assert_eq!(InferenceProtocol::from_header_value(Some("soap")), None);
    assert_eq!(InferenceProtocol::default(), InferenceProtocol::Galemind);
}
