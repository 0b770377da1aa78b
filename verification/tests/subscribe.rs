use brain_ops::error::OpError;
use brain_ops::events::{EventType, MemoryKind};
use brain_ops::single::Single;
use brain_ops::subscribe::{
    parse_filter, EventEnvelope, ParsedFilter, SimilarityFilter, SubscribeRequest,
    SubscriptionFilter,
};

const VECTOR_DIM: usize = 384;

fn single(x: f32) -> Single {
    Single::from_bits(x.to_bits())
}

fn singles(v: &[f32]) -> Vec<Single> {
    v.iter().map(|x| single(*x)).collect()
}

/// The cosine of a filter's reference and an event's vector; 0 where either
/// is missing or has no length.
fn cosine(filter: &ParsedFilter, env: &EventEnvelope) -> Single {
    let (Some(s), Some(v)) = (&filter.similar_to, &env.vector) else {
        return single(0.0);
    };
    let num = |x: &Single| f32::from_bits(x.to_bits());
    let (mut dot, mut a2, mut b2) = (0.0f32, 0.0f32, 0.0f32);
    for (a, b) in s.reference.iter().zip(v) {
        dot += num(a) * num(b);
        a2 += num(a) * num(a);
        b2 += num(b) * num(b);
    }
    if a2 <= 0.0 || b2 <= 0.0 {
        return single(0.0);
    }
    single(dot / (a2.sqrt() * b2.sqrt()))
}

fn passes(filter: &ParsedFilter, env: &EventEnvelope) -> bool {
    filter.matches(env, cosine(filter, env))
}

fn envelope_with_vector(vector: Option<[f32; VECTOR_DIM]>) -> EventEnvelope {
    EventEnvelope {
        lsn: 1,
        event_type: EventType::Encoded,
        memory_id: 1,
        session_id: 0,
        kind: MemoryKind::Episodic,
        salience: single(0.5),
        timestamp_unix_nanos: 0,
        text: None,
        graph_payload: None,
        edge_payload: None,
        stage_kind: None,
        stage_outcome: None,
        stage_payload: None,
        space_id: [0; 16],
        vector: vector.map(|v| singles(&v)),
    }
}

fn unit(index: usize) -> [f32; VECTOR_DIM] {
    let mut v = [0.0_f32; VECTOR_DIM];
    v[index] = 1.0;
    v
}

fn filter_with_similarity(reference: [f32; VECTOR_DIM], threshold: f32) -> ParsedFilter {
    let mut f = ParsedFilter::default();
    f.set_similarity_reference(singles(&reference), single(threshold));
    f
}

#[test]
fn matches_when_cosine_at_or_above_threshold() {
    let filter = filter_with_similarity(unit(0), 0.9);
    // Identical vector: cosine 1.0.
    assert!(passes(&filter, &envelope_with_vector(Some(unit(0)))));
}

#[test]
fn drops_when_cosine_below_threshold() {
    let filter = filter_with_similarity(unit(0), 0.5);
    // Orthogonal vector: cosine 0.0.
    assert!(!passes(&filter, &envelope_with_vector(Some(unit(1)))));
}

#[test]
fn drops_vector_less_events() {
    let filter = filter_with_similarity(unit(0), -1.0);
    // Even at the most permissive threshold, an event without a vector never
    // satisfies a similarity subscription.
    assert!(!passes(&filter, &envelope_with_vector(None)));
}

fn request_with_threshold(threshold: f32) -> SubscribeRequest {
    SubscribeRequest {
        filter: SubscriptionFilter {
            session_filter: None,
            kinds: None,
            similar_to: Some(SimilarityFilter {
                reference_memory_id: 1,
                threshold: single(threshold),
                threshold_text: threshold.to_string(),
            }),
            spaces: None,
            memory_ids: None,
        },
        include_history: false,
        from_lsn: None,
        max_inflight: 0,
        act_as: None,
    }
}

#[test]
fn parse_filter_rejects_nan_threshold() {
    let err = parse_filter(&request_with_threshold(f32::NAN));
    assert!(matches!(err, Err(OpError::InvalidRequest(_))));
}

#[test]
fn parse_filter_rejects_out_of_range_threshold() {
    assert!(matches!(
        parse_filter(&request_with_threshold(1.5)),
        Err(OpError::InvalidRequest(_))
    ));
    assert!(matches!(
        parse_filter(&request_with_threshold(-2.0)),
        Err(OpError::InvalidRequest(_))
    ));
}

#[test]
fn parse_filter_accepts_valid_threshold_but_leaves_reference_unresolved() {
    let parsed = parse_filter(&request_with_threshold(0.5)).expect("valid threshold");
    // The vector is resolved later, so the test is inert for now.
    assert!(parsed.similar_to.is_none());
}
