use cb_bench::service::{
    example_request, predict, preprocess, respond, CatboostInferenceService, Features,
    PredictRequest, PredictResponse, Prediction, EXAMPLE_FLOAT1, EXAMPLE_FLOAT2,
};

fn record(a: f32, b: f32, c1: &str, c2: &str, c3: &str) -> Features {
    Features {
        float_feature1: a.to_bits(),
        float_feature2: b.to_bits(),
        cat_feature1: c1.to_string(),
        cat_feature2: c2.to_string(),
        cat_feature3: c3.to_string(),
    }
}

fn sum_model(floats: Vec<Vec<u32>>, cats: Vec<Vec<String>>) -> Option<Vec<u32>> {
    let mut scores = Vec::new();
    for (row, texts) in floats.iter().zip(cats.iter()) {
        let sum: f32 = row.iter().map(|bits| f32::from_bits(*bits)).sum();
        let extra: usize = texts.iter().map(|t| t.len()).sum();
        scores.push((sum + extra as f32).to_bits());
    }
    Some(scores)
}

#[test]
fn the_example_record_holds_the_fixed_values() {
    assert_eq!(f32::from_bits(EXAMPLE_FLOAT1), 0.55);
    assert_eq!(f32::from_bits(EXAMPLE_FLOAT2), 0.33);
    let request = example_request(3);
    assert_eq!(request.features.len(), 3);
    for f in &request.features {
        assert_eq!(*f, record(0.55, 0.33, "A", "B", "C"));
    }
    assert_eq!(example_request(0).features.len(), 0);
}

#[test]
fn preprocess_splits_numbers_and_categories() {
    let features = vec![record(1.5, -2.0, "x", "yy", "zzz"), record(0.0, 9.25, "", "B", "C")];
    let (floats, cats) = preprocess(&features);
    assert_eq!(
        floats,
        vec![
            vec![1.5f32.to_bits(), (-2.0f32).to_bits()],
            vec![0.0f32.to_bits(), 9.25f32.to_bits()]
        ]
    );
    assert_eq!(
        cats,
        vec![
            vec!["x".to_string(), "yy".to_string(), "zzz".to_string()],
            vec!["".to_string(), "B".to_string(), "C".to_string()]
        ]
    );
    let (floats, cats) = preprocess(&Vec::new());
    assert!(floats.is_empty());
    assert!(cats.is_empty());
}

#[test]
fn respond_wraps_scores_in_order() {
    let response = respond(&vec![3, 1, 2], 77);
    assert_eq!(
        response,
        PredictResponse {
            predictions: vec![
                Prediction { score: 3 },
                Prediction { score: 1 },
                Prediction { score: 2 }
            ],
            model_latency: 77,
        }
    );
    assert_eq!(respond(&Vec::new(), 0).predictions, vec![]);
}

#[test]
fn predict_hands_the_tables_to_the_model() {
    let request = PredictRequest {
        features: vec![record(1.5, 2.0, "x", "yy", "zzz"), record(0.25, 0.5, "", "", "")],
    };
    let response = predict(request, sum_model).unwrap();
    assert_eq!(
        response.predictions,
        vec![Prediction { score: 9.5f32.to_bits() }, Prediction { score: 0.75f32.to_bits() }]
    );
}

#[test]
fn predict_measures_the_model() {
    let slow = |floats: Vec<Vec<u32>>, _cats: Vec<Vec<String>>| {
        let start = std::time::Instant::now();
        while start.elapsed() < std::time::Duration::from_millis(20) {}
        Some(vec![0u32; floats.len()])
    };
    let response = predict(example_request(4), slow).unwrap();
    assert_eq!(response.predictions.len(), 4);
    assert!(response.model_latency >= 20_000_000);
    assert!(response.model_latency < 10_000_000_000);
}

#[test]
fn no_scores_give_no_response() {
    let broken = |_floats: Vec<Vec<u32>>, _cats: Vec<Vec<String>>| None;
    assert_eq!(predict(example_request(2), broken), None);
}

#[test]
fn the_service_answers_as_predict_does() {
    let service = CatboostInferenceService::default();
    let response = service.predict(example_request(2), sum_model).unwrap();
    let score = (0.55f32 + 0.33f32 + 3.0f32).to_bits();
    assert_eq!(response.predictions, vec![Prediction { score }, Prediction { score }]);
}
