//! The request and the response of the prediction service, and what the
//! service does with a request apart from scoring it.
//!
//! A number with a fraction is carried as the 32 bits of its IEEE 754 single
//! precision form, so that it passes through unchanged.

use vstd::prelude::*;

verus! {

/// Bits of the first number of the example record, 0.55.
pub const EXAMPLE_FLOAT1: u32 = 0x3f0c_cccd;

/// Bits of the second number of the example record, 0.33.
pub const EXAMPLE_FLOAT2: u32 = 0x3ea8_f5c3;

/// One record to score: two numbers and three categories.
#[derive(Clone, Debug, PartialEq, Eq)]
pub struct Features {
    /// Bits of the first number.
    pub float_feature1: u32,
    /// Bits of the second number.
    pub float_feature2: u32,
    pub cat_feature1: String,
    pub cat_feature2: String,
    pub cat_feature3: String,
}

/// A batch of records to score.
#[derive(Clone, Debug, PartialEq, Eq)]
pub struct PredictRequest {
    pub features: Vec<Features>,
}

/// The score of one record.
#[derive(Clone, Copy, Debug, PartialEq, Eq)]
pub struct Prediction {
    /// Bits of the score.
    pub score: u32,
}

/// The scores of a batch, and the time that scoring took.
#[derive(Clone, Debug, PartialEq, Eq)]
pub struct PredictResponse {
    pub predictions: Vec<Prediction>,
    /// Time spent in the model, in nanoseconds.
    pub model_latency: u64,
}

/// The record is the example record that every request of the harness holds.
pub open spec fn is_example(f: Features) -> bool {
    &&& f.float_feature1 == EXAMPLE_FLOAT1
    &&& f.float_feature2 == EXAMPLE_FLOAT2
    &&& f.cat_feature1@ == "A"@
    &&& f.cat_feature2@ == "B"@
    &&& f.cat_feature3@ == "C"@
}

/// The request of the harness: `b` copies of the example record.
pub fn example_request(b: usize) -> (request: PredictRequest)
    ensures
        request.features@.len() == b,
        forall|k: int| 0 <= k < b ==> is_example(#[trigger] request.features@[k]),
{
    let mut features: Vec<Features> = Vec::new();
    let mut k: usize = 0;
    while k < b
        invariant
            k <= b,
            features@.len() == k,
            forall|j: int| 0 <= j < k ==> is_example(#[trigger] features@[j]),
        decreases b - k,
    {
        features.push(
            Features {
                float_feature1: EXAMPLE_FLOAT1,
                float_feature2: EXAMPLE_FLOAT2,
                cat_feature1: "A".to_owned(),
                cat_feature2: "B".to_owned(),
                cat_feature3: "C".to_owned(),
            },
        );
        k += 1;
    }
    PredictRequest { features }
}

/// The numbers of each record, row by row.
pub open spec fn float_rows(features: Seq<Features>) -> Seq<Seq<u32>> {
    Seq::new(
        features.len(),
        |k: int| seq![features[k].float_feature1, features[k].float_feature2],
    )
}

/// The categories of each record, row by row.
pub open spec fn cat_rows(features: Seq<Features>) -> Seq<Seq<Seq<char>>> {
    Seq::new(
        features.len(),
        |k: int|
            seq![features[k].cat_feature1@, features[k].cat_feature2@, features[k].cat_feature3@],
    )
}

/// A table of numbers as seen by contracts.
pub open spec fn number_table(rows: Vec<Vec<u32>>) -> Seq<Seq<u32>> {
    Seq::new(rows@.len(), |k: int| rows@[k]@)
}

/// A table of texts as seen by contracts.
pub open spec fn text_table(rows: Vec<Vec<String>>) -> Seq<Seq<Seq<char>>> {
    Seq::new(rows@.len(), |k: int| Seq::new(rows@[k]@.len(), |j: int| rows@[k]@[j]@))
}

/// Splits the records into a table of their numbers and a table of their
/// categories, one row for each record, in the order of the records.
pub fn preprocess(features: &Vec<Features>) -> (tables: (Vec<Vec<u32>>, Vec<Vec<String>>))
    ensures
        number_table(tables.0) == float_rows(features@),
        text_table(tables.1) == cat_rows(features@),
{
    let mut floats: Vec<Vec<u32>> = Vec::new();
    let mut cats: Vec<Vec<String>> = Vec::new();
    let mut k: usize = 0;
    while k < features.len()
        invariant
            k <= features@.len(),
            floats@.len() == k,
            cats@.len() == k,
            forall|j: int| 0 <= j < k ==> (#[trigger] floats@[j])@ == float_rows(features@)[j],
            forall|j: int|
                0 <= j < k ==> (#[trigger] cats@[j])@.len() == 3 && cats@[j]@[0]@
                    == features@[j].cat_feature1@ && cats@[j]@[1]@ == features@[j].cat_feature2@
                    && cats@[j]@[2]@ == features@[j].cat_feature3@,
        decreases features@.len() - k,
    {
        let f = &features[k];
        let mut numbers: Vec<u32> = Vec::new();
        numbers.push(f.float_feature1);
        numbers.push(f.float_feature2);
        assert(numbers@ =~= float_rows(features@)[k as int]);
        let mut texts: Vec<String> = Vec::new();
        texts.push(f.cat_feature1.clone());
        texts.push(f.cat_feature2.clone());
        texts.push(f.cat_feature3.clone());
        floats.push(numbers);
        cats.push(texts);
        k += 1;
    }
    proof {
        assert(number_table(floats) =~= float_rows(features@));
        assert forall|j: int| 0 <= j < features@.len() implies text_table(cats)[j] == cat_rows(
            features@,
        )[j] by {
            assert(cats@[j]@.len() == 3);
            assert(text_table(cats)[j] =~= cat_rows(features@)[j]);
        }
        assert(text_table(cats) =~= cat_rows(features@));
    }
    (floats, cats)
}

/// One prediction for each score, in the order of the scores.
pub open spec fn predictions_of(scores: Seq<u32>) -> Seq<Prediction> {
    Seq::new(scores.len(), |k: int| Prediction { score: scores[k] })
}

/// The response that carries the scores and the time that scoring took.
pub fn respond(scores: &Vec<u32>, model_latency: u64) -> (response: PredictResponse)
    ensures
        response.predictions@ == predictions_of(scores@),
        response.model_latency == model_latency,
{
    let mut predictions: Vec<Prediction> = Vec::new();
    let mut k: usize = 0;
    while k < scores.len()
        invariant
            k <= scores@.len(),
            predictions@.len() == k,
            forall|j: int| 0 <= j < k ==> #[trigger] predictions@[j] == (Prediction {
                score: scores@[j],
            }),
        decreases scores@.len() - k,
    {
        predictions.push(Prediction { score: scores[k] });
        k += 1;
    }
    assert(predictions@ =~= predictions_of(scores@));
    PredictResponse { predictions, model_latency }
}

/// The response is the one that belongs to what the model gave: none where
/// the model gave no scores, else one prediction for each score.
pub open spec fn answers(response: Option<PredictResponse>, scores: Option<Vec<u32>>) -> bool {
    match scores {
        Some(s) => response is Some && response->0.predictions@ == predictions_of(s@),
        None => response is None,
    }
}

/// `Instant` of the standard library: a moment on the clock. It is carried
/// through as it is; nothing is known of what it holds.
#[verifier::external_type_specification]
#[verifier::external_body]
pub struct ExInstant(std::time::Instant);

/// `Instant::now` of the standard library: the present moment. Nothing is
/// claimed of it.
pub assume_specification[ std::time::Instant::now ]() -> (now: std::time::Instant);

/// `Instant::elapsed` of the standard library: the time since the moment.
/// Nothing is claimed of it.
pub assume_specification[ std::time::Instant::elapsed ](
    start: &std::time::Instant,
) -> (elapsed: core::time::Duration);

/// `Duration::as_nanos` of the standard library: the duration in whole
/// nanoseconds. Nothing is claimed of it.
pub assume_specification[ core::time::Duration::as_nanos ](
    duration: &core::time::Duration,
) -> (nanos: u128);

/// Scores a request: splits its records into the two tables, hands them to
/// `model`, measures how long the model takes, and wraps the scores and that
/// time into the response. Where the model gives no scores there is no
/// response.
pub fn predict<F>(request: PredictRequest, model: F) -> (response: Option<PredictResponse>) where
    F: Fn(Vec<Vec<u32>>, Vec<Vec<String>>) -> Option<Vec<u32>>,

    requires
        forall|floats: Vec<Vec<u32>>, cats: Vec<Vec<String>>|
            number_table(floats) == float_rows(request.features@) && text_table(cats) == cat_rows(
                request.features@,
            ) ==> call_requires(model, (floats, cats)),
    ensures
        exists|floats: Vec<Vec<u32>>, cats: Vec<Vec<String>>, scores: Option<Vec<u32>>|
            {
                &&& number_table(floats) == float_rows(request.features@)
                &&& text_table(cats) == cat_rows(request.features@)
                &&& call_ensures(model, (floats, cats), scores)
                &&& answers(response, scores)
            },
{
    let (floats, cats) = preprocess(&request.features);
    let ghost floats0 = floats;
    let ghost cats0 = cats;
    let start = std::time::Instant::now();
    let scores = model(floats, cats);
    let nanos: u128 = start.elapsed().as_nanos();
    let model_latency: u64 = #[verifier::truncate]
    (nanos as u64);
    let response = match &scores {
        Some(s) => Some(respond(s, model_latency)),
        None => None,
    };
    assert(call_ensures(model, (floats0, cats0), scores) && answers(response, scores));
    response
}

/// The prediction service.
#[derive(Debug, Default)]
pub struct CatboostInferenceService {}

impl CatboostInferenceService {
    /// Answers one request with the scores of `model`.
    pub fn predict<F>(&self, request: PredictRequest, model: F) -> (response: Option<
        PredictResponse,
    >) where F: Fn(Vec<Vec<u32>>, Vec<Vec<String>>) -> Option<Vec<u32>>
        requires
            forall|floats: Vec<Vec<u32>>, cats: Vec<Vec<String>>|
                number_table(floats) == float_rows(request.features@) && text_table(cats)
                    == cat_rows(request.features@) ==> call_requires(model, (floats, cats)),
        ensures
            exists|floats: Vec<Vec<u32>>, cats: Vec<Vec<String>>, scores: Option<Vec<u32>>|
                {
                    &&& number_table(floats) == float_rows(request.features@)
                    &&& text_table(cats) == cat_rows(request.features@)
                    &&& call_ensures(model, (floats, cats), scores)
                    &&& answers(response, scores)
                },
    {
        predict(request, model)
    }
}

} // verus!
