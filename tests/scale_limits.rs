use function_runner::json::Json;
use function_runner::scale_limits::{ScaleLimits, MAX_SCALE_FACTOR, MIN_SCALE_FACTOR};

const RATE_0_005: u64 = 5_000_000;

fn s(t: &str) -> Json {
    Json::Str(t.to_string())
}

fn obj(members: Vec<(&str, Json)>) -> Json {
    Json::Object(members.into_iter().map(|(k, v)| (k.to_string(), v)).collect())
}

fn strings(t: &str, n: usize) -> Json {
    Json::Array((0..n).map(|_| s(t)).collect())
}

#[test]
fn single_scaled_string_field_stays_at_minimum() {
    // field: String @scaleLimits(rate: 0.005), query { field }, input {"field":"value"}
    let input = obj(vec![("field", s("value"))]);
    let mut a = ScaleLimits::new(&input);
    a.visit_field("field".to_string(), Some(RATE_0_005));
    a.leave_field();
    assert_eq!(a.into_output(), 1_000_000_000);
}

#[test]
fn array_length_scales_the_factor() {
    let input = obj(vec![("cartLines", strings("moeowomeow", 500))]);
    let mut a = ScaleLimits::new(&input);
    a.visit_field("cartLines".to_string(), Some(RATE_0_005));
    a.leave_field();
    assert_eq!(a.into_output(), 2_500_000_000);
}

#[test]
fn array_length_scaling_is_clamped_at_maximum() {
    let input = obj(vec![("cartLines", strings("item", 1_000_000))]);
    let mut a = ScaleLimits::new(&input);
    a.visit_field("cartLines".to_string(), Some(RATE_0_005));
    a.leave_field();
    assert_eq!(a.into_output(), MAX_SCALE_FACTOR);
}

#[test]
fn duplicate_field_is_not_counted_twice() {
    let input = obj(vec![("field", strings("value", 200))]);
    let mut a = ScaleLimits::new(&input);
    for _ in 0..2 {
        a.visit_field("field".to_string(), Some(RATE_0_005));
        a.leave_field();
    }
    assert_eq!(a.into_output(), 1_000_000_000);

    let input = obj(vec![("field", strings("value", 400))]);
    let mut once = ScaleLimits::new(&input);
    once.visit_field("field".to_string(), Some(RATE_0_005));
    once.leave_field();
    let mut twice = ScaleLimits::new(&input);
    for _ in 0..2 {
        twice.visit_field("field".to_string(), Some(RATE_0_005));
        twice.leave_field();
    }
    assert_eq!(once.into_output(), twice.into_output());
}

#[test]
fn nested_duplicate_fields_accumulate_per_parent() {
    // field: [MyObject]; MyObject.field: [String] @scaleLimits(rate: 0.005)
    let nested = || obj(vec![("field", strings("value", 200))]);
    let input = obj(vec![("field", Json::Array(vec![nested(), nested()]))]);
    let mut a = ScaleLimits::new(&input);
    a.visit_field("field".to_string(), None);
    assert_eq!(a.depth(), 1);
    a.visit_field("field".to_string(), Some(RATE_0_005));
    assert_eq!(a.depth(), 2);
    a.leave_field();
    a.leave_field();
    assert_eq!(a.into_output(), 2_000_000_000);
}

#[test]
fn per_path_contribution_is_parents_times_length_times_rate() {
    // 3 parents, each with 300 items, rate 0.002: 3 * 300 * 0.002 = 1.8
    let parent = || obj(vec![("items", strings("x", 300))]);
    let input = obj(vec![("lines", Json::Array(vec![parent(), parent(), parent()]))]);
    let mut a = ScaleLimits::new(&input);
    a.visit_field("lines".to_string(), None);
    a.visit_field("items".to_string(), Some(2_000_000));
    a.leave_field();
    a.leave_field();
    assert_eq!(a.into_output(), 1_800_000_000);
}

#[test]
fn string_length_counts_utf8_bytes_and_missing_counts_one() {
    // "héllo" is 6 bytes; rate 1.0 gives 6.0.
    let input = obj(vec![("name", s("héllo"))]);
    let mut a = ScaleLimits::new(&input);
    a.visit_field("name".to_string(), Some(1_000_000_000));
    a.leave_field();
    assert_eq!(a.into_output(), 6_000_000_000);

    // A missing field counts as one: rate 3.0 gives 3.0.
    let input = obj(vec![]);
    let mut a = ScaleLimits::new(&input);
    a.visit_field("absent".to_string(), Some(3_000_000_000));
    a.leave_field();
    assert_eq!(a.into_output(), 3_000_000_000);
}

#[test]
fn factor_always_within_bounds() {
    let input = Json::Null;
    let a = ScaleLimits::new(&input);
    assert_eq!(a.into_output(), MIN_SCALE_FACTOR);
    let input = obj(vec![("n", Json::Number("1".to_string())), ("b", Json::Bool(true))]);
    let mut a = ScaleLimits::new(&input);
    a.visit_field("n".to_string(), Some(u64::MAX));
    a.leave_field();
    assert_eq!(a.into_output(), MAX_SCALE_FACTOR);
}
