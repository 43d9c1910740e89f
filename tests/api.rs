use pass_finder::api::{parse_satellite_id, parse_unsigned, push_decimal, BuildError, FetchError, N2YOApi};
use pass_finder::decode::DecodeError;
use pass_finder::pass::{RadioPass, RadioPassInfo, RadioPasses};

fn named(name: &str, n: u64) -> RadioPasses {
    RadioPasses {
        info: RadioPassInfo { satname: name.to_string() },
        passes: (0..n)
            .map(|i| RadioPass { start_utc: i, end_utc: i + 10, max_el_centideg: 3000 })
            .collect(),
    }
}

#[test]
fn request_url_is_templated() {
    let mut api = N2YOApi::new("KEY-123".to_string());
    api.get_radiopasses(25544, "-33.86", "151.2", 10, 2);
    assert_eq!(api.batched_reqs.len(), 1);
    assert_eq!(api.batched_reqs[0].satellite_id, 25544);
    assert_eq!(
        api.batched_reqs[0].url,
        "https://api.n2yo.com/rest/v1/satellite/radiopasses/25544/-33.86/151.2/0/2/10/&apiKey=KEY-123"
    );
}

#[test]
fn building_is_deterministic_and_appends() {
    let mut api = N2YOApi::new("k".to_string());
    api.get_radiopasses(0, "0", "0", 0, 1);
    api.get_radiopasses(0, "0", "0", 0, 1);
    api.get_radiopasses(7, "1.5", "-2", 25, 10);
    assert_eq!(api.batched_reqs.len(), 3);
    assert_eq!(api.batched_reqs[0].url, api.batched_reqs[1].url);
    assert_eq!(
        api.batched_reqs[0].url,
        "https://api.n2yo.com/rest/v1/satellite/radiopasses/0/0/0/0/1/0/&apiKey=k"
    );
    assert_eq!(api.batched_reqs[2].satellite_id, 7);
}

#[test]
fn decimal_numerals() {
    let mut s = String::from("n=");
    push_decimal(&mut s, 0);
    assert_eq!(s, "n=0");
    let mut s = String::new();
    push_decimal(&mut s, u64::MAX);
    assert_eq!(s, "18446744073709551615");
    let mut s = String::new();
    push_decimal(&mut s, 1020);
    assert_eq!(s, "1020");
}

#[test]
fn satellite_ids_parse_or_fail() {
    assert_eq!(parse_satellite_id("25544"), Ok(25544));
    assert_eq!(parse_satellite_id("007"), Ok(7));
    assert_eq!(parse_satellite_id("18446744073709551615"), Ok(u64::MAX));
    assert_eq!(parse_satellite_id(""), Err(BuildError::NotANumber));
    assert_eq!(parse_satellite_id("12a"), Err(BuildError::NotANumber));
    assert_eq!(parse_satellite_id("-5"), Err(BuildError::NotANumber));
    assert_eq!(parse_satellite_id("18446744073709551616"), Err(BuildError::TooLarge));
    assert_eq!(parse_satellite_id("99999999999999999999x"), Err(BuildError::NotANumber));
    assert_eq!(parse_satellite_id("+5"), Ok(5));
    assert_eq!(parse_satellite_id("+"), Err(BuildError::NotANumber));
    assert_eq!(parse_satellite_id("++5"), Err(BuildError::NotANumber));
    assert_eq!(parse_satellite_id("5+"), Err(BuildError::NotANumber));
    assert_eq!(parse_satellite_id(" 5"), Err(BuildError::NotANumber));
    assert_eq!(parse_satellite_id("+18446744073709551616"), Err(BuildError::TooLarge));
}

#[test]
fn counts_parse_or_fail() {
    assert_eq!(parse_unsigned("10"), Ok(10));
    assert_eq!(parse_unsigned("+3"), Ok(3));
    assert_eq!(parse_unsigned("1.5"), Err(BuildError::NotANumber));
    assert_eq!(parse_unsigned("abc"), Err(BuildError::NotANumber));
    assert_eq!(parse_unsigned("99999999999999999999"), Err(BuildError::TooLarge));
}

#[test]
fn empty_dispatch_gives_empty_batch() {
    let mut api = N2YOApi::new("k".to_string());
    let r = api.dispatch_reqs(Vec::new());
    assert!(r.is_empty());
    assert!(api.batched_reqs.is_empty());
}

#[test]
fn results_follow_queue_order() {
    let mut api = N2YOApi::new("k".to_string());
    for id in [3u64, 1, 2] {
        api.get_radiopasses(id, "0", "0", 0, 1);
    }
    let r = api.dispatch_reqs(vec![Ok(named("C", 1)), Ok(named("A", 2)), Ok(named("B", 0))]);
    assert_eq!(r.len(), 3);
    assert_eq!(r[0].result.info.satname, "C");
    assert_eq!(r[0].satellite_id, 3);
    assert_eq!(r[1].result.info.satname, "A");
    assert_eq!(r[1].result.passes.len(), 2);
    assert_eq!(r[1].satellite_id, 1);
    assert_eq!(r[2].result.info.satname, "B");
    assert!(r.iter().all(|e| e.error.is_none()));
    assert!(api.batched_reqs.is_empty());
    assert_eq!(api.api_key, "k");
}

#[test]
fn one_failure_leaves_the_others() {
    let mut api = N2YOApi::new("k".to_string());
    for id in [10u64, 25544, 30] {
        api.get_radiopasses(id, "0", "0", 0, 1);
    }
    let r = api.dispatch_reqs(vec![
        Ok(named("A", 2)),
        Err(FetchError::Network),
        Err(FetchError::Decode(DecodeError::InvalidJson)),
    ]);
    assert_eq!(r.len(), 3);
    assert_eq!(r[0].result.info.satname, "A");
    assert_eq!(r[0].result.passes.len(), 2);
    assert_eq!(r[0].error, None);
    assert_eq!(r[1].result.info.satname, "25544");
    assert_eq!(r[1].satellite_id, 25544);
    assert!(r[1].result.passes.is_empty());
    assert_eq!(r[1].error, Some(FetchError::Network));
    assert_eq!(r[2].result.info.satname, "30");
    assert_eq!(r[2].error, Some(FetchError::Decode(DecodeError::InvalidJson)));
    assert!(api.batched_reqs.is_empty());
    let again = api.dispatch_reqs(Vec::new());
    assert!(again.is_empty());
}
