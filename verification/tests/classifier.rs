use wasm2env::classify::{ClassifierPolicy, NoiseMatch, NoiseRule};
use wasm2env::is_env_var;

#[test]
fn test_is_env_var() {
    // Valid env vars
    assert!(is_env_var("DATABASE_URL"));
    assert!(is_env_var("API_KEY"));
    assert!(is_env_var("MY_SECRET_TOKEN"));

    // Invalid env vars
    assert!(!is_env_var("HTTP"));
    assert!(!is_env_var("LOCALHOST"));
    assert!(!is_env_var("_PRIVATE"));
    assert!(!is_env_var("TRAILING_"));
    assert!(!is_env_var("short"));
}

#[test]
fn rejects_names_out_of_length_bounds() {
    assert!(!is_env_var("abc"));
    assert!(!is_env_var("A_B"));
    assert!(!is_env_var(""));
    let long = format!("A_{}", "B".repeat(99));
    assert_eq!(long.len(), 101);
    assert!(!is_env_var(&long));
    let longest = format!("A_{}", "B".repeat(98));
    assert_eq!(longest.len(), 100);
    assert!(is_env_var(&longest));
    assert!(is_env_var("AB_CD"));
    assert!(!is_env_var("AB_C"));
}

#[test]
fn rejects_foreign_characters() {
    assert!(!is_env_var("DATABASE-URL"));
    assert!(!is_env_var("DATABASE URL"));
    assert!(!is_env_var("std::env_var"));
    assert!(!is_env_var("DATABASE_ÜRL"));
    assert!(!is_env_var("PATH_TO.FILE"));
}

#[test]
fn rejects_names_with_few_letters() {
    // three letters only
    assert!(!is_env_var("A_B_C"));
    assert!(!is_env_var("AB_1"));
    // four letters, but less than half of the name
    assert!(!is_env_var("AB_CD_12345"));
    // four letters, exactly half
    assert!(is_env_var("AB_CD_12"));
}

#[test]
fn rejects_noise() {
    for word in [
        "HTTP", "HTTPS", "JSON", "UTF8", "WASM", "COMPONENT", "LOCALHOST", "MAIN", "FALSE",
        "TRUE", "FILE",
    ] {
        assert!(!is_env_var(word));
    }
    assert!(!is_env_var("RUST_LOG"));
    assert!(!is_env_var("RUST_BACKTRACE"));
    assert!(!is_env_var("MY_BACKTRACE_DEPTH"));
    assert!(!is_env_var("TRUST_ANCHOR"));
    // a noise word as part of a longer name does not reject
    assert!(is_env_var("HTTP_PROXY"));
    assert!(is_env_var("MAIN_FILE"));
}

#[test]
fn accepts_loud_names() {
    assert!(is_env_var("HOME_DIR"));
    assert!(is_env_var("AWS_REGION_2"));
    assert!(is_env_var("X_Y_ZW"));
    // no underscore
    assert!(!is_env_var("DATABASE"));
    assert!(!is_env_var("PASSWORD"));
}

#[test]
fn accepts_keyword_names_in_any_case() {
    assert!(is_env_var("database_url"));
    assert!(is_env_var("my_api_key"));
    assert!(is_env_var("Stripe_Secret"));
    assert!(is_env_var("jwt_issuer"));
    assert!(is_env_var("db_host_name"));
    assert!(is_env_var("ParseError_Url"));
    // lower case without a keyword
    assert!(!is_env_var("snake_case_name"));
    assert!(!is_env_var("ParseError"));
    assert!(!is_env_var("value_Error"));
}

#[test]
fn standard_policy_is_the_default_table() {
    let policy = ClassifierPolicy::standard();
    assert_eq!(policy.min_len, 4);
    assert_eq!(policy.max_len, 100);
    assert_eq!(policy.min_letters, 4);
    assert_eq!(policy.min_letter_percent, 50);
    assert_eq!(policy.noise.len(), 15);
    assert_eq!(policy.noise[0].token, "HTTP");
    assert_eq!(policy.noise[0].how, NoiseMatch::Whole);
    assert_eq!(policy.noise[12].token, "Error");
    assert_eq!(policy.noise[12].how, NoiseMatch::PartWithoutUnderscore);
    assert_eq!(policy.noise[14].token, "BACKTRACE");
    assert_eq!(policy.noise[14].how, NoiseMatch::Part);
    assert_eq!(policy.keywords.len(), 13);
    assert_eq!(policy.keywords[0], "_KEY");
    assert_eq!(policy.keywords[12], "JWT");
    assert!(policy.accepts_name("DATABASE_URL"));
    assert!(policy.accepts_bytes(b"DATABASE_URL"));
    assert!(!policy.accepts_bytes(b"HTTP"));
    assert!(!policy.accepts_bytes(&[0x41, 0x5f, 0xff, 0x42, 0x43, 0x44]));
}

#[test]
fn policy_is_tunable() {
    let mut policy = ClassifierPolicy::standard();
    assert!(policy.accepts_name("HTTP_PROXY"));
    policy.noise.push(NoiseRule::new("PROXY", NoiseMatch::Part));
    assert!(!policy.accepts_name("HTTP_PROXY"));
    assert!(policy.accepts_name("http_db"));

    // a whole-name rule that ignores case
    let mut rule = NoiseRule::new("Home_Dir", NoiseMatch::Whole);
    assert!(!rule.any_case);
    policy.noise.push(rule.clone());
    assert!(policy.accepts_name("HOME_DIR"));
    rule.any_case = true;
    policy.noise.push(rule);
    assert!(!policy.accepts_name("HOME_DIR"));
    assert!(policy.accepts_name("HOME_DIRS"));

    // keywords
    let mut policy = ClassifierPolicy::standard();
    assert!(!policy.accepts_name("cache_dir"));
    policy.keywords.push("_dir".to_string());
    assert!(policy.accepts_name("cache_dir"));
    assert!(policy.accepts_name("Cache_DIR"));

    // bounds
    let mut policy = ClassifierPolicy::standard();
    policy.min_len = 3;
    policy.min_letters = 2;
    assert!(policy.accepts_name("A_B"));
    policy.max_len = 5;
    assert!(!policy.accepts_name("AB_CDE"));
    policy.min_letter_percent = 100;
    assert!(!policy.accepts_name("A_B"));
    policy.min_letter_percent = 0;
    policy.min_letters = 0;
    policy.min_len = 0;
    assert!(!policy.accepts_name(""));
    assert!(!policy.accepts_name("_"));
    assert!(policy.accepts_name("1_2"));
}
