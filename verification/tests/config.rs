use cb_bench::config::{parse_u64, parse_usize, Config, ConfigError};

fn args(words: &[&str]) -> Vec<String> {
    words.iter().map(|w| w.to_string()).collect()
}

#[test]
fn five_arguments_name_the_users() {
    let config = Config::new(&args(&["cb-client", "http://host:50051", "8", "4", "1000", "250"]));
    assert_eq!(
        config,
        Ok(Config { addr: "http://host:50051".to_string(), users: 8, b: 4, n: 1000, timeout: 250 })
    );
}

#[test]
fn four_arguments_mean_one_user() {
    let config = Config::new(&args(&["cb-client", "http://host:50051", "4", "1000", "250"]));
    assert_eq!(
        config,
        Ok(Config { addr: "http://host:50051".to_string(), users: 1, b: 4, n: 1000, timeout: 250 })
    );
}

#[test]
fn arguments_behind_the_timeout_are_not_read() {
    let config = Config::new(&args(&["cb-client", "a", "2", "3", "4", "5", "x", "y"]));
    assert_eq!(config, Ok(Config { addr: "a".to_string(), users: 2, b: 3, n: 4, timeout: 5 }));
}

#[test]
fn too_few_arguments_are_an_error() {
    for len in 0..5 {
        let all = args(&["cb-client", "a", "1", "2", "3"]);
        assert_eq!(Config::new(&all[..len]), Err(ConfigError::NotEnoughArguments));
    }
}

#[test]
fn each_number_is_checked_in_turn() {
    assert_eq!(Config::new(&args(&["c", "a", "x", "y", "z", "w"])), Err(ConfigError::Users));
    assert_eq!(Config::new(&args(&["c", "a", "1", "y", "z", "w"])), Err(ConfigError::BatchSize));
    assert_eq!(Config::new(&args(&["c", "a", "1", "2", "z", "w"])), Err(ConfigError::Iterations));
    assert_eq!(Config::new(&args(&["c", "a", "1", "2", "3", "w"])), Err(ConfigError::Timeout));
    assert_eq!(Config::new(&args(&["c", "a", "y", "z", "w"])), Err(ConfigError::BatchSize));
    assert_eq!(Config::new(&args(&["c", "a", "2", "z", "w"])), Err(ConfigError::Iterations));
    assert_eq!(Config::new(&args(&["c", "a", "2", "3", "w"])), Err(ConfigError::Timeout));
}

#[test]
fn zero_is_refused() {
    assert_eq!(Config::new(&args(&["c", "a", "0", "2", "3", "4"])), Err(ConfigError::Users));
    assert_eq!(Config::new(&args(&["c", "a", "1", "0", "3", "4"])), Err(ConfigError::BatchSize));
    assert_eq!(Config::new(&args(&["c", "a", "1", "2", "0", "4"])), Err(ConfigError::Iterations));
    assert_eq!(Config::new(&args(&["c", "a", "1", "2", "3", "0"])), Err(ConfigError::Timeout));
    assert_eq!(Config::new(&args(&["c", "a", "1", "2", "3", "000"])), Err(ConfigError::Timeout));
}

#[test]
fn numbers_are_read_as_the_standard_library_reads_them() {
    let texts = [
        "0", "7", "42", "+42", "007", "+", "", "-", "-1", "-0", "4 2", " 42", "42 ", "4_2", "0x10",
        "1e3", "٣", "１２", "18446744073709551615", "18446744073709551616", "+18446744073709551615",
        "99999999999999999999999", "00000000000000000000000000012", "++1", "1+", "4.0",
    ];
    for text in texts {
        assert_eq!(parse_u64(text), text.parse::<u64>().ok(), "{:?}", text);
        assert_eq!(parse_usize(text), text.parse::<usize>().ok(), "{:?}", text);
    }
    assert_eq!(parse_u64("18446744073709551615"), Some(u64::MAX));
    assert_eq!(parse_u64("18446744073709551616"), None);
    assert_eq!(parse_u64("+42"), Some(42));
}

#[test]
fn the_largest_numbers_are_accepted() {
    let config = Config::new(&args(&[
        "c",
        "a",
        "18446744073709551615",
        "1",
        "1",
        "18446744073709551615",
    ]));
    if usize::MAX as u128 == u64::MAX as u128 {
        assert_eq!(
            config,
            Ok(Config { addr: "a".to_string(), users: usize::MAX, b: 1, n: 1, timeout: u64::MAX })
        );
    } else {
        assert_eq!(config, Err(ConfigError::Users));
    }
}

#[test]
fn errors_have_words() {
    assert_eq!(ConfigError::NotEnoughArguments.message(), "not enough arguments");
    assert_eq!(ConfigError::Users.message(), "invalid number of users");
    assert_eq!(ConfigError::BatchSize.message(), "invalid batch size");
    assert_eq!(ConfigError::Iterations.message(), "invalid number of iterations");
    assert_eq!(ConfigError::Timeout.message(), "invalid timeout");
}
