use phone_validation::{require_api_key, ConfigError, Mode, Parameters};

fn words(list: &[&str]) -> Vec<String> {
    list.iter().map(|w| w.to_string()).collect()
}

#[test]
fn missing_input_path_is_reported() {
    assert_eq!(Parameters::get(&words(&[])).unwrap_err(), ConfigError::MissingInputPath);
    assert_eq!(Parameters::get(&words(&["prog"])).unwrap_err(), ConfigError::MissingInputPath);
}

#[test]
fn missing_output_path_is_reported() {
    assert_eq!(
        Parameters::get(&words(&["prog", "in.csv"])).unwrap_err(),
        ConfigError::MissingOutputPath
    );
}

#[test]
fn offline_is_the_default_mode() {
    let p = Parameters::get(&words(&["prog", "in.csv", "out.csv"])).unwrap();
    assert_eq!(p.input_path, "in.csv");
    assert_eq!(p.output_path, "out.csv");
    assert_eq!(p.mode, Mode::Offline);
}

#[test]
fn online_flag_selects_online_mode() {
    let p = Parameters::get(&words(&["prog", "in.csv", "out.csv", "--online"])).unwrap();
    assert_eq!(p.mode, Mode::Online);
    assert_eq!(Parameters::get_mode(&words(&["prog", "a", "b", "--online", "more"])), Mode::Online);
}

#[test]
fn any_other_fourth_word_means_offline() {
    assert_eq!(Parameters::get_mode(&words(&["prog", "a", "b", "--Online"])), Mode::Offline);
    assert_eq!(Parameters::get_mode(&words(&["prog", "a", "b", "online"])), Mode::Offline);
    assert_eq!(Parameters::get_mode(&words(&["prog", "a", "b", "--online "])), Mode::Offline);
    assert_eq!(Parameters::get_mode(&words(&["prog", "a", "--online"])), Mode::Offline);
    assert_eq!(Parameters::get_mode(&words(&[])), Mode::Offline);
}

#[test]
fn config_errors_have_their_messages() {
    assert_eq!(ConfigError::MissingInputPath.message(), "Missing CSV file path");
    assert_eq!(ConfigError::MissingOutputPath.message(), "Missing output path");
    assert_eq!(ConfigError::MissingApiKey.message(), "Missing PHONE_VALIDATOR_API_KEY in env.");
}

#[test]
fn api_key_is_required() {
    assert_eq!(require_api_key(None), Err(ConfigError::MissingApiKey));
    assert_eq!(require_api_key(Some("k".to_string())), Ok("k".to_string()));
}
