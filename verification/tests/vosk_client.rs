use gstvosk::vosk_client::Configuration;

#[test]
fn configuration_always_asks_for_words() {
    let config = Configuration::new(16000);
    assert_eq!(config.sample_rate, 16000);
    assert!(config.words);
}
