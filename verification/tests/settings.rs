use jito_miner::miner::Miner;
use jito_miner::settings::{
    config_source, missing_config_report, uses_tls, ConfigSource, Settings,
};

fn s(text: &str) -> String {
    text.to_string()
}

#[test]
fn a_config_file_that_is_asked_for_is_required() {
    assert_eq!(config_source(Some(s("a")), Some(s("b"))), ConfigSource::Required(s("a")));
    assert_eq!(config_source(Some(s("a")), None), ConfigSource::Required(s("a")));
    assert_eq!(config_source(None, Some(s("b"))), ConfigSource::Optional(s("b")));
    assert_eq!(config_source(None, None), ConfigSource::Default);
}

#[test]
fn a_missing_config_file_is_reported() {
    assert_eq!(missing_config_report("x.yml"), "error: Could not find config file `x.yml`");
}

#[test]
fn the_command_line_goes_first() {
    let given = Settings::resolve(Some(s("r")), Some(s("k")), Some(s("j")), s("cr"), s("ck"));
    let expected = Settings { rpc_url: s("r"), keypair_path: s("k"), jito_url: s("j") };
    assert_eq!(given, expected);
}

#[test]
fn the_config_fills_in() {
    let expected = Settings {
        rpc_url: s("cr"),
        keypair_path: s("ck"),
        jito_url: s("https://mainnet.block-engine.jito.wtf"),
    };
    assert_eq!(Settings::resolve(None, None, None, s("cr"), s("ck")), expected);
}

#[test]
fn only_https_is_encrypted() {
    assert!(uses_tls("https://mainnet.block-engine.jito.wtf"));
    assert!(!uses_tls("http://localhost:1"));
    assert!(!uses_tls(""));
}

#[test]
fn a_miner_keeps_its_settings() {
    let miner = Miner::new(3, 4, Some(s("id.json")));
    assert_eq!(miner.priority_fee, 3);
    assert_eq!(miner.max_adaptive_tip, 4);
    assert_eq!(miner.signer(), Some(&s("id.json")));
    assert_eq!(Miner::new(3, 4, None).signer(), None);
}
