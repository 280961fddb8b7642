use metrics_exporter::error::Error;

fn message(e: Error) -> String {
    String::from_utf8(e.message()).unwrap()
}

#[test]
fn each_error_has_its_message() {
    let s = |x: &str| x.to_string();
    assert_eq!(message(Error::LogParse(s("x=y"))), "Failed to parse log directive: `x=y\u{b4}");
    assert_eq!(message(Error::Io(s("broken pipe"))), "I/O error: `broken pipe`");
    assert_eq!(message(Error::Subxt(s("rpc"))), "subxt error: `rpc`");
    assert_eq!(
        message(Error::InvalidChain(s("moon"))),
        "Invalid chain: `moon`, staking-miner supports only polkadot, kusama and westend"
    );
    assert_eq!(message(Error::InvalidMetadata(s("v13"))), "Invalid metadata: v13");
    assert_eq!(message(Error::Codec(s("eof"))), "Codec error: `eof`");
    assert_eq!(message(Error::AccountDoesNotExists), "The account does not exist");
    assert_eq!(message(Error::Crypto(s("InvalidSeed"))), "Crypto error: `InvalidSeed`");
    assert_eq!(message(Error::EmptySnapshot), "Empty snapshot");
    assert_eq!(message(Error::Miner(s("no solution"))), "Miner error: `no solution`");
    assert_eq!(message(Error::DynamicTransaction(s("bad call"))), "Dynamic transaction error: bad call");
    assert_eq!(message(Error::Other(s(""))), "Other error: ``");
}

#[test]
fn a_message_keeps_text_beyond_ascii() {
    assert_eq!(message(Error::Other("\u{e9}t\u{e9} \u{2713}".to_string())), "Other error: `\u{e9}t\u{e9} \u{2713}`");
}
