use pair_monitor::webhook::{
    etherscan_url, honeypot_url, notification_embed, screen_honeypot, webhook_start, webhook_step,
    HoneypotResponse, HoneypotResult, SimulationResult, WebhookAction, WebhookError, WebhookEvent,
    WebhookJob, WebhookState, EMBED_COLOR,
};

fn pair() -> [u8; 20] {
    let mut p = [0u8; 20];
    p[0] = 0x12;
    p[19] = 0xef;
    p
}

const PAIR_TEXT: &str = "0x12000000000000000000000000000000000000ef";

fn job() -> WebhookJob {
    WebhookJob {
        token_name: "PEPE".to_string(),
        pair: pair(),
        pooled_ether: "12.345678900000000000".to_string(),
        etherscan_api_key: "KEY".to_string(),
    }
}

fn report(success: bool, honeypot: Option<bool>) -> HoneypotResponse {
    HoneypotResponse {
        simulation_success: success,
        honeypot_result: honeypot.map(|is_honeypot| HoneypotResult { is_honeypot }),
        simulation_result: Some(SimulationResult {
            buy_tax: 1.2345.to_string(),
            sell_tax: 0.to_string(),
            transfer_tax: 0.to_string(),
        }),
    }
}

#[test]
fn urls() {
    assert_eq!(
        honeypot_url(&pair()),
        format!("https://api.honeypot.is/v2/IsHoneypot?address={PAIR_TEXT}")
    );
    assert_eq!(
        etherscan_url("KEY"),
        "https://api.etherscan.io/api?module=stats&action=ethprice&apikey=KEY"
    );
}

#[test]
fn screening() {
    assert_eq!(screen_honeypot(&report(true, Some(false))), Ok(()));
    assert_eq!(screen_honeypot(&report(true, Some(true))), Err(WebhookError::NotWorthSending));
    assert_eq!(screen_honeypot(&report(false, None)), Err(WebhookError::NotWorthSending));
    assert_eq!(screen_honeypot(&report(false, Some(false))), Err(WebhookError::NotWorthSending));
    assert_eq!(
        WebhookError::NotWorthSending.message(),
        "Simulation Failed don't even bother sending the hook because it doesn't make sense"
    );
}

#[test]
fn embed_fields() {
    let r = report(true, Some(false));
    let embed = notification_embed(
        "PEPE",
        &pair(),
        "12.345678900000000000",
        "27123",
        r.honeypot_result.as_ref().unwrap(),
        r.simulation_result.as_ref().unwrap(),
    );
    assert_eq!(embed.color, 0x0099ff);
    assert_eq!(embed.color, EMBED_COLOR);
    assert_eq!(embed.title, "New Pair Deployed");
    let fields: Vec<(String, String, bool)> =
        embed.fields.into_iter().map(|f| (f.name, f.value, f.inline)).collect();
    let expect = vec![
        ("Name", "PEPE/WETH".to_string(), false),
        ("Etherscan", format!("[here](https://etherscan.com/address/{PAIR_TEXT})"), true),
        ("DexScreener", format!("[here](https://dexscreener.com/ethereum/{PAIR_TEXT})"), true),
        ("Pooled Ether", "12.34ETH".to_string(), false),
        ("Eth Pooled in USD Value", "$27 123".to_string(), false),
        ("Is a Honeypot?", "false".to_string(), false),
        ("BuyTax", "1.23%".to_string(), true),
        ("SellTax", "0%".to_string(), true),
    ];
    let expect: Vec<(String, String, bool)> =
        expect.into_iter().map(|(n, v, i)| (n.to_string(), v, i)).collect();
    assert_eq!(fields, expect);
}

#[test]
fn a_passing_pair_is_priced_posted_and_finished() {
    let job = job();
    let (state, action) = webhook_start(&job);
    assert!(matches!(state, WebhookState::AwaitingHoneypot));
    match action {
        WebhookAction::Fetch { url } => assert_eq!(url, honeypot_url(&pair())),
        _ => panic!("expected a fetch"),
    }
    let (state, action) =
        webhook_step(&job, state, WebhookEvent::HoneypotReport { report: report(true, Some(false)) });
    assert!(matches!(state, WebhookState::AwaitingPrice { .. }));
    match action {
        WebhookAction::Fetch { url } => assert_eq!(url, etherscan_url("KEY")),
        _ => panic!("expected a fetch"),
    }
    let (state, action) =
        webhook_step(&job, state, WebhookEvent::PoolPrice { pooled_usd: "1234567".to_string() });
    assert!(matches!(state, WebhookState::AwaitingDelivery));
    match action {
        WebhookAction::Post { embed } => {
            assert_eq!(embed.fields.len(), 8);
            assert_eq!(embed.fields[3].value, "12.34ETH");
            assert_eq!(embed.fields[4].value, "$1 234 567");
        },
        _ => panic!("expected a post"),
    }
    let (state, action) = webhook_step(&job, state, WebhookEvent::Delivered);
    assert!(matches!(state, WebhookState::Finished));
    assert!(matches!(action, WebhookAction::Finish { outcome: Ok(()) }));
}

#[test]
fn a_honeypot_or_failed_simulation_is_not_sent() {
    for r in [report(true, Some(true)), report(false, None)] {
        let (state, _) = webhook_start(&job());
        let (state, action) = webhook_step(&job(), state, WebhookEvent::HoneypotReport { report: r });
        assert!(matches!(state, WebhookState::Finished));
        assert!(matches!(
            action,
            WebhookAction::Finish { outcome: Err(WebhookError::NotWorthSending) }
        ));
    }
}
