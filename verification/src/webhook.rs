//! The Discord notification of a new pair: the API replies it reads, the
//! screening of honeypots, the embed it posts, and the steps that lead from
//! one to the other.

use vstd::prelude::*;
use crate::address::{address_text, address_text_of};
use crate::prettify::{grouped_thousands, prettified_decimal, prettify_decimal, prettify_dollars};
use crate::address::address_text_layout;

verus! {

/// The Etherscan reply to the ether price request.
#[derive(Default, Debug, Clone, PartialEq)]
pub struct EtherscanResponse {
    pub result: ResultEtherscan,
}

/// The price part of the Etherscan reply: the price of one ether in dollars, as text.
#[derive(Default, Debug, Clone, PartialEq)]
pub struct ResultEtherscan {
    pub ethusd: String,
}

/// The honeypot.is reply about a pair.
#[derive(Default, Debug, Clone, PartialEq)]
pub struct HoneypotResponse {
    pub simulation_success: bool,
    pub honeypot_result: Option<HoneypotResult>,
    pub simulation_result: Option<SimulationResult>,
}

/// The honeypot verdict of honeypot.is.
#[derive(Default, Debug, Clone, PartialEq)]
pub struct HoneypotResult {
    pub is_honeypot: bool,
}

/// The taxes that honeypot.is measured in its simulated trades, in percent,
/// each written as the decimal text of the number that the API reports.
#[derive(Default, Debug, Clone, PartialEq)]
pub struct SimulationResult {
    pub buy_tax: String,
    pub sell_tax: String,
    pub transfer_tax: String,
}

/// Why a notification is not sent.
#[derive(Debug, Clone, Copy, PartialEq, Eq)]
pub enum WebhookError {
    /// The simulation failed, or the pair is a honeypot.
    NotWorthSending,
}

impl WebhookError {
    /// The message of the error.
    pub fn message(&self) -> (res: &'static str)
        ensures
            res@ == "Simulation Failed don't even bother sending the hook because it doesn't make sense"@,
    {
        match self {
            WebhookError::NotWorthSending =>
                "Simulation Failed don't even bother sending the hook because it doesn't make sense",
        }
    }
}

/// A report can be screened: when the simulation succeeded, it carries a verdict.
pub open spec fn screenable(report: HoneypotResponse) -> bool {
    report.simulation_success ==> report.honeypot_result is Some
}

/// A pair passes the screening when its simulation succeeded and it is no honeypot.
pub open spec fn passes_screening(report: HoneypotResponse) -> bool {
    &&& report.simulation_success
    &&& report.honeypot_result matches Some(verdict)
    &&& !verdict.is_honeypot
}

/// Screens a honeypot.is report: `Ok` when the simulation succeeded and the pair
/// is no honeypot, the error otherwise.
pub fn screen_honeypot(report: &HoneypotResponse) -> (res: Result<(), WebhookError>)
    requires
        screenable(*report),
    ensures
        res is Ok <==> passes_screening(*report),
        res is Err ==> res == Err::<(), WebhookError>(WebhookError::NotWorthSending),
{
    if !report.simulation_success {
        return Err(WebhookError::NotWorthSending);
    }
    match &report.honeypot_result {
        Some(verdict) => {
            if verdict.is_honeypot {
                Err(WebhookError::NotWorthSending)
            } else {
                Ok(())
            }
        },
        None => Err(WebhookError::NotWorthSending),
    }
}

/// The honeypot.is request for a pair.
pub open spec fn honeypot_url_of(pair: Seq<u8>) -> Seq<char> {
    "https://api.honeypot.is/v2/IsHoneypot?address="@ + address_text_of(pair)
}

/// The Etherscan request for the price of ether.
pub open spec fn etherscan_url_of(api_key: Seq<char>) -> Seq<char> {
    "https://api.etherscan.io/api?module=stats&action=ethprice&apikey="@ + api_key
}

fn joined(a: &str, b: &str) -> (res: String)
    ensures
        res@ == a@ + b@,
{
    let mut res = String::from_str(a);
    res.append(b);
    res
}

/// The URL that asks honeypot.is about a pair.
pub fn honeypot_url(pair: &[u8; 20]) -> (res: String)
    ensures
        res@ == honeypot_url_of(pair@),
{
    let addr = address_text(pair);
    joined("https://api.honeypot.is/v2/IsHoneypot?address=", addr.as_str())
}

/// The URL that asks Etherscan for the price of ether.
pub fn etherscan_url(api_key: &str) -> (res: String)
    ensures
        res@ == etherscan_url_of(api_key@),
{
    joined("https://api.etherscan.io/api?module=stats&action=ethprice&apikey=", api_key)
}

/// One field of a Discord embed. A field that is not `inline` is sent without
/// the `inline` key.
#[derive(Debug, Clone, PartialEq)]
pub struct EmbedField {
    pub name: String,
    pub value: String,
    pub inline: bool,
}

/// The Discord embed that announces a new pair.
#[derive(Debug, Clone, PartialEq)]
pub struct Embed {
    pub color: u32,
    pub title: String,
    pub fields: Vec<EmbedField>,
}

/// The color of the embed: `0x0099ff`.
pub const EMBED_COLOR: u32 = 0x0099ff;

/// A field as name, value and whether it is inline.
pub open spec fn field_view(f: EmbedField) -> (Seq<char>, Seq<char>, bool) {
    (f.name@, f.value@, f.inline)
}

/// How a `bool` is written.
pub open spec fn bool_text(b: bool) -> Seq<char> {
    if b {
        "true"@
    } else {
        "false"@
    }
}

/// The fields that announce a pair: its name, links to Etherscan and
/// DexScreener, the pooled ether, its value in dollars, the honeypot verdict,
/// and the buy and sell taxes.
pub open spec fn notification_fields(
    token_name: Seq<char>,
    pair: Seq<u8>,
    pooled_ether: Seq<char>,
    pooled_usd: Seq<char>,
    is_honeypot: bool,
    buy_tax: Seq<char>,
    sell_tax: Seq<char>,
) -> Seq<(Seq<char>, Seq<char>, bool)> {
    seq![
        ("Name"@, token_name + "/WETH"@, false),
        ("Etherscan"@, "[here](https://etherscan.com/address/"@ + address_text_of(pair) + ")"@, true),
        ("DexScreener"@, "[here](https://dexscreener.com/ethereum/"@ + address_text_of(pair) + ")"@, true),
        ("Pooled Ether"@, prettified_decimal(pooled_ether) + "ETH"@, false),
        ("Eth Pooled in USD Value"@, "$"@ + grouped_thousands(pooled_usd), false),
        ("Is a Honeypot?"@, bool_text(is_honeypot), false),
        ("BuyTax"@, prettified_decimal(buy_tax) + "%"@, true),
        ("SellTax"@, prettified_decimal(sell_tax) + "%"@, true),
    ]
}

fn field(name: &str, value: String, inline: bool) -> (res: EmbedField)
    ensures
        field_view(res) == (name@, value@, inline),
{
    EmbedField { name: String::from_str(name), value, inline }
}

fn bool_string(b: bool) -> (res: String)
    ensures
        res@ == bool_text(b),
{
    if b {
        String::from_str("true")
    } else {
        String::from_str("false")
    }
}

/// Builds the embed that announces a pair, from the pair's data, its value in
/// dollars and the honeypot.is report.
pub fn notification_embed(
    token_name: &str,
    pair: &[u8; 20],
    pooled_ether: &str,
    pooled_usd: &str,
    verdict: &HoneypotResult,
    simulation: &SimulationResult,
) -> (res: Embed)
    ensures
        res.color == EMBED_COLOR,
        res.title@ == "New Pair Deployed"@,
        res.fields@.map_values(|f: EmbedField| field_view(f)) == notification_fields(
            token_name@,
            pair@,
            pooled_ether@,
            pooled_usd@,
            verdict.is_honeypot,
            simulation.buy_tax@,
            simulation.sell_tax@,
        ),
{
    let addr = address_text(pair);
    let mut fields: Vec<EmbedField> = Vec::new();
    fields.push(field("Name", joined(token_name, "/WETH"), false));
    let mut etherscan = joined("[here](https://etherscan.com/address/", addr.as_str());
    etherscan.append(")");
    fields.push(field("Etherscan", etherscan, true));
    let mut dexscreener = joined("[here](https://dexscreener.com/ethereum/", addr.as_str());
    dexscreener.append(")");
    fields.push(field("DexScreener", dexscreener, true));
    let ether = prettify_decimal(String::from_str(pooled_ether));
    fields.push(field("Pooled Ether", joined(ether.as_str(), "ETH"), false));
    let dollars = prettify_dollars(String::from_str(pooled_usd));
    fields.push(field("Eth Pooled in USD Value", joined("$", dollars.as_str()), false));
    fields.push(field("Is a Honeypot?", bool_string(verdict.is_honeypot), false));
    let buy = prettify_decimal(simulation.buy_tax.clone());
    fields.push(field("BuyTax", joined(buy.as_str(), "%"), true));
    let sell = prettify_decimal(simulation.sell_tax.clone());
    fields.push(field("SellTax", joined(sell.as_str(), "%"), true));
    let res = Embed { color: EMBED_COLOR, title: String::from_str("New Pair Deployed"), fields };
    assert(res.fields@.map_values(|f: EmbedField| field_view(f)) =~= notification_fields(
        token_name@,
        pair@,
        pooled_ether@,
        pooled_usd@,
        verdict.is_honeypot,
        simulation.buy_tax@,
        simulation.sell_tax@,
    ));
    res
}

/// What a notification is about: the token paired with WETH, the pair, the
/// pooled ether as text, and the Etherscan API key.
pub struct WebhookJob {
    pub token_name: String,
    pub pair: [u8; 20],
    pub pooled_ether: String,
    pub etherscan_api_key: String,
}

/// Where the sending of a notification stands.
pub enum WebhookState {
    /// The honeypot.is report is awaited.
    AwaitingHoneypot,
    /// The pair passed the screening; its value in dollars is awaited.
    AwaitingPrice { report: HoneypotResponse },
    /// The embed was handed out for posting.
    AwaitingDelivery,
    /// Nothing is left to do.
    Finished,
}

/// What the caller brings back from the outside.
pub enum WebhookEvent {
    /// The honeypot.is report about the pair.
    HoneypotReport { report: HoneypotResponse },
    /// The pooled ether's value in dollars, as the text of a whole number.
    PoolPrice { pooled_usd: String },
    /// The embed was posted to the webhook.
    Delivered,
}

/// What the caller is to do next.
pub enum WebhookAction {
    /// Fetch this URL and bring back its JSON reply.
    Fetch { url: String },
    /// Post this embed to the Discord webhook.
    Post { embed: Embed },
    /// Stop, with this outcome.
    Finish { outcome: Result<(), WebhookError> },
}

/// A state is consistent: one that awaits the price holds a report that
/// passed the screening.
pub open spec fn state_ok(state: WebhookState) -> bool {
    state matches WebhookState::AwaitingPrice { report } ==> passes_screening(report)
}

/// The events that each state waits for, with what the reports must carry.
pub open spec fn event_fits(state: WebhookState, event: WebhookEvent) -> bool {
    match (state, event) {
        (WebhookState::AwaitingHoneypot, WebhookEvent::HoneypotReport { report }) => screenable(report),
        (WebhookState::AwaitingPrice { report }, WebhookEvent::PoolPrice { .. }) => report.simulation_result is Some,
        (WebhookState::AwaitingDelivery, WebhookEvent::Delivered) => true,
        _ => false,
    }
}

/// The embed announces the job's pair with the given report and dollar value.
pub open spec fn announces(embed: Embed, job: WebhookJob, report: HoneypotResponse, pooled_usd: Seq<char>) -> bool {
    &&& embed.color == EMBED_COLOR
    &&& embed.title@ == "New Pair Deployed"@
    &&& embed.fields@.map_values(|f: EmbedField| field_view(f)) == notification_fields(
        job.token_name@,
        job.pair@,
        job.pooled_ether@,
        pooled_usd,
        report.honeypot_result->0.is_honeypot,
        report.simulation_result->0.buy_tax@,
        report.simulation_result->0.sell_tax@,
    )
}

/// Starts a notification: ask honeypot.is about the pair.
pub fn webhook_start(job: &WebhookJob) -> (res: (WebhookState, WebhookAction))
    ensures
        res.0 is AwaitingHoneypot,
        res.1 matches WebhookAction::Fetch { url } && url@ == honeypot_url_of(job.pair@),
{
    (WebhookState::AwaitingHoneypot, WebhookAction::Fetch { url: honeypot_url(&job.pair) })
}

/// One step of a notification. A report that fails the screening ends it with
/// `NotWorthSending`; one that passes leads to the price request; the price
/// leads to the embed; its delivery ends the notification with `Ok`.
pub fn webhook_step(job: &WebhookJob, state: WebhookState, event: WebhookEvent) -> (res: (
    WebhookState,
    WebhookAction,
))
    requires
        state_ok(state),
        event_fits(state, event),
    ensures
        state_ok(res.0),
        res.1 is Post ==> (state matches WebhookState::AwaitingPrice { report } && passes_screening(report)),
        match (state, event) {
            (WebhookState::AwaitingHoneypot, WebhookEvent::HoneypotReport { report }) => if passes_screening(report) {
                &&& res.0 == (WebhookState::AwaitingPrice { report })
                &&& res.1 matches WebhookAction::Fetch { url } && url@ == etherscan_url_of(job.etherscan_api_key@)
            } else {
                &&& res.0 is Finished
                &&& res.1 matches WebhookAction::Finish { outcome } && outcome == Err::<(), WebhookError>(WebhookError::NotWorthSending)
            },
            (WebhookState::AwaitingPrice { report }, WebhookEvent::PoolPrice { pooled_usd }) => {
                &&& res.0 is AwaitingDelivery
                &&& res.1 matches WebhookAction::Post { embed } && announces(embed, *job, report, pooled_usd@)
            },
            _ => {
                &&& res.0 is Finished
                &&& res.1 matches WebhookAction::Finish { outcome } && outcome == Ok::<(), WebhookError>(())
            },
        },
{
    match state {
        WebhookState::AwaitingHoneypot => {
            match event {
                WebhookEvent::HoneypotReport { report } => {
                    match screen_honeypot(&report) {
                        Ok(()) => {
                            let url = etherscan_url(job.etherscan_api_key.as_str());
                            (WebhookState::AwaitingPrice { report }, WebhookAction::Fetch { url })
                        },
                        Err(e) => (WebhookState::Finished, WebhookAction::Finish { outcome: Err(e) }),
                    }
                },
                _ => (WebhookState::Finished, WebhookAction::Finish { outcome: Ok(()) }),
            }
        },
        WebhookState::AwaitingPrice { report } => {
            match event {
                WebhookEvent::PoolPrice { pooled_usd } => {
                    match (&report.honeypot_result, &report.simulation_result) {
                        (Some(verdict), Some(simulation)) => {
                            let embed = notification_embed(
                                job.token_name.as_str(),
                                &job.pair,
                                job.pooled_ether.as_str(),
                                pooled_usd.as_str(),
                                verdict,
                                simulation,
                            );
                            (WebhookState::AwaitingDelivery, WebhookAction::Post { embed })
                        },
                        _ => (WebhookState::Finished, WebhookAction::Finish { outcome: Ok(()) }),
                    }
                },
                _ => (WebhookState::Finished, WebhookAction::Finish { outcome: Ok(()) }),
            }
        },
        _ => (WebhookState::Finished, WebhookAction::Finish { outcome: Ok(()) }),
    }
}

/// The fields of an announcement, in order: the name field holds the whole
/// token name followed by `/WETH`; the two links end with the pair's address
/// text and `)`; the pooled ether is the shortened pooled ether followed by
/// `ETH`; the dollar value is `$` and the grouped digits; the verdict is
/// `true` or `false`; the buy and sell taxes are the shortened taxes, each
/// followed by `%`. Only the links and the taxes are inline.
pub proof fn notification_fields_layout(
    token_name: Seq<char>,
    pair: Seq<u8>,
    pooled_ether: Seq<char>,
    pooled_usd: Seq<char>,
    is_honeypot: bool,
    buy_tax: Seq<char>,
    sell_tax: Seq<char>,
)
    requires
        pair.len() == 20,
    ensures
        ({
            let f = notification_fields(
                token_name,
                pair,
                pooled_ether,
                pooled_usd,
                is_honeypot,
                buy_tax,
                sell_tax,
            );
            let n = token_name.len() as int;
            let link = "[here](https://etherscan.com/address/"@.len() as int;
            let dex = "[here](https://dexscreener.com/ethereum/"@.len() as int;
            &&& f.len() == 8
            &&& f[0].0 == "Name"@ && !f[0].2
            &&& f[0].1.len() == n + 5
            &&& f[0].1.take(n) == token_name
            &&& f[0].1.skip(n) == "/WETH"@
            &&& f[1].0 == "Etherscan"@ && f[1].2
            &&& f[1].1.take(link) == "[here](https://etherscan.com/address/"@
            &&& f[1].1.len() == link + 43
            &&& f[1].1.subrange(link, link + 42) == address_text_of(pair)
            &&& f[1].1[link + 42] == ')'
            &&& f[2].0 == "DexScreener"@ && f[2].2
            &&& f[2].1.take(dex) == "[here](https://dexscreener.com/ethereum/"@
            &&& f[2].1.len() == dex + 43
            &&& f[2].1.subrange(dex, dex + 42) == address_text_of(pair)
            &&& f[2].1[dex + 42] == ')'
            &&& f[3].0 == "Pooled Ether"@ && !f[3].2
            &&& f[3].1.take(prettified_decimal(pooled_ether).len() as int) == prettified_decimal(pooled_ether)
            &&& f[3].1.skip(prettified_decimal(pooled_ether).len() as int) == "ETH"@
            &&& f[4].0 == "Eth Pooled in USD Value"@ && !f[4].2
            &&& f[4].1[0] == '$'
            &&& f[4].1.skip(1) == grouped_thousands(pooled_usd)
            &&& f[5].0 == "Is a Honeypot?"@ && !f[5].2
            &&& (is_honeypot ==> f[5].1 == "true"@)
            &&& (!is_honeypot ==> f[5].1 == "false"@)
            &&& f[6].0 == "BuyTax"@ && f[6].2
            &&& f[6].1.take(prettified_decimal(buy_tax).len() as int) == prettified_decimal(buy_tax)
            &&& f[6].1.skip(prettified_decimal(buy_tax).len() as int) == "%"@
            &&& f[7].0 == "SellTax"@ && f[7].2
            &&& f[7].1.take(prettified_decimal(sell_tax).len() as int) == prettified_decimal(sell_tax)
            &&& f[7].1.skip(prettified_decimal(sell_tax).len() as int) == "%"@
        }),
{
    let f = notification_fields(token_name, pair, pooled_ether, pooled_usd, is_honeypot, buy_tax, sell_tax);
    let n = token_name.len() as int;
    reveal_strlit("/WETH");
    reveal_strlit("[here](https://etherscan.com/address/");
    reveal_strlit("[here](https://dexscreener.com/ethereum/");
    reveal_strlit(")");
    reveal_strlit("$");
    address_text_layout(pair);
    let a = address_text_of(pair);
    let link = "[here](https://etherscan.com/address/"@;
    let dex = "[here](https://dexscreener.com/ethereum/"@;
    assert(f[0].1.take(n) =~= token_name);
    assert(f[0].1.skip(n) =~= "/WETH"@);
    assert(f[1].1.take(link.len() as int) =~= link);
    assert(f[1].1.subrange(link.len() as int, link.len() as int + 42) =~= a);
    assert(f[2].1.take(dex.len() as int) =~= dex);
    assert(f[2].1.subrange(dex.len() as int, dex.len() as int + 42) =~= a);
    let pe = prettified_decimal(pooled_ether);
    assert(f[3].1.take(pe.len() as int) =~= pe);
    assert(f[3].1.skip(pe.len() as int) =~= "ETH"@);
    assert(f[4].1.skip(1) =~= grouped_thousands(pooled_usd));
    let bt = prettified_decimal(buy_tax);
    assert(f[6].1.take(bt.len() as int) =~= bt);
    assert(f[6].1.skip(bt.len() as int) =~= "%"@);
    let st = prettified_decimal(sell_tax);
    assert(f[7].1.take(st.len() as int) =~= st);
    assert(f[7].1.skip(st.len() as int) =~= "%"@);
}

/// The embed posted for a screened report announces that report: its verdict
/// field is `false`, its buy and sell tax fields are the report's own buy and
/// sell taxes, shortened and followed by `%`, and its other fields come from the
/// job and the dollar value.
pub proof fn posted_embed_shows_the_report(
    embed: Embed,
    job: WebhookJob,
    report: HoneypotResponse,
    pooled_usd: Seq<char>,
)
    requires
        announces(embed, job, report, pooled_usd),
        passes_screening(report),
    ensures
        ({
            let f = embed.fields@.map_values(|e: EmbedField| field_view(e));
            let buy = prettified_decimal(report.simulation_result->0.buy_tax@);
            let sell = prettified_decimal(report.simulation_result->0.sell_tax@);
            let n = job.token_name@.len() as int;
            &&& embed.fields@.len() == 8
            &&& embed.color == 0x0099ff
            &&& f[0].1.take(n) == job.token_name@
            &&& f[0].1.skip(n) == "/WETH"@
            &&& f[3].1.take(prettified_decimal(job.pooled_ether@).len() as int) == prettified_decimal(
                job.pooled_ether@,
            )
            &&& f[4].1.skip(1) == grouped_thousands(pooled_usd)
            &&& f[5].1 == "false"@
            &&& f[6].0 == "BuyTax"@
            &&& f[6].1.take(buy.len() as int) == buy
            &&& f[6].1.skip(buy.len() as int) == "%"@
            &&& f[7].0 == "SellTax"@
            &&& f[7].1.take(sell.len() as int) == sell
            &&& f[7].1.skip(sell.len() as int) == "%"@
        }),
{
    notification_fields_layout(
        job.token_name@,
        job.pair@,
        job.pooled_ether@,
        pooled_usd,
        report.honeypot_result->0.is_honeypot,
        report.simulation_result->0.buy_tax@,
        report.simulation_result->0.sell_tax@,
    );
}

/// A report passes the screening exactly when its simulation succeeded and its
/// verdict says the pair is no honeypot; it fails whenever the simulation
/// failed or the verdict says honeypot.
pub proof fn screening_law(report: HoneypotResponse)
    ensures
        passes_screening(report) <==> (report.simulation_success && report.honeypot_result == Some(
            HoneypotResult { is_honeypot: false },
        )),
        !report.simulation_success ==> !passes_screening(report),
        report.honeypot_result == Some(HoneypotResult { is_honeypot: true }) ==> !passes_screening(
            report,
        ),
{
}

/// The request URLs: the honeypot.is request ends with the 42-character text
/// of the pair's address, the Etherscan request with the API key.
pub proof fn request_urls_end_with_their_argument(pair: Seq<u8>, api_key: Seq<char>)
    requires
        pair.len() == 20,
    ensures
        honeypot_url_of(pair).len() == "https://api.honeypot.is/v2/IsHoneypot?address="@.len() + 42,
        honeypot_url_of(pair).take("https://api.honeypot.is/v2/IsHoneypot?address="@.len() as int)
            == "https://api.honeypot.is/v2/IsHoneypot?address="@,
        honeypot_url_of(pair).skip("https://api.honeypot.is/v2/IsHoneypot?address="@.len() as int)
            == address_text_of(pair),
        etherscan_url_of(api_key).take(
            "https://api.etherscan.io/api?module=stats&action=ethprice&apikey="@.len() as int,
        ) == "https://api.etherscan.io/api?module=stats&action=ethprice&apikey="@,
        etherscan_url_of(api_key).skip(
            "https://api.etherscan.io/api?module=stats&action=ethprice&apikey="@.len() as int,
        ) == api_key,
{
    address_text_layout(pair);
    let u = honeypot_url_of(pair);
    let p = "https://api.honeypot.is/v2/IsHoneypot?address="@;
    assert(u.take(p.len() as int) =~= p);
    assert(u.skip(p.len() as int) =~= address_text_of(pair));
    let e = etherscan_url_of(api_key);
    let q = "https://api.etherscan.io/api?module=stats&action=ethprice&apikey="@;
    assert(e.take(q.len() as int) =~= q);
    assert(e.skip(q.len() as int) =~= api_key);
}

} // verus!
