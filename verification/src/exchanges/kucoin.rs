//! KuCoin: candle requests and records, the retry rule for downloads, and
//! the message rule of the kline stream session.

use crate::record::{Exchange, Record};
use crate::utilities::decimal::{decimal, push_decimal};
use crate::utilities::time_range::timestamp_secs;
use vstd::prelude::*;
use vstd::string::StringExecFns;

verus! {

/// The KuCoin exchange.
pub struct KuCoinExchange;

/// What to do after a message of the stream arrived: send the subscription
/// request, and send a ping.
#[derive(Clone, Copy, Debug, PartialEq, Eq, Structural)]
pub struct SessionActions {
    pub send_subscription: bool,
    pub send_ping: bool,
}

/// State of a kline stream session: whether the subscription was sent, and
/// whether the last message was followed by a ping.
#[derive(Clone, Copy, Debug, PartialEq, Eq, Structural)]
pub struct KuCoinSession {
    pub subscribed: bool,
    pub pinged_last: bool,
}

/// The session after a message arrived, and the actions it calls for.
pub open spec fn session_step(s: KuCoinSession) -> (KuCoinSession, SessionActions) {
    (
        KuCoinSession { subscribed: true, pinged_last: !s.pinged_last },
        SessionActions { send_subscription: !s.subscribed, send_ping: !s.pinged_last },
    )
}

/// The session after `n` messages.
pub open spec fn session_after(n: nat) -> KuCoinSession
    decreases n,
{
    if n == 0 {
        KuCoinSession { subscribed: false, pinged_last: false }
    } else {
        session_step(session_after((n - 1) as nat)).0
    }
}

/// Over a session, the subscription goes out once, after the first message,
/// and a ping follows every odd-numbered message.
pub proof fn lemma_session_schedule(n: nat)
    ensures
        session_after(n) == (KuCoinSession { subscribed: n > 0, pinged_last: n % 2 == 1 }),
        n > 0 ==> session_step(session_after((n - 1) as nat)).1 == (SessionActions {
            send_subscription: n == 1,
            send_ping: n % 2 == 1,
        }),
    decreases n,
{
    if n > 0 {
        lemma_session_schedule((n - 1) as nat);
    }
}

impl KuCoinSession {
    /// A session before any message.
    pub fn new() -> (s: Self)
        ensures
            s == session_after(0),
    {
        KuCoinSession { subscribed: false, pinged_last: false }
    }

    /// Takes note of an arrived message and says what to send: the
    /// subscription request if it was not sent yet, and a ping after every
    /// other message.
    pub fn on_message(&mut self) -> (a: SessionActions)
        ensures
            (*final(self), a) == session_step(*old(self)),
    {
        let send_subscription = !self.subscribed;
        self.subscribed = true;
        self.pinged_last = !self.pinged_last;
        SessionActions { send_subscription, send_ping: self.pinged_last }
    }
}

impl KuCoinExchange {
    /// URL of the candle request for one-minute ATOM-USDT candles between
    /// `start` and `end` (milliseconds), which the endpoint takes in whole
    /// seconds.
    pub fn candles_url(start: i64, end: i64) -> (url: String)
        ensures
            url@ == "https://api.kucoin.com/api/v1/market/candles?symbol=ATOM-USDT&startAt="@
                + decimal(start as int / 1000) + "&endAt="@ + decimal(end as int / 1000)
                + "&type=1min"@,
    {
        let mut url = "https://api.kucoin.com/api/v1/market/candles?symbol=ATOM-USDT&startAt=".to_owned();
        push_decimal(&mut url, timestamp_secs(start));
        url.append("&endAt=");
        push_decimal(&mut url, timestamp_secs(end));
        url.append("&type=1min");
        url
    }

    /// URL of the stream endpoint: the server's endpoint with the session
    /// token and connection id as query parameters.
    pub fn websocket_url(endpoint: &str, token: &str, connect_id: &str) -> (url: String)
        ensures
            url@ == endpoint@ + "?token="@ + token@ + "&connectId="@ + connect_id@,
    {
        let mut url = endpoint.to_owned();
        url.append("?token=");
        url.append(token);
        url.append("&connectId=");
        url.append(connect_id);
        url
    }

    /// What to do after a failed download with `retries` retries left: try
    /// again with one fewer, or give up once none are left.
    pub fn after_failed_download(retries: usize) -> (r: Result<usize, &'static str>)
        ensures
            retries > 0 ==> r == Ok::<usize, &'static str>((retries - 1) as usize),
            retries == 0 ==> (r matches Err(e) && e@ == "quitting handle klies"@),
    {
        if retries > 0 {
            Ok(retries - 1)
        } else {
            Err("quitting handle klies")
        }
    }

    /// Record of a candle given in the endpoint's column order: start time,
    /// open, close, high, low, volume, turnover.
    pub fn candle_record(candle: (u64, u64, u64, u64, u64, u64, u64)) -> (r: Record)
        ensures
            r == (Record {
                exchange: Exchange::Kucoin,
                date: candle.0,
                open: candle.1,
                close: candle.2,
                high: candle.3,
                low: candle.4,
                volume: candle.5,
            }),
    {
        Record {
            exchange: Exchange::Kucoin,
            date: candle.0,
            open: candle.1,
            close: candle.2,
            high: candle.3,
            low: candle.4,
            volume: candle.5,
        }
    }

    /// Record of a stream candle, dated by the message time (nanoseconds)
    /// in milliseconds.
    pub fn stream_record(time: u64, candle: (u64, u64, u64, u64, u64, u64, u64)) -> (r: Record)
        ensures
            r == (Record {
                exchange: Exchange::Kucoin,
                date: time / 1000000,
                open: candle.1,
                close: candle.2,
                high: candle.3,
                low: candle.4,
                volume: candle.5,
            }),
    {
        Record {
            exchange: Exchange::Kucoin,
            date: time / 1000000,
            open: candle.1,
            close: candle.2,
            high: candle.3,
            low: candle.4,
            volume: candle.5,
        }
    }
}

} // verus!
