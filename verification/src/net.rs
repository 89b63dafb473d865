//! Which failures of a provider are worth a retry, and how often.

use crate::number::{self, show, show_u64};
use crate::text::{self, cat3, cat4, contains_str};
use vstd::prelude::*;

verus! {

/// How often a request is retried after a failure of the network.
pub const NETWORK_RETRIES: usize = 3;

/// How long the first retry waits, in milliseconds; each later one waits twice
/// as long as the one before.
pub const NETWORK_RETRY_BASE_MS: u64 = 800;

/// Whether an error reads as a failure of the network rather than as an answer
/// of the provider.
pub open spec fn is_transient(error: Seq<char>) -> bool {
    let s = text::lowercase(error);
    ||| text::occurs(s, "error sending request"@)
    ||| text::occurs(s, "connect timeout"@)
    ||| text::occurs(s, "connection refused"@)
    ||| text::occurs(s, "connection reset"@)
    ||| text::occurs(s, "connection closed"@)
    ||| text::occurs(s, "dns"@)
    ||| text::occurs(s, "timed out"@)
    ||| text::occurs(s, "tls"@)
    ||| text::occurs(s, "unexpected eof"@)
    ||| text::occurs(s, "stream ended"@)
}

/// Whether an error reads as a failure of the network.
pub fn is_transient_network_error(error: &str) -> (r: bool)
    ensures
        r == is_transient(error@),
{
    let low = error.to_lowercase();
    let s = low.as_str();
    contains_str(s, "error sending request") || contains_str(s, "connect timeout")
        || contains_str(s, "connection refused") || contains_str(s, "connection reset")
        || contains_str(s, "connection closed") || contains_str(s, "dns") || contains_str(
        s,
        "timed out",
    ) || contains_str(s, "tls") || contains_str(s, "unexpected eof") || contains_str(
        s,
        "stream ended",
    )
}

/// What follows a failed request.
pub enum Retry {
    /// The request is made again after a while.
    Again { wait_ms: u64, notice: String },
    /// The request is given up.
    GiveUp { error: String },
}

/// The model of what follows a failed request.
#[verifier::ext_equal]
pub enum RetryView {
    Again { wait_ms: u64, notice: Seq<char> },
    GiveUp { error: Seq<char> },
}

impl View for Retry {
    type V = RetryView;

    open spec fn view(&self) -> RetryView {
        match self {
            Retry::Again { wait_ms, notice } => RetryView::Again {
                wait_ms: *wait_ms,
                notice: notice@,
            },
            Retry::GiveUp { error } => RetryView::GiveUp { error: error@ },
        }
    }
}

/// How long the retry with this number waits, counted from 1.
pub open spec fn backoff(attempt: nat) -> nat
    decreases attempt,
{
    if attempt <= 1 {
        NETWORK_RETRY_BASE_MS as nat
    } else {
        2 * backoff((attempt - 1) as nat)
    }
}

/// What follows a request that failed with `error` after `retries` retries.
pub open spec fn after_failure(retries: nat, error: Seq<char>) -> RetryView {
    if !is_transient(error) {
        RetryView::GiveUp { error }
    } else if retries >= NETWORK_RETRIES {
        RetryView::GiveUp {
            error: "Still failing after "@ + number::decimal(NETWORK_RETRIES as nat)
                + " retries: "@ + error,
        }
    } else {
        RetryView::Again {
            wait_ms: backoff(retries + 1) as u64,
            notice: "Network error — retrying in "@ + number::decimal(backoff(retries + 1))
                + "ms (attempt "@ + (number::decimal(retries + 1) + "/"@ + number::decimal(
                NETWORK_RETRIES as nat,
            )) + "): "@ + error,
        }
    }
}

fn backoff_ms(attempt: usize) -> (r: u64)
    requires
        1 <= attempt <= NETWORK_RETRIES,
    ensures
        r == backoff(attempt as nat),
{
    reveal_with_fuel(backoff, 4);
    if attempt == 1 {
        800
    } else if attempt == 2 {
        1600
    } else {
        3200
    }
}

/// Decides what follows a request that failed with `error` after `retries`
/// retries: an error that is not of the network is reported at once.
pub fn on_failure(retries: usize, error: &str) -> (r: Retry)
    ensures
        r@ == after_failure(retries as nat, error@),
{
    if !is_transient_network_error(error) {
        return Retry::GiveUp { error: error.to_string() };
    }
    if retries >= NETWORK_RETRIES {
        let n = show(NETWORK_RETRIES);
        return Retry::GiveUp {
            error: cat4("Still failing after ", n.as_str(), " retries: ", error),
        };
    }
    let wait_ms = backoff_ms(retries + 1);
    let ms = show_u64(wait_ms);
    let a = show(retries + 1);
    let n = show(NETWORK_RETRIES);
    let of = cat3(a.as_str(), "/", n.as_str());
    let notice = text::cat6(
        "Network error — retrying in ",
        ms.as_str(),
        "ms (attempt ",
        of.as_str(),
        "): ",
        error,
    );
    Retry::Again { wait_ms, notice }
}

/// A failure of the network is retried three times, after 800, 1600 and 3200
/// milliseconds, and then given up.
pub proof fn law_retries(error: Seq<char>, retries: nat)
    requires
        is_transient(error),
    ensures
        after_failure(retries, error) is Again <==> retries < 3,
        after_failure(0, error) matches RetryView::Again { wait_ms, notice } && wait_ms == 800,
        after_failure(1, error) matches RetryView::Again { wait_ms, notice } && wait_ms == 1600,
        after_failure(2, error) matches RetryView::Again { wait_ms, notice } && wait_ms == 3200,
{
    reveal_with_fuel(backoff, 4);
}

/// The signs of a network failure that may pass, in lower case.
pub open spec fn is_sign_of_trouble(x: Seq<char>) -> bool {
    ||| x == "error sending request"@
    ||| x == "connect timeout"@
    ||| x == "connection refused"@
    ||| x == "connection reset"@
    ||| x == "connection closed"@
    ||| x == "dns"@
    ||| x == "timed out"@
    ||| x == "tls"@
    ||| x == "unexpected eof"@
    ||| x == "stream ended"@
}

/// An error may pass exactly if one of the signs stands somewhere in it, in
/// whatever case.
pub proof fn law_transient(error: Seq<char>)
    ensures
        is_transient(error) <==> exists|x: Seq<char>, a: Seq<char>, b: Seq<char>|
            is_sign_of_trouble(x) && text::lowercase(error) == #[trigger] (a + x + b),
{
    let s = text::lowercase(error);
    if is_transient(error) {
        let x = choose|x: Seq<char>| is_sign_of_trouble(x) && #[trigger] text::occurs(s, x);
        text::law_occurs(s, x);
        let (a, b) = choose|a: Seq<char>, b: Seq<char>| s == #[trigger] (a + x + b);
        assert(s == a + x + b);
    }
    if exists|x: Seq<char>, a: Seq<char>, b: Seq<char>|
        is_sign_of_trouble(x) && s == #[trigger] (a + x + b) {
        let (x, a, b) = choose|x: Seq<char>, a: Seq<char>, b: Seq<char>|
            is_sign_of_trouble(x) && s == #[trigger] (a + x + b);
        text::law_occurs_in_middle(a, x, b);
    }
}

/// Each wait is twice the one before.
pub proof fn law_waits_double(attempt: nat)
    requires
        attempt >= 1,
    ensures
        backoff(attempt + 1) == 2 * backoff(attempt),
        backoff(1) == 800,
{
}

/// What is given up is reported with its error, and what is tried again says so,
/// with the wait and the error. An error that does not pass is given up at once,
/// as it is.
pub proof fn law_failure_is_told(error: Seq<char>, retries: nat)
    ensures
        !is_transient(error) ==> after_failure(retries, error) == (RetryView::GiveUp { error }),
        after_failure(retries, error) matches RetryView::GiveUp { error: e } ==> text::occurs(
            e,
            error,
        ),
        after_failure(retries, error) matches RetryView::Again { wait_ms, notice } ==> text::occurs(
            notice,
            error,
        ) && text::occurs(notice, number::decimal(wait_ms as nat) + "ms"@),
{
    let none = Seq::<char>::empty();
    assert(error =~= none + error + none);
    text::law_occurs_in_middle(none, error, none);
    if is_transient(error) {
        if retries >= NETWORK_RETRIES {
            lemma_ends_with(
                "Still failing after "@ + number::decimal(NETWORK_RETRIES as nat)
                    + " retries: "@,
                error,
            );
        } else {
            reveal_with_fuel(backoff, 4);
            let tries = number::decimal(retries + 1) + "/"@ + number::decimal(
                NETWORK_RETRIES as nat,
            );
            lemma_notice(
                "Network error — retrying in "@,
                number::decimal(backoff(retries + 1)),
                tries,
                error,
            );
        }
    }
}

proof fn lemma_ends_with(head: Seq<char>, error: Seq<char>)
    ensures
        text::occurs(head + error, error),
{
    let none = Seq::<char>::empty();
    assert(head + error =~= head + error + none);
    text::law_occurs_in_middle(head, error, none);
}

proof fn lemma_notice(head: Seq<char>, d: Seq<char>, tries: Seq<char>, error: Seq<char>)
    ensures
        text::occurs(head + d + "ms (attempt "@ + tries + "): "@ + error, error),
        text::occurs(head + d + "ms (attempt "@ + tries + "): "@ + error, d + "ms"@),
{
    let notice = head + d + "ms (attempt "@ + tries + "): "@ + error;
    lemma_ends_with(head + d + "ms (attempt "@ + tries + "): "@, error);
    reveal_strlit("ms (attempt ");
    reveal_strlit("ms");
    let tail = "ms (attempt "@.skip(2);
    assert("ms (attempt "@ =~= "ms"@ + tail);
    let rest = tail + tries + "): "@ + error;
    assert(notice =~= head + (d + "ms"@) + rest);
    text::law_occurs_in_middle(head, d + "ms"@, rest);
}

} // verus!
