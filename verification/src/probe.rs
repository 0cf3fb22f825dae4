//! One probe: the arguments of the echo utility, the reading of its output,
//! and the rule that turns an attempt into a latency or into none.

use vstd::prelude::*;
use vstd::string::*;
use crate::address::Address;
use crate::text::{append_decimal, decimal};

verus! {

/// A measured round-trip time, in microseconds.
#[derive(Debug, Clone, Copy, PartialEq, Eq, Hash, Structural)]
pub struct Latency {
    pub micros: u64,
}

impl Latency {
    /// The latency in whole milliseconds, rounded down.
    pub open spec fn millis(self) -> nat {
        (self.micros / 1000) as nat
    }

    /// The latency in whole milliseconds, rounded down.
    pub fn as_millis(&self) -> (ms: u64)
        ensures
            ms == self.millis(),
    {
        self.micros / 1000
    }
}

/// The host whose echo utility is used; the two differ in flags and in wording.
#[derive(Debug, Clone, Copy, PartialEq, Eq, Hash, Structural)]
pub enum Platform {
    Linux,
    Windows,
}

/// Name of the echo utility.
pub fn ping_program() -> (name: &'static str)
    ensures
        name@ == "ping"@,
{
    "ping"
}

/// The arguments that ask the utility for one echo to `address` within the
/// timeout: whole seconds on Linux, milliseconds on Windows.
pub open spec fn ping_argument_texts(platform: Platform, address: Address, timeout_ms: u64) -> Seq<
    Seq<char>,
> {
    match platform {
        Platform::Linux => seq![
            "-c"@,
            "1"@,
            "-W"@,
            decimal((timeout_ms / 1000) as nat),
            address.text(),
        ],
        Platform::Windows => seq!["-n"@, "1"@, "-w"@, decimal(timeout_ms as nat), address.text()],
    }
}

/// Builds the utility's arguments for one probe.
pub fn ping_arguments(platform: Platform, address: &Address, timeout_ms: u64) -> (arguments: Vec<
    String,
>)
    ensures
        arguments.deep_view() == ping_argument_texts(platform, *address, timeout_ms),
{
    let mut arguments: Vec<String> = Vec::new();
    let mut wait = String::new();
    match platform {
        Platform::Linux => {
            arguments.push(String::from_str("-c"));
            arguments.push(String::from_str("1"));
            arguments.push(String::from_str("-W"));
            append_decimal(&mut wait, timeout_ms / 1000);
            assert(wait@ =~= decimal((timeout_ms / 1000) as nat));
        },
        Platform::Windows => {
            arguments.push(String::from_str("-n"));
            arguments.push(String::from_str("1"));
            arguments.push(String::from_str("-w"));
            append_decimal(&mut wait, timeout_ms);
            assert(wait@ =~= decimal(timeout_ms as nat));
        },
    }
    arguments.push(wait);
    arguments.push(address.to_text());
    assert(arguments.deep_view() =~= ping_argument_texts(platform, *address, timeout_ms));
    arguments
}


/// Whether a character is one of the ten decimal digits.
pub open spec fn is_digit(c: char) -> bool {
    '0' <= c <= '9'
}

/// The number a decimal digit stands for.
pub open spec fn digit_value(c: char) -> nat {
    (c as u32 - '0' as u32) as nat
}

/// The first position at or after `from` that holds no digit.
pub open spec fn digits_end(text: Seq<char>, from: int) -> int
    decreases text.len() - from,
{
    if 0 <= from < text.len() && is_digit(text[from]) {
        digits_end(text, from + 1)
    } else {
        from
    }
}

/// Whether `word` stands in `text` from position `at` on.
pub open spec fn has_at(text: Seq<char>, at: int, word: Seq<char>) -> bool {
    0 <= at && at + word.len() <= text.len() && text.subrange(at, at + word.len()) == word
}

/// A round-trip time as the utility prints it: the digits before the decimal
/// point and those after it (none where it prints no point).
pub struct RttToken {
    pub whole: Seq<char>,
    pub fraction: Seq<char>,
}

/// The token that starts at `at` in the Linux wording: `time=`, digits,
/// optionally a point and more digits, then ` ms`.
pub open spec fn linux_token_at(text: Seq<char>, at: int) -> Option<RttToken> {
    let whole_from = at + 5;
    let whole_to = digits_end(text, whole_from);
    let fraction_to = digits_end(text, whole_to + 1);
    if !has_at(text, at, seq!['t', 'i', 'm', 'e', '=']) || whole_to == whole_from {
        None
    } else if has_at(text, whole_to, seq!['.']) && fraction_to > whole_to + 1 {
        if has_at(text, fraction_to, seq![' ', 'm', 's']) {
            Some(
                RttToken {
                    whole: text.subrange(whole_from, whole_to),
                    fraction: text.subrange(whole_to + 1, fraction_to),
                },
            )
        } else {
            None
        }
    } else if has_at(text, whole_to, seq![' ', 'm', 's']) {
        Some(RttToken { whole: text.subrange(whole_from, whole_to), fraction: Seq::empty() })
    } else {
        None
    }
}

/// The token that starts at `at` in the Windows wording: `=` or `<`, digits,
/// then `ms`.
pub open spec fn windows_token_at(text: Seq<char>, at: int) -> Option<RttToken> {
    let whole_from = at + 1;
    let whole_to = digits_end(text, whole_from);
    if (has_at(text, at, seq!['=']) || has_at(text, at, seq!['<'])) && whole_to > whole_from
        && has_at(text, whole_to, seq!['m', 's']) {
        Some(RttToken { whole: text.subrange(whole_from, whole_to), fraction: Seq::empty() })
    } else {
        None
    }
}

/// The token that starts at `at`, in the wording of the platform.
pub open spec fn token_at(platform: Platform, text: Seq<char>, at: int) -> Option<RttToken> {
    match platform {
        Platform::Linux => linux_token_at(text, at),
        Platform::Windows => windows_token_at(text, at),
    }
}

/// The token at the first position at or after `from` where one starts.
pub open spec fn first_token(platform: Platform, text: Seq<char>, from: int) -> Option<RttToken>
    decreases text.len() - from,
{
    if 0 <= from < text.len() {
        match token_at(platform, text, from) {
            Some(token) => Some(token),
            None => first_token(platform, text, from + 1),
        }
    } else {
        None
    }
}

/// The number that a row of digits writes in base ten.
pub open spec fn number_of(digits: Seq<char>) -> nat
    decreases digits.len(),
{
    if digits.len() == 0 {
        0
    } else {
        number_of(digits.drop_last()) * 10 + digit_value(digits.last())
    }
}

/// The digit at position `at` after the decimal point, 0 where there is none.
pub open spec fn fraction_digit(fraction: Seq<char>, at: int) -> nat {
    if 0 <= at < fraction.len() {
        digit_value(fraction[at])
    } else {
        0
    }
}

/// The first three digits after the decimal point, as a number of thousandths.
pub open spec fn thousandths(fraction: Seq<char>) -> nat {
    fraction_digit(fraction, 0) * 100 + fraction_digit(fraction, 1) * 10 + fraction_digit(
        fraction,
        2,
    )
}

/// Microseconds in a token that counts milliseconds, rounded down.
pub open spec fn token_micros(token: RttToken) -> nat {
    number_of(token.whole) * 1000 + thousandths(token.fraction)
}

/// A count of microseconds as a latency; what does not fit becomes the largest latency.
pub open spec fn latency_of_micros(micros: nat) -> Latency {
    if micros > u64::MAX {
        Latency { micros: u64::MAX }
    } else {
        Latency { micros: micros as u64 }
    }
}

/// The latency that the utility's output reports: that of the first
/// round-trip-time token in it, none where it holds no such token.
pub open spec fn reported_latency(platform: Platform, text: Seq<char>) -> Option<Latency> {
    match first_token(platform, text, 0) {
        Some(token) => Some(latency_of_micros(token_micros(token))),
        None => None,
    }
}

/// `first_token` names the leftmost token: where a token starts at `at` and
/// none starts between `from` and `at`, it is the one found from `from`.
pub proof fn first_token_is_leftmost(platform: Platform, text: Seq<char>, from: int, at: int)
    requires
        0 <= from <= at < text.len(),
        token_at(platform, text, at) is Some,
        forall|k: int| from <= k < at ==> token_at(platform, text, k) is None,
    ensures
        first_token(platform, text, from) == token_at(platform, text, at),
    decreases at - from,
{
    if from < at {
        first_token_is_leftmost(platform, text, from + 1, at);
    }
}

/// Where no token starts at or after `from`, none is found; and where none is
/// found, none starts there.
pub proof fn first_token_is_none_iff_no_token(platform: Platform, text: Seq<char>, from: int)
    requires
        0 <= from,
    ensures
        first_token(platform, text, from) is None <==> (forall|k: int|
            from <= k < text.len() ==> token_at(platform, text, k) is None),
    decreases text.len() - from,
{
    if from < text.len() {
        first_token_is_none_iff_no_token(platform, text, from + 1);
    }
}

/// The characters of a text, one by one.
fn characters(text: &str) -> (chars: Vec<char>)
    ensures
        chars@ == text@,
{
    let mut chars: Vec<char> = Vec::new();
    let source = text.chars();
    for c in it: source
        invariant
            chars@ == it.seq().take(it.index() as int),
            it.seq() == text@,
    {
        chars.push(c);
    }
    chars
}

/// Skips the digits that start at `from`.
fn skip_digits(chars: &Vec<char>, from: usize) -> (to: usize)
    requires
        from <= chars@.len(),
    ensures
        to == digits_end(chars@, from as int),
        from <= to <= chars@.len(),
{
    let mut to: usize = from;
    while to < chars.len() && chars[to] >= '0' && chars[to] <= '9'
        invariant
            from <= to <= chars@.len(),
            digits_end(chars@, from as int) == digits_end(chars@, to as int),
        decreases chars@.len() - to,
    {
        to = to + 1;
    }
    to
}

/// Whether one character stands at `at`.
fn has_char_at(chars: &Vec<char>, at: usize, c: char) -> (found: bool)
    ensures
        found == has_at(chars@, at as int, seq![c]),
{
    if at < chars.len() {
        assert(chars@.subrange(at as int, at + 1) =~= seq![chars@[at as int]]);
        assert(seq![c][0] == c);
        chars[at] == c
    } else {
        false
    }
}

/// Whether ` ms` stands at `at`.
fn has_unit_after_space_at(chars: &Vec<char>, at: usize) -> (found: bool)
    ensures
        found == has_at(chars@, at as int, seq![' ', 'm', 's']),
{
    if at <= chars.len() && chars.len() - at >= 3 {
        let ghost word = seq![' ', 'm', 's'];
        assert(word[0] == ' ' && word[1] == 'm' && word[2] == 's');
        assert(chars@.subrange(at as int, at + 3) =~= seq![
            chars@[at as int],
            chars@[at + 1],
            chars@[at + 2],
        ]);
        let found = chars[at] == ' ' && chars[at + 1] == 'm' && chars[at + 2] == 's';
        assert(found ==> chars@.subrange(at as int, at + 3) =~= word);
        found
    } else {
        false
    }
}

/// Whether `ms` stands at `at`.
fn has_unit_at(chars: &Vec<char>, at: usize) -> (found: bool)
    ensures
        found == has_at(chars@, at as int, seq!['m', 's']),
{
    if at <= chars.len() && chars.len() - at >= 2 {
        let ghost word = seq!['m', 's'];
        assert(word[0] == 'm' && word[1] == 's');
        assert(chars@.subrange(at as int, at + 2) =~= seq![chars@[at as int], chars@[at + 1]]);
        let found = chars[at] == 'm' && chars[at + 1] == 's';
        assert(found ==> chars@.subrange(at as int, at + 2) =~= word);
        found
    } else {
        false
    }
}

/// Whether `time=` stands at `at`.
fn has_label_at(chars: &Vec<char>, at: usize) -> (found: bool)
    ensures
        found == has_at(chars@, at as int, seq!['t', 'i', 'm', 'e', '=']),
{
    if at <= chars.len() && chars.len() - at >= 5 {
        let ghost word = seq!['t', 'i', 'm', 'e', '='];
        assert(word[0] == 't' && word[1] == 'i' && word[2] == 'm' && word[3] == 'e' && word[4]
            == '=');
        assert(chars@.subrange(at as int, at + 5) =~= seq![
            chars@[at as int],
            chars@[at + 1],
            chars@[at + 2],
            chars@[at + 3],
            chars@[at + 4],
        ]);
        let found = chars[at] == 't' && chars[at + 1] == 'i' && chars[at + 2] == 'm' && chars[at
            + 3] == 'e' && chars[at + 4] == '=';
        assert(found ==> chars@.subrange(at as int, at + 5) =~= word);
        found
    } else {
        false
    }
}


/// The smallest count of milliseconds whose microseconds no longer fit.
pub const MILLIS_CAP: u64 = 18_446_744_073_709_552;

/// The number written by the digits in `from..to`, or `MILLIS_CAP` where it is larger.
fn capped_number(chars: &Vec<char>, from: usize, to: usize) -> (value: u64)
    requires
        from <= to <= chars@.len(),
        forall|k: int| from <= k < to ==> is_digit(chars@[k]),
    ensures
        value <= MILLIS_CAP,
        number_of(chars@.subrange(from as int, to as int)) >= MILLIS_CAP ==> value == MILLIS_CAP,
        number_of(chars@.subrange(from as int, to as int)) < MILLIS_CAP ==> value == number_of(
            chars@.subrange(from as int, to as int),
        ),
{
    let mut value: u64 = 0;
    let mut at: usize = from;
    assert(chars@.subrange(from as int, from as int) =~= Seq::<char>::empty());
    while at < to
        invariant
            from <= at <= to <= chars@.len(),
            forall|k: int| from <= k < to ==> is_digit(chars@[k]),
            value <= MILLIS_CAP,
            number_of(chars@.subrange(from as int, at as int)) >= MILLIS_CAP ==> value
                == MILLIS_CAP,
            number_of(chars@.subrange(from as int, at as int)) < MILLIS_CAP ==> value == number_of(
                chars@.subrange(from as int, at as int),
            ),
        decreases to - at,
    {
        let digit: u64 = (chars[at] as u32 - '0' as u32) as u64;
        proof {
            let shorter = chars@.subrange(from as int, at as int);
            let longer = chars@.subrange(from as int, at + 1);
            assert(longer.drop_last() =~= shorter);
            assert(longer.last() == chars@[at as int]);
            assert(number_of(longer) == number_of(shorter) * 10 + digit);
        }
        if value >= MILLIS_CAP {
            value = MILLIS_CAP;
        } else {
            value = value * 10 + digit;
            if value > MILLIS_CAP {
                value = MILLIS_CAP;
            }
        }
        at = at + 1;
    }
    value
}

/// The value of the digit at `at` in `from..to`, 0 where `at` lies outside.
fn fraction_digit_at(chars: &Vec<char>, from: usize, to: usize, at: usize) -> (value: u64)
    requires
        from <= to <= chars@.len(),
        at < 3,
        forall|k: int| from <= k < to ==> is_digit(chars@[k]),
    ensures
        value == fraction_digit(chars@.subrange(from as int, to as int), at as int),
        value <= 9,
{
    if to - from > at {
        (chars[from + at] as u32 - '0' as u32) as u64
    } else {
        0
    }
}

/// The latency of the token whose digits stand in `whole_from..whole_to` and,
/// after the point, in `fraction_from..fraction_to`.
fn token_latency(
    chars: &Vec<char>,
    whole_from: usize,
    whole_to: usize,
    fraction_from: usize,
    fraction_to: usize,
) -> (latency: Latency)
    requires
        whole_from <= whole_to <= chars@.len(),
        fraction_from <= fraction_to <= chars@.len(),
        forall|k: int| whole_from <= k < whole_to ==> is_digit(chars@[k]),
        forall|k: int| fraction_from <= k < fraction_to ==> is_digit(chars@[k]),
    ensures
        latency == latency_of_micros(
            token_micros(
                RttToken {
                    whole: chars@.subrange(whole_from as int, whole_to as int),
                    fraction: chars@.subrange(fraction_from as int, fraction_to as int),
                },
            ),
        ),
{
    let whole = capped_number(chars, whole_from, whole_to);
    let tenths = fraction_digit_at(chars, fraction_from, fraction_to, 0);
    let hundredths = fraction_digit_at(chars, fraction_from, fraction_to, 1);
    let thousandths = fraction_digit_at(chars, fraction_from, fraction_to, 2);
    let part: u64 = tenths * 100 + hundredths * 10 + thousandths;
    if whole >= MILLIS_CAP {
        Latency { micros: u64::MAX }
    } else {
        let micros: u128 = (whole as u128) * 1000 + (part as u128);
        if micros > u64::MAX as u128 {
            Latency { micros: u64::MAX }
        } else {
            Latency { micros: micros as u64 }
        }
    }
}

/// The digits between a position and where `digits_end` leaves off are digits.
proof fn digits_before_end(text: Seq<char>, from: int, k: int)
    requires
        0 <= from <= k < digits_end(text, from),
    ensures
        is_digit(text[k]),
        k < text.len(),
    decreases text.len() - from,
{
    if 0 <= from < text.len() && is_digit(text[from]) {
        if from < k {
            digits_before_end(text, from + 1, k);
        }
    }
}

/// The latency of the Linux token that starts at `at`, if one does.
fn linux_latency_at(chars: &Vec<char>, at: usize) -> (latency: Option<Latency>)
    requires
        at < chars@.len(),
    ensures
        latency == match linux_token_at(chars@, at as int) {
            Some(token) => Some(latency_of_micros(token_micros(token))),
            None => None,
        },
{
    if !has_label_at(chars, at) {
        return None;
    }
    assert(seq!['t', 'i', 'm', 'e', '='].len() == 5);
    assert(at + 5 <= chars.len());
    let whole_from = at + 5;
    let whole_to = skip_digits(chars, whole_from);
    if whole_to == whole_from {
        return None;
    }
    assert forall|k: int| whole_from <= k < whole_to implies is_digit(chars@[k]) by {
        digits_before_end(chars@, whole_from as int, k);
    }
    if has_char_at(chars, whole_to, '.') {
        assert(seq!['.'].len() == 1);
        assert(whole_to + 1 <= chars.len());
        let fraction_from = whole_to + 1;
        let fraction_to = skip_digits(chars, fraction_from);
        if fraction_to > fraction_from {
            assert forall|k: int| fraction_from <= k < fraction_to implies is_digit(chars@[k]) by {
                digits_before_end(chars@, fraction_from as int, k);
            }
            if has_unit_after_space_at(chars, fraction_to) {
                return Some(token_latency(chars, whole_from, whole_to, fraction_from, fraction_to));
            } else {
                return None;
            }
        }
    }
    if has_unit_after_space_at(chars, whole_to) {
        assert(chars@.subrange(whole_to as int, whole_to as int) =~= Seq::<char>::empty());
        Some(token_latency(chars, whole_from, whole_to, whole_to, whole_to))
    } else {
        None
    }
}

/// The latency of the Windows token that starts at `at`, if one does.
fn windows_latency_at(chars: &Vec<char>, at: usize) -> (latency: Option<Latency>)
    requires
        at < chars@.len(),
    ensures
        latency == match windows_token_at(chars@, at as int) {
            Some(token) => Some(latency_of_micros(token_micros(token))),
            None => None,
        },
{
    if !has_char_at(chars, at, '=') && !has_char_at(chars, at, '<') {
        return None;
    }
    assert(at + 1 <= chars.len());
    let whole_from = at + 1;
    let whole_to = skip_digits(chars, whole_from);
    if whole_to > whole_from && has_unit_at(chars, whole_to) {
        assert forall|k: int| whole_from <= k < whole_to implies is_digit(chars@[k]) by {
            digits_before_end(chars@, whole_from as int, k);
        }
        assert(chars@.subrange(whole_to as int, whole_to as int) =~= Seq::<char>::empty());
        Some(token_latency(chars, whole_from, whole_to, whole_to, whole_to))
    } else {
        None
    }
}

/// Reads the latency that the utility's output reports. The output may word
/// the time as `time=12.3 ms` (Linux) or as `time=12ms` and `time<1ms`
/// (Windows); the first such token counts, and an output without one yields
/// no latency.
pub fn parse_ping_output(platform: Platform, output: &str) -> (latency: Option<Latency>)
    ensures
        latency == reported_latency(platform, output@),
{
    let chars = characters(output);
    let mut at: usize = 0;
    while at < chars.len()
        invariant
            at <= chars@.len(),
            chars@ == output@,
            first_token(platform, chars@, 0) == first_token(platform, chars@, at as int),
        decreases chars@.len() - at,
    {
        let here = match platform {
            Platform::Linux => linux_latency_at(&chars, at),
            Platform::Windows => windows_latency_at(&chars, at),
        };
        if here.is_some() {
            return here;
        }
        at = at + 1;
    }
    None
}

/// The text that `encoding_rs` decodes a byte string to when asked for
/// windows-1252.
pub uninterp spec fn windows_1252_text(bytes: Seq<u8>) -> Seq<char>;

/// Calls `encoding_rs::WINDOWS_1252.decode` and keeps the decoded text. The
/// contract only gives that text a name; the bound keeps the input below the
/// size at which the decoder's buffer arithmetic overflows.
#[verifier::external_body]
fn decode_output(output: &[u8]) -> (text: String)
    requires
        output@.len() <= usize::MAX / 8,
    ensures
        text@ == windows_1252_text(output@),
{
    let (cow, _, _) = encoding_rs::WINDOWS_1252.decode(output);
    cow.into_owned()
}

/// Reads the latency out of the bytes that the utility wrote to its standard
/// output.
pub fn latency_from_output(platform: Platform, output: &[u8]) -> (latency: Option<Latency>)
    requires
        output@.len() <= usize::MAX / 8,
    ensures
        latency == reported_latency(platform, windows_1252_text(output@)),
{
    let text = decode_output(output);
    parse_ping_output(platform, text.as_str())
}


/// Where a probe's latency is taken from. One run uses one source throughout,
/// so that its latencies can be compared.
#[derive(Debug, Clone, Copy, PartialEq, Eq, Hash, Structural)]
pub enum LatencySource {
    /// The round-trip time that the utility prints.
    ReportedRtt,
    /// The time the whole invocation took.
    WallClock,
}

/// How one invocation of the utility ended.
#[derive(Debug, Clone, Copy, PartialEq, Eq, Hash, Structural)]
pub enum Attempt {
    /// The timeout elapsed first and the invocation was abandoned.
    TimedOut,
    /// The utility could not be run.
    Failed,
    /// The utility ran to its end.
    Finished {
        /// Whether it reported success by its exit status.
        exit_ok: bool,
        /// The latency read from its output, if it holds one.
        reported: Option<Latency>,
    },
}

/// How one invocation of the utility ended, with its output as it was written.
#[derive(Debug, Clone)]
pub enum RawAttempt {
    /// The timeout elapsed first and the invocation was abandoned.
    TimedOut,
    /// The utility could not be run.
    SpawnFailed,
    /// The utility ran to its end.
    Exited {
        /// Whether it reported success by its exit status.
        exit_ok: bool,
        /// What it wrote to its standard output.
        stdout: Vec<u8>,
    },
}

/// The result of a probe that took `elapsed` under a limit of `timeout`: none
/// once the limit is passed, whatever the attempt brought; none where the
/// utility failed or reported nothing; otherwise the latency of the chosen
/// source.
pub open spec fn settled(
    source: LatencySource,
    timeout: Latency,
    elapsed: Latency,
    attempt: Attempt,
) -> Option<Latency> {
    if elapsed.micros > timeout.micros {
        None
    } else {
        match attempt {
            Attempt::TimedOut => None,
            Attempt::Failed => None,
            Attempt::Finished { exit_ok, reported } => if !exit_ok {
                None
            } else {
                match source {
                    LatencySource::ReportedRtt => reported,
                    LatencySource::WallClock => Some(elapsed),
                }
            },
        }
    }
}

/// Decides the result of one probe from how its attempt ended.
pub fn settle_probe(
    source: LatencySource,
    timeout: Latency,
    elapsed: Latency,
    attempt: Attempt,
) -> (result: Option<Latency>)
    ensures
        result == settled(source, timeout, elapsed, attempt),
{
    if elapsed.micros > timeout.micros {
        return None;
    }
    match attempt {
        Attempt::TimedOut => None,
        Attempt::Failed => None,
        Attempt::Finished { exit_ok, reported } => {
            if !exit_ok {
                None
            } else {
                match source {
                    LatencySource::ReportedRtt => reported,
                    LatencySource::WallClock => Some(elapsed),
                }
            }
        },
    }
}

/// What an attempt amounts to once its output has been read.
pub open spec fn attempt_read(platform: Platform, raw: RawAttempt) -> Attempt {
    match raw {
        RawAttempt::TimedOut => Attempt::TimedOut,
        RawAttempt::SpawnFailed => Attempt::Failed,
        RawAttempt::Exited { exit_ok, stdout } => Attempt::Finished {
            exit_ok,
            reported: reported_latency(platform, windows_1252_text(stdout@)),
        },
    }
}

/// Whether the output of an attempt is short enough to be decoded.
pub open spec fn output_fits(raw: RawAttempt) -> bool {
    raw matches RawAttempt::Exited { stdout, .. } ==> stdout@.len() <= usize::MAX / 8
}

/// Decides the result of one probe from the raw outcome of its attempt: the
/// output is decoded and read, then the rule of `settled` applies.
pub fn probe_result(
    platform: Platform,
    source: LatencySource,
    timeout: Latency,
    elapsed: Latency,
    raw: &RawAttempt,
) -> (result: Option<Latency>)
    requires
        output_fits(*raw),
    ensures
        result == settled(source, timeout, elapsed, attempt_read(platform, *raw)),
{
    let attempt = match raw {
        RawAttempt::TimedOut => Attempt::TimedOut,
        RawAttempt::SpawnFailed => Attempt::Failed,
        RawAttempt::Exited { exit_ok, stdout } => Attempt::Finished {
            exit_ok: *exit_ok,
            reported: latency_from_output(platform, stdout.as_slice()),
        },
    };
    settle_probe(source, timeout, elapsed, attempt)
}

/// A probe that outlasts its timeout has no result. One that ends in time,
/// with success and a reported round-trip time, has one: the elapsed time
/// where the wall clock is the source, the reported time otherwise.
pub proof fn timeout_decides_presence(
    source: LatencySource,
    timeout: Latency,
    elapsed: Latency,
    attempt: Attempt,
)
    ensures
        elapsed.micros > timeout.micros ==> settled(source, timeout, elapsed, attempt) is None,
        elapsed.micros <= timeout.micros ==> (attempt matches Attempt::Finished {
            exit_ok: true,
            reported: Some(rtt),
        } ==> settled(source, timeout, elapsed, attempt) == Some(
            match source {
                LatencySource::ReportedRtt => rtt,
                LatencySource::WallClock => elapsed,
            },
        )),
{
}

} // verus!
