//! Encoding of outbound frames: the handshake, audio chunks and the stop
//! message.

use vstd::prelude::*;
use crate::json::{encode_string, json_string_literal};
use crate::wire::{SessionError, StartCfg, StartCfgView};

verus! {

/// The character that stands for a decimal digit.
pub open spec fn digit_char(d: nat) -> char {
    if d == 0 {
        '0'
    } else if d == 1 {
        '1'
    } else if d == 2 {
        '2'
    } else if d == 3 {
        '3'
    } else if d == 4 {
        '4'
    } else if d == 5 {
        '5'
    } else if d == 6 {
        '6'
    } else if d == 7 {
        '7'
    } else if d == 8 {
        '8'
    } else {
        '9'
    }
}

/// The decimal numeral of `n`, without leading zeros.
pub open spec fn decimal(n: nat) -> Seq<char>
    decreases n,
{
    if n < 10 {
        seq![digit_char(n)]
    } else {
        decimal(n / 10).push(digit_char(n % 10))
    }
}

fn digit_str(d: u32) -> (r: &'static str)
    requires
        d < 10,
    ensures
        r@ == seq![digit_char(d as nat)],
{
    proof {
        reveal_strlit("0");
        reveal_strlit("1");
        reveal_strlit("2");
        reveal_strlit("3");
        reveal_strlit("4");
        reveal_strlit("5");
        reveal_strlit("6");
        reveal_strlit("7");
        reveal_strlit("8");
        reveal_strlit("9");
    }
    let r = if d == 0 {
        "0"
    } else if d == 1 {
        "1"
    } else if d == 2 {
        "2"
    } else if d == 3 {
        "3"
    } else if d == 4 {
        "4"
    } else if d == 5 {
        "5"
    } else if d == 6 {
        "6"
    } else if d == 7 {
        "7"
    } else if d == 8 {
        "8"
    } else {
        "9"
    };
    assert(r@ =~= seq![digit_char(d as nat)]);
    r
}

/// Writes `n` as a decimal numeral.
pub fn decimal_string(n: u32) -> (r: String)
    ensures
        r@ == decimal(n as nat),
    decreases n,
{
    if n < 10 {
        String::from_str(digit_str(n))
    } else {
        let mut s = decimal_string(n / 10);
        s.append(digit_str(n % 10));
        assert(s@ =~= decimal(n as nat));
        s
    }
}

/// The handshake document for a configuration whose strings are already
/// written as JSON literals (`language` absent for `null`).
pub open spec fn handshake_layout(language: Option<Seq<char>>, task: Seq<char>, beam_size: u32) -> Seq<
    char,
> {
    let language = match language {
        Some(literal) => literal,
        None => "null"@,
    };
    "{\"language\":"@ + language + ",\"task\":"@ + task + ",\"beam_size\":"@ + decimal(
        beam_size as nat,
    ) + "}"@
}

/// The handshake document for a configuration; `None` where one of its strings
/// cannot be written as a JSON literal.
pub open spec fn handshake_text(cfg: StartCfgView) -> Option<Seq<char>> {
    match json_string_literal(cfg.task) {
        Some(task) => match cfg.language {
            Some(l) => match json_string_literal(l) {
                Some(language) => Some(handshake_layout(Some(language), task, cfg.beam_size)),
                None => None,
            },
            None => Some(handshake_layout(None, task, cfg.beam_size)),
        },
        None => None,
    }
}

/// Assembles the handshake document from JSON literals.
///
/// `language` and `task` are the JSON string literals of the configuration's
/// strings; a missing language is written as `null`.
pub fn handshake_from_parts(language: Option<&str>, task: &str, beam_size: u32) -> (r: String)
    ensures
        r@ == handshake_layout(
            match language {
                Some(l) => Some(l@),
                None => None,
            },
            task@,
            beam_size,
        ),
{
    let mut out = String::from_str("{\"language\":");
    match language {
        Some(l) => out.append(l),
        None => out.append("null"),
    }
    out.append(",\"task\":");
    out.append(task);
    out.append(",\"beam_size\":");
    let digits = decimal_string(beam_size);
    out.append(digits.as_str());
    out.append("}");
    out
}

/// Writes the handshake document for `cfg`.
///
/// Fails with `SessionError::Serialization` exactly where one of the
/// configuration's strings cannot be written as a JSON literal.
pub fn encode_handshake(cfg: &StartCfg) -> (r: Result<String, SessionError>)
    ensures
        match r {
            Ok(text) => handshake_text(cfg@) == Some(text@),
            Err(e) => e == SessionError::Serialization && handshake_text(cfg@) is None,
        },
{
    let task = match encode_string(cfg.task.as_str()) {
        Ok(task) => task,
        Err(_) => {
            return Err(SessionError::Serialization);
        },
    };
    match &cfg.language {
        Some(l) => match encode_string(l.as_str()) {
            Ok(language) => Ok(
                handshake_from_parts(Some(language.as_str()), task.as_str(), cfg.beam_size),
            ),
            Err(_) => Err(SessionError::Serialization),
        },
        None => Ok(handshake_from_parts(None, task.as_str(), cfg.beam_size)),
    }
}

/// The text of the stop message.
pub open spec fn stop_text() -> Seq<char> {
    "{\"type\":\"stop\"}"@
}

/// Writes the stop message.
pub fn encode_stop() -> (r: String)
    ensures
        r@ == stop_text(),
{
    String::from_str("{\"type\":\"stop\"}")
}

/// A sample as an unsigned 16-bit number in two's complement.
pub open spec fn sample_bits(sample: i16) -> int {
    if sample < 0 {
        sample + 65536
    } else {
        sample as int
    }
}

/// The little-endian bytes of a sequence of samples: two per sample, the low
/// byte first, in the order of the samples.
pub open spec fn pcm16_le(samples: Seq<i16>) -> Seq<u8> {
    Seq::new(
        2 * samples.len(),
        |i: int|
            if i % 2 == 0 {
                (sample_bits(samples[i / 2]) % 256) as u8
            } else {
                (sample_bits(samples[i / 2]) / 256) as u8
            },
    )
}

/// Serializes one audio chunk as little-endian bytes.
pub fn pcm16_le_bytes(samples: &[i16]) -> (r: Vec<u8>)
    ensures
        r@ == pcm16_le(samples@),
{
    let mut out: Vec<u8> = Vec::new();
    let mut i: usize = 0;
    while i < samples.len()
        invariant
            i <= samples.len(),
            out@.len() == 2 * i,
            forall|k: int| 0 <= k < out@.len() ==> out@[k] == pcm16_le(samples@)[k],
        decreases samples.len() - i,
    {
        let sample: i32 = samples[i] as i32;
        let bits: i32 = if sample < 0 {
            sample + 65536
        } else {
            sample
        };
        let low: u8 = (bits % 256) as u8;
        let high: u8 = (bits / 256) as u8;
        out.push(low);
        out.push(high);
        i += 1;
    }
    assert(out@ =~= pcm16_le(samples@));
    out
}

} // verus!
