//! Classification of raw payloads.

use std::string::FromUtf8Error;
use vstd::prelude::*;
use vstd::utf8::{
    decode_utf8, decode_utf8_encode_utf8, encode_utf8, encode_utf8_decode_utf8, pop_first_scalar,
    valid_utf8,
};

verus! {

/// A payload after classification.
#[derive(Debug, PartialEq, Eq)]
pub enum Event {
    /// The payload was exactly the bytes `ping`.
    Ping(Vec<u8>),
    /// Any other payload that is valid UTF-8, as text.
    Custom(String),
    /// A payload that is neither.
    Unknown(Vec<u8>),
}

/// What an [`Event`] holds, as mathematical sequences.
pub enum EventView {
    Ping(Seq<u8>),
    Custom(Seq<char>),
    Unknown(Seq<u8>),
}

impl View for Event {
    type V = EventView;

    open spec fn view(&self) -> EventView {
        match self {
            Event::Ping(data) => EventView::Ping(data@),
            Event::Custom(text) => EventView::Custom(text@),
            Event::Unknown(data) => EventView::Unknown(data@),
        }
    }
}

/// The four bytes `p`, `i`, `n`, `g`.
pub open spec fn ping_bytes() -> Seq<u8> {
    seq![0x70u8, 0x69u8, 0x6eu8, 0x67u8]
}

/// The event that a payload stands for. The literal match comes first, so the
/// bytes `ping` are a `Ping` although they are also valid UTF-8.
pub open spec fn classify(payload: Seq<u8>) -> EventView {
    if payload == ping_bytes() {
        EventView::Ping(payload)
    } else if valid_utf8(payload) {
        EventView::Custom(decode_utf8(payload))
    } else {
        EventView::Unknown(payload)
    }
}

/// `std::string::FromUtf8Error`, the error of `String::from_utf8`, carried as
/// an opaque value.
#[verifier::external_type_specification]
#[verifier::external_body]
pub struct ExFromUtf8Error(FromUtf8Error);

/// `String::from_utf8` succeeds exactly on well-formed UTF-8, and the string
/// it returns is made of the very bytes it was given.
pub assume_specification[ String::from_utf8 ](vec: Vec<u8>) -> (res: Result<String, FromUtf8Error>)
    ensures
        res is Ok <==> valid_utf8(vec@),
        res matches Ok(text) ==> encode_utf8(text@) == vec@,
;

fn is_ping(data: &Vec<u8>) -> (b: bool)
    ensures
        b <==> data@ == ping_bytes(),
{
    let b = data.len() == 4 && data[0] == 0x70 && data[1] == 0x69 && data[2] == 0x6e && data[3]
        == 0x67;
    assert(b ==> data@ =~= ping_bytes());
    b
}

/// Classifies one payload.
pub fn parse_event(data: Vec<u8>) -> (event: Event)
    ensures
        event@ == classify(data@),
{
    if is_ping(&data) {
        Event::Ping(data)
    } else {
        match String::from_utf8(data.clone()) {
            Ok(text) => {
                proof {
                    encode_utf8_decode_utf8(text@);
                }
                Event::Custom(text)
            },
            Err(_) => Event::Unknown(data),
        }
    }
}

/// Classification has exactly three outcomes, each with its own condition:
/// `Ping` for the literal, `Custom` with the decoded text for any other
/// well-formed UTF-8, and `Unknown` with the payload itself for the rest.
pub proof fn lemma_classify_cases(payload: Seq<u8>, text: Seq<char>)
    ensures
        classify(payload) is Ping <==> payload == ping_bytes(),
        classify(payload) == EventView::Custom(text) <==> payload != ping_bytes() && valid_utf8(
            payload,
        ) && decode_utf8(payload) == text,
        classify(payload) is Unknown <==> payload != ping_bytes() && !valid_utf8(payload),
        classify(payload) is Ping ==> classify(payload) == EventView::Ping(payload),
        classify(payload) is Unknown ==> classify(payload) == EventView::Unknown(payload),
{
}

/// The bytes `ping` are well-formed UTF-8 and spell the text `ping`.
pub proof fn lemma_ping_is_text()
    ensures
        valid_utf8(ping_bytes()),
        decode_utf8(ping_bytes()) == seq!['p', 'i', 'n', 'g'],
{
    let tail3 = seq![0x69u8, 0x6eu8, 0x67u8];
    let tail2 = seq![0x6eu8, 0x67u8];
    let tail1 = seq![0x67u8];
    assert(pop_first_scalar(ping_bytes()) == tail3);
    assert(pop_first_scalar(tail3) == tail2);
    assert(pop_first_scalar(tail2) == tail1);
    assert(pop_first_scalar(tail1) == Seq::<u8>::empty());
    assert(0x70u8 & 0x7f == 0x70u8) by (bit_vector);
    assert(0x69u8 & 0x7f == 0x69u8) by (bit_vector);
    assert(0x6eu8 & 0x7f == 0x6eu8) by (bit_vector);
    assert(0x67u8 & 0x7f == 0x67u8) by (bit_vector);
    assert(valid_utf8(Seq::<u8>::empty()));
    assert(decode_utf8(Seq::<u8>::empty()) == Seq::<char>::empty());
    assert(valid_utf8(tail1));
    assert(valid_utf8(tail2));
    assert(valid_utf8(tail3));
    assert(decode_utf8(tail1) == seq!['g']);
    assert(decode_utf8(tail2) == seq!['n', 'g']);
    assert(decode_utf8(tail3) == seq!['i', 'n', 'g']);
}

/// The literal match takes precedence over the UTF-8 check: no payload at
/// all is classified as the text `ping`.
pub proof fn lemma_ping_is_never_custom(payload: Seq<u8>)
    ensures
        classify(payload) != EventView::Custom(seq!['p', 'i', 'n', 'g']),
{
    lemma_ping_is_text();
    if valid_utf8(payload) && decode_utf8(payload) == decode_utf8(ping_bytes()) {
        decode_utf8_encode_utf8(payload);
        decode_utf8_encode_utf8(ping_bytes());
    }
}

} // verus!
