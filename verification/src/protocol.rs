//! The echo protocol: a client that greets with `hello\r\n` is answered
//! `hi!\r\n`; anything else is answered `who are you?\r\n`.
use vstd::prelude::*;

verus! {

/// The bytes of `hello\r\n`.
pub open spec fn greeting() -> Seq<u8> {
    seq![104u8, 101u8, 108u8, 108u8, 111u8, 13u8, 10u8]
}

/// The bytes of `hi!\r\n`.
pub open spec fn welcome_reply() -> Seq<u8> {
    seq![104u8, 105u8, 33u8, 13u8, 10u8]
}

/// The bytes of `who are you?\r\n`.
pub open spec fn stranger_reply() -> Seq<u8> {
    seq![119u8, 104u8, 111u8, 32u8, 97u8, 114u8, 101u8, 32u8, 121u8, 111u8, 117u8, 63u8, 13u8, 10u8]
}

/// What the server answers to the bytes it received.
pub open spec fn reply_to(received: Seq<u8>) -> Seq<u8> {
    if received == greeting() {
        welcome_reply()
    } else {
        stranger_reply()
    }
}

/// The three messages of the protocol, byte by byte: the greeting is the
/// ASCII text `hello` followed by CR LF, the welcome `hi!` followed by CR LF,
/// and the answer to strangers `who are you?` followed by CR LF.
pub proof fn law_protocol_messages_are_crlf_terminated_ascii()
    ensures
        greeting().len() == 7,
        greeting().take(5) == seq![104u8, 101u8, 108u8, 108u8, 111u8],
        welcome_reply().len() == 5,
        welcome_reply().take(3) == seq![104u8, 105u8, 33u8],
        stranger_reply().len() == 14,
        stranger_reply().take(12) == seq![119u8, 104u8, 111u8, 32u8, 97u8, 114u8, 101u8, 32u8, 121u8, 111u8, 117u8, 63u8],
        greeting().skip(5) == seq![13u8, 10u8],
        welcome_reply().skip(3) == seq![13u8, 10u8],
        stranger_reply().skip(12) == seq![13u8, 10u8],
{
    assert(greeting().take(5) =~= seq![104u8, 101u8, 108u8, 108u8, 111u8]);
    assert(welcome_reply().take(3) =~= seq![104u8, 105u8, 33u8]);
    assert(stranger_reply().take(12) =~= seq![119u8, 104u8, 111u8, 32u8, 97u8, 114u8, 101u8, 32u8, 121u8, 111u8, 117u8, 63u8]);
    assert(greeting().skip(5) =~= seq![13u8, 10u8]);
    assert(welcome_reply().skip(3) =~= seq![13u8, 10u8]);
    assert(stranger_reply().skip(12) =~= seq![13u8, 10u8]);
}

/// Only the greeting is welcomed: the reply is `hi!\r\n` exactly when the
/// bytes received are `hello\r\n`, and `who are you?\r\n` otherwise.
pub proof fn law_only_greeting_is_welcomed(received: Seq<u8>)
    ensures
        (reply_to(received) == welcome_reply()) <==> (received == greeting()),
        (reply_to(received) == stranger_reply()) <==> (received != greeting()),
{
    assert(welcome_reply().len() != stranger_reply().len());
}

/// Whether `received` is exactly the greeting `hello\r\n`.
pub fn is_greeting(received: &[u8]) -> (r: bool)
    ensures
        r == (received@ == greeting()),
{
    let expected: Vec<u8> = vec![104u8, 101u8, 108u8, 108u8, 111u8, 13u8, 10u8];
    if received.len() != expected.len() {
        return false;
    }
    let mut i: usize = 0;
    while i < received.len()
        invariant
            expected@ == greeting(),
            received.len() == expected.len(),
            i <= received.len(),
            forall|j: int| 0 <= j < i ==> received@[j] == expected@[j],
        decreases received.len() - i,
    {
        if received[i] != expected[i] {
            return false;
        }
        i = i + 1;
    }
    assert(received@ =~= greeting());
    true
}

/// The reply the server sends to the bytes it received.
pub fn echo_reply(received: &[u8]) -> (reply: Vec<u8>)
    ensures
        reply@ == reply_to(received@),
{
    if is_greeting(received) {
        let r: Vec<u8> = vec![104u8, 105u8, 33u8, 13u8, 10u8];
        assert(r@ =~= welcome_reply());
        r
    } else {
        let r: Vec<u8> = vec![119u8, 104u8, 111u8, 32u8, 97u8, 114u8, 101u8, 32u8, 121u8, 111u8, 117u8, 63u8, 13u8, 10u8];
        assert(r@ =~= stranger_reply());
        r
    }
}

/// Size of the buffer that one read from a connection fills, and of the
/// frame that one write sends.
pub const IO_BUFFER_LEN: usize = 1024;

/// Pause, in milliseconds, that the test client uses as its time base.
pub const TIME_BASE_MS: u64 = 10;

/// The frame that a write sends for `message`: the message, then zero
/// bytes up to `IO_BUFFER_LEN`.
pub open spec fn frame_of(message: Seq<u8>) -> Seq<u8> {
    message + Seq::new((IO_BUFFER_LEN - message.len()) as nat, |i: int| 0u8)
}

/// A frame starts with its message and is padded with zero bytes.
pub proof fn law_frame_holds_message(message: Seq<u8>)
    requires
        message.len() <= IO_BUFFER_LEN,
    ensures
        frame_of(message).len() == IO_BUFFER_LEN,
        frame_of(message).take(message.len() as int) == message,
        forall|i: int| message.len() <= i < IO_BUFFER_LEN ==> #[trigger] frame_of(message)[i] == 0u8,
{
    assert(frame_of(message).take(message.len() as int) =~= message);
}

/// Builds the fixed-size frame that is written for `message`.
pub fn write_frame(message: &[u8]) -> (frame: Vec<u8>)
    requires
        message.len() <= IO_BUFFER_LEN,
    ensures
        frame@ == frame_of(message@),
        frame@.len() == IO_BUFFER_LEN,
{
    let mut frame: Vec<u8> = Vec::new();
    let mut i: usize = 0;
    while i < IO_BUFFER_LEN
        invariant
            message.len() <= IO_BUFFER_LEN,
            i <= IO_BUFFER_LEN,
            frame@.len() == i,
            forall|j: int| 0 <= j < i ==> #[trigger] frame@[j] == frame_of(message@)[j],
        decreases IO_BUFFER_LEN - i,
    {
        if i < message.len() {
            frame.push(message[i]);
        } else {
            frame.push(0u8);
        }
        i = i + 1;
    }
    assert(frame@ =~= frame_of(message@));
    frame
}

/// The part of a read buffer that is handed to a reader whose own buffer
/// holds `wanted` bytes: the first `wanted` bytes, whatever the read
/// filled.
pub fn read_window(read_buffer: &[u8], wanted: usize) -> (window: Vec<u8>)
    requires
        wanted <= read_buffer.len(),
    ensures
        window@ == read_buffer@.take(wanted as int),
{
    let mut window: Vec<u8> = Vec::new();
    let mut i: usize = 0;
    while i < wanted
        invariant
            wanted <= read_buffer.len(),
            i <= wanted,
            window@ == read_buffer@.take(i as int),
        decreases wanted - i,
    {
        window.push(read_buffer[i]);
        i = i + 1;
        assert(window@ =~= read_buffer@.take(i as int));
    }
    window
}

/// Delay, in milliseconds, after which the test client with the given
/// index sends its message: later clients send sooner, so that replies
/// show whether the server serves connections concurrently.
pub fn connect_delay_ms(index: u64) -> (delay: u64)
    requires
        index <= 5,
    ensures
        delay == (10 - 2 * index) * TIME_BASE_MS,
{
    (10 - 2 * index) * TIME_BASE_MS
}

} // verus!
