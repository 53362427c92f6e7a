//! U2F over HID: how a message travels in fixed-size reports.
//!
//! A message is cut into reports of 64 bytes. The first, the initialization
//! report, holds the channel in four big-endian bytes, the command with its
//! high bit set, the message's length in two big-endian bytes, and the first
//! 57 bytes of the message. Each continuation report holds the channel, a
//! sequence number that counts from zero, and the next 59 bytes. The last
//! report is filled up with zeros. The length announced in the first report
//! tells the reader when the message is complete.

use vstd::prelude::*;
use crate::bytes::{
    append_be_u32,
    append_range,
    be_u32,
    be_value,
    copy_range,
    lemma_be_u32_value,
    lemma_be_value_bound,
    read_be,
};
use crate::error::Error;

verus! {

/// Length of every report.
pub const REPORT_LEN: usize = 64;

/// Message bytes that the initialization report carries.
pub const INIT_DATA_LEN: usize = 57;

/// Message bytes that a continuation report carries.
pub const CONT_DATA_LEN: usize = 59;

/// The most continuation reports that can follow an initialization report.
pub const MAX_CONTINUATIONS: usize = 128;

/// The longest message that fits in one initialization report and all its continuations.
pub const MAX_MESSAGE_LEN: usize = 7609;

/// The lowest command byte: the high bit marks an initialization report.
pub const INIT_FLAG: u8 = 0x80;

/// Command that carries an APDU frame.
pub const CMD_MSG: u8 = 0x83;

/// Command that asks the token for a channel.
pub const CMD_INIT: u8 = 0x86;

/// The channel on which a channel is asked for.
pub const BROADCAST_CHANNEL: u32 = 0xFFFF_FFFF;

/// Length of the nonce that a channel request carries.
pub const NONCE_LEN: usize = 8;

/// Length of the answer to a channel request.
pub const INIT_RESPONSE_LEN: usize = 17;

/// HID usage page of FIDO devices.
pub const FIDO_USAGE_PAGE: u16 = 0xF1D0;

/// HID usage of a U2F token within the FIDO usage page.
pub const U2F_USAGE: u16 = 0x01;

/// Whether a HID device with this usage page and usage is a U2F token.
pub fn is_u2f_token(usage_page: u16, usage: u16) -> (b: bool)
    ensures
        b == (usage_page == FIDO_USAGE_PAGE && usage == U2F_USAGE),
{
    usage_page == FIDO_USAGE_PAGE && usage == U2F_USAGE
}

/// The number of reports that carry a message of `len` bytes.
pub open spec fn report_count(len: nat) -> nat {
    if len <= INIT_DATA_LEN {
        1
    } else {
        (1 + (len - INIT_DATA_LEN + CONT_DATA_LEN - 1) / (CONT_DATA_LEN as int)) as nat
    }
}

/// Where in the message the data of the report with this index begins.
pub open spec fn chunk_start(index: nat) -> nat {
    if index == 0 {
        0
    } else {
        (INIT_DATA_LEN + (index - 1) * CONT_DATA_LEN) as nat
    }
}

/// The `width` bytes of `message` from `start`, with zeros past its end.
pub open spec fn padded(message: Seq<u8>, start: nat, width: nat) -> Seq<u8> {
    Seq::new(
        width,
        |i: int|
            if start + i < message.len() {
                message[start + i]
            } else {
                0u8
            },
    )
}

/// The report with this index among those that carry `message`.
pub open spec fn report(channel: u32, command: u8, message: Seq<u8>, index: nat) -> Seq<u8> {
    if index == 0 {
        be_u32(channel) + seq![
            command,
            (message.len() / 256) as u8,
            (message.len() % 256) as u8,
        ] + padded(message, 0, INIT_DATA_LEN as nat)
    } else {
        be_u32(channel) + seq![(index - 1) as u8] + padded(
            message,
            chunk_start(index),
            CONT_DATA_LEN as nat,
        )
    }
}

/// The reports that carry `message`, in order.
pub open spec fn reports(channel: u32, command: u8, message: Seq<u8>) -> Seq<Seq<u8>> {
    Seq::new(report_count(message.len()), |i: int| report(channel, command, message, i as nat))
}

/// Computes the number of reports that carry a message of `len` bytes.
pub(crate) fn count_reports(len: usize) -> (count: usize)
    requires
        len <= MAX_MESSAGE_LEN,
    ensures
        count == report_count(len as nat),
        1 <= count <= MAX_CONTINUATIONS + 1,
{
    if len <= INIT_DATA_LEN {
        1
    } else {
        1 + (len - INIT_DATA_LEN + CONT_DATA_LEN - 1) / CONT_DATA_LEN
    }
}

/// Appends the `width` bytes of `message` from `start`, with zeros past its end.
fn append_padded(buffer: &mut Vec<u8>, message: &[u8], start: usize, width: usize)
    requires
        start + width <= usize::MAX,
    ensures
        final(buffer)@ == old(buffer)@ + padded(message@, start as nat, width as nat),
{
    let mut i: usize = 0;
    while i < width
        invariant
            i <= width,
            start + width <= usize::MAX,
            buffer@ == old(buffer)@ + padded(message@, start as nat, i as nat),
        decreases width - i,
    {
        let byte: u8 = if start + i < message.len() {
            message[start + i]
        } else {
            0u8
        };
        buffer.push(byte);
        i += 1;
        assert(buffer@ == old(buffer)@ + padded(message@, start as nat, i as nat));
    }
}

/// Builds the report with this index among those that carry `message`.
pub(crate) fn build_report(channel: u32, command: u8, message: &[u8], index: usize) -> (bytes: Vec<u8>)
    requires
        message@.len() <= MAX_MESSAGE_LEN,
        index < report_count(message@.len()),
    ensures
        bytes@ == report(channel, command, message@, index as nat),
        bytes@.len() == REPORT_LEN,
{
    let len: usize = message.len();
    let mut bytes: Vec<u8> = Vec::new();
    append_be_u32(&mut bytes, channel);
    if index == 0 {
        bytes.push(command);
        bytes.push((len / 256) as u8);
        bytes.push((len % 256) as u8);
        append_padded(&mut bytes, message, 0, INIT_DATA_LEN);
    } else {
        bytes.push((index - 1) as u8);
        append_padded(
            &mut bytes,
            message,
            INIT_DATA_LEN + (index - 1) * CONT_DATA_LEN,
            CONT_DATA_LEN,
        );
    }
    bytes
}

/// Cuts a message into the reports that carry it.
///
/// There are reports exactly for a command with its high bit set and a
/// message of at most `MAX_MESSAGE_LEN` bytes.
pub fn frame_message(channel: u32, command: u8, message: &[u8]) -> (framed: Option<Vec<Vec<u8>>>)
    ensures
        framed is Some <==> command >= INIT_FLAG && message@.len() <= MAX_MESSAGE_LEN,
        framed is Some ==> framed->Some_0@.len() == report_count(message@.len()),
        framed is Some ==> forall|i: int|
            0 <= i < framed->Some_0@.len() ==> (#[trigger] framed->Some_0@[i])@ == reports(
                channel,
                command,
                message@,
            )[i],
{
    if command < INIT_FLAG || message.len() > MAX_MESSAGE_LEN {
        return None;
    }
    let count: usize = count_reports(message.len());
    let mut framed: Vec<Vec<u8>> = Vec::new();
    let mut index: usize = 0;
    while index < count
        invariant
            index <= count,
            count == report_count(message@.len()),
            message@.len() <= MAX_MESSAGE_LEN,
            framed@.len() == index,
            forall|i: int|
                0 <= i < index ==> (#[trigger] framed@[i])@ == report(
                    channel,
                    command,
                    message@,
                    i as nat,
                ),
        decreases count - index,
    {
        let bytes: Vec<u8> = build_report(channel, command, message, index);
        framed.push(bytes);
        index += 1;
    }
    Some(framed)
}

/// What a reader has gathered of one message.
pub struct AssemblyData {
    /// The channel that the reader listens on.
    pub channel: u32,
    /// Whether the initialization report has arrived.
    pub started: bool,
    /// The command of the message.
    pub command: u8,
    /// The length that the initialization report announced.
    pub total: nat,
    /// The message bytes gathered so far.
    pub data: Seq<u8>,
    /// The number of continuation reports taken in.
    pub sequence: nat,
}

/// The lesser of two numbers.
pub open spec fn least(a: int, b: int) -> int {
    if a <= b {
        a
    } else {
        b
    }
}

impl AssemblyData {
    /// A reader on `channel` that has seen nothing yet.
    pub open spec fn fresh(channel: u32) -> AssemblyData {
        AssemblyData {
            channel,
            started: false,
            command: 0,
            total: 0,
            data: Seq::empty(),
            sequence: 0,
        }
    }

    /// The data gathered is what the reports taken in can have carried.
    pub open spec fn well_formed(self) -> bool {
        if self.started {
            &&& self.total <= MAX_MESSAGE_LEN
            &&& self.sequence <= MAX_CONTINUATIONS
            &&& self.data.len() == least(
                self.total as int,
                INIT_DATA_LEN + CONT_DATA_LEN * self.sequence,
            )
        } else {
            self == Self::fresh(self.channel)
        }
    }

    /// All of the announced length has arrived.
    pub open spec fn complete(self) -> bool {
        self.started && self.data.len() == self.total
    }
}

/// The channel that a report names.
pub open spec fn report_channel(report: Seq<u8>) -> nat {
    be_value(report.subrange(0, 4))
}

/// The message length that an initialization report announces.
pub open spec fn announced_len(report: Seq<u8>) -> nat {
    (report[5] * 256 + report[6]) as nat
}

/// What a reader holds after it was handed one more report.
///
/// A report of the wrong length is malformed. A report for another channel
/// changes nothing. The first report taken in must be an initialization
/// report that announces a possible length; each later one must be the
/// continuation with the next sequence number, and none may come once the
/// message is complete.
pub open spec fn pushed(state: AssemblyData, report: Seq<u8>) -> Result<AssemblyData, Error> {
    if report.len() != REPORT_LEN {
        Err(Error::MalformedResponse)
    } else if report_channel(report) != state.channel {
        Ok(state)
    } else if !state.started {
        if report[4] < INIT_FLAG || announced_len(report) > MAX_MESSAGE_LEN {
            Err(Error::MalformedResponse)
        } else {
            Ok(
                AssemblyData {
                    channel: state.channel,
                    started: true,
                    command: report[4],
                    total: announced_len(report),
                    data: report.subrange(
                        7,
                        7 + least(announced_len(report) as int, INIT_DATA_LEN as int),
                    ),
                    sequence: 0,
                },
            )
        }
    } else if state.data.len() >= state.total || report[4] != state.sequence {
        Err(Error::MalformedResponse)
    } else {
        Ok(
            AssemblyData {
                data: state.data + report.subrange(
                    5,
                    5 + least(state.total - state.data.len(), CONT_DATA_LEN as int),
                ),
                sequence: state.sequence + 1,
                ..state
            },
        )
    }
}

/// What a reader holds after it was handed `reports` in order.
pub open spec fn assembled(state: AssemblyData, reports: Seq<Seq<u8>>) -> Result<
    AssemblyData,
    Error,
>
    decreases reports.len(),
{
    if reports.len() == 0 {
        Ok(state)
    } else {
        match assembled(state, reports.drop_last()) {
            Ok(earlier) => pushed(earlier, reports.last()),
            Err(error) => Err(error),
        }
    }
}

/// Gathers the reports of one message on one channel.
pub struct Assembler {
    channel: u32,
    started: bool,
    command: u8,
    total: usize,
    data: Vec<u8>,
    sequence: usize,
}

impl View for Assembler {
    type V = AssemblyData;

    closed spec fn view(&self) -> AssemblyData {
        AssemblyData {
            channel: self.channel,
            started: self.started,
            command: self.command,
            total: self.total as nat,
            data: self.data@,
            sequence: self.sequence as nat,
        }
    }
}

impl Assembler {
    #[verifier::type_invariant]
    spec fn inv(self) -> bool {
        self@.well_formed()
    }

    /// A reader on `channel` that has seen nothing yet.
    pub fn new(channel: u32) -> (assembler: Assembler)
        ensures
            assembler@ == AssemblyData::fresh(channel),
    {
        Assembler { channel, started: false, command: 0, total: 0, data: Vec::new(), sequence: 0 }
    }

    /// Whether all of the announced length has arrived.
    pub fn is_complete(&self) -> (b: bool)
        ensures
            b == self@.complete(),
    {
        self.started && self.data.len() == self.total
    }

    /// Takes in one more report.
    pub fn push(self, report: &[u8]) -> (r: Result<Assembler, Error>)
        ensures
            self@.well_formed(),
            match pushed(self@, report@) {
                Ok(state) => r is Ok && r->Ok_0@ == state && state.well_formed(),
                Err(error) => r is Err && r->Err_0 == error,
            },
    {
        proof {
            use_type_invariant(&self);
        }
        if report.len() != REPORT_LEN {
            return Err(Error::MalformedResponse);
        }
        if read_be(report, 0, 4) != self.channel {
            return Ok(self);
        }
        if !self.started {
            let announced: usize = report[5] as usize * 256 + report[6] as usize;
            if report[4] < INIT_FLAG || announced > MAX_MESSAGE_LEN {
                return Err(Error::MalformedResponse);
            }
            let carried: usize = if announced < INIT_DATA_LEN {
                announced
            } else {
                INIT_DATA_LEN
            };
            Ok(
                Assembler {
                    channel: self.channel,
                    started: true,
                    command: report[4],
                    total: announced,
                    data: copy_range(report, 7, 7 + carried),
                    sequence: 0,
                },
            )
        } else {
            if self.data.len() >= self.total || report[4] as usize != self.sequence {
                return Err(Error::MalformedResponse);
            }
            let missing: usize = self.total - self.data.len();
            let carried: usize = if missing < CONT_DATA_LEN {
                missing
            } else {
                CONT_DATA_LEN
            };
            let Assembler { channel, started, command, total, data, sequence } = self;
            let mut data: Vec<u8> = data;
            append_range(&mut data, report, 5, 5 + carried);
            Ok(Assembler { channel, started, command, total, data, sequence: sequence + 1 })
        }
    }

    /// Hands out the command and the message once it is complete.
    pub fn into_message(self) -> (r: Option<(u8, Vec<u8>)>)
        ensures
            self@.complete() <==> r is Some,
            r is Some ==> r->Some_0.0 == self@.command && r->Some_0.1@ == self@.data,
    {
        if self.started && self.data.len() == self.total {
            Some((self.command, self.data))
        } else {
            None
        }
    }
}

/// Builds the one report that asks a token for a channel.
///
/// There is a report exactly for a nonce of `NONCE_LEN` bytes.
pub fn init_request(nonce: &[u8]) -> (bytes: Option<Vec<u8>>)
    ensures
        bytes is Some <==> nonce@.len() == NONCE_LEN,
        bytes is Some ==> bytes->Some_0@ == report(BROADCAST_CHANNEL, CMD_INIT, nonce@, 0),
{
    if nonce.len() != NONCE_LEN {
        return None;
    }
    Some(build_report(BROADCAST_CHANNEL, CMD_INIT, nonce, 0))
}

/// The channel that the answer to a channel request grants.
///
/// The answer repeats the nonce of the request and names the channel in the
/// four bytes that follow it. An answer that is too short, or that repeats
/// another nonce, grants nothing.
pub open spec fn granted_channel(message: Seq<u8>, nonce: Seq<u8>) -> Option<u32> {
    if nonce.len() == NONCE_LEN && message.len() >= INIT_RESPONSE_LEN && message.subrange(
        0,
        NONCE_LEN as int,
    ) == nonce {
        Some(be_value(message.subrange(NONCE_LEN as int, NONCE_LEN + 4)) as u32)
    } else {
        None
    }
}

/// Reads the channel out of the answer to a channel request.
pub fn parse_init_response(message: &[u8], nonce: &[u8]) -> (channel: Option<u32>)
    ensures
        channel == granted_channel(message@, nonce@),
{
    if nonce.len() != NONCE_LEN || message.len() < INIT_RESPONSE_LEN {
        return None;
    }
    let mut i: usize = 0;
    while i < NONCE_LEN
        invariant
            i <= NONCE_LEN,
            nonce@.len() == NONCE_LEN,
            message@.len() >= INIT_RESPONSE_LEN,
            message@.subrange(0, i as int) == nonce@.subrange(0, i as int),
        decreases NONCE_LEN - i,
    {
        if message[i] != nonce[i] {
            assert(message@.subrange(0, NONCE_LEN as int)[i as int] != nonce@[i as int]);
            return None;
        }
        assert(message@.subrange(0, i + 1) == message@.subrange(0, i as int).push(
            message@[i as int],
        ));
        assert(nonce@.subrange(0, i + 1) == nonce@.subrange(0, i as int).push(nonce@[i as int]));
        i += 1;
    }
    assert(nonce@.subrange(0, NONCE_LEN as int) == nonce@);
    Some(read_be(message, NONCE_LEN, NONCE_LEN + 4))
}

/// After the first `count` reports of a message, a fresh reader holds the
/// bytes that they carry.
proof fn lemma_prefix_assembles(channel: u32, command: u8, message: Seq<u8>, count: nat)
    requires
        message.len() <= MAX_MESSAGE_LEN,
        command >= INIT_FLAG,
        1 <= count <= report_count(message.len()),
    ensures
        assembled(
            AssemblyData::fresh(channel),
            reports(channel, command, message).take(count as int),
        ) == Ok::<AssemblyData, Error>(
            AssemblyData {
                channel,
                started: true,
                command,
                total: message.len(),
                data: message.take(
                    least(message.len() as int, INIT_DATA_LEN + CONT_DATA_LEN * (count - 1)),
                ),
                sequence: (count - 1) as nat,
            },
        ),
    decreases count,
{
    let all = reports(channel, command, message);
    let prefix = all.take(count as int);
    let last = report(channel, command, message, (count - 1) as nat);
    assert(prefix.last() == last);
    assert(prefix.drop_last() == all.take(count - 1));
    lemma_be_u32_value(channel);
    assert(last.len() == REPORT_LEN);
    assert(last.subrange(0, 4) == be_u32(channel));
    assert(report_channel(last) == channel);
    if count == 1 {
        assert(assembled(AssemblyData::fresh(channel), prefix.drop_last()) == Ok::<
            AssemblyData,
            Error,
        >(AssemblyData::fresh(channel)));
        assert(last[4] == command);
        assert(announced_len(last) == message.len());
        let carried = least(message.len() as int, INIT_DATA_LEN as int);
        assert(last.subrange(7, 7 + carried) == message.take(carried));
    } else {
        lemma_prefix_assembles(channel, command, message, (count - 1) as nat);
        let before = least(message.len() as int, INIT_DATA_LEN + CONT_DATA_LEN * (count - 2));
        assert(before == INIT_DATA_LEN + CONT_DATA_LEN * (count - 2));
        assert(before < message.len());
        assert(last[4] == count - 2);
        let carried = least(message.len() - before, CONT_DATA_LEN as int);
        assert(chunk_start((count - 1) as nat) == before);
        assert(message.take(before) + last.subrange(5, 5 + carried) == message.take(
            least(message.len() as int, INIT_DATA_LEN + CONT_DATA_LEN * (count - 1)),
        ));
    }
}

/// Reassembly undoes framing.
///
/// A fresh reader that is handed the reports of a message in order holds the
/// command and the whole message, and takes it for complete.
pub proof fn lemma_reports_reassemble(channel: u32, command: u8, message: Seq<u8>)
    requires
        message.len() <= MAX_MESSAGE_LEN,
        command >= INIT_FLAG,
    ensures
        assembled(AssemblyData::fresh(channel), reports(channel, command, message)) is Ok,
        assembled(AssemblyData::fresh(channel), reports(channel, command, message))->Ok_0.complete(),
        assembled(AssemblyData::fresh(channel), reports(channel, command, message))->Ok_0.command
            == command,
        assembled(AssemblyData::fresh(channel), reports(channel, command, message))->Ok_0.data
            == message,
{
    let all = reports(channel, command, message);
    let count = report_count(message.len());
    lemma_prefix_assembles(channel, command, message, count);
    assert(all.take(count as int) == all);
    assert(message.take(message.len() as int) == message);
}

} // verus!
