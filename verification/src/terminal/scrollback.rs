//! The earlier output of a terminal, which a client that connects is sent first.
use vstd::prelude::*;
use vstd::utf8::encode_utf8;
use crate::paths::{join, joined, lemma_joined_injective};
use crate::terminal::socket::{
    bytes_of,
    ends,
    law_all_output_is_sent,
    produced,
    sent,
    SocketEventView,
};
use crate::terminal::types::MAX_SCROLLBACK_BYTES;
use crate::text::numerals::{
    decimal,
    decimal_bytes,
    decimal_string,
    lemma_decimal_bytes,
    lemma_decimal_utf8,
};
use crate::text::scan::tail;
use crate::text::unicode::lemma_encode_concat;

verus! {

/// The name of the file in which the output of a terminal is kept.
pub open spec fn scrollback_name(pid: u32) -> Seq<char> {
    "axs_scrollback_"@ + decimal(pid as nat) + ".bin"@
}

/// Where the output of a terminal is kept.
pub struct Scrollback {
    path: Vec<u8>,
}

impl View for Scrollback {
    type V = Seq<u8>;

    closed spec fn view(&self) -> Seq<u8> {
        self.path@
    }
}

impl Scrollback {
    /// The file for the terminal of a process, in the directory for temporary files.
    pub fn new(temp_dir: &[u8], pid: u32) -> (scrollback: Self)
        ensures
            scrollback@ == joined(temp_dir@, encode_utf8(scrollback_name(pid))),
    {
        let name = String::from_str("axs_scrollback_").concat(
            decimal_string(pid as u64).as_str(),
        ).concat(".bin");
        Scrollback { path: join(temp_dir, name.as_str().as_bytes()) }
    }

    /// The path of the file.
    pub fn path(&self) -> (path: &[u8])
        ensures
            path@ == self@,
    {
        self.path.as_slice()
    }
}

/// How far into a file of the given size its last `max_bytes` bytes begin.
pub open spec fn tail_offset(file_size: int, max_bytes: int) -> int {
    if file_size <= max_bytes {
        0
    } else {
        file_size - max_bytes
    }
}

/// From where a file of the given size is read so that its last `max_bytes` bytes come out, or
/// nothing where there is nothing to read.
pub fn tail_start(file_size: u64, max_bytes: usize) -> (start: Option<u64>)
    ensures
        file_size == 0 ==> start is None,
        file_size > 0 ==> start == Some(tail_offset(file_size as int, max_bytes as int) as u64),
{
    if file_size == 0 {
        None
    } else if file_size <= max_bytes as u64 {
        Some(0)
    } else {
        Some(file_size - max_bytes as u64)
    }
}

/// Reading a file from there on gives its last bytes, and no more of them than were asked for.
pub proof fn law_tail_is_read(contents: Seq<u8>, max_bytes: nat)
    ensures
        contents.skip(tail_offset(contents.len() as int, max_bytes as int)) == tail(
            contents,
            max_bytes,
        ),
        tail(contents, max_bytes).len() <= max_bytes,
{
    assert(contents.skip(0) =~= contents);
}

/// Two terminals do not share a file.
pub proof fn law_terminals_have_their_own_files(temp_dir: Seq<u8>, first: u32, second: u32)
    requires
        first != second,
    ensures
        joined(temp_dir, encode_utf8(scrollback_name(first))) != joined(
            temp_dir,
            encode_utf8(scrollback_name(second)),
        ),
{
    let a = encode_utf8(scrollback_name(first));
    let b = encode_utf8(scrollback_name(second));
    let front = encode_utf8("axs_scrollback_"@);
    lemma_name_bytes(first);
    lemma_name_bytes(second);
    if joined(temp_dir, a) == joined(temp_dir, b) {
        lemma_joined_injective(temp_dir, a, b);
        assert(a.len() == b.len());
        let n = decimal_bytes(first as nat).len() as int;
        assert(a.skip(front.len() as int).take(n) =~= decimal_bytes(first as nat));
        assert(b.skip(front.len() as int).take(n) =~= decimal_bytes(second as nat));
        lemma_decimal_bytes(first as nat);
        lemma_decimal_bytes(second as nat);
    }
}

proof fn lemma_name_bytes(pid: u32)
    ensures
        encode_utf8(scrollback_name(pid)) == encode_utf8("axs_scrollback_"@) + decimal_bytes(
            pid as nat,
        ) + encode_utf8(".bin"@),
        encode_utf8("axs_scrollback_"@).len() > 0,
        encode_utf8(scrollback_name(pid))[0] != 47,
{
    reveal_strlit("axs_scrollback_");
    lemma_encode_concat("axs_scrollback_"@ + decimal(pid as nat), ".bin"@);
    lemma_encode_concat("axs_scrollback_"@, decimal(pid as nat));
    lemma_decimal_utf8(pid as nat);
    vstd::utf8::is_ascii_chars_encode_utf8("axs_scrollback_"@);
}

/// What a terminal has written so far, and whether a client gets it as it comes.
pub ghost struct Record {
    pub history: Seq<u8>,
    pub live: bool,
}

/// What happens to the output of a terminal.
pub ghost enum RecordEvent {
    /// The terminal wrote something: it is kept and, where a client is live, sent.
    Wrote(Seq<u8>),
    /// A client came: it is sent what was kept last, and is live from then on.
    Came,
    /// The client left.
    Left,
}

/// One event: the record after it, and what the client is sent.
pub open spec fn record_step(record: Record, event: RecordEvent) -> (Record, Seq<u8>) {
    match event {
        RecordEvent::Wrote(data) => (
            Record { history: record.history + data, live: record.live },
            if record.live {
                data
            } else {
                Seq::empty()
            },
        ),
        RecordEvent::Came => (
            Record { history: record.history, live: true },
            tail(record.history, MAX_SCROLLBACK_BYTES as nat),
        ),
        RecordEvent::Left => (Record { history: record.history, live: false }, Seq::empty()),
    }
}

/// Whether the output of a terminal goes to a client as it comes.
pub struct LiveOutput {
    forwarding: bool,
}

impl LiveOutput {
    /// Whether a client is live.
    pub closed spec fn live(&self) -> bool {
        self.forwarding
    }

    /// The record of a terminal that has written `history`.
    pub open spec fn record(&self, history: Seq<u8>) -> Record {
        Record { history, live: self.live() }
    }

    /// No client is there.
    pub fn new() -> (output: Self)
        ensures
            !output.live(),
    {
        LiveOutput { forwarding: false }
    }

    /// Takes a chunk that the terminal wrote and gives what the client is sent of it. The chunk
    /// is kept behind what was written before; that and the sending are one step, which no other
    /// step of this terminal comes between.
    pub fn chunk_written(&self, data: &[u8]) -> (send: Option<Vec<u8>>)
        ensures
            send is Some <==> self.live(),
            send matches Some(bytes) ==> bytes@ == data@,
            forall|history: Seq<u8>|
                #[trigger] record_step(self.record(history), RecordEvent::Wrote(data@)) == (
                    self.record(history + data@),
                    bytes_of(send),
                ),
    {
        if self.forwarding {
            let mut bytes: Vec<u8> = Vec::new();
            bytes.extend_from_slice(data);
            assert(bytes@ =~= data@);
            Some(bytes)
        } else {
            None
        }
    }

    /// Takes a client that came and gives what it is sent first, if anything. `read` is the end of
    /// what was kept, read from where `tail_start` says, and nothing where that failed. The
    /// reading and this are one step, which no other step of this terminal comes between.
    pub fn client_came(&mut self, read: Option<Vec<u8>>) -> (first: Option<Vec<u8>>)
        ensures
            final(self).live(),
            first matches Some(bytes) ==> bytes@.len() > 0,
            bytes_of(first) == bytes_of(read),
            read matches Some(bytes) ==> forall|history: Seq<u8>|
                bytes@ == history.skip(
                    tail_offset(history.len() as int, MAX_SCROLLBACK_BYTES as int),
                ) ==> #[trigger] record_step(old(self).record(history), RecordEvent::Came) == (
                    final(self).record(history),
                    bytes_of(first),
                ),
    {
        self.forwarding = true;
        let ghost first_bytes = bytes_of(read);
        proof {
            assert forall|history: Seq<u8>|
                first_bytes == history.skip(
                    tail_offset(history.len() as int, MAX_SCROLLBACK_BYTES as int),
                ) implies first_bytes == #[trigger] tail(
                history,
                MAX_SCROLLBACK_BYTES as nat,
            ) by {
                law_tail_is_read(history, MAX_SCROLLBACK_BYTES as nat);
            }
        }
        match read {
            Some(bytes) => if bytes.len() > 0 {
                Some(bytes)
            } else {
                assert(bytes@ =~= Seq::<u8>::empty());
                None
            },
            None => None,
        }
    }

    /// Takes the leaving of the client: from then on nothing is sent.
    pub fn client_left(&mut self)
        ensures
            !final(self).live(),
            forall|history: Seq<u8>|
                #[trigger] record_step(old(self).record(history), RecordEvent::Left) == (
                    final(self).record(history),
                    Seq::<u8>::empty(),
                ),
    {
        self.forwarding = false;
    }
}

/// What clients are sent over a series of events.
pub open spec fn delivered(record: Record, events: Seq<RecordEvent>) -> Seq<u8>
    decreases events.len(),
{
    if events.len() == 0 {
        Seq::empty()
    } else {
        let (after, data) = record_step(record, events[0]);
        data + delivered(after, events.skip(1))
    }
}

/// Chunks that the terminal writes one after the other.
pub open spec fn writes(chunks: Seq<Seq<u8>>) -> Seq<RecordEvent> {
    chunks.map_values(|chunk: Seq<u8>| RecordEvent::Wrote(chunk))
}

/// A client that comes is sent the last of what was written before, and then everything that is
/// written: no byte is missing between the two, and none comes twice.
pub proof fn law_replay_meets_live_output(record: Record, chunks: Seq<Seq<u8>>)
    ensures
        delivered(record, seq![RecordEvent::Came] + writes(chunks)) == tail(
            record.history,
            MAX_SCROLLBACK_BYTES as nat,
        ) + chunks.flatten(),
{
    let events = seq![RecordEvent::Came] + writes(chunks);
    assert(events.skip(1) =~= writes(chunks));
    lemma_live_output(Record { history: record.history, live: true }, chunks);
}

/// What a client sees of a terminal, first message and live ones together, is the last of what was
/// written before it came and then everything that is written, each byte once and in its order.
/// The live output may come in any chunks, with ticks and messages of the client between them.
pub proof fn law_client_sees_each_byte_once(
    record: Record,
    chunks: Seq<Seq<u8>>,
    events: Seq<SocketEventView>,
)
    requires
        events.len() > 0,
        forall|i: int| 0 <= i < events.len() - 1 ==> !ends(#[trigger] events[i]),
        events.last() is OutputEnded || events.last() is Exited,
        produced(events) == chunks.flatten(),
    ensures
        record_step(record, RecordEvent::Came).1 + sent(Seq::empty(), events) == delivered(
            record,
            seq![RecordEvent::Came] + writes(chunks),
        ),
        record_step(record, RecordEvent::Came).1 + sent(Seq::empty(), events) == tail(
            record.history,
            MAX_SCROLLBACK_BYTES as nat,
        ) + chunks.flatten(),
{
    law_all_output_is_sent(Seq::empty(), events);
    assert(Seq::<u8>::empty() + produced(events) =~= produced(events));
    law_replay_meets_live_output(record, chunks);
}

proof fn lemma_live_output(record: Record, chunks: Seq<Seq<u8>>)
    requires
        record.live,
    ensures
        delivered(record, writes(chunks)) == chunks.flatten(),
    decreases chunks.len(),
{
    if chunks.len() > 0 {
        assert(writes(chunks).skip(1) =~= writes(chunks.drop_first()));
        lemma_live_output(record_step(record, writes(chunks)[0]).0, chunks.drop_first());
    }
}

} // verus!
