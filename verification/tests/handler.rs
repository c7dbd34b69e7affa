use tcp_relay::forwarder::{Copier, CopyAction, CopyEvent, Duplex, End, Flow};
use tcp_relay::handler::{Action, Event, Fault, Handler, Outcome, Phase};
use tcp_relay::sniffer::{PrefixBuffer, Verdict, PREFIX_CAPACITY};

const MARKER: &str = "SSH-2.0-libssh2";

fn prefix_of(bytes: &[u8]) -> PrefixBuffer {
    let mut buf = [0u8; PREFIX_CAPACITY];
    buf[..bytes.len()].copy_from_slice(bytes);
    PrefixBuffer::from_read(buf, bytes.len()).unwrap()
}

/// One end of a connection as a script: the chunks that its reads return, in
/// order, then end of stream.
struct Script {
    chunks: Vec<Vec<u8>>,
    next: usize,
}

impl Script {
    fn new(chunks: &[&[u8]]) -> Script {
        Script { chunks: chunks.iter().map(|c| c.to_vec()).collect(), next: 0 }
    }

    fn read(&mut self, limit: usize) -> Vec<u8> {
        if self.next == self.chunks.len() {
            return Vec::new();
        }
        let chunk = &mut self.chunks[self.next];
        let take = chunk.len().min(limit);
        let out: Vec<u8> = chunk.drain(..take).collect();
        if chunk.is_empty() {
            self.next += 1;
        }
        out
    }
}

/// What a handled connection left behind.
struct Trace {
    outcome: Outcome,
    to_upstream: Vec<u8>,
    to_client: Vec<u8>,
    client_shut_down: bool,
    ends: Vec<(Flow, End)>,
}

fn copy_all(source: &mut Script, sink: &mut Vec<u8>) -> End {
    let mut copier = Copier::new();
    loop {
        match copier.step(CopyEvent::Chunk(source.read(8))) {
            CopyAction::Write(bytes) => sink.extend_from_slice(&bytes),
            CopyAction::Stop(end) => return end,
        }
    }
}

/// Handles one connection whose two ends follow their scripts.
fn handle(marker: &str, client: &[&[u8]], upstream: &[&[u8]]) -> Trace {
    let mut client = Script::new(client);
    let mut upstream = Script::new(upstream);
    let mut trace = Trace {
        outcome: Outcome::Relayed,
        to_upstream: Vec::new(),
        to_client: Vec::new(),
        client_shut_down: false,
        ends: Vec::new(),
    };
    let mut handler = Handler::new(marker);
    let first = client.read(PREFIX_CAPACITY);
    let mut event = Event::PrefixRead(prefix_of(&first));
    loop {
        let action = handler.step(event).expect("every event is in turn");
        event = match action {
            Action::ShutdownClient => {
                trace.client_shut_down = true;
                break;
            },
            Action::Replay(bytes) => {
                trace.to_upstream.extend_from_slice(&bytes);
                Event::Replayed
            },
            Action::Forward => {
                let mut duplex = Duplex::new();
                let end = copy_all(&mut upstream, &mut trace.to_client);
                trace.ends.push((Flow::UpstreamToClient, end));
                assert!(!duplex.task_ended(Flow::UpstreamToClient, end));
                let end = copy_all(&mut client, &mut trace.to_upstream);
                trace.ends.push((Flow::ClientToUpstream, end));
                assert!(duplex.task_ended(Flow::ClientToUpstream, end));
                Event::Forwarded
            },
            Action::Finish => break,
            Action::Abort(fault) => panic!("no fault is scripted: {:?}", fault),
        };
    }
    match handler.phase() {
        Phase::Done(outcome) => trace.outcome = outcome,
        phase => panic!("handling stopped in {:?}", phase),
    }
    trace
}

#[test]
fn new_handler_sniffs() {
    let handler = Handler::new(MARKER);
    assert_eq!(handler.phase(), Phase::Sniffing);
    assert_eq!(handler.phase().verdict(), None);
}

#[test]
fn libssh2_client_is_dropped_and_nothing_reaches_upstream() {
    let trace = handle(MARKER, &[b"SSH-2.0-libssh2_1.9.0\r\n"], &[b"SSH-2.0-OpenSSH_8.1\r\n"]);
    assert_eq!(trace.outcome, Outcome::Rejected);
    assert!(trace.client_shut_down);
    assert_eq!(trace.to_upstream.len(), 0);
    assert_eq!(trace.to_client.len(), 0);
    assert!(trace.ends.is_empty());
}

#[test]
fn openssh_client_is_relayed_with_its_prefix() {
    let trace = handle(MARKER, &[b"SSH-2.0-OpenSSH_8.1\r\n", b"additional-data"], &[]);
    assert_eq!(trace.outcome, Outcome::Relayed);
    assert!(!trace.client_shut_down);
    assert_eq!(trace.to_upstream, b"SSH-2.0-OpenSSH_8.1\r\nadditional-data");
}

#[test]
fn upstream_is_relayed_to_the_client() {
    let trace = handle(
        MARKER,
        &[b"SSH-2.0-OpenSSH_8.1\r\n"],
        &[b"SSH-2.0-OpenSSH_9.6\r\n", b"key exchange"],
    );
    assert_eq!(trace.outcome, Outcome::Relayed);
    assert_eq!(trace.to_upstream, b"SSH-2.0-OpenSSH_8.1\r\n");
    assert_eq!(trace.to_client, b"SSH-2.0-OpenSSH_9.6\r\nkey exchange");
}

#[test]
fn long_first_chunk_is_split_by_the_sniffer_and_rejoined() {
    let hello: &[u8] = b"GET /a/rather/long/path/that/goes/on/and/on HTTP/1.1\r\nHost: example\r\n\r\n";
    let trace = handle(MARKER, &[hello], &[b"HTTP/1.1 200 OK\r\n\r\n"]);
    assert_eq!(trace.outcome, Outcome::Relayed);
    assert_eq!(trace.to_upstream, hello);
    assert_eq!(trace.to_client, b"HTTP/1.1 200 OK\r\n\r\n");
}

#[test]
fn bytes_that_are_no_text_are_relayed_unchanged() {
    let raw: Vec<u8> = (0..=255u8).rev().collect();
    let trace = handle(MARKER, &[&raw[..40], &raw[40..]], &[&raw]);
    assert_eq!(trace.outcome, Outcome::Relayed);
    assert_eq!(trace.to_upstream, raw);
    assert_eq!(trace.to_client, raw);
}

#[test]
fn client_that_closes_at_once_is_admitted_and_forwarded() {
    let trace = handle(MARKER, &[], &[b"banner"]);
    assert_eq!(trace.outcome, Outcome::Relayed);
    assert!(!trace.client_shut_down);
    assert_eq!(trace.to_upstream.len(), 0);
    assert_eq!(trace.to_client, b"banner");
    assert_eq!(
        trace.ends,
        vec![(Flow::UpstreamToClient, End::Eof), (Flow::ClientToUpstream, End::Eof)]
    );
}

#[test]
fn empty_read_replays_zero_bytes() {
    let mut handler = Handler::new(MARKER);
    assert_eq!(handler.step(Event::PrefixRead(prefix_of(b""))), Some(Action::Replay(Vec::new())));
    assert_eq!(handler.phase(), Phase::Replaying);
    assert_eq!(handler.step(Event::Replayed), Some(Action::Forward));
    assert_eq!(handler.phase(), Phase::Forwarding);
}

#[test]
fn short_prefix_is_admitted_and_replayed() {
    let mut handler = Handler::new(MARKER);
    assert_eq!(
        handler.step(Event::PrefixRead(prefix_of(b"SSH-2"))),
        Some(Action::Replay(b"SSH-2".to_vec()))
    );
    assert_eq!(handler.phase().verdict(), Some(Verdict::Admit));
}

#[test]
fn short_prefix_that_holds_a_short_marker_is_rejected() {
    let mut handler = Handler::new("SSH-2");
    assert_eq!(handler.step(Event::PrefixRead(prefix_of(b"SSH-2"))), Some(Action::ShutdownClient));
    assert_eq!(handler.phase(), Phase::Done(Outcome::Rejected));
}

#[test]
fn reject_ends_the_handling() {
    let mut handler = Handler::new(MARKER);
    assert_eq!(
        handler.step(Event::PrefixRead(prefix_of(b"SSH-2.0-libssh2_1.9.0\r\n"))),
        Some(Action::ShutdownClient)
    );
    assert_eq!(handler.phase(), Phase::Done(Outcome::Rejected));
    assert_eq!(handler.phase().verdict(), Some(Verdict::Reject));
    assert_eq!(handler.step(Event::Replayed), None);
    assert_eq!(handler.step(Event::Forwarded), None);
    assert_eq!(handler.step(Event::PrefixRead(prefix_of(b"hello"))), None);
    assert_eq!(handler.phase(), Phase::Done(Outcome::Rejected));
}

#[test]
fn admit_goes_through_replay_forward_finish() {
    let mut handler = Handler::new(MARKER);
    assert_eq!(
        handler.step(Event::PrefixRead(prefix_of(b"SSH-2.0-OpenSSH_8.1\r\n"))),
        Some(Action::Replay(b"SSH-2.0-OpenSSH_8.1\r\n".to_vec()))
    );
    assert_eq!(handler.phase(), Phase::Replaying);
    assert_eq!(handler.step(Event::Replayed), Some(Action::Forward));
    assert_eq!(handler.phase(), Phase::Forwarding);
    assert_eq!(handler.step(Event::Forwarded), Some(Action::Finish));
    assert_eq!(handler.phase(), Phase::Done(Outcome::Relayed));
    assert_eq!(handler.phase().verdict(), Some(Verdict::Admit));
}

#[test]
fn replay_holds_only_the_bytes_read() {
    let mut buf = [0x55u8; PREFIX_CAPACITY];
    buf[..4].copy_from_slice(b"ping");
    let prefix = PrefixBuffer::from_read(buf, 4).unwrap();
    let mut handler = Handler::new(MARKER);
    assert_eq!(handler.step(Event::PrefixRead(prefix)), Some(Action::Replay(b"ping".to_vec())));
}

#[test]
fn failed_sniff_read_aborts() {
    let mut handler = Handler::new(MARKER);
    assert_eq!(handler.step(Event::PrefixReadFailed), Some(Action::Abort(Fault::SniffRead)));
    assert_eq!(handler.phase(), Phase::Done(Outcome::Failed(Fault::SniffRead)));
    assert_eq!(handler.phase().verdict(), None);
    assert_eq!(handler.step(Event::PrefixRead(prefix_of(b"hello"))), None);
    assert_eq!(handler.step(Event::Replayed), None);
}

#[test]
fn failed_replay_aborts() {
    let mut handler = Handler::new(MARKER);
    handler.step(Event::PrefixRead(prefix_of(b"hello")));
    assert_eq!(handler.step(Event::ReplayFailed), Some(Action::Abort(Fault::ReplayWrite)));
    assert_eq!(handler.phase(), Phase::Done(Outcome::Failed(Fault::ReplayWrite)));
    assert_eq!(handler.phase().verdict(), Some(Verdict::Admit));
    assert_eq!(handler.step(Event::Replayed), None);
    assert_eq!(handler.step(Event::Forwarded), None);
}

#[test]
fn event_out_of_turn_changes_nothing() {
    let mut handler = Handler::new(MARKER);
    assert_eq!(handler.step(Event::Replayed), None);
    assert_eq!(handler.step(Event::ReplayFailed), None);
    assert_eq!(handler.step(Event::Forwarded), None);
    assert_eq!(handler.phase(), Phase::Sniffing);
    handler.step(Event::PrefixRead(prefix_of(b"hello")));
    assert_eq!(handler.step(Event::PrefixRead(prefix_of(b"again"))), None);
    assert_eq!(handler.step(Event::PrefixReadFailed), None);
    assert_eq!(handler.step(Event::Forwarded), None);
    assert_eq!(handler.phase(), Phase::Replaying);
    handler.step(Event::Replayed);
    assert_eq!(handler.step(Event::Replayed), None);
    assert_eq!(handler.step(Event::ReplayFailed), None);
    assert_eq!(handler.step(Event::PrefixRead(prefix_of(b"again"))), None);
    assert_eq!(handler.phase(), Phase::Forwarding);
    handler.step(Event::Forwarded);
    assert_eq!(handler.step(Event::Forwarded), None);
    assert_eq!(handler.phase(), Phase::Done(Outcome::Relayed));
}

#[test]
fn verdict_stays_once_reached() {
    let mut handler = Handler::new(MARKER);
    handler.step(Event::PrefixRead(prefix_of(b"hello")));
    let verdict = handler.phase().verdict();
    assert_eq!(verdict, Some(Verdict::Admit));
    for event in [
        Event::PrefixRead(prefix_of(b"SSH-2.0-libssh2")),
        Event::Replayed,
        Event::PrefixRead(prefix_of(b"SSH-2.0-libssh2")),
        Event::Forwarded,
        Event::PrefixReadFailed,
        Event::ReplayFailed,
    ] {
        handler.step(event);
        assert_eq!(handler.phase().verdict(), verdict);
    }
}

#[test]
fn phase_verdicts() {
    assert_eq!(Phase::Sniffing.verdict(), None);
    assert_eq!(Phase::Replaying.verdict(), Some(Verdict::Admit));
    assert_eq!(Phase::Forwarding.verdict(), Some(Verdict::Admit));
    assert_eq!(Phase::Done(Outcome::Rejected).verdict(), Some(Verdict::Reject));
    assert_eq!(Phase::Done(Outcome::Relayed).verdict(), Some(Verdict::Admit));
    assert_eq!(Phase::Done(Outcome::Failed(Fault::SniffRead)).verdict(), None);
    assert_eq!(Phase::Done(Outcome::Failed(Fault::ReplayWrite)).verdict(), Some(Verdict::Admit));
}

#[test]
fn half_closed_client_keeps_the_pair_until_upstream_ends() {
    let mut handler = Handler::new(MARKER);
    handler.step(Event::PrefixRead(prefix_of(b"SSH-2.0-OpenSSH_8.1\r\n")));
    assert_eq!(handler.step(Event::Replayed), Some(Action::Forward));

    let mut duplex = Duplex::new();
    let mut to_upstream = Copier::new();
    let mut to_client = Copier::new();
    let mut client_got = Vec::new();

    assert_eq!(to_upstream.step(CopyEvent::Chunk(Vec::new())), CopyAction::Stop(End::Eof));
    assert!(!duplex.task_ended(Flow::ClientToUpstream, End::Eof));
    assert_eq!(handler.phase(), Phase::Forwarding);

    for chunk in [&b"still "[..], &b"sending"[..]] {
        match to_client.step(CopyEvent::Chunk(chunk.to_vec())) {
            CopyAction::Write(bytes) => client_got.extend_from_slice(&bytes),
            CopyAction::Stop(end) => panic!("stopped with the client half-closed: {:?}", end),
        }
        assert!(!duplex.is_done());
    }
    assert_eq!(client_got, b"still sending");

    assert_eq!(to_client.step(CopyEvent::Chunk(Vec::new())), CopyAction::Stop(End::Eof));
    assert!(duplex.task_ended(Flow::UpstreamToClient, End::Eof));
    assert_eq!(handler.step(Event::Forwarded), Some(Action::Finish));
    assert_eq!(handler.phase(), Phase::Done(Outcome::Relayed));
}

#[test]
fn failure_in_one_direction_does_not_stop_the_other() {
    let mut duplex = Duplex::new();
    let mut to_upstream = Copier::new();
    let mut to_client = Copier::new();
    to_upstream.step(CopyEvent::Chunk(b"lost".to_vec()));
    assert_eq!(to_upstream.step(CopyEvent::WriteFailed), CopyAction::Stop(End::WriteFailed));
    assert!(!duplex.task_ended(Flow::ClientToUpstream, End::WriteFailed));
    assert_eq!(to_client.ended(), None);
    assert_eq!(
        to_client.step(CopyEvent::Chunk(b"still here".to_vec())),
        CopyAction::Write(b"still here".to_vec())
    );
    assert_eq!(to_client.step(CopyEvent::ReadFailed), CopyAction::Stop(End::ReadFailed));
    assert!(duplex.task_ended(Flow::UpstreamToClient, End::ReadFailed));
}
