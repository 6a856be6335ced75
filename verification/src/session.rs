use vstd::prelude::*;
use std::collections::VecDeque;
use libtelnet_rs::Parser;
use crate::telnet::{
    TelnetEvent, parser_options, parser_new, parser_support, parser_support_remote,
    parser_get_option, parser_receive, parser_subnegotiation, parser_will, parser_do, escape_iac,
    spec_escape_iac,
};

verus! {

/// The BINARY telnet option.
pub const OPT_BINARY: u8 = 0;

/// The terminal-type telnet option.
pub const OPT_TTYPE: u8 = 24;

/// The End-of-Record telnet option.
pub const OPT_EOR: u8 = 25;

/// The telnet WILL command byte.
pub const CMD_WILL: u8 = 251;

/// The IAC command byte that ends a record.
pub const CMD_EOR: u8 = 239;

/// The telnet Interpret-As-Command byte.
pub const IAC: u8 = 255;

/// A failure of the session machinery itself. MCCP compression is not
/// supported and is fatal to the session.
#[derive(Clone, Copy, Debug, PartialEq, Eq, Structural)]
pub enum SessionError {
    Unsupported,
}

/// The record queue and in-progress record after one telnet event:
/// received data accumulates, IAC EOR seals the accumulator into a
/// finished record, and IAC IAC is an escaped literal 0xFF data byte.
pub open spec fn spec_step_records(q: Seq<Seq<u8>>, cur: Seq<u8>, ev: TelnetEvent) -> (
    Seq<Seq<u8>>,
    Seq<u8>,
) {
    match ev {
        TelnetEvent::DataReceive(d) => (q, cur + d@),
        TelnetEvent::Iac(c) => if c == 239 {
            (q.push(cur), Seq::empty())
        } else if c == 255 {
            (q, cur.push(255))
        } else {
            (q, cur)
        },
        _ => (q, cur),
    }
}

/// The record queue and in-progress record after a list of telnet
/// events, in order.
pub open spec fn spec_fold_records(q: Seq<Seq<u8>>, cur: Seq<u8>, evs: Seq<TelnetEvent>) -> (
    Seq<Seq<u8>>,
    Seq<u8>,
)
    decreases evs.len(),
{
    if evs.len() == 0 {
        (q, cur)
    } else {
        let stepped = spec_step_records(q, cur, evs[0]);
        spec_fold_records(stepped.0, stepped.1, evs.skip(1))
    }
}

/// One event can only leave the record queue alone or seal one more
/// record onto its back, so any queue it extends stays a prefix.
proof fn lemma_step_keeps_prefix(q0: Seq<Seq<u8>>, q1: Seq<Seq<u8>>, cur: Seq<u8>, ev: TelnetEvent)
    requires
        q0.is_prefix_of(q1),
    ensures
        q0.is_prefix_of(spec_step_records(q1, cur, ev).0),
{
    let q2 = spec_step_records(q1, cur, ev).0;
    if q2 != q1 {
        assert(q2 == q1.push(cur));
        assert(q2.subrange(0, q1.len() as int) =~= q1);
        assert(q2.subrange(0, q0.len() as int) =~= q1.subrange(0, q0.len() as int));
    }
}

/// The index of the first MCCP decompression request among the events,
/// or the event count when there is none. Events up to that point are
/// the ones the session processes before it refuses the request.
pub open spec fn spec_first_decompress(evs: Seq<TelnetEvent>) -> int
    decreases evs.len(),
{
    if evs.len() == 0 {
        0
    } else if evs[0] is Decompress {
        0
    } else {
        1 + spec_first_decompress(evs.skip(1))
    }
}

proof fn lemma_first_decompress_at(evs: Seq<TelnetEvent>, k: int)
    requires
        0 <= k <= evs.len(),
        forall|j: int| 0 <= j < k ==> !(#[trigger] evs[j] is Decompress),
        k == evs.len() || evs[k] is Decompress,
    ensures
        spec_first_decompress(evs) == k,
    decreases k,
{
    if k > 0 {
        lemma_first_decompress_at(evs.skip(1), k - 1);
    }
}

/// Folding one more event steps the fold once at the back.
proof fn lemma_fold_records_snoc(q: Seq<Seq<u8>>, cur: Seq<u8>, evs: Seq<TelnetEvent>, ev: TelnetEvent)
    ensures
        spec_fold_records(q, cur, evs.push(ev)) == spec_step_records(
            spec_fold_records(q, cur, evs).0,
            spec_fold_records(q, cur, evs).1,
            ev,
        ),
    decreases evs.len(),
{
    if evs.len() == 0 {
        assert(evs.push(ev).skip(1) =~= Seq::<TelnetEvent>::empty());
        assert(evs.push(ev)[0] == ev);
        let stepped = spec_step_records(q, cur, ev);
        assert(spec_fold_records(stepped.0, stepped.1, Seq::<TelnetEvent>::empty())
            == (stepped.0, stepped.1));
        assert(spec_fold_records(q, cur, evs) == (q, cur));
    } else {
        assert(evs.push(ev).skip(1) =~= evs.skip(1).push(ev));
        assert(evs.push(ev)[0] == evs[0]);
        let stepped = spec_step_records(q, cur, evs[0]);
        lemma_fold_records_snoc(stepped.0, stepped.1, evs.skip(1), ev);
        assert(spec_fold_records(q, cur, evs.push(ev)) == spec_fold_records(
            stepped.0,
            stepped.1,
            evs.skip(1).push(ev),
        ));
        assert(spec_fold_records(q, cur, evs) == spec_fold_records(
            stepped.0,
            stepped.1,
            evs.skip(1),
        ));
    }
}

/// The reply that a terminal-type report triggers: offer and solicit
/// EOR, then BINARY, each only where the option table still allows it.
pub open spec fn spec_ttype_reply_sends(opts: Map<int, (bool, bool, bool, bool)>) -> Seq<u8> {
    let will_eor: Seq<u8> = if opts[25].0 && !opts[25].2 {
        seq![255u8, 251u8, 25u8]
    } else {
        Seq::empty()
    };
    let do_eor: Seq<u8> = if opts[25].1 && !opts[25].3 {
        seq![255u8, 253u8, 25u8]
    } else {
        Seq::empty()
    };
    let will_bin: Seq<u8> = if opts[0].0 && !opts[0].2 {
        seq![255u8, 251u8, 0u8]
    } else {
        Seq::empty()
    };
    let do_bin: Seq<u8> = if opts[0].1 && !opts[0].3 {
        seq![255u8, 253u8, 0u8]
    } else {
        Seq::empty()
    };
    will_eor + do_eor + will_bin + do_bin
}

/// The transport-free core of a TN3270 session: the telnet parser, the
/// negotiation readiness state, and the framing of inbound records.
/// The surrounding program owns the socket; it feeds received bytes in
/// and writes the returned bytes out.
pub struct SessionCore {
    pub parser: Parser,
    pub term_type: Option<Vec<u8>>,
    pub is_eor: bool,
    pub is_bin: bool,
    pub incoming_records: VecDeque<Vec<u8>>,
    pub cur_record: Vec<u8>,
}

impl SessionCore {
    /// The queue of finished inbound records, oldest first.
    pub open spec fn spec_records(self) -> Seq<Seq<u8>> {
        self.incoming_records@.map_values(|r: Vec<u8>| r@)
    }

    /// The parser's option table.
    pub open spec fn spec_options(self) -> Map<int, (bool, bool, bool, bool)> {
        parser_options(self.parser)
    }

    /// The reported terminal type, as bytes.
    pub open spec fn spec_term_type(self) -> Option<Seq<u8>> {
        match self.term_type {
            Some(v) => Some(v@),
            None => None,
        }
    }

    /// The session never marks the option code 0xFF (the IAC value
    /// itself) locally supported: the telnet parser cannot carry a
    /// subnegotiation of that option. Established at construction and
    /// kept by every operation.
    pub open spec fn spec_wf(self) -> bool {
        !self.spec_options()[IAC as int].0
    }

    /// A fresh session core: nothing received, nothing negotiated, and
    /// the EOR, TTYPE and BINARY options marked supported.
    pub fn new() -> (s: SessionCore)
        ensures
            s.term_type is None,
            !s.is_eor,
            !s.is_bin,
            s.spec_records() == Seq::<Seq<u8>>::empty(),
            s.cur_record@ == Seq::<u8>::empty(),
            s.spec_options()[OPT_TTYPE as int] == (true, true, false, false),
            s.spec_options()[OPT_EOR as int] == (true, true, false, false),
            s.spec_options()[OPT_BINARY as int] == (true, true, false, false),
            s.spec_wf(),
    {
        let mut parser = parser_new();
        parser_support(&mut parser, OPT_EOR);
        parser_support_remote(&mut parser, OPT_TTYPE);
        parser_support(&mut parser, OPT_TTYPE);
        parser_support(&mut parser, OPT_BINARY);
        let s = SessionCore {
            parser,
            term_type: None,
            is_eor: false,
            is_bin: false,
            incoming_records: VecDeque::new(),
            cur_record: Vec::new(),
        };
        proof {
            assert(s.spec_records() =~= Seq::<Seq<u8>>::empty());
        }
        s
    }

    /// The opening negotiation: solicit the peer's terminal type and
    /// offer ours (DO TTYPE, WILL TTYPE). The returned bytes go to the
    /// transport.
    pub fn initial_negotiation(&mut self) -> (out: Vec<u8>)
        requires
            old(self).spec_options()[OPT_TTYPE as int] == (true, true, false, false),
        ensures
            out@ == seq![255u8, 253u8, 24u8, 255u8, 251u8, 24u8],
            final(self).spec_options() == old(self).spec_options().insert(
                OPT_TTYPE as int,
                (true, true, true, false),
            ),
            final(self).term_type == old(self).term_type,
            final(self).is_eor == old(self).is_eor,
            final(self).is_bin == old(self).is_bin,
            final(self).spec_records() == old(self).spec_records(),
            final(self).cur_record@ == old(self).cur_record@,
    {
        let mut out: Vec<u8> = Vec::new();
        match parser_do(&mut self.parser, OPT_TTYPE) {
            Some(mut b) => out.append(&mut b),
            None => (),
        }
        match parser_will(&mut self.parser, OPT_TTYPE) {
            Some(mut b) => out.append(&mut b),
            None => (),
        }
        proof {
            assert(out@ =~= seq![255u8, 253u8, 24u8, 255u8, 251u8, 24u8]);
        }
        out
    }

    /// Whether negotiation has finished: the peer's terminal type is
    /// known and both EOR and BINARY are agreed in both directions.
    pub fn is_ready(&self) -> (r: bool)
        ensures
            r == (self.term_type is Some && self.is_bin && self.is_eor),
    {
        self.term_type.is_some() && self.is_bin && self.is_eor
    }

    /// Drive the session state machine by one telnet event. Received
    /// data and record boundaries move the record queue by one step of
    /// the framing fold; protocol replies are appended to `send`; an
    /// MCCP decompression request is refused.
    pub fn handle_event(&mut self, ev: TelnetEvent, send: &mut Vec<u8>) -> (r: Result<
        (),
        SessionError,
    >)
        ensures
            ({
                let stepped = spec_step_records(
                    old(self).spec_records(),
                    old(self).cur_record@,
                    ev,
                );
                final(self).spec_records() == stepped.0 && final(self).cur_record@ == stepped.1
            }),
            r is Err <==> ev is Decompress,
            r is Err ==> r == Err::<(), SessionError>(SessionError::Unsupported),
            old(send)@.is_prefix_of(final(send)@),
            final(self).spec_options()[IAC as int] == old(self).spec_options()[IAC as int],
            ({
                let opts = old(self).spec_options();
                let same_term = final(self).spec_term_type() == old(self).spec_term_type();
                let same_bits = final(self).is_eor == old(self).is_eor && final(self).is_bin
                    == old(self).is_bin;
                match ev {
                    TelnetEvent::DataSend(d) => final(send)@ == old(send)@ + d@ && same_term
                        && same_bits,
                    TelnetEvent::DataReceive(_) => final(send)@ == old(send)@ && same_term
                        && same_bits,
                    TelnetEvent::Iac(_) => final(send)@ == old(send)@ && same_term && same_bits,
                    TelnetEvent::Negotiation(cmd, opt) => if cmd == 251 && opt == 24 {
                        &&& final(send)@ == old(send)@ + (if opts[24].0 && opts[24].2 {
                            seq![255u8, 250u8, 24u8, 1u8, 255u8, 240u8]
                        } else {
                            Seq::<u8>::empty()
                        })
                        &&& same_term
                        &&& same_bits
                    } else {
                        &&& final(send)@ == old(send)@
                        &&& same_term
                        &&& final(self).is_eor == (opts[25].2 && opts[25].3)
                        &&& final(self).is_bin == (opts[0].2 && opts[0].3)
                    },
                    TelnetEvent::Subnegotiation(opt, buf) => if opt == 24 && buf@.len() >= 1
                        && buf@[0] == 0 {
                        &&& final(self).spec_term_type() == Some(buf@.skip(1))
                        &&& final(send)@ == old(send)@ + spec_ttype_reply_sends(opts)
                        &&& same_bits
                    } else {
                        &&& final(send)@ == old(send)@
                        &&& same_term
                        &&& same_bits
                    },
                    TelnetEvent::Decompress(_) => final(send)@ == old(send)@ && same_term
                        && same_bits,
                }
            }),
    {
        match ev {
            TelnetEvent::DataSend(mut d) => {
                send.append(&mut d);
                Ok(())
            },
            TelnetEvent::DataReceive(mut d) => {
                self.cur_record.append(&mut d);
                proof {
                    assert(self.spec_records() =~= old(self).spec_records());
                }
                Ok(())
            },
            TelnetEvent::Iac(c) => {
                if c == CMD_EOR {
                    let mut finished: Vec<u8> = Vec::new();
                    finished.append(&mut self.cur_record);
                    self.incoming_records.push_back(finished);
                    proof {
                        assert(self.spec_records() =~= old(self).spec_records().push(
                            old(self).cur_record@,
                        ));
                    }
                } else if c == IAC {
                    self.cur_record.push(IAC);
                    proof {
                        assert(self.spec_records() =~= old(self).spec_records());
                    }
                } else {
                    proof {
                        assert(self.spec_records() =~= old(self).spec_records());
                    }
                }
                Ok(())
            },
            TelnetEvent::Negotiation(cmd, opt) => {
                if cmd == CMD_WILL && opt == OPT_TTYPE {
                    let mut request: Vec<u8> = Vec::new();
                    request.push(1);
                    proof {
                        assert(request@ =~= seq![1u8]);
                        assert(seq![1u8].skip(1) =~= Seq::<u8>::empty());
                        assert(spec_escape_iac(Seq::<u8>::empty()) == Seq::<u8>::empty());
                        assert(spec_escape_iac(seq![1u8]) == seq![seq![1u8][0]] + spec_escape_iac(
                            seq![1u8].skip(1),
                        ));
                        assert(spec_escape_iac(seq![1u8]) =~= seq![1u8]);
                    }
                    match parser_subnegotiation(&mut self.parser, OPT_TTYPE, request.as_slice()) {
                        Some(mut b) => {
                            proof {
                                assert(b@ =~= seq![255u8, 250u8, 24u8, 1u8, 255u8, 240u8]);
                            }
                            send.append(&mut b);
                        },
                        None => (),
                    }
                } else {
                    let eor = parser_get_option(&self.parser, OPT_EOR);
                    self.is_eor = eor.2 && eor.3;
                    let bin = parser_get_option(&self.parser, OPT_BINARY);
                    self.is_bin = bin.2 && bin.3;
                }
                proof {
                    assert(self.spec_records() =~= old(self).spec_records());
                }
                Ok(())
            },
            TelnetEvent::Subnegotiation(opt, buf) => {
                if opt == OPT_TTYPE && buf.len() >= 1 {
                    let kind: u8 = buf[0];
                    if kind == 0 {
                        let mut tt: Vec<u8> = Vec::new();
                        let mut k: usize = 1;
                        while k < buf.len()
                            invariant
                                1 <= k <= buf@.len(),
                                tt@ == buf@.subrange(1, k as int),
                            decreases buf@.len() - k,
                        {
                            tt.push(buf[k]);
                            proof {
                                assert(tt@ =~= buf@.subrange(1, k + 1 as int));
                            }
                            k = k + 1;
                        }
                        proof {
                            assert(tt@ =~= buf@.skip(1));
                        }
                        self.term_type = Some(tt);
                        match parser_will(&mut self.parser, OPT_EOR) {
                            Some(mut b) => send.append(&mut b),
                            None => (),
                        }
                        match parser_do(&mut self.parser, OPT_EOR) {
                            Some(mut b) => send.append(&mut b),
                            None => (),
                        }
                        match parser_will(&mut self.parser, OPT_BINARY) {
                            Some(mut b) => send.append(&mut b),
                            None => (),
                        }
                        match parser_do(&mut self.parser, OPT_BINARY) {
                            Some(mut b) => send.append(&mut b),
                            None => (),
                        }
                        proof {
                            assert(send@ =~= old(send)@ + spec_ttype_reply_sends(
                                old(self).spec_options(),
                            ));
                        }
                    }
                }
                proof {
                    assert(self.spec_records() =~= old(self).spec_records());
                }
                Ok(())
            },
            TelnetEvent::Decompress(_) => {
                proof {
                    assert(self.spec_records() =~= old(self).spec_records());
                }
                Err(SessionError::Unsupported)
            },
        }
    }

    /// Drive the state machine by a whole event list, in order. The
    /// call succeeds exactly when no event is an MCCP decompression
    /// request; the record queue and the in-progress record land where
    /// the framing fold of the events before the first such request
    /// puts them (of all the events, on success), and the bytes in
    /// `send` only grow.
    pub fn process_events(&mut self, events: Vec<TelnetEvent>, send: &mut Vec<u8>) -> (r: Result<
        (),
        SessionError,
    >)
        ensures
            r is Ok <==> (forall|i: int| 0 <= i < events@.len() ==> !(#[trigger] events@[i]
                is Decompress)),
            r is Err ==> r == Err::<(), SessionError>(SessionError::Unsupported),
            ({
                let folded = spec_fold_records(
                    old(self).spec_records(),
                    old(self).cur_record@,
                    events@.take(spec_first_decompress(events@)),
                );
                final(self).spec_records() == folded.0 && final(self).cur_record@ == folded.1
            }),
            r is Ok ==> ({
                let folded = spec_fold_records(
                    old(self).spec_records(),
                    old(self).cur_record@,
                    events@,
                );
                final(self).spec_records() == folded.0 && final(self).cur_record@ == folded.1
            }),
            old(send)@.is_prefix_of(final(send)@),
            old(self).spec_records().is_prefix_of(final(self).spec_records()),
            final(self).spec_options()[IAC as int] == old(self).spec_options()[IAC as int],
    {
        let ghost all: Seq<TelnetEvent> = events@;
        let ghost q0: Seq<Seq<u8>> = self.spec_records();
        let ghost c0: Seq<u8> = self.cur_record@;
        proof {
            assert(q0.is_prefix_of(q0)) by {
                assert(q0.subrange(0, q0.len() as int) =~= q0);
            }
        }
        let mut pending = events;
        proof {
            assert(all.skip(0) =~= all);
            assert(all.take(0) =~= Seq::<TelnetEvent>::empty());
        }
        let ghost mut done: int = 0;
        while pending.len() > 0
            invariant
                all == events@,
                0 <= done,
                q0 == old(self).spec_records(),
                c0 == old(self).cur_record@,
                done + pending@.len() == all.len(),
                pending@ == all.skip(done),
                spec_fold_records(self.spec_records(), self.cur_record@, all.skip(done))
                    == spec_fold_records(q0, c0, all),
                (self.spec_records(), self.cur_record@) == spec_fold_records(
                    q0,
                    c0,
                    all.take(done),
                ),
                forall|j: int| 0 <= j < done ==> !(#[trigger] all[j] is Decompress),
                self.spec_options()[IAC as int] == old(self).spec_options()[IAC as int],
                q0.is_prefix_of(self.spec_records()),
                old(send)@.is_prefix_of(send@),
            decreases pending@.len(),
        {
            let ev = pending.remove(0);
            proof {
                assert(ev == all.skip(done)[0]);
                assert(pending@ =~= all.skip(done).skip(1));
                assert(all.skip(done).skip(1) =~= all.skip(done + 1));
            }
            let ghost q_before: Seq<Seq<u8>> = self.spec_records();
            let ghost c_before: Seq<u8> = self.cur_record@;
            match self.handle_event(ev, send) {
                Ok(()) => (),
                Err(e) => {
                    proof {
                        lemma_step_keeps_prefix(q0, q_before, c_before, ev);
                        assert(all.skip(done)[0] == all[done]);
                        assert(all[done] is Decompress);
                        assert(spec_step_records(q_before, c_before, ev) == (q_before, c_before));
                        assert(self.spec_records() == q_before && self.cur_record@ == c_before);
                        lemma_first_decompress_at(all, done);
                        assert(all.take(done) =~= all.take(spec_first_decompress(all)));
                        assert((self.spec_records(), self.cur_record@) == spec_fold_records(
                            q0,
                            c0,
                            all.take(spec_first_decompress(all)),
                        ));
                    }
                    return Err(e);
                },
            }
            proof {
                lemma_step_keeps_prefix(q0, q_before, c_before, ev);
                lemma_fold_records_snoc(q0, c0, all.take(done), ev);
                assert(all.take(done).push(ev) =~= all.take(done + 1));
                done = done + 1;
            }
        }
        proof {
            assert(all.skip(done) =~= Seq::<TelnetEvent>::empty());
            assert(all.take(done) =~= all);
            lemma_first_decompress_at(all, done);
        }
        Ok(())
    }

    /// Feed bytes read from the transport through the telnet parser and
    /// the state machine. The returned bytes are the protocol's replies
    /// and must be written back to the transport.
    pub fn receive_bytes(&mut self, data: &[u8]) -> (r: Result<Vec<u8>, SessionError>)
        requires
            old(self).spec_wf(),
        ensures
            r is Err ==> r == Err::<Vec<u8>, SessionError>(SessionError::Unsupported),
            old(self).spec_records().is_prefix_of(final(self).spec_records()),
            final(self).spec_wf(),
    {
        let events = parser_receive(&mut self.parser, data);
        let mut send: Vec<u8> = Vec::new();
        match self.process_events(events, &mut send) {
            Ok(()) => Ok(send),
            Err(e) => Err(e),
        }
    }

    /// Whether a finished record is waiting.
    pub fn has_record(&self) -> (r: bool)
        ensures
            r == (self.spec_records().len() > 0),
    {
        self.incoming_records.len() > 0
    }

    /// Hand out the oldest finished record, if any.
    pub fn take_record(&mut self) -> (r: Option<Vec<u8>>)
        ensures
            old(self).spec_records().len() == 0 ==> r is None && final(self).spec_records()
                == old(self).spec_records(),
            old(self).spec_records().len() > 0 ==> (r matches Some(v) && v@ == old(
                self,
            ).spec_records()[0] && final(self).spec_records() == old(self).spec_records().skip(1)),
            final(self).cur_record@ == old(self).cur_record@,
            final(self).term_type == old(self).term_type,
            final(self).is_eor == old(self).is_eor,
            final(self).is_bin == old(self).is_bin,
    {
        let r = self.incoming_records.pop_front();
        proof {
            if old(self).spec_records().len() > 0 {
                assert(self.spec_records() =~= old(self).spec_records().skip(1));
            }
        }
        r
    }

    /// The telnet frame of one outbound record: the payload with every
    /// IAC byte doubled, then IAC EOR.
    pub fn frame_record(payload: &[u8]) -> (r: Vec<u8>)
        ensures
            r@ == spec_escape_iac(payload@) + seq![255u8, 239u8],
    {
        let mut out = escape_iac(payload);
        out.push(IAC);
        out.push(CMD_EOR);
        proof {
            assert(out@ =~= spec_escape_iac(payload@) + seq![255u8, 239u8]);
        }
        out
    }
}

} // verus!
