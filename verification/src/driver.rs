//! The poll-loop protocol, with the network kept outside: each turn the
//! caller reports `report_status()` to the node, and hands the node's answer
//! back through `on_poll_response`. A no-pending-work status changes nothing
//! and the loop re-polls; any other status carries a request body, which is
//! processed and overwrites the outcome status for the next report. The loop
//! itself never ends by design.

use vstd::prelude::*;

use crate::dispatch::{process_body, sp_process_body};
use crate::roster::{Roster, StudentModel};
use crate::Outcome;

verus! {

/// The status code with which the node signals that no work is pending.
pub const NO_PENDING_WORK: u16 = 202;

/// The state the loop carries from one turn to the next: the outcome to
/// report, and the roster.
pub struct Driver {
    pub status: Outcome,
    pub roster: Roster,
}

impl Driver {
    /// A fresh loop: outcome `Accept`, empty roster.
    pub fn new() -> (d: Driver)
        ensures
            d.status == Outcome::Accept,
            d.roster@ == Seq::<StudentModel>::empty(),
    {
        Driver { status: Outcome::Accept, roster: Roster::new() }
    }

    /// The outcome to report at the top of this turn.
    pub fn report_status(&self) -> (s: Outcome)
        ensures
            s == self.status,
    {
        self.status
    }

    /// Take the node's answer to one report. On the no-pending-work status
    /// nothing is decoded or dispatched and the state is exactly as before;
    /// on any other status the body is processed as a request and its outcome
    /// becomes the next report.
    pub fn on_poll_response(&mut self, code: u16, body: &Vec<u8>)
        ensures
            code == NO_PENDING_WORK ==> *final(self) == *old(self),
            code != NO_PENDING_WORK ==> {
                &&& final(self).roster@ == sp_process_body(body@, old(self).roster@).0
                &&& final(self).status == sp_process_body(body@, old(self).roster@).1
            },
    {
        if code == NO_PENDING_WORK {
            return;
        }
        let st = process_body(body, &mut self.roster);
        self.status = st;
    }
}

/// The body of one report to the node: `{"status":"accept"}` or
/// `{"status":"reject"}`.
pub open spec fn sp_report_body(s: Outcome) -> Seq<u8> {
    if s is Accept {
        seq![0x7Bu8, 0x22, 0x73, 0x74, 0x61, 0x74, 0x75, 0x73, 0x22, 0x3A, 0x22, 0x61, 0x63, 0x63, 0x65, 0x70, 0x74, 0x22, 0x7D]
    } else {
        seq![0x7Bu8, 0x22, 0x73, 0x74, 0x61, 0x74, 0x75, 0x73, 0x22, 0x3A, 0x22, 0x72, 0x65, 0x6A, 0x65, 0x63, 0x74, 0x22, 0x7D]
    }
}

/// The body of one result notice: `{"payload":"..."}` around the hex
/// payload text.
pub open spec fn sp_notice_body(p: Seq<u8>) -> Seq<u8> {
    seq![0x7Bu8, 0x22, 0x70, 0x61, 0x79, 0x6C, 0x6F, 0x61, 0x64, 0x22, 0x3A, 0x22] + p + seq![0x22u8, 0x7D]
}

/// Write the report body for an outcome.
pub fn report_body(s: Outcome) -> (r: Vec<u8>)
    ensures
        r@ == sp_report_body(s),
{
    let mut v: Vec<u8> = Vec::new();
    match s {
        Outcome::Accept => {
                        v.push(0x7B);
                        v.push(0x22);
                        v.push(0x73);
                        v.push(0x74);
                        v.push(0x61);
                        v.push(0x74);
                        v.push(0x75);
                        v.push(0x73);
                        v.push(0x22);
                        v.push(0x3A);
                        v.push(0x22);
                        v.push(0x61);
                        v.push(0x63);
                        v.push(0x63);
                        v.push(0x65);
                        v.push(0x70);
                        v.push(0x74);
                        v.push(0x22);
                        v.push(0x7D);
        },
        Outcome::Reject => {
                        v.push(0x7B);
                        v.push(0x22);
                        v.push(0x73);
                        v.push(0x74);
                        v.push(0x61);
                        v.push(0x74);
                        v.push(0x75);
                        v.push(0x73);
                        v.push(0x22);
                        v.push(0x3A);
                        v.push(0x22);
                        v.push(0x72);
                        v.push(0x65);
                        v.push(0x6A);
                        v.push(0x65);
                        v.push(0x63);
                        v.push(0x74);
                        v.push(0x22);
                        v.push(0x7D);
        },
    }
    proof {
        assert(v@ =~= sp_report_body(s));
    }
    v
}

/// Write the notice body around a payload text.
pub fn notice_body(payload: &Vec<u8>) -> (r: Vec<u8>)
    ensures
        r@ == sp_notice_body(payload@),
{
    let mut v: Vec<u8> = Vec::new();
    v.push(0x7B);
    v.push(0x22);
    v.push(0x70);
    v.push(0x61);
    v.push(0x79);
    v.push(0x6C);
    v.push(0x6F);
    v.push(0x61);
    v.push(0x64);
    v.push(0x22);
    v.push(0x3A);
    v.push(0x22);
    let mut i: usize = 0;
    while i < payload.len()
        invariant
            i <= payload@.len(),
            v@ == seq![0x7Bu8, 0x22, 0x70, 0x61, 0x79, 0x6C, 0x6F, 0x61, 0x64, 0x22, 0x3A, 0x22] + payload@.subrange(0, i as int),
        decreases payload@.len() - i,
    {
        v.push(payload[i]);
        assert(v@ =~= seq![0x7Bu8, 0x22, 0x70, 0x61, 0x79, 0x6C, 0x6F, 0x61, 0x64, 0x22, 0x3A, 0x22] + payload@.subrange(0, i + 1 as int));
        i = i + 1;
    }
    v.push(0x22);
    v.push(0x7D);
    proof {
        assert(v@ =~= sp_notice_body(payload@));
    }
    v
}

} // verus!
