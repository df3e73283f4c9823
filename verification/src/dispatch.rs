//! Request classification and command dispatch: reads the envelope, decodes
//! the payload, and applies exactly one roster operation per recognized
//! command. Every failure inside one request's processing turns into a
//! `Reject` outcome; nothing here panics or aborts the loop.

use vstd::prelude::*;

use crate::hexcode::{decode_payload, sp_decode_payload};
use crate::jsonparse::{parse_json, sp_parse_json};
use crate::jsonval::{
    bytes_eq, json_get, json_get_str, json_get_num, parse_u64, sp_get, sp_get_num, sp_get_str,
    sp_num_u64, view_json, Json, JsonS,
};
use crate::roster::{roster_create, roster_delete, roster_sign, Roster, StudentModel};
use crate::Outcome;

verus! {

/// Which handling path an envelope takes.
#[derive(Clone, Copy, PartialEq, Eq, Structural, Debug)]
pub enum ReqKind {
    Advance,
    Inspect,
    Unknown,
}

/// The bytes of `"request_type"`.
pub open spec fn key_request_type() -> Seq<u8> {
    seq![0x72u8, 0x65, 0x71, 0x75, 0x65, 0x73, 0x74, 0x5F, 0x74, 0x79, 0x70, 0x65]
}

fn kv_request_type() -> (r: Vec<u8>)
    ensures
        r@ == key_request_type(),
{
    let mut v: Vec<u8> = Vec::new();
    v.push(0x72);
    v.push(0x65);
    v.push(0x71);
    v.push(0x75);
    v.push(0x65);
    v.push(0x73);
    v.push(0x74);
    v.push(0x5F);
    v.push(0x74);
    v.push(0x79);
    v.push(0x70);
    v.push(0x65);
    proof {
        assert(v@ =~= key_request_type());
    }
    v
}

/// The bytes of `"data"`.
pub open spec fn key_data() -> Seq<u8> {
    seq![0x64u8, 0x61, 0x74, 0x61]
}

fn kv_data() -> (r: Vec<u8>)
    ensures
        r@ == key_data(),
{
    let mut v: Vec<u8> = Vec::new();
    v.push(0x64);
    v.push(0x61);
    v.push(0x74);
    v.push(0x61);
    proof {
        assert(v@ =~= key_data());
    }
    v
}

/// The bytes of `"payload"`.
pub open spec fn key_payload() -> Seq<u8> {
    seq![0x70u8, 0x61, 0x79, 0x6C, 0x6F, 0x61, 0x64]
}

fn kv_payload() -> (r: Vec<u8>)
    ensures
        r@ == key_payload(),
{
    let mut v: Vec<u8> = Vec::new();
    v.push(0x70);
    v.push(0x61);
    v.push(0x79);
    v.push(0x6C);
    v.push(0x6F);
    v.push(0x61);
    v.push(0x64);
    proof {
        assert(v@ =~= key_payload());
    }
    v
}

/// The bytes of `"metadata"`.
pub open spec fn key_metadata() -> Seq<u8> {
    seq![0x6Du8, 0x65, 0x74, 0x61, 0x64, 0x61, 0x74, 0x61]
}

fn kv_metadata() -> (r: Vec<u8>)
    ensures
        r@ == key_metadata(),
{
    let mut v: Vec<u8> = Vec::new();
    v.push(0x6D);
    v.push(0x65);
    v.push(0x74);
    v.push(0x61);
    v.push(0x64);
    v.push(0x61);
    v.push(0x74);
    v.push(0x61);
    proof {
        assert(v@ =~= key_metadata());
    }
    v
}

/// The bytes of `"msg_sender"`.
pub open spec fn key_msg_sender() -> Seq<u8> {
    seq![0x6Du8, 0x73, 0x67, 0x5F, 0x73, 0x65, 0x6E, 0x64, 0x65, 0x72]
}

fn kv_msg_sender() -> (r: Vec<u8>)
    ensures
        r@ == key_msg_sender(),
{
    let mut v: Vec<u8> = Vec::new();
    v.push(0x6D);
    v.push(0x73);
    v.push(0x67);
    v.push(0x5F);
    v.push(0x73);
    v.push(0x65);
    v.push(0x6E);
    v.push(0x64);
    v.push(0x65);
    v.push(0x72);
    proof {
        assert(v@ =~= key_msg_sender());
    }
    v
}

/// The bytes of `"method"`.
pub open spec fn key_method() -> Seq<u8> {
    seq![0x6Du8, 0x65, 0x74, 0x68, 0x6F, 0x64]
}

fn kv_method() -> (r: Vec<u8>)
    ensures
        r@ == key_method(),
{
    let mut v: Vec<u8> = Vec::new();
    v.push(0x6D);
    v.push(0x65);
    v.push(0x74);
    v.push(0x68);
    v.push(0x6F);
    v.push(0x64);
    proof {
        assert(v@ =~= key_method());
    }
    v
}

/// The bytes of `"wallet_address"`.
pub open spec fn key_wallet_address() -> Seq<u8> {
    seq![0x77u8, 0x61, 0x6C, 0x6C, 0x65, 0x74, 0x5F, 0x61, 0x64, 0x64, 0x72, 0x65, 0x73, 0x73]
}

fn kv_wallet_address() -> (r: Vec<u8>)
    ensures
        r@ == key_wallet_address(),
{
    let mut v: Vec<u8> = Vec::new();
    v.push(0x77);
    v.push(0x61);
    v.push(0x6C);
    v.push(0x6C);
    v.push(0x65);
    v.push(0x74);
    v.push(0x5F);
    v.push(0x61);
    v.push(0x64);
    v.push(0x64);
    v.push(0x72);
    v.push(0x65);
    v.push(0x73);
    v.push(0x73);
    proof {
        assert(v@ =~= key_wallet_address());
    }
    v
}

/// The bytes of `"name"`.
pub open spec fn key_name() -> Seq<u8> {
    seq![0x6Eu8, 0x61, 0x6D, 0x65]
}

fn kv_name() -> (r: Vec<u8>)
    ensures
        r@ == key_name(),
{
    let mut v: Vec<u8> = Vec::new();
    v.push(0x6E);
    v.push(0x61);
    v.push(0x6D);
    v.push(0x65);
    proof {
        assert(v@ =~= key_name());
    }
    v
}

/// The bytes of `"age"`.
pub open spec fn key_age() -> Seq<u8> {
    seq![0x61u8, 0x67, 0x65]
}

fn kv_age() -> (r: Vec<u8>)
    ensures
        r@ == key_age(),
{
    let mut v: Vec<u8> = Vec::new();
    v.push(0x61);
    v.push(0x67);
    v.push(0x65);
    proof {
        assert(v@ =~= key_age());
    }
    v
}

/// The bytes of `"create"`.
pub open spec fn key_create() -> Seq<u8> {
    seq![0x63u8, 0x72, 0x65, 0x61, 0x74, 0x65]
}

fn kv_create() -> (r: Vec<u8>)
    ensures
        r@ == key_create(),
{
    let mut v: Vec<u8> = Vec::new();
    v.push(0x63);
    v.push(0x72);
    v.push(0x65);
    v.push(0x61);
    v.push(0x74);
    v.push(0x65);
    proof {
        assert(v@ =~= key_create());
    }
    v
}

/// The bytes of `"delete"`.
pub open spec fn key_delete() -> Seq<u8> {
    seq![0x64u8, 0x65, 0x6C, 0x65, 0x74, 0x65]
}

fn kv_delete() -> (r: Vec<u8>)
    ensures
        r@ == key_delete(),
{
    let mut v: Vec<u8> = Vec::new();
    v.push(0x64);
    v.push(0x65);
    v.push(0x6C);
    v.push(0x65);
    v.push(0x74);
    v.push(0x65);
    proof {
        assert(v@ =~= key_delete());
    }
    v
}

/// The bytes of `"sign_attendance"`.
pub open spec fn key_sign_attendance() -> Seq<u8> {
    seq![0x73u8, 0x69, 0x67, 0x6E, 0x5F, 0x61, 0x74, 0x74, 0x65, 0x6E, 0x64, 0x61, 0x6E, 0x63, 0x65]
}

fn kv_sign_attendance() -> (r: Vec<u8>)
    ensures
        r@ == key_sign_attendance(),
{
    let mut v: Vec<u8> = Vec::new();
    v.push(0x73);
    v.push(0x69);
    v.push(0x67);
    v.push(0x6E);
    v.push(0x5F);
    v.push(0x61);
    v.push(0x74);
    v.push(0x74);
    v.push(0x65);
    v.push(0x6E);
    v.push(0x64);
    v.push(0x61);
    v.push(0x6E);
    v.push(0x63);
    v.push(0x65);
    proof {
        assert(v@ =~= key_sign_attendance());
    }
    v
}

/// The bytes of `"advance_state"`.
pub open spec fn key_advance_state() -> Seq<u8> {
    seq![0x61u8, 0x64, 0x76, 0x61, 0x6E, 0x63, 0x65, 0x5F, 0x73, 0x74, 0x61, 0x74, 0x65]
}

fn kv_advance_state() -> (r: Vec<u8>)
    ensures
        r@ == key_advance_state(),
{
    let mut v: Vec<u8> = Vec::new();
    v.push(0x61);
    v.push(0x64);
    v.push(0x76);
    v.push(0x61);
    v.push(0x6E);
    v.push(0x63);
    v.push(0x65);
    v.push(0x5F);
    v.push(0x73);
    v.push(0x74);
    v.push(0x61);
    v.push(0x74);
    v.push(0x65);
    proof {
        assert(v@ =~= key_advance_state());
    }
    v
}

/// The bytes of `"inspect_state"`.
pub open spec fn key_inspect_state() -> Seq<u8> {
    seq![0x69u8, 0x6E, 0x73, 0x70, 0x65, 0x63, 0x74, 0x5F, 0x73, 0x74, 0x61, 0x74, 0x65]
}

fn kv_inspect_state() -> (r: Vec<u8>)
    ensures
        r@ == key_inspect_state(),
{
    let mut v: Vec<u8> = Vec::new();
    v.push(0x69);
    v.push(0x6E);
    v.push(0x73);
    v.push(0x70);
    v.push(0x65);
    v.push(0x63);
    v.push(0x74);
    v.push(0x5F);
    v.push(0x73);
    v.push(0x74);
    v.push(0x61);
    v.push(0x74);
    v.push(0x65);
    proof {
        assert(v@ =~= key_inspect_state());
    }
    v
}

/// Routing by the envelope's `request_type` field: a missing or non-string
/// field routes with the unrecognized types.
pub open spec fn sp_classify(e: JsonS) -> ReqKind {
    match sp_get_str(e, key_request_type()) {
        None => ReqKind::Unknown,
        Some(t) => if t == key_advance_state() {
            ReqKind::Advance
        } else if t == key_inspect_state() {
            ReqKind::Inspect
        } else {
            ReqKind::Unknown
        },
    }
}

/// The envelope's `data.payload` field, when it is a string.
pub open spec fn sp_envelope_payload(e: JsonS) -> Option<Seq<u8>> {
    match sp_get(e, key_data()) {
        Some(d) => sp_get_str(d, key_payload()),
        None => None,
    }
}

/// The envelope's `data.metadata.msg_sender` field, when it is a string.
pub open spec fn sp_envelope_sender(e: JsonS) -> Option<Seq<u8>> {
    match sp_get(e, key_data()) {
        Some(d) => match sp_get(d, key_metadata()) {
            Some(m) => sp_get_str(m, key_msg_sender()),
            None => None,
        },
        None => None,
    }
}

/// What one decoded command does to the roster, and the outcome it reports.
/// A non-object command is ignored and accepted; a missing or non-string
/// `method`, or a missing required field, rejects the request; an unknown
/// method is recorded as accepted without touching the roster.
pub open spec fn sp_apply_command(cmd: JsonS, sender: Seq<u8>, ms: Seq<StudentModel>) -> (
    Seq<StudentModel>,
    Outcome,
) {
    if !(cmd is Obj) {
        (ms, Outcome::Accept)
    } else {
        match sp_get_str(cmd, key_method()) {
            None => (ms, Outcome::Reject),
            Some(m) => if m == key_create() {
                match sp_get_str(cmd, key_wallet_address()) {
                    None => (ms, Outcome::Reject),
                    Some(w) => match sp_get_str(cmd, key_name()) {
                        None => (ms, Outcome::Reject),
                        Some(nm) => match sp_get_num(cmd, key_age()) {
                            None => (ms, Outcome::Reject),
                            Some(a) => match sp_num_u64(a) {
                                None => (ms, Outcome::Reject),
                                Some(v) => (
                                    roster_create(ms, nm, (v % 256) as u8, w),
                                    Outcome::Accept,
                                ),
                            },
                        },
                    },
                }
            } else if m == key_delete() {
                match sp_get_str(cmd, key_wallet_address()) {
                    None => (ms, Outcome::Reject),
                    Some(w) => (roster_delete(ms, w), Outcome::Accept),
                }
            } else if m == key_sign_attendance() {
                (roster_sign(ms, sender), Outcome::Accept)
            } else {
                (ms, Outcome::Accept)
            },
        }
    }
}

/// One advance request from envelope to roster effect and outcome.
pub open spec fn sp_handle_advance(e: JsonS, ms: Seq<StudentModel>) -> (Seq<StudentModel>, Outcome) {
    match sp_envelope_payload(e) {
        None => (ms, Outcome::Reject),
        Some(p) => match sp_envelope_sender(e) {
            None => (ms, Outcome::Reject),
            Some(snd) => match sp_decode_payload(p) {
                Err(_) => (ms, Outcome::Reject),
                Ok(text) => match sp_parse_json(text) {
                    None => (ms, Outcome::Reject),
                    Some(cmd) => sp_apply_command(cmd, snd, ms),
                },
            },
        },
    }
}

/// An inspect request only checks that the payload is present.
pub open spec fn sp_handle_inspect(e: JsonS) -> Outcome {
    match sp_envelope_payload(e) {
        Some(_) => Outcome::Accept,
        None => Outcome::Reject,
    }
}

/// One full response body: parse the envelope, classify, handle. A body that
/// is not well-formed, or an unrecognized request type, rejects.
pub open spec fn sp_process_body(body: Seq<u8>, ms: Seq<StudentModel>) -> (
    Seq<StudentModel>,
    Outcome,
) {
    match sp_parse_json(body) {
        None => (ms, Outcome::Reject),
        Some(e) => match sp_classify(e) {
            ReqKind::Advance => sp_handle_advance(e, ms),
            ReqKind::Inspect => (ms, sp_handle_inspect(e)),
            ReqKind::Unknown => (ms, Outcome::Reject),
        },
    }
}

fn copy_bytes(v: &Vec<u8>) -> (r: Vec<u8>)
    ensures
        r@ == v@,
{
    let mut out: Vec<u8> = Vec::new();
    let mut i: usize = 0;
    while i < v.len()
        invariant
            i <= v@.len(),
            out@ == v@.subrange(0, i as int),
        decreases v@.len() - i,
    {
        out.push(v[i]);
        assert(out@ =~= v@.subrange(0, i + 1 as int));
        i = i + 1;
    }
    assert(out@ =~= v@);
    out
}

/// Route an envelope by its `request_type`.
pub fn classify(req: &Json) -> (r: ReqKind)
    ensures
        r == sp_classify(view_json(*req)),
{
    let k = kv_request_type();
    match json_get_str(req, &k) {
        None => ReqKind::Unknown,
        Some(t) => {
            let adv = kv_advance_state();
            let ins = kv_inspect_state();
            if bytes_eq(t, &adv) {
                ReqKind::Advance
            } else if bytes_eq(t, &ins) {
                ReqKind::Inspect
            } else {
                ReqKind::Unknown
            }
        },
    }
}

fn env_payload<'a>(req: &'a Json) -> (r: Option<&'a Vec<u8>>)
    ensures
        match r {
            Some(v) => sp_envelope_payload(view_json(*req)) == Some(v@),
            None => sp_envelope_payload(view_json(*req)) is None,
        },
{
    let kd = kv_data();
    match json_get(req, &kd) {
        Some(d) => {
            let kp = kv_payload();
            json_get_str(d, &kp)
        },
        None => None,
    }
}

fn env_sender<'a>(req: &'a Json) -> (r: Option<&'a Vec<u8>>)
    ensures
        match r {
            Some(v) => sp_envelope_sender(view_json(*req)) == Some(v@),
            None => sp_envelope_sender(view_json(*req)) is None,
        },
{
    let kd = kv_data();
    match json_get(req, &kd) {
        Some(d) => {
            let km = kv_metadata();
            match json_get(d, &km) {
                Some(m) => {
                    let ks = kv_msg_sender();
                    json_get_str(m, &ks)
                },
                None => None,
            }
        },
        None => None,
    }
}

/// Apply one decoded command to the roster.
pub fn apply_command(cmd: &Json, sender: &Vec<u8>, roster: &mut Roster) -> (status: Outcome)
    ensures
        final(roster)@ == sp_apply_command(view_json(*cmd), sender@, old(roster)@).0,
        status == sp_apply_command(view_json(*cmd), sender@, old(roster)@).1,
{
    let is_obj = match cmd {
        Json::Obj(_) => true,
        _ => false,
    };
    if !is_obj {
        return Outcome::Accept;
    }
    let km = kv_method();
    let m = match json_get_str(cmd, &km) {
        Some(m) => m,
        None => {
            return Outcome::Reject;
        },
    };
    let k_create = kv_create();
    let k_delete = kv_delete();
    let k_sign = kv_sign_attendance();
    if bytes_eq(m, &k_create) {
        let kw = kv_wallet_address();
        let w = match json_get_str(cmd, &kw) {
            Some(w) => w,
            None => {
                return Outcome::Reject;
            },
        };
        let kn = kv_name();
        let nm = match json_get_str(cmd, &kn) {
            Some(nm) => nm,
            None => {
                return Outcome::Reject;
            },
        };
        let ka = kv_age();
        let ag = match json_get_num(cmd, &ka) {
            Some(a) => a,
            None => {
                return Outcome::Reject;
            },
        };
        let v = match parse_u64(ag) {
            Some(v) => v,
            None => {
                return Outcome::Reject;
            },
        };
        let age8 = (v % 256) as u8;
        let w2 = copy_bytes(w);
        let nm2 = copy_bytes(nm);
        roster.create(nm2, age8, w2);
        Outcome::Accept
    } else if bytes_eq(m, &k_delete) {
        let kw = kv_wallet_address();
        let w = match json_get_str(cmd, &kw) {
            Some(w) => w,
            None => {
                return Outcome::Reject;
            },
        };
        let w2 = copy_bytes(w);
        let _found = roster.delete(&w2);
        Outcome::Accept
    } else if bytes_eq(m, &k_sign) {
        let _found = roster.sign_attendance(sender);
        Outcome::Accept
    } else {
        Outcome::Accept
    }
}

/// Handle one advance-state request: extract the payload and sender, decode,
/// parse, dispatch. Any failure on the way rejects the request and leaves the
/// roster untouched.
pub fn handle_advance(req: &Json, roster: &mut Roster) -> (status: Outcome)
    ensures
        final(roster)@ == sp_handle_advance(view_json(*req), old(roster)@).0,
        status == sp_handle_advance(view_json(*req), old(roster)@).1,
{
    let p = match env_payload(req) {
        Some(p) => p,
        None => {
            return Outcome::Reject;
        },
    };
    let snd = match env_sender(req) {
        Some(s) => s,
        None => {
            return Outcome::Reject;
        },
    };
    let text = match decode_payload(p) {
        Ok(t) => t,
        Err(_) => {
            return Outcome::Reject;
        },
    };
    let cmd = match parse_json(&text) {
        Ok(c) => c,
        Err(_) => {
            return Outcome::Reject;
        },
    };
    apply_command(&cmd, snd, roster)
}

/// Handle one inspect-state request: a read-only check that the payload is
/// present.
pub fn handle_inspect(req: &Json) -> (status: Outcome)
    ensures
        status == sp_handle_inspect(view_json(*req)),
{
    match env_payload(req) {
        Some(_) => Outcome::Accept,
        None => Outcome::Reject,
    }
}

/// Process one response body from the node: parse, classify, handle.
pub fn process_body(body: &Vec<u8>, roster: &mut Roster) -> (status: Outcome)
    ensures
        final(roster)@ == sp_process_body(body@, old(roster)@).0,
        status == sp_process_body(body@, old(roster)@).1,
{
    let env = match parse_json(body) {
        Ok(e) => e,
        Err(_) => {
            return Outcome::Reject;
        },
    };
    match classify(&env) {
        ReqKind::Advance => handle_advance(&env, roster),
        ReqKind::Inspect => handle_inspect(&env),
        ReqKind::Unknown => Outcome::Reject,
    }
}

} // verus!
