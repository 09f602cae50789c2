//! The local result envelope of the one-shot commands: what each
//! command reports to the user as structured output, independent of the
//! wire protocol.

use vstd::prelude::*;

use crate::json::{enc_json, fields_view, json_view, lemma_fields_view, Json, JsonV};
use crate::protocol::{key_message, key_status};

verus! {

pub open spec fn key_cmd() -> Seq<u8> {
    seq![0x63u8, 0x6du8, 0x64u8]
}

pub open spec fn key_args() -> Seq<u8> {
    seq![0x61u8, 0x72u8, 0x67u8, 0x73u8]
}

/// The text `success`.
pub open spec fn success_text() -> Seq<u8> {
    seq![0x73u8, 0x75u8, 0x63u8, 0x63u8, 0x65u8, 0x73u8, 0x73u8]
}

/// Mathematical model of a result envelope.
pub struct EnvelopeV {
    pub cmd: Seq<u8>,
    pub args: Option<JsonV>,
    pub status: Option<Seq<u8>>,
    pub message: Option<Seq<u8>>,
}

/// A command's result record: the command name, its arguments as JSON,
/// a status, and a message. Fields that are absent are left out of the
/// JSON text.
#[derive(Debug)]
pub struct Envelope {
    pub cmd: Vec<u8>,
    pub args: Option<Json>,
    pub status: Option<Vec<u8>>,
    pub message: Option<Vec<u8>>,
}

impl View for Envelope {
    type V = EnvelopeV;

    open spec fn view(&self) -> EnvelopeV {
        EnvelopeV {
            cmd: self.cmd@,
            args: match self.args {
                Some(a) => Some(json_view(a)),
                None => None,
            },
            status: match self.status {
                Some(s) => Some(s@),
                None => None,
            },
            message: match self.message {
                Some(m) => Some(m@),
                None => None,
            },
        }
    }
}

pub open spec fn args_part(e: EnvelopeV) -> Seq<(Seq<u8>, JsonV)> {
    match e.args {
        Some(a) => seq![(key_args(), a)],
        None => Seq::empty(),
    }
}

pub open spec fn status_part(e: EnvelopeV) -> Seq<(Seq<u8>, JsonV)> {
    match e.status {
        Some(st) => seq![(key_status(), JsonV::Str(st))],
        None => Seq::empty(),
    }
}

pub open spec fn message_part(e: EnvelopeV) -> Seq<(Seq<u8>, JsonV)> {
    match e.message {
        Some(m) => seq![(key_message(), JsonV::Str(m))],
        None => Seq::empty(),
    }
}

/// The JSON object of a result envelope: `cmd`, then `args`, `status`
/// and `message` where present.
pub open spec fn out_json(e: EnvelopeV) -> JsonV {
    JsonV::Obj(
        seq![(key_cmd(), JsonV::Str(e.cmd))] + args_part(e) + status_part(e) + message_part(e),
    )
}

impl Envelope {
    /// A successful result: status `success`, no message.
    pub fn success(cmd: Vec<u8>, args: Option<Json>) -> (r: Envelope)
        ensures
            r@.cmd == cmd@,
            r@.args == (match args {
                Some(a) => Some(json_view(a)),
                None => None::<JsonV>,
            }),
            r@.status == Some(success_text()),
            r@.message is None,
    {
        let mut st: Vec<u8> = Vec::new();
        st.push(0x73);
        st.push(0x75);
        st.push(0x63);
        st.push(0x63);
        st.push(0x65);
        st.push(0x73);
        st.push(0x73);
        proof {
            assert(st@ =~= success_text());
        }
        Envelope { cmd, args, status: Some(st), message: None }
    }

    /// A failed result: status `error` and the message.
    pub fn error(cmd: Vec<u8>, message: Vec<u8>) -> (r: Envelope)
        ensures
            r@.cmd == cmd@,
            r@.args is None,
            r@.status == Some(crate::protocol::error_text()),
            r@.message == Some(message@),
    {
        let mut st: Vec<u8> = Vec::new();
        st.push(0x65);
        st.push(0x72);
        st.push(0x72);
        st.push(0x6f);
        st.push(0x72);
        proof {
            assert(st@ =~= crate::protocol::error_text());
        }
        Envelope { cmd, args: None, status: Some(st), message: Some(message) }
    }

    /// The canonical JSON text of this result, consuming it.
    pub fn to_json(self) -> (r: Vec<u8>)
        ensures
            r@ == enc_json(out_json(self@)),
    {
        let ghost ev: EnvelopeV = self@;
        let mut kcmd: Vec<u8> = Vec::new();
        kcmd.push(0x63);
        kcmd.push(0x6d);
        kcmd.push(0x64);
        proof {
            assert(kcmd@ =~= key_cmd());
        }
        let mut fields: Vec<(Vec<u8>, Json)> = Vec::new();
        fields.push((kcmd, Json::Str(self.cmd)));
        match self.args {
            Some(a) => {
                let mut kargs: Vec<u8> = Vec::new();
                kargs.push(0x61);
                kargs.push(0x72);
                kargs.push(0x67);
                kargs.push(0x73);
                proof {
                    assert(kargs@ =~= key_args());
                }
                fields.push((kargs, a));
            },
            None => {},
        }
        match self.status {
            Some(st) => {
                let mut kstatus: Vec<u8> = Vec::new();
                kstatus.push(0x73);
                kstatus.push(0x74);
                kstatus.push(0x61);
                kstatus.push(0x74);
                kstatus.push(0x75);
                kstatus.push(0x73);
                proof {
                    assert(kstatus@ =~= key_status());
                }
                fields.push((kstatus, Json::Str(st)));
            },
            None => {},
        }
        match self.message {
            Some(m) => {
                let mut kmessage: Vec<u8> = Vec::new();
                kmessage.push(0x6d);
                kmessage.push(0x65);
                kmessage.push(0x73);
                kmessage.push(0x73);
                kmessage.push(0x61);
                kmessage.push(0x67);
                kmessage.push(0x65);
                proof {
                    assert(kmessage@ =~= key_message());
                }
                fields.push((kmessage, Json::Str(m)));
            },
            None => {},
        }
        let obj = Json::Obj(fields);
        proof {
            lemma_fields_view((obj->Obj_0)@);
            assert(fields_view((obj->Obj_0)@) =~= (out_json(ev)->Obj_0));
            assert(json_view(obj) == out_json(ev));
        }
        crate::json::encode_json(&obj)
    }
}

} // verus!
