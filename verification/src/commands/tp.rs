//! The `tp` command: teleport the player.

use vstd::prelude::*;

use crate::cli::OutputFormat;
use crate::dispatch::{is_blank, LocalError};
use crate::envelope::{out_json, success_text, Envelope, EnvelopeV};
use crate::json::{enc_int, enc_json, fields_view, lemma_fields_view, Json, JsonV};
use crate::ws::{ClientError, ClientErrorV};

verus! {

/// The human-readable line of a teleport.
pub open spec fn tp_text(x: i32, y: i32) -> Seq<u8> {
    seq![0x54u8, 0x65u8, 0x6cu8, 0x65u8, 0x70u8, 0x6fu8, 0x72u8, 0x74u8, 0x69u8, 0x6eu8, 0x67u8, 0x20u8, 0x74u8, 0x6fu8, 0x20u8, 0x63u8, 0x6fu8, 0x6fu8, 0x72u8, 0x64u8, 0x69u8, 0x6eu8, 0x61u8, 0x74u8, 0x65u8, 0x73u8, 0x20u8, 0x28u8] + enc_int(x as int) + seq![0x2cu8, 0x20u8] + enc_int(y as int) + seq![0x29u8]
}

/// The result record of a teleport: command `tp`, arguments `x` and
/// `y`, status `success`.
pub open spec fn tp_envelope(x: i32, y: i32) -> EnvelopeV {
    EnvelopeV {
        cmd: crate::dispatch::txt_tp(),
        args: Some(
            JsonV::Obj(
                seq![
                    (crate::dispatch::key_x(), JsonV::Int(x as int)),
                    (crate::dispatch::key_y(), JsonV::Int(y as int)),
                ],
            ),
        ),
        status: Some(success_text()),
        message: None,
    }
}

pub open spec fn tp_output(x: i32, y: i32, fmt: OutputFormat) -> Seq<u8> {
    match fmt {
        OutputFormat::Text => tp_text(x, y),
        OutputFormat::Json => enc_json(out_json(tp_envelope(x, y))),
    }
}

/// Teleport to the given coordinates; negative coordinates are
/// permitted. Reports the command in the chosen format.
pub fn execute(x: i32, y: i32, output: &OutputFormat) -> (r: Result<Vec<u8>, ClientError>)
    ensures
        r is Ok,
        r->Ok_0@ == tp_output(x, y, *output),
{
    match output {
        OutputFormat::Json => {
            let mut kx: Vec<u8> = Vec::new();
            kx.push(0x78);
            let mut ky: Vec<u8> = Vec::new();
            ky.push(0x79);
            proof {
                assert(kx@ =~= crate::dispatch::key_x());
                assert(ky@ =~= crate::dispatch::key_y());
            }
            let mut args: Vec<(Vec<u8>, Json)> = Vec::new();
            args.push((kx, Json::Int(x as i64)));
            args.push((ky, Json::Int(y as i64)));
            proof {
                lemma_fields_view(args@);
                assert(fields_view(args@) =~= (tp_envelope(x, y).args->Some_0->Obj_0));
            }
            let mut cmd: Vec<u8> = Vec::new();
            cmd.push(0x74);
            cmd.push(0x70);
            proof {
                assert(cmd@ =~= crate::dispatch::txt_tp());
            }
            let e = Envelope::success(cmd, Some(Json::Obj(args)));
            proof {
                assert(e@ == tp_envelope(x, y));
            }
            Ok(e.to_json())
        },
        OutputFormat::Text => {
            let mut out: Vec<u8> = Vec::new();
            out.push(0x54);
            out.push(0x65);
            out.push(0x6c);
            out.push(0x65);
            out.push(0x70);
            out.push(0x6f);
            out.push(0x72);
            out.push(0x74);
            out.push(0x69);
            out.push(0x6e);
            out.push(0x67);
            out.push(0x20);
            out.push(0x74);
            out.push(0x6f);
            out.push(0x20);
            out.push(0x63);
            out.push(0x6f);
            out.push(0x6f);
            out.push(0x72);
            out.push(0x64);
            out.push(0x69);
            out.push(0x6e);
            out.push(0x61);
            out.push(0x74);
            out.push(0x65);
            out.push(0x73);
            out.push(0x20);
            out.push(0x28);
            crate::json::write_i64(x as i64, &mut out);
            out.push(0x2c);
            out.push(0x20);
            crate::json::write_i64(y as i64, &mut out);
            out.push(0x29);
            proof {
                assert(out@ =~= tp_text(x, y));
            }
            Ok(out)
        },
    }
}

} // verus!
