//! The `spawn` command: a mob at given coordinates.

use vstd::prelude::*;

use crate::cli::OutputFormat;
use crate::dispatch::{is_blank, LocalError};
use crate::envelope::{out_json, success_text, Envelope, EnvelopeV};
use crate::json::{enc_int, enc_json, fields_view, lemma_fields_view, Json, JsonV};
use crate::ws::{ClientError, ClientErrorV};

verus! {

pub open spec fn key_mob() -> Seq<u8> {
    seq![0x6du8, 0x6fu8, 0x62u8]
}

/// The human-readable line of a spawn.
pub open spec fn spawn_text(mob: Seq<u8>, x: i32, y: i32) -> Seq<u8> {
    seq![0x53u8, 0x70u8, 0x61u8, 0x77u8, 0x6eu8, 0x69u8, 0x6eu8, 0x67u8, 0x20u8, 0x6du8, 0x6fu8, 0x62u8, 0x20u8, 0x27u8] + mob + seq![0x27u8, 0x20u8, 0x61u8, 0x74u8, 0x20u8, 0x63u8, 0x6fu8, 0x6fu8, 0x72u8, 0x64u8, 0x69u8, 0x6eu8, 0x61u8, 0x74u8, 0x65u8, 0x73u8, 0x20u8, 0x28u8] + enc_int(x as int) + seq![0x2cu8, 0x20u8] + enc_int(y as int) + seq![0x29u8]
}

/// The result record of a spawn: command `spawn`, arguments `mob`, `x`
/// and `y`, status `success`.
pub open spec fn spawn_envelope(mob: Seq<u8>, x: i32, y: i32) -> EnvelopeV {
    EnvelopeV {
        cmd: crate::dispatch::txt_spawn(),
        args: Some(
            JsonV::Obj(
                seq![
                    (key_mob(), JsonV::Str(mob)),
                    (crate::dispatch::key_x(), JsonV::Int(x as int)),
                    (crate::dispatch::key_y(), JsonV::Int(y as int)),
                ],
            ),
        ),
        status: Some(success_text()),
        message: None,
    }
}

/// What a spawn reports in each output format.
pub open spec fn spawn_output(mob: Seq<u8>, x: i32, y: i32, fmt: OutputFormat) -> Seq<u8> {
    match fmt {
        OutputFormat::Text => spawn_text(mob, x, y),
        OutputFormat::Json => enc_json(out_json(spawn_envelope(mob, x, y))),
    }
}

/// Spawn a mob at the given coordinates: validate the name locally,
/// then report the command in the chosen format. A blank mob name is
/// rejected without any other effect.
pub fn execute(mob: &[u8], x: i32, y: i32, output: &OutputFormat) -> (r: Result<
    Vec<u8>,
    ClientError,
>)
    ensures
        r is Ok <==> !is_blank(mob@),
        r is Err ==> r->Err_0@ == ClientErrorV::LocalValidationError(LocalError::BlankEntity),
        r is Ok ==> r->Ok_0@ == spawn_output(mob@, x, y, *output),
{
    if crate::dispatch::is_blank_exec(mob) {
        return Err(ClientError::LocalValidationError(LocalError::BlankEntity));
    }
    match output {
        OutputFormat::Json => {
            let mut kmob: Vec<u8> = Vec::new();
            kmob.push(0x6d);
            kmob.push(0x6f);
            kmob.push(0x62);
            proof {
                assert(kmob@ =~= key_mob());
            }
            let mut kx: Vec<u8> = Vec::new();
            kx.push(0x78);
            let mut ky: Vec<u8> = Vec::new();
            ky.push(0x79);
            proof {
                assert(kx@ =~= crate::dispatch::key_x());
                assert(ky@ =~= crate::dispatch::key_y());
            }
            let mut args: Vec<(Vec<u8>, Json)> = Vec::new();
            args.push((kmob, Json::Str(crate::protocol::clone_bytes(mob))));
            args.push((kx, Json::Int(x as i64)));
            args.push((ky, Json::Int(y as i64)));
            proof {
                lemma_fields_view(args@);
                assert(fields_view(args@) =~= (spawn_envelope(mob@, x, y).args->Some_0->Obj_0));
            }
            let mut cmd: Vec<u8> = Vec::new();
            cmd.push(0x73);
            cmd.push(0x70);
            cmd.push(0x61);
            cmd.push(0x77);
            cmd.push(0x6e);
            proof {
                assert(cmd@ =~= crate::dispatch::txt_spawn());
            }
            let e = Envelope::success(cmd, Some(Json::Obj(args)));
            proof {
                assert(e@ == spawn_envelope(mob@, x, y));
            }
            Ok(e.to_json())
        },
        OutputFormat::Text => {
            let mut out: Vec<u8> = Vec::new();
            out.push(0x53);
            out.push(0x70);
            out.push(0x61);
            out.push(0x77);
            out.push(0x6e);
            out.push(0x69);
            out.push(0x6e);
            out.push(0x67);
            out.push(0x20);
            out.push(0x6d);
            out.push(0x6f);
            out.push(0x62);
            out.push(0x20);
            out.push(0x27);
            let mut mc = crate::protocol::clone_bytes(mob);
            out.append(&mut mc);
            out.push(0x27);
            out.push(0x20);
            out.push(0x61);
            out.push(0x74);
            out.push(0x20);
            out.push(0x63);
            out.push(0x6f);
            out.push(0x6f);
            out.push(0x72);
            out.push(0x64);
            out.push(0x69);
            out.push(0x6e);
            out.push(0x61);
            out.push(0x74);
            out.push(0x65);
            out.push(0x73);
            out.push(0x20);
            out.push(0x28);
            crate::json::write_i64(x as i64, &mut out);
            out.push(0x2c);
            out.push(0x20);
            crate::json::write_i64(y as i64, &mut out);
            out.push(0x29);
            proof {
                assert(out@ =~= spawn_text(mob@, x, y));
            }
            Ok(out)
        },
    }
}

} // verus!
