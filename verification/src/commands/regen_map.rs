//! The `regen-map` command: regenerate the map, seeded or random.

use vstd::prelude::*;

use crate::cli::OutputFormat;
use crate::dispatch::{is_blank, LocalError};
use crate::envelope::{out_json, success_text, Envelope, EnvelopeV};
use crate::json::{enc_int, enc_json, fields_view, lemma_fields_view, Json, JsonV};
use crate::ws::{ClientError, ClientErrorV};

verus! {

/// The human-readable line of a map regeneration.
pub open spec fn regen_map_text(seed: Option<i32>) -> Seq<u8> {
    match seed {
        Some(s) => seq![0x52u8, 0x65u8, 0x67u8, 0x65u8, 0x6eu8, 0x65u8, 0x72u8, 0x61u8, 0x74u8, 0x69u8, 0x6eu8, 0x67u8, 0x20u8, 0x6du8, 0x61u8, 0x70u8, 0x20u8, 0x77u8, 0x69u8, 0x74u8, 0x68u8, 0x20u8, 0x73u8, 0x65u8, 0x65u8, 0x64u8, 0x3au8, 0x20u8] + enc_int(s as int),
        None => seq![0x52u8, 0x65u8, 0x67u8, 0x65u8, 0x6eu8, 0x65u8, 0x72u8, 0x61u8, 0x74u8, 0x69u8, 0x6eu8, 0x67u8, 0x20u8, 0x6du8, 0x61u8, 0x70u8, 0x20u8, 0x77u8, 0x69u8, 0x74u8, 0x68u8, 0x20u8, 0x72u8, 0x61u8, 0x6eu8, 0x64u8, 0x6fu8, 0x6du8, 0x20u8, 0x73u8, 0x65u8, 0x65u8, 0x64u8],
    }
}

/// The result record of a map regeneration: command `regen-map`, the
/// seed as its one argument when given (else an empty argument
/// object), status `success`.
pub open spec fn regen_map_envelope(seed: Option<i32>) -> EnvelopeV {
    EnvelopeV {
        cmd: crate::dispatch::txt_regen_map(),
        args: Some(
            match seed {
                Some(s) => JsonV::Obj(
                    seq![(crate::dispatch::key_seed(), JsonV::Int(s as int))],
                ),
                None => JsonV::Obj(Seq::empty()),
            },
        ),
        status: Some(success_text()),
        message: None,
    }
}

pub open spec fn regen_map_output(seed: Option<i32>, fmt: OutputFormat) -> Seq<u8> {
    match fmt {
        OutputFormat::Text => regen_map_text(seed),
        OutputFormat::Json => enc_json(out_json(regen_map_envelope(seed))),
    }
}

/// Regenerate the map, with the given seed or a random one. Reports
/// the command in the chosen format.
pub fn execute(seed: Option<i32>, output: &OutputFormat) -> (r: Result<Vec<u8>, ClientError>)
    ensures
        r is Ok,
        r->Ok_0@ == regen_map_output(seed, *output),
{
    match output {
        OutputFormat::Json => {
            let args: Json = match seed {
                Some(s) => {
                    let mut ks: Vec<u8> = Vec::new();
                    ks.push(0x73);
                    ks.push(0x65);
                    ks.push(0x65);
                    ks.push(0x64);
                    proof {
                        assert(ks@ =~= crate::dispatch::key_seed());
                    }
                    let mut fields: Vec<(Vec<u8>, Json)> = Vec::new();
                    fields.push((ks, Json::Int(s as i64)));
                    proof {
                        lemma_fields_view(fields@);
                        assert(fields_view(fields@) =~= (regen_map_envelope(
                            seed,
                        ).args->Some_0->Obj_0));
                    }
                    Json::Obj(fields)
                },
                None => {
                    let fields: Vec<(Vec<u8>, Json)> = Vec::new();
                    proof {
                        assert(fields_view(fields@) =~= Seq::<(Seq<u8>, JsonV)>::empty());
                    }
                    Json::Obj(fields)
                },
            };
            let mut cmd: Vec<u8> = Vec::new();
            cmd.push(0x72);
            cmd.push(0x65);
            cmd.push(0x67);
            cmd.push(0x65);
            cmd.push(0x6e);
            cmd.push(0x2d);
            cmd.push(0x6d);
            cmd.push(0x61);
            cmd.push(0x70);
            proof {
                assert(cmd@ =~= crate::dispatch::txt_regen_map());
            }
            let e = Envelope::success(cmd, Some(args));
            proof {
                assert(e@ == regen_map_envelope(seed));
            }
            Ok(e.to_json())
        },
        OutputFormat::Text => {
            match seed {
                Some(s) => {
                    let mut out: Vec<u8> = Vec::new();
                    out.push(0x52);
                    out.push(0x65);
                    out.push(0x67);
                    out.push(0x65);
                    out.push(0x6e);
                    out.push(0x65);
                    out.push(0x72);
                    out.push(0x61);
                    out.push(0x74);
                    out.push(0x69);
                    out.push(0x6e);
                    out.push(0x67);
                    out.push(0x20);
                    out.push(0x6d);
                    out.push(0x61);
                    out.push(0x70);
                    out.push(0x20);
                    out.push(0x77);
                    out.push(0x69);
                    out.push(0x74);
                    out.push(0x68);
                    out.push(0x20);
                    out.push(0x73);
                    out.push(0x65);
                    out.push(0x65);
                    out.push(0x64);
                    out.push(0x3a);
                    out.push(0x20);
                    crate::json::write_i64(s as i64, &mut out);
                    proof {
                        assert(out@ =~= regen_map_text(seed));
                    }
                    Ok(out)
                },
                None => {
                    let mut out: Vec<u8> = Vec::new();
                    out.push(0x52);
                    out.push(0x65);
                    out.push(0x67);
                    out.push(0x65);
                    out.push(0x6e);
                    out.push(0x65);
                    out.push(0x72);
                    out.push(0x61);
                    out.push(0x74);
                    out.push(0x69);
                    out.push(0x6e);
                    out.push(0x67);
                    out.push(0x20);
                    out.push(0x6d);
                    out.push(0x61);
                    out.push(0x70);
                    out.push(0x20);
                    out.push(0x77);
                    out.push(0x69);
                    out.push(0x74);
                    out.push(0x68);
                    out.push(0x20);
                    out.push(0x72);
                    out.push(0x61);
                    out.push(0x6e);
                    out.push(0x64);
                    out.push(0x6f);
                    out.push(0x6d);
                    out.push(0x20);
                    out.push(0x73);
                    out.push(0x65);
                    out.push(0x65);
                    out.push(0x64);
                    proof {
                        assert(out@ =~= regen_map_text(seed));
                    }
                    Ok(out)
                },
            }
        },
    }
}

} // verus!
