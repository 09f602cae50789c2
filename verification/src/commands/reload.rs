//! The `reload` command: reload the game configuration.

use vstd::prelude::*;

use crate::cli::OutputFormat;
use crate::dispatch::{is_blank, LocalError};
use crate::envelope::{out_json, success_text, Envelope, EnvelopeV};
use crate::json::{enc_int, enc_json, fields_view, lemma_fields_view, Json, JsonV};
use crate::ws::{ClientError, ClientErrorV};

verus! {

/// The human-readable line of a reload.
pub open spec fn reload_text() -> Seq<u8> {
    seq![0x52u8, 0x65u8, 0x6cu8, 0x6fu8, 0x61u8, 0x64u8, 0x69u8, 0x6eu8, 0x67u8, 0x20u8, 0x67u8, 0x61u8, 0x6du8, 0x65u8, 0x20u8, 0x63u8, 0x6fu8, 0x6eu8, 0x66u8, 0x69u8, 0x67u8, 0x75u8, 0x72u8, 0x61u8, 0x74u8, 0x69u8, 0x6fu8, 0x6eu8]
}

/// The result record of a reload: command `reload`, no arguments,
/// status `success`.
pub open spec fn reload_envelope() -> EnvelopeV {
    EnvelopeV {
        cmd: crate::dispatch::txt_reload(),
        args: None,
        status: Some(success_text()),
        message: None,
    }
}

pub open spec fn reload_output(fmt: OutputFormat) -> Seq<u8> {
    match fmt {
        OutputFormat::Text => reload_text(),
        OutputFormat::Json => enc_json(out_json(reload_envelope())),
    }
}

/// Reload the game configuration. Reports the command in the chosen
/// format.
pub fn execute(output: &OutputFormat) -> (r: Result<Vec<u8>, ClientError>)
    ensures
        r is Ok,
        r->Ok_0@ == reload_output(*output),
{
    match output {
        OutputFormat::Json => {
            let mut cmd: Vec<u8> = Vec::new();
            cmd.push(0x72);
            cmd.push(0x65);
            cmd.push(0x6c);
            cmd.push(0x6f);
            cmd.push(0x61);
            cmd.push(0x64);
            proof {
                assert(cmd@ =~= crate::dispatch::txt_reload());
            }
            let e = Envelope::success(cmd, None);
            proof {
                assert(e@ == reload_envelope());
            }
            Ok(e.to_json())
        },
        OutputFormat::Text => {
            let mut out: Vec<u8> = Vec::new();
            out.push(0x52);
            out.push(0x65);
            out.push(0x6c);
            out.push(0x6f);
            out.push(0x61);
            out.push(0x64);
            out.push(0x69);
            out.push(0x6e);
            out.push(0x67);
            out.push(0x20);
            out.push(0x67);
            out.push(0x61);
            out.push(0x6d);
            out.push(0x65);
            out.push(0x20);
            out.push(0x63);
            out.push(0x6f);
            out.push(0x6e);
            out.push(0x66);
            out.push(0x69);
            out.push(0x67);
            out.push(0x75);
            out.push(0x72);
            out.push(0x61);
            out.push(0x74);
            out.push(0x69);
            out.push(0x6f);
            out.push(0x6e);
            proof {
                assert(out@ =~= reload_text());
            }
            Ok(out)
        },
    }
}

} // verus!
