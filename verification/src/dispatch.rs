//! The command dispatcher: from a user's words to a wire payload, and
//! from a reply back to what the user sees.
//!
//! A REPL line is split on whitespace; the first token selects the
//! command; missing or non-integer arguments fail locally with a usage
//! error and never reach the network. Blank entity, item and target
//! names are rejected locally too.

use vstd::prelude::*;

use crate::json::{
    enc_json, fields_view, is_ws, json_view, lemma_fields_view, Json, JsonV,
};
use crate::json_parser::{at_least, digits_end, digits_val, rem};
use crate::protocol::{auth_payload_json, bytes_eq, clone_bytes, noop_text};
use crate::ws::{ClientError, ClientErrorV};

verus! {

broadcast use vstd::std_specs::vec::group_vec_axioms;

// ---------------------------------------------------------------------
// Commands
// ---------------------------------------------------------------------

/// Mathematical model of a user command.
pub enum CommandV {
    Spawn { entity: Seq<u8>, x: i32, y: i32 },
    Teleport { x: i32, y: i32 },
    Query,
    Give { item: Seq<u8> },
    Heal { amount: i32 },
    Kill { target: Seq<u8> },
    Reload,
    RegenMap { seed: Option<i32> },
    Noop,
    Auth { token: Seq<u8> },
}

/// A user command, parsed from CLI flags or a REPL line, ready to be
/// turned into a wire payload.
#[derive(Debug)]
pub enum Command {
    Spawn { entity: Vec<u8>, x: i32, y: i32 },
    Teleport { x: i32, y: i32 },
    Query,
    Give { item: Vec<u8> },
    Heal { amount: i32 },
    Kill { target: Vec<u8> },
    Reload,
    RegenMap { seed: Option<i32> },
    Noop,
    Auth { token: Vec<u8> },
}

impl View for Command {
    type V = CommandV;

    open spec fn view(&self) -> CommandV {
        match self {
            Command::Spawn { entity, x, y } => CommandV::Spawn {
                entity: entity@,
                x: *x,
                y: *y,
            },
            Command::Teleport { x, y } => CommandV::Teleport { x: *x, y: *y },
            Command::Query => CommandV::Query,
            Command::Give { item } => CommandV::Give { item: item@ },
            Command::Heal { amount } => CommandV::Heal { amount: *amount },
            Command::Kill { target } => CommandV::Kill { target: target@ },
            Command::Reload => CommandV::Reload,
            Command::RegenMap { seed } => CommandV::RegenMap { seed: *seed },
            Command::Noop => CommandV::Noop,
            Command::Auth { token } => CommandV::Auth { token: token@ },
        }
    }
}

/// Why a line or a command was rejected locally, before any network
/// traffic: an empty line, an unknown first word, missing or
/// non-integer arguments, or a blank name.
#[derive(Clone, Copy, PartialEq, Eq, Structural, Debug)]
pub enum LocalError {
    EmptyLine,
    UnknownCommand,
    SpawnUsage,
    TpUsage,
    GiveUsage,
    HealUsage,
    RegenMapUsage,
    BlankEntity,
    BlankItem,
    BlankTarget,
}

// ---------------------------------------------------------------------
// Local validation
// ---------------------------------------------------------------------

/// A name that is empty or holds only whitespace.
pub open spec fn is_blank(s: Seq<u8>) -> bool {
    forall|k: int| 0 <= k < s.len() ==> is_ws(#[trigger] s[k])
}

/// The local validation verdict on a command: blank entity, item and
/// target names are rejected; everything else passes.
pub open spec fn spec_validate(c: CommandV) -> Result<(), LocalError> {
    match c {
        CommandV::Spawn { entity, .. } => if is_blank(entity) {
            Err(LocalError::BlankEntity)
        } else {
            Ok(())
        },
        CommandV::Give { item } => if is_blank(item) {
            Err(LocalError::BlankItem)
        } else {
            Ok(())
        },
        CommandV::Kill { target } => if is_blank(target) {
            Err(LocalError::BlankTarget)
        } else {
            Ok(())
        },
        _ => Ok(()),
    }
}

/// Whether a name is empty or whitespace-only.
pub fn is_blank_exec(s: &[u8]) -> (r: bool)
    ensures
        r == is_blank(s@),
{
    let mut i: usize = 0;
    while i < s.len()
        invariant
            i <= s@.len(),
            forall|k: int| 0 <= k < i ==> is_ws(#[trigger] s@[k]),
        decreases s@.len() - i,
    {
        let b = s[i];
        if !(b == 0x20 || b == 0x09 || b == 0x0a || b == 0x0d) {
            return false;
        }
        i = i + 1;
    }
    true
}

/// Validate a command locally, without contacting the server: rejects
/// empty or whitespace-only entity, item and target names, and nothing
/// else.
pub fn validate_command(c: &Command) -> (r: Result<(), ClientError>)
    ensures
        r is Ok <==> spec_validate(c@) is Ok,
        r is Err ==> r->Err_0@ == ClientErrorV::LocalValidationError(
            spec_validate(c@)->Err_0,
        ),
{
    match c {
        Command::Spawn { entity, .. } => {
            if is_blank_exec(entity.as_slice()) {
                Err(ClientError::LocalValidationError(LocalError::BlankEntity))
            } else {
                Ok(())
            }
        },
        Command::Give { item } => {
            if is_blank_exec(item.as_slice()) {
                Err(ClientError::LocalValidationError(LocalError::BlankItem))
            } else {
                Ok(())
            }
        },
        Command::Kill { target } => {
            if is_blank_exec(target.as_slice()) {
                Err(ClientError::LocalValidationError(LocalError::BlankTarget))
            } else {
                Ok(())
            }
        },
        _ => Ok(()),
    }
}


// ---------------------------------------------------------------------
// Tokenizing a REPL line
// ---------------------------------------------------------------------

/// The first position at or after `i` that holds whitespace or is the
/// end of the line.
pub open spec fn tok_end(s: Seq<u8>, i: int) -> int
    decreases s.len() - i,
{
    if 0 <= i < s.len() && !is_ws(s[i]) {
        tok_end(s, i + 1)
    } else {
        i
    }
}

/// The whitespace-separated tokens of `s` from position `i` on.
pub open spec fn tokens_from(s: Seq<u8>, i: int) -> Seq<Seq<u8>>
    decreases rem(s, i),
{
    if !(0 <= i < s.len()) {
        Seq::empty()
    } else if is_ws(s[i]) {
        tokens_from(s, i + 1)
    } else {
        let e = at_least(i + 1, tok_end(s, i + 1));
        let e2 = if e > s.len() {
            s.len() as int
        } else {
            e
        };
        seq![s.subrange(i, e2)] + tokens_from(s, e)
    }
}

/// The whitespace-separated tokens of a line. Every token is nonempty;
/// a line of nothing but whitespace has none.
pub open spec fn tokens_of(s: Seq<u8>) -> Seq<Seq<u8>> {
    tokens_from(s, 0)
}

/// The views of a sequence of byte vectors.
pub open spec fn views_of(s: Seq<Vec<u8>>) -> Seq<Seq<u8>> {
    Seq::new(s.len(), |q: int| s[q]@)
}

fn tok_end_exec(s: &[u8], i: usize) -> (r: usize)
    requires
        i <= s@.len(),
    ensures
        r as int == tok_end(s@, i as int),
        i <= r && r <= s@.len(),
{
    let mut r = i;
    while r < s.len() && !(s[r] == 0x20 || s[r] == 0x09 || s[r] == 0x0a || s[r] == 0x0d)
        invariant
            i <= r <= s@.len(),
            tok_end(s@, i as int) == tok_end(s@, r as int),
        decreases s@.len() - r,
    {
        r = r + 1;
    }
    r
}

/// Split a line into its whitespace-separated tokens.
pub fn tokenize(line: &[u8]) -> (r: Vec<Vec<u8>>)
    ensures
        views_of(r@) == tokens_of(line@),
        r@.len() == tokens_of(line@).len(),
        forall|q: int| 0 <= q < r@.len() ==> (#[trigger] r@[q])@ == tokens_of(line@)[q],
{
    let mut r: Vec<Vec<u8>> = Vec::new();
    let mut i: usize = 0;
    proof {
        assert(views_of(r@) =~= Seq::<Seq<u8>>::empty());
        assert(views_of(r@) + tokens_from(line@, 0) =~= tokens_of(line@));
    }
    while i < line.len()
        invariant
            i <= line@.len(),
            tokens_of(line@) == views_of(r@) + tokens_from(line@, i as int),
        decreases line@.len() - i,
    {
        let b = line[i];
        if b == 0x20 || b == 0x09 || b == 0x0a || b == 0x0d {
            i = i + 1;
        } else {
            let e = tok_end_exec(line, i + 1);
            proof {
                assert(at_least(i + 1, tok_end(line@, i + 1)) == e as int);
            }
            let tok = clone_bytes_range(line, i, e);
            let ghost old_views: Seq<Seq<u8>> = views_of(r@);
            r.push(tok);
            proof {
                assert(views_of(r@) =~= old_views.push(line@.subrange(i as int, e as int)));
                assert(tokens_from(line@, i as int) == seq![line@.subrange(i as int, e as int)]
                    + tokens_from(line@, e as int));
                assert(views_of(r@) + tokens_from(line@, e as int) =~= old_views + tokens_from(
                    line@,
                    i as int,
                ));
            }
            i = e;
        }
    }
    proof {
        assert(tokens_from(line@, i as int) =~= Seq::<Seq<u8>>::empty());
        assert(views_of(r@) + tokens_from(line@, i as int) =~= views_of(r@));
    }
    r
}

/// The bytes `s[from .. to]` as a fresh vector.
fn clone_bytes_range(s: &[u8], from: usize, to: usize) -> (r: Vec<u8>)
    requires
        from <= to <= s@.len(),
    ensures
        r@ == s@.subrange(from as int, to as int),
{
    let mut r: Vec<u8> = Vec::new();
    let mut k = from;
    while k < to
        invariant
            from <= k <= to <= s@.len(),
            r@ == s@.subrange(from as int, k as int),
        decreases to - k,
    {
        proof {
            assert(s@.subrange(from as int, k + 1) =~= s@.subrange(from as int, k as int).push(
                s@[k as int],
            ));
        }
        r.push(s[k]);
        k = k + 1;
    }
    r
}

// ---------------------------------------------------------------------
// Integer arguments
// ---------------------------------------------------------------------

/// The value a token denotes as a 32-bit integer, if any: an optional
/// sign, then one or more digits, within the `i32` range.
pub open spec fn spec_parse_i32(s: Seq<u8>) -> Option<int> {
    let neg = s.len() > 0 && s[0] == 0x2d;
    let signed = s.len() > 0 && (s[0] == 0x2d || s[0] == 0x2b);
    let d0: int = if signed {
        1
    } else {
        0
    };
    if s.len() <= d0 {
        None
    } else if digits_end(s, d0) != s.len() {
        None
    } else {
        let m = digits_val(s, d0, s.len() as int);
        let v = if neg {
            -m
        } else {
            m
        };
        if i32::MIN <= v <= i32::MAX {
            Some(v)
        } else {
            None
        }
    }
}

/// Parse a token as a 32-bit integer.
#[verifier::loop_isolation(false)]
pub fn parse_i32(s: &[u8]) -> (r: Option<i32>)
    ensures
        r is None ==> spec_parse_i32(s@) is None,
        r is Some ==> spec_parse_i32(s@) == Some(r->Some_0 as int),
{
    if s.len() == 0 {
        return None;
    }
    let neg = s[0] == 0x2d;
    let signed = neg || s[0] == 0x2b;
    let d0: usize = if signed {
        1
    } else {
        0
    };
    if s.len() <= d0 {
        return None;
    }
    let e = crate::json_parser::digits_end_exec(s, d0);
    if e != s.len() {
        return None;
    }
    let mut acc: u128 = 0;
    let mut p: usize = d0;
    while p < e
        invariant
            d0 <= p <= e,
            e as int == digits_end(s@, d0 as int),
            e == s@.len(),
            forall|q: int| d0 <= q < e ==> crate::json::is_digit(#[trigger] s@[q]),
            acc as int == digits_val(s@, d0 as int, p as int),
            acc <= 0x8000_0000u128,
        decreases e - p,
    {
        let d: u8 = s[p] - 0x30;
        let na: u128 = acc * 10 + (d as u128);
        proof {
            assert(na as int == digits_val(s@, d0 as int, p + 1));
        }
        if na > 0x8000_0000u128 {
            proof {
                crate::json_parser::lemma_digits_val_mono(s@, d0 as int, p + 1, e as int);
            }
            return None;
        }
        acc = na;
        p = p + 1;
    }
    if neg {
        if acc == 0x8000_0000u128 {
            Some(i32::MIN)
        } else {
            Some(-(acc as i32))
        }
    } else {
        if acc == 0x8000_0000u128 {
            None
        } else {
            Some(acc as i32)
        }
    }
}

// ---------------------------------------------------------------------
// REPL command words
// ---------------------------------------------------------------------

pub open spec fn txt_spawn() -> Seq<u8> {
    seq![0x73u8, 0x70u8, 0x61u8, 0x77u8, 0x6eu8]
}

pub open spec fn txt_tp() -> Seq<u8> {
    seq![0x74u8, 0x70u8]
}

pub open spec fn txt_teleport() -> Seq<u8> {
    seq![0x74u8, 0x65u8, 0x6cu8, 0x65u8, 0x70u8, 0x6fu8, 0x72u8, 0x74u8]
}

pub open spec fn txt_query() -> Seq<u8> {
    seq![0x71u8, 0x75u8, 0x65u8, 0x72u8, 0x79u8]
}

pub open spec fn txt_q() -> Seq<u8> {
    seq![0x71u8]
}

pub open spec fn txt_give() -> Seq<u8> {
    seq![0x67u8, 0x69u8, 0x76u8, 0x65u8]
}

pub open spec fn txt_heal() -> Seq<u8> {
    seq![0x68u8, 0x65u8, 0x61u8, 0x6cu8]
}

pub open spec fn txt_kill() -> Seq<u8> {
    seq![0x6bu8, 0x69u8, 0x6cu8, 0x6cu8]
}

pub open spec fn txt_reload() -> Seq<u8> {
    seq![0x72u8, 0x65u8, 0x6cu8, 0x6fu8, 0x61u8, 0x64u8]
}

pub open spec fn txt_regen_map() -> Seq<u8> {
    seq![0x72u8, 0x65u8, 0x67u8, 0x65u8, 0x6eu8, 0x2du8, 0x6du8, 0x61u8, 0x70u8]
}

pub open spec fn txt_nearest() -> Seq<u8> {
    seq![0x6eu8, 0x65u8, 0x61u8, 0x72u8, 0x65u8, 0x73u8, 0x74u8]
}

fn txt_spawn_exec() -> (r: Vec<u8>)
    ensures
        r@ == txt_spawn(),
{
    let mut r: Vec<u8> = Vec::new();
    r.push(0x73);
    r.push(0x70);
    r.push(0x61);
    r.push(0x77);
    r.push(0x6e);
    proof {
        assert(r@ =~= txt_spawn());
    }
    r
}

fn txt_tp_exec() -> (r: Vec<u8>)
    ensures
        r@ == txt_tp(),
{
    let mut r: Vec<u8> = Vec::new();
    r.push(0x74);
    r.push(0x70);
    proof {
        assert(r@ =~= txt_tp());
    }
    r
}

fn txt_teleport_exec() -> (r: Vec<u8>)
    ensures
        r@ == txt_teleport(),
{
    let mut r: Vec<u8> = Vec::new();
    r.push(0x74);
    r.push(0x65);
    r.push(0x6c);
    r.push(0x65);
    r.push(0x70);
    r.push(0x6f);
    r.push(0x72);
    r.push(0x74);
    proof {
        assert(r@ =~= txt_teleport());
    }
    r
}

fn txt_query_exec() -> (r: Vec<u8>)
    ensures
        r@ == txt_query(),
{
    let mut r: Vec<u8> = Vec::new();
    r.push(0x71);
    r.push(0x75);
    r.push(0x65);
    r.push(0x72);
    r.push(0x79);
    proof {
        assert(r@ =~= txt_query());
    }
    r
}

fn txt_q_exec() -> (r: Vec<u8>)
    ensures
        r@ == txt_q(),
{
    let mut r: Vec<u8> = Vec::new();
    r.push(0x71);
    proof {
        assert(r@ =~= txt_q());
    }
    r
}

fn txt_give_exec() -> (r: Vec<u8>)
    ensures
        r@ == txt_give(),
{
    let mut r: Vec<u8> = Vec::new();
    r.push(0x67);
    r.push(0x69);
    r.push(0x76);
    r.push(0x65);
    proof {
        assert(r@ =~= txt_give());
    }
    r
}

fn txt_heal_exec() -> (r: Vec<u8>)
    ensures
        r@ == txt_heal(),
{
    let mut r: Vec<u8> = Vec::new();
    r.push(0x68);
    r.push(0x65);
    r.push(0x61);
    r.push(0x6c);
    proof {
        assert(r@ =~= txt_heal());
    }
    r
}

fn txt_kill_exec() -> (r: Vec<u8>)
    ensures
        r@ == txt_kill(),
{
    let mut r: Vec<u8> = Vec::new();
    r.push(0x6b);
    r.push(0x69);
    r.push(0x6c);
    r.push(0x6c);
    proof {
        assert(r@ =~= txt_kill());
    }
    r
}

fn txt_reload_exec() -> (r: Vec<u8>)
    ensures
        r@ == txt_reload(),
{
    let mut r: Vec<u8> = Vec::new();
    r.push(0x72);
    r.push(0x65);
    r.push(0x6c);
    r.push(0x6f);
    r.push(0x61);
    r.push(0x64);
    proof {
        assert(r@ =~= txt_reload());
    }
    r
}

fn txt_regen_map_exec() -> (r: Vec<u8>)
    ensures
        r@ == txt_regen_map(),
{
    let mut r: Vec<u8> = Vec::new();
    r.push(0x72);
    r.push(0x65);
    r.push(0x67);
    r.push(0x65);
    r.push(0x6e);
    r.push(0x2d);
    r.push(0x6d);
    r.push(0x61);
    r.push(0x70);
    proof {
        assert(r@ =~= txt_regen_map());
    }
    r
}

fn txt_noop_exec() -> (r: Vec<u8>)
    ensures
        r@ == noop_text(),
{
    let mut r: Vec<u8> = Vec::new();
    r.push(0x6e);
    r.push(0x6f);
    r.push(0x6f);
    r.push(0x70);
    proof {
        assert(r@ =~= noop_text());
    }
    r
}

fn txt_nearest_exec() -> (r: Vec<u8>)
    ensures
        r@ == txt_nearest(),
{
    let mut r: Vec<u8> = Vec::new();
    r.push(0x6e);
    r.push(0x65);
    r.push(0x61);
    r.push(0x72);
    r.push(0x65);
    r.push(0x73);
    r.push(0x74);
    proof {
        assert(r@ =~= txt_nearest());
    }
    r
}

// ---------------------------------------------------------------------
// Parsing a REPL line
// ---------------------------------------------------------------------

/// What a token list denotes as a command. The first token selects the
/// variant; `tp`/`teleport` and `query`/`q` are synonyms; `heal`
/// defaults to 100, `kill` to the target `nearest`; missing or
/// non-integer arguments are the usage error of the variant.
pub open spec fn spec_repl_parse(toks: Seq<Seq<u8>>) -> Result<CommandV, LocalError> {
    if toks.len() == 0 {
        Err(LocalError::EmptyLine)
    } else {
        let c = toks[0];
        if c == txt_spawn() {
            if toks.len() < 4 {
                Err(LocalError::SpawnUsage)
            } else {
                match (spec_parse_i32(toks[2]), spec_parse_i32(toks[3])) {
                    (Some(x), Some(y)) => Ok(
                        CommandV::Spawn { entity: toks[1], x: x as i32, y: y as i32 },
                    ),
                    _ => Err(LocalError::SpawnUsage),
                }
            }
        } else if c == txt_tp() || c == txt_teleport() {
            if toks.len() < 3 {
                Err(LocalError::TpUsage)
            } else {
                match (spec_parse_i32(toks[1]), spec_parse_i32(toks[2])) {
                    (Some(x), Some(y)) => Ok(CommandV::Teleport { x: x as i32, y: y as i32 }),
                    _ => Err(LocalError::TpUsage),
                }
            }
        } else if c == txt_query() || c == txt_q() {
            Ok(CommandV::Query)
        } else if c == txt_give() {
            if toks.len() < 2 {
                Err(LocalError::GiveUsage)
            } else {
                Ok(CommandV::Give { item: toks[1] })
            }
        } else if c == txt_heal() {
            if toks.len() > 1 {
                match spec_parse_i32(toks[1]) {
                    Some(a) => Ok(CommandV::Heal { amount: a as i32 }),
                    None => Err(LocalError::HealUsage),
                }
            } else {
                Ok(CommandV::Heal { amount: 100 })
            }
        } else if c == txt_kill() {
            if toks.len() > 1 {
                Ok(CommandV::Kill { target: toks[1] })
            } else {
                Ok(CommandV::Kill { target: txt_nearest() })
            }
        } else if c == txt_reload() {
            Ok(CommandV::Reload)
        } else if c == txt_regen_map() {
            if toks.len() > 1 {
                match spec_parse_i32(toks[1]) {
                    Some(sd) => Ok(CommandV::RegenMap { seed: Some(sd as i32) }),
                    None => Err(LocalError::RegenMapUsage),
                }
            } else {
                Ok(CommandV::RegenMap { seed: None })
            }
        } else if c == noop_text() {
            Ok(CommandV::Noop)
        } else {
            Err(LocalError::UnknownCommand)
        }
    }
}

/// Parse a REPL line into a command: split on whitespace, read the
/// first token as the command word. Failures are local usage errors
/// and never reach the network.
pub fn parse_repl_command(line: &[u8]) -> (r: Result<Command, ClientError>)
    ensures
        r is Ok ==> spec_repl_parse(tokens_of(line@)) == Ok::<CommandV, LocalError>(r->Ok_0@),
        r is Err ==> spec_repl_parse(tokens_of(line@)) is Err && r->Err_0@
            == ClientErrorV::LocalValidationError(spec_repl_parse(tokens_of(line@))->Err_0),
{
    let toks = tokenize(line);
    if toks.len() == 0 {
        return Err(ClientError::LocalValidationError(LocalError::EmptyLine));
    }
    let c = toks[0].as_slice();
    if bytes_eq(c, txt_spawn_exec().as_slice()) {
        if toks.len() < 4 {
            return Err(ClientError::LocalValidationError(LocalError::SpawnUsage));
        }
        match (parse_i32(toks[2].as_slice()), parse_i32(toks[3].as_slice())) {
            (Some(x), Some(y)) => Ok(
                Command::Spawn { entity: clone_bytes(toks[1].as_slice()), x, y },
            ),
            _ => Err(ClientError::LocalValidationError(LocalError::SpawnUsage)),
        }
    } else if bytes_eq(c, txt_tp_exec().as_slice()) || bytes_eq(
        c,
        txt_teleport_exec().as_slice(),
    ) {
        if toks.len() < 3 {
            return Err(ClientError::LocalValidationError(LocalError::TpUsage));
        }
        match (parse_i32(toks[1].as_slice()), parse_i32(toks[2].as_slice())) {
            (Some(x), Some(y)) => Ok(Command::Teleport { x, y }),
            _ => Err(ClientError::LocalValidationError(LocalError::TpUsage)),
        }
    } else if bytes_eq(c, txt_query_exec().as_slice()) || bytes_eq(c, txt_q_exec().as_slice()) {
        Ok(Command::Query)
    } else if bytes_eq(c, txt_give_exec().as_slice()) {
        if toks.len() < 2 {
            return Err(ClientError::LocalValidationError(LocalError::GiveUsage));
        }
        Ok(Command::Give { item: clone_bytes(toks[1].as_slice()) })
    } else if bytes_eq(c, txt_heal_exec().as_slice()) {
        if toks.len() > 1 {
            match parse_i32(toks[1].as_slice()) {
                Some(a) => Ok(Command::Heal { amount: a }),
                None => Err(ClientError::LocalValidationError(LocalError::HealUsage)),
            }
        } else {
            Ok(Command::Heal { amount: 100 })
        }
    } else if bytes_eq(c, txt_kill_exec().as_slice()) {
        if toks.len() > 1 {
            Ok(Command::Kill { target: clone_bytes(toks[1].as_slice()) })
        } else {
            Ok(Command::Kill { target: txt_nearest_exec() })
        }
    } else if bytes_eq(c, txt_reload_exec().as_slice()) {
        Ok(Command::Reload)
    } else if bytes_eq(c, txt_regen_map_exec().as_slice()) {
        if toks.len() > 1 {
            match parse_i32(toks[1].as_slice()) {
                Some(sd) => Ok(Command::RegenMap { seed: Some(sd) }),
                None => Err(ClientError::LocalValidationError(LocalError::RegenMapUsage)),
            }
        } else {
            Ok(Command::RegenMap { seed: None })
        }
    } else if bytes_eq(c, txt_noop_exec().as_slice()) {
        Ok(Command::Noop)
    } else {
        Err(ClientError::LocalValidationError(LocalError::UnknownCommand))
    }
}


// ---------------------------------------------------------------------
// Wire payloads
// ---------------------------------------------------------------------

pub open spec fn key_entity() -> Seq<u8> {
    seq![0x65u8, 0x6eu8, 0x74u8, 0x69u8, 0x74u8, 0x79u8]
}

pub open spec fn key_x() -> Seq<u8> {
    seq![0x78u8]
}

pub open spec fn key_y() -> Seq<u8> {
    seq![0x79u8]
}

pub open spec fn key_item() -> Seq<u8> {
    seq![0x69u8, 0x74u8, 0x65u8, 0x6du8]
}

pub open spec fn key_amount() -> Seq<u8> {
    seq![0x61u8, 0x6du8, 0x6fu8, 0x75u8, 0x6eu8, 0x74u8]
}

pub open spec fn key_seed() -> Seq<u8> {
    seq![0x73u8, 0x65u8, 0x65u8, 0x64u8]
}

/// The wire payload of each command. `spawn goblin 10 5` becomes
/// `{"entity":"goblin","x":10,"y":5}`; `tp -5 -10` becomes
/// `{"x":-5,"y":-10}` (negative coordinates permitted); `kill` names
/// its target under the `entity` key; commands without arguments carry
/// the empty object, except `noop`, which carries
/// `{"command":"noop"}`, and `auth`, which carries
/// `{"auth":{"token":...}}`.
pub open spec fn payload_of(c: CommandV) -> JsonV {
    match c {
        CommandV::Spawn { entity, x, y } => JsonV::Obj(
            seq![
                (key_entity(), JsonV::Str(entity)),
                (key_x(), JsonV::Int(x as int)),
                (key_y(), JsonV::Int(y as int)),
            ],
        ),
        CommandV::Teleport { x, y } => JsonV::Obj(
            seq![(key_x(), JsonV::Int(x as int)), (key_y(), JsonV::Int(y as int))],
        ),
        CommandV::Query => JsonV::Obj(Seq::empty()),
        CommandV::Give { item } => JsonV::Obj(seq![(key_item(), JsonV::Str(item))]),
        CommandV::Heal { amount } => JsonV::Obj(
            seq![(key_amount(), JsonV::Int(amount as int))],
        ),
        CommandV::Kill { target } => JsonV::Obj(seq![(key_entity(), JsonV::Str(target))]),
        CommandV::Reload => JsonV::Obj(Seq::empty()),
        CommandV::RegenMap { seed } => match seed {
            Some(sd) => JsonV::Obj(seq![(key_seed(), JsonV::Int(sd as int))]),
            None => JsonV::Obj(Seq::empty()),
        },
        CommandV::Noop => crate::protocol::noop_payload_json(),
        CommandV::Auth { token } => auth_payload_json(token),
    }
}

fn key_entity_exec() -> (r: Vec<u8>)
    ensures
        r@ == key_entity(),
{
    let mut r: Vec<u8> = Vec::new();
    r.push(0x65);
    r.push(0x6e);
    r.push(0x74);
    r.push(0x69);
    r.push(0x74);
    r.push(0x79);
    proof {
        assert(r@ =~= key_entity());
    }
    r
}

/// Build the wire payload of a command.
pub fn command_payload(c: Command) -> (r: Json)
    ensures
        json_view(r) == payload_of(c@),
{
    match c {
        Command::Spawn { entity, x, y } => {
            let ghost ev: Seq<u8> = entity@;
            let mut kx: Vec<u8> = Vec::new();
            kx.push(0x78);
            let mut ky: Vec<u8> = Vec::new();
            ky.push(0x79);
            proof {
                assert(kx@ =~= key_x());
                assert(ky@ =~= key_y());
            }
            let mut fields: Vec<(Vec<u8>, Json)> = Vec::new();
            fields.push((key_entity_exec(), Json::Str(entity)));
            fields.push((kx, Json::Int(x as i64)));
            fields.push((ky, Json::Int(y as i64)));
            proof {
                lemma_fields_view(fields@);
                assert(fields_view(fields@) =~= (payload_of(
                    CommandV::Spawn { entity: ev, x, y },
                )->Obj_0));
            }
            Json::Obj(fields)
        },
        Command::Teleport { x, y } => {
            let mut kx: Vec<u8> = Vec::new();
            kx.push(0x78);
            let mut ky: Vec<u8> = Vec::new();
            ky.push(0x79);
            proof {
                assert(kx@ =~= key_x());
                assert(ky@ =~= key_y());
            }
            let mut fields: Vec<(Vec<u8>, Json)> = Vec::new();
            fields.push((kx, Json::Int(x as i64)));
            fields.push((ky, Json::Int(y as i64)));
            proof {
                lemma_fields_view(fields@);
                assert(fields_view(fields@) =~= (payload_of(CommandV::Teleport { x, y })->Obj_0));
            }
            Json::Obj(fields)
        },
        Command::Query => {
            let fields: Vec<(Vec<u8>, Json)> = Vec::new();
            proof {
                assert(fields_view(fields@) =~= Seq::<(Seq<u8>, JsonV)>::empty());
            }
            Json::Obj(fields)
        },
        Command::Give { item } => {
            let ghost iv: Seq<u8> = item@;
            let mut ki: Vec<u8> = Vec::new();
            ki.push(0x69);
            ki.push(0x74);
            ki.push(0x65);
            ki.push(0x6d);
            proof {
                assert(ki@ =~= key_item());
            }
            let mut fields: Vec<(Vec<u8>, Json)> = Vec::new();
            fields.push((ki, Json::Str(item)));
            proof {
                lemma_fields_view(fields@);
                assert(fields_view(fields@) =~= (payload_of(CommandV::Give { item: iv })->Obj_0));
            }
            Json::Obj(fields)
        },
        Command::Heal { amount } => {
            let mut ka: Vec<u8> = Vec::new();
            ka.push(0x61);
            ka.push(0x6d);
            ka.push(0x6f);
            ka.push(0x75);
            ka.push(0x6e);
            ka.push(0x74);
            proof {
                assert(ka@ =~= key_amount());
            }
            let mut fields: Vec<(Vec<u8>, Json)> = Vec::new();
            fields.push((ka, Json::Int(amount as i64)));
            proof {
                lemma_fields_view(fields@);
                assert(fields_view(fields@) =~= (payload_of(CommandV::Heal { amount })->Obj_0));
            }
            Json::Obj(fields)
        },
        Command::Kill { target } => {
            let ghost tv: Seq<u8> = target@;
            let mut fields: Vec<(Vec<u8>, Json)> = Vec::new();
            fields.push((key_entity_exec(), Json::Str(target)));
            proof {
                lemma_fields_view(fields@);
                assert(fields_view(fields@) =~= (payload_of(
                    CommandV::Kill { target: tv },
                )->Obj_0));
            }
            Json::Obj(fields)
        },
        Command::Reload => {
            let fields: Vec<(Vec<u8>, Json)> = Vec::new();
            proof {
                assert(fields_view(fields@) =~= Seq::<(Seq<u8>, JsonV)>::empty());
            }
            Json::Obj(fields)
        },
        Command::RegenMap { seed } => {
            match seed {
                Some(sd) => {
                    let mut ks: Vec<u8> = Vec::new();
                    ks.push(0x73);
                    ks.push(0x65);
                    ks.push(0x65);
                    ks.push(0x64);
                    proof {
                        assert(ks@ =~= key_seed());
                    }
                    let mut fields: Vec<(Vec<u8>, Json)> = Vec::new();
                    fields.push((ks, Json::Int(sd as i64)));
                    proof {
                        lemma_fields_view(fields@);
                        assert(fields_view(fields@) =~= (payload_of(
                            CommandV::RegenMap { seed: Some(sd) },
                        )->Obj_0));
                    }
                    Json::Obj(fields)
                },
                None => {
                    let fields: Vec<(Vec<u8>, Json)> = Vec::new();
                    proof {
                        assert(fields_view(fields@) =~= Seq::<(Seq<u8>, JsonV)>::empty());
                    }
                    Json::Obj(fields)
                },
            }
        },
        Command::Noop => crate::protocol::NoopCommand::new().to_json(),
        Command::Auth { token } => crate::protocol::AuthPayload::new(token).to_json(),
    }
}

// ---------------------------------------------------------------------
// Rendering a reply
// ---------------------------------------------------------------------

/// The success indicator (a check mark, as UTF-8 bytes).
pub open spec fn check_mark() -> Seq<u8> {
    seq![0xe2u8, 0x9cu8, 0x93u8]
}

/// The failure indicator (a cross mark, as UTF-8 bytes).
pub open spec fn cross_mark() -> Seq<u8> {
    seq![0xe2u8, 0x9cu8, 0x97u8]
}

/// What the user sees of a reply: on success, the check mark, the
/// message, and the reply's data as JSON text on its own line when
/// present; on a reported error, the cross mark and the message.
pub open spec fn render_reply_spec(r: crate::protocol::ReplyPayloadV) -> Seq<u8> {
    let msg = match r.message {
        Some(m) => m,
        None => Seq::empty(),
    };
    if crate::protocol::spec_reply_success(r) {
        check_mark() + seq![0x20u8] + msg + (match r.data {
            Some(d) => seq![0x0au8] + enc_json(d),
            None => Seq::empty(),
        })
    } else {
        cross_mark() + seq![0x20u8] + msg
    }
}

/// Render a reply for the user.
pub fn render_reply(r: &crate::protocol::ReplyPayload) -> (out: Vec<u8>)
    ensures
        out@ == render_reply_spec(r@),
{
    let mut out: Vec<u8> = Vec::new();
    let ok = r.is_success();
    if ok {
        out.push(0xe2);
        out.push(0x9c);
        out.push(0x93);
    } else {
        out.push(0xe2);
        out.push(0x9c);
        out.push(0x97);
    }
    out.push(0x20);
    match &r.message {
        Some(m) => {
            let mut mc = clone_bytes(m.as_slice());
            out.append(&mut mc);
        },
        None => {},
    }
    if ok {
        match &r.data {
            Some(d) => {
                out.push(0x0a);
                let mut dj = crate::json::encode_json(d);
                out.append(&mut dj);
            },
            None => {},
        }
    }
    proof {
        assert(out@ =~= render_reply_spec(r@));
    }
    out
}

/// The process exit code of one-shot mode: zero exactly when the
/// request completed with a successful reply; any failure is 1.
pub fn exit_code(outcome: &Result<crate::protocol::ReplyPayload, ClientError>) -> (c: i32)
    ensures
        c == 0 || c == 1,
        c == 0 <==> (outcome is Ok && crate::protocol::spec_reply_success(outcome->Ok_0@)),
{
    match outcome {
        Ok(r) => {
            if r.is_success() {
                0
            } else {
                1
            }
        },
        Err(_) => 1,
    }
}

/// Whether an interactive session survives a failure: local validation
/// errors are the one recoverable class; every other failure ends the
/// session.
pub fn recoverable_in_session(e: &ClientError) -> (r: bool)
    ensures
        r == (e@ is LocalValidationError),
{
    match e {
        ClientError::LocalValidationError(_) => true,
        _ => false,
    }
}

} // verus!
