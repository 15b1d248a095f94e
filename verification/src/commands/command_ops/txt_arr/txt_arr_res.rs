use vstd::prelude::*;
use vstd::utf8::valid_utf8;

use crate::commands::command_req::ResParser;
use crate::commands::command_res::{lemma_status_stable, read_status, spec_read_status};
use crate::commands::command_status::CommandStatus;
use crate::util::parser::{
    agrees,
    check_utf8,
    decided,
    law_read_small_bytes_stable,
    law_read_txt_array_stable,
    read_small_bytes,
    read_txt_array,
    spec_read_small_bytes,
    spec_read_txt_array,
    ProtoError,
    SpecRes,
};
use crate::util::tags::{bytes_eq, name_del, name_get, name_put, tag_del, tag_get, tag_put};

verus! {

/// Answers to commands on arrays of texts.
#[derive(Debug)]
pub enum TxtArrRes {
    Put { status: CommandStatus },
    Get { value: Vec<String>, status: CommandStatus },
    Del { value: Vec<String>, status: CommandStatus },
}

/// An answer on an array of texts, with the texts as characters.
pub enum TxtArrResModel {
    Put { status: CommandStatus },
    Get { value: Seq<Seq<char>>, status: CommandStatus },
    Del { value: Seq<Seq<char>>, status: CommandStatus },
}

impl DeepView for TxtArrRes {
    type V = TxtArrResModel;

    open spec fn deep_view(&self) -> TxtArrResModel {
        match self {
            TxtArrRes::Put { status } => TxtArrResModel::Put { status: *status },
            TxtArrRes::Get { value, status } => TxtArrResModel::Get {
                value: value.deep_view(),
                status: *status,
            },
            TxtArrRes::Del { value, status } => TxtArrResModel::Del {
                value: value.deep_view(),
                status: *status,
            },
        }
    }
}

/// A text array followed by a status.
pub open spec fn spec_texts_and_status(s: Seq<u8>, p: int) -> SpecRes<
    (Seq<Seq<char>>, CommandStatus),
> {
    match spec_read_txt_array(s, p) {
        Err(e) => Err(e),
        Ok((value, q)) => match spec_read_status(s, q) {
            Err(e) => Err(e),
            Ok((status, q2)) => Ok(((value, status), q2)),
        },
    }
}

fn read_texts_and_status(buf: &[u8], p: usize) -> (r: Result<
    ((Vec<String>, CommandStatus), usize),
    ProtoError,
>)
    ensures
        agrees(r, spec_texts_and_status(buf@, p as int)),
{
    let (value, q) = read_txt_array(buf, p)?;
    let (status, q2) = read_status(buf, q)?;
    Ok(((value, status), q2))
}

proof fn lemma_texts_and_status_stable(s: Seq<u8>, t: Seq<u8>, p: int)
    requires
        0 <= p,
    ensures
        decided(spec_texts_and_status(s, p)) ==> spec_texts_and_status(s + t, p)
            == spec_texts_and_status(s, p),
{
    law_read_txt_array_stable(s, t, p);
    if let Ok((_, q)) = spec_read_txt_array(s, p) {
        lemma_txt_array_end(s, p);
        lemma_status_stable(s, t, q);
    }
}

proof fn lemma_txt_array_end(s: Seq<u8>, p: int)
    requires
        0 <= p,
    ensures
        spec_read_txt_array(s, p) matches Ok((_, q)) ==> p <= q,
{
    if let Ok((n, p1)) = crate::util::parser::spec_array_header(s, p, 23) {
        crate::util::parser::lemma_bulk_strings_bounds(s, p1, n as nat);
    }
}

impl ResParser for TxtArrRes {
    /// The command name as a small string, then `PUT`: a status; `GET` or
    /// `DEL`: a text array and a status.
    open spec fn spec_parse(s: Seq<u8>, pos: int) -> SpecRes<TxtArrResModel> {
        match spec_read_small_bytes(s, pos) {
            Err(e) => Err(e),
            Ok((cmd, p)) => if !valid_utf8(cmd) {
                Err(ProtoError::InvalidUtf8)
            } else if cmd == tag_put() {
                match spec_read_status(s, p) {
                    Err(e) => Err(e),
                    Ok((status, q)) => Ok((TxtArrResModel::Put { status }, q)),
                }
            } else if cmd == tag_get() {
                match spec_texts_and_status(s, p) {
                    Err(e) => Err(e),
                    Ok(((value, status), q)) => Ok((TxtArrResModel::Get { value, status }, q)),
                }
            } else if cmd == tag_del() {
                match spec_texts_and_status(s, p) {
                    Err(e) => Err(e),
                    Ok(((value, status), q)) => Ok((TxtArrResModel::Del { value, status }, q)),
                }
            } else {
                Err(ProtoError::UnknownCommand)
            },
        }
    }

    fn parse(buf: &[u8], pos: usize) -> (r: Result<(TxtArrRes, usize), ProtoError>) {
        let (cmd, p) = read_small_bytes(buf, pos)?;
        assert(cmd.deep_view() =~= cmd@);
        check_utf8(&cmd)?;
        if bytes_eq(&cmd, &name_put()) {
            let (status, q) = read_status(buf, p)?;
            Ok((TxtArrRes::Put { status }, q))
        } else if bytes_eq(&cmd, &name_get()) {
            let ((value, status), q) = read_texts_and_status(buf, p)?;
            Ok((TxtArrRes::Get { value, status }, q))
        } else if bytes_eq(&cmd, &name_del()) {
            let ((value, status), q) = read_texts_and_status(buf, p)?;
            Ok((TxtArrRes::Del { value, status }, q))
        } else {
            Err(ProtoError::UnknownCommand)
        }
    }

    proof fn lemma_parse_stable(s: Seq<u8>, t: Seq<u8>, pos: int) {
        law_read_small_bytes_stable(s, t, pos);
        if let Ok((_, p)) = spec_read_small_bytes(s, pos) {
            lemma_status_stable(s, t, p);
            lemma_texts_and_status_stable(s, t, p);
        }
    }
}

} // verus!
