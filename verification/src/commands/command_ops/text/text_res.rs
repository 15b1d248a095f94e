use vstd::prelude::*;
use vstd::utf8::valid_utf8;

use crate::commands::command_req::ResParser;
use crate::commands::command_status::CommandStatus;
use crate::util::parser::{
    agrees,
    check_utf8,
    law_read_small_bytes_stable,
    decided,
    law_read_bulk_string_stable,
    read_bulk_string,
    read_small_bytes,
    spec_read_bulk_string,
    spec_read_small_bytes,
    ProtoError,
    SpecRes,
};
use crate::commands::command_res::{lemma_status_stable, read_status, spec_read_status};
use crate::util::tags::{bytes_eq, name_del, name_get, name_put, tag_del, tag_get, tag_put};

verus! {

/// Answers to text commands.
#[derive(Debug)]
pub enum TextRes {
    Put { status: CommandStatus },
    Get { value: String, status: CommandStatus },
    Del { value: String, status: CommandStatus },
}

/// A text answer with its text as characters.
pub enum TextResModel {
    Put { status: CommandStatus },
    Get { value: Seq<char>, status: CommandStatus },
    Del { value: Seq<char>, status: CommandStatus },
}

impl DeepView for TextRes {
    type V = TextResModel;

    open spec fn deep_view(&self) -> TextResModel {
        match self {
            TextRes::Put { status } => TextResModel::Put { status: *status },
            TextRes::Get { value, status } => TextResModel::Get { value: value@, status: *status },
            TextRes::Del { value, status } => TextResModel::Del { value: value@, status: *status },
        }
    }
}

/// A text followed by a status, as `GET` and `DEL` answers carry them.
pub open spec fn spec_text_and_status(s: Seq<u8>, p: int) -> SpecRes<(Seq<char>, CommandStatus)> {
    match spec_read_bulk_string(s, p) {
        Err(e) => Err(e),
        Ok((value, q)) => match spec_read_status(s, q) {
            Err(e) => Err(e),
            Ok((status, q2)) => Ok(((value, status), q2)),
        },
    }
}

fn read_text_and_status(buf: &[u8], p: usize) -> (r: Result<((String, CommandStatus), usize), ProtoError>)
    ensures
        agrees(r, spec_text_and_status(buf@, p as int)),
{
    let (value, q) = read_bulk_string(buf, p)?;
    let (status, q2) = read_status(buf, q)?;
    Ok(((value, status), q2))
}

proof fn lemma_text_and_status_stable(s: Seq<u8>, t: Seq<u8>, p: int)
    requires
        0 <= p,
    ensures
        decided(spec_text_and_status(s, p)) ==> spec_text_and_status(s + t, p)
            == spec_text_and_status(s, p),
{
    law_read_bulk_string_stable(s, t, p);
    if let Ok((_, q)) = spec_read_bulk_string(s, p) {
        lemma_status_stable(s, t, q);
    }
}

impl ResParser for TextRes {
    /// The command name as a small string, then `PUT`: a status; `GET` or
    /// `DEL`: a bulk string and a status.
    open spec fn spec_parse(s: Seq<u8>, pos: int) -> SpecRes<TextResModel> {
        match spec_read_small_bytes(s, pos) {
            Err(e) => Err(e),
            Ok((cmd, p)) => if !valid_utf8(cmd) {
                Err(ProtoError::InvalidUtf8)
            } else if cmd == tag_put() {
                match spec_read_status(s, p) {
                    Err(e) => Err(e),
                    Ok((status, q)) => Ok((TextResModel::Put { status }, q)),
                }
            } else if cmd == tag_get() {
                match spec_text_and_status(s, p) {
                    Err(e) => Err(e),
                    Ok(((value, status), q)) => Ok((TextResModel::Get { value, status }, q)),
                }
            } else if cmd == tag_del() {
                match spec_text_and_status(s, p) {
                    Err(e) => Err(e),
                    Ok(((value, status), q)) => Ok((TextResModel::Del { value, status }, q)),
                }
            } else {
                Err(ProtoError::UnknownCommand)
            },
        }
    }

    fn parse(buf: &[u8], pos: usize) -> (r: Result<(TextRes, usize), ProtoError>) {
        let (cmd, p) = read_small_bytes(buf, pos)?;
        assert(cmd.deep_view() =~= cmd@);
        check_utf8(&cmd)?;
        if bytes_eq(&cmd, &name_put()) {
            let (status, q) = read_status(buf, p)?;
            Ok((TextRes::Put { status }, q))
        } else if bytes_eq(&cmd, &name_get()) {
            let ((value, status), q) = read_text_and_status(buf, p)?;
            Ok((TextRes::Get { value, status }, q))
        } else if bytes_eq(&cmd, &name_del()) {
            let ((value, status), q) = read_text_and_status(buf, p)?;
            Ok((TextRes::Del { value, status }, q))
        } else {
            Err(ProtoError::UnknownCommand)
        }
    }

    proof fn lemma_parse_stable(s: Seq<u8>, t: Seq<u8>, pos: int) {
        law_read_small_bytes_stable(s, t, pos);
        if let Ok((_, p)) = spec_read_small_bytes(s, pos) {
            lemma_status_stable(s, t, p);
            lemma_text_and_status_stable(s, t, p);
        }
    }
}

} // verus!
