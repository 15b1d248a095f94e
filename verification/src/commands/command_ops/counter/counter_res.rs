use vstd::prelude::*;
use vstd::utf8::valid_utf8;

use crate::commands::command_req::ResParser;
use crate::commands::command_res::{
    lemma_i64_and_status_stable,
    lemma_status_stable,
    read_i64_and_status,
    read_status,
    spec_i64_and_status,
    spec_read_status,
};
use crate::commands::command_status::CommandStatus;
use crate::util::parser::{
    check_utf8,
    law_read_small_bytes_stable,
    read_small_bytes,
    spec_read_small_bytes,
    ProtoError,
    SpecRes,
};
use crate::util::tags::{
    bytes_eq,
    name_dec,
    name_del,
    name_del_cfg,
    name_get,
    name_get_cfg,
    name_inc,
    name_put,
    name_put_cfg,
    tag_dec,
    tag_del,
    tag_del_cfg,
    tag_get,
    tag_get_cfg,
    tag_inc,
    tag_put,
    tag_put_cfg,
};

verus! {

/// Answers to counter commands.
#[derive(Debug)]
pub enum CounterRes {
    PutConfig { status: CommandStatus },
    GetConfig { status: CommandStatus },
    DelConfig { status: CommandStatus },
    Put { status: CommandStatus },
    Get { value: i64, status: CommandStatus },
    Inc { value: i64, status: CommandStatus },
    Dec { value: i64, status: CommandStatus },
    Del { value: i64, status: CommandStatus },
}

impl DeepView for CounterRes {
    type V = CounterRes;

    open spec fn deep_view(&self) -> CounterRes {
        *self
    }
}

impl ResParser for CounterRes {
    /// The command name as a small string, then `PUT`, `PUT_CFG`, `GET_CFG`,
    /// `DEL_CFG`: a status; `GET`, `INC`, `DEC`, `DEL`: an `i64` and a status.
    open spec fn spec_parse(s: Seq<u8>, pos: int) -> SpecRes<CounterRes> {
        match spec_read_small_bytes(s, pos) {
            Err(e) => Err(e),
            Ok((cmd, p)) => if !valid_utf8(cmd) {
                Err(ProtoError::InvalidUtf8)
            } else if cmd == tag_put() || cmd == tag_put_cfg() || cmd == tag_get_cfg() || cmd
                == tag_del_cfg() {
                match spec_read_status(s, p) {
                    Err(e) => Err(e),
                    Ok((status, q)) => Ok(
                        (
                            if cmd == tag_put() {
                                CounterRes::Put { status }
                            } else if cmd == tag_put_cfg() {
                                CounterRes::PutConfig { status }
                            } else if cmd == tag_get_cfg() {
                                CounterRes::GetConfig { status }
                            } else {
                                CounterRes::DelConfig { status }
                            },
                            q,
                        ),
                    ),
                }
            } else if cmd == tag_get() || cmd == tag_inc() || cmd == tag_dec() || cmd == tag_del() {
                match spec_i64_and_status(s, p) {
                    Err(e) => Err(e),
                    Ok(((value, status), q)) => Ok(
                        (
                            if cmd == tag_get() {
                                CounterRes::Get { value, status }
                            } else if cmd == tag_inc() {
                                CounterRes::Inc { value, status }
                            } else if cmd == tag_dec() {
                                CounterRes::Dec { value, status }
                            } else {
                                CounterRes::Del { value, status }
                            },
                            q,
                        ),
                    ),
                }
            } else {
                Err(ProtoError::UnknownCommand)
            },
        }
    }

    fn parse(buf: &[u8], pos: usize) -> (r: Result<(CounterRes, usize), ProtoError>) {
        let (cmd, p) = read_small_bytes(buf, pos)?;
        assert(cmd.deep_view() =~= cmd@);
        check_utf8(&cmd)?;
        if bytes_eq(&cmd, &name_put()) {
            let (status, q) = read_status(buf, p)?;
            Ok((CounterRes::Put { status }, q))
        } else if bytes_eq(&cmd, &name_get()) {
            let ((value, status), q) = read_i64_and_status(buf, p)?;
            Ok((CounterRes::Get { value, status }, q))
        } else if bytes_eq(&cmd, &name_inc()) {
            let ((value, status), q) = read_i64_and_status(buf, p)?;
            Ok((CounterRes::Inc { value, status }, q))
        } else if bytes_eq(&cmd, &name_dec()) {
            let ((value, status), q) = read_i64_and_status(buf, p)?;
            Ok((CounterRes::Dec { value, status }, q))
        } else if bytes_eq(&cmd, &name_del()) {
            let ((value, status), q) = read_i64_and_status(buf, p)?;
            Ok((CounterRes::Del { value, status }, q))
        } else if bytes_eq(&cmd, &name_put_cfg()) {
            let (status, q) = read_status(buf, p)?;
            Ok((CounterRes::PutConfig { status }, q))
        } else if bytes_eq(&cmd, &name_get_cfg()) {
            let (status, q) = read_status(buf, p)?;
            Ok((CounterRes::GetConfig { status }, q))
        } else if bytes_eq(&cmd, &name_del_cfg()) {
            let (status, q) = read_status(buf, p)?;
            Ok((CounterRes::DelConfig { status }, q))
        } else {
            Err(ProtoError::UnknownCommand)
        }
    }

    proof fn lemma_parse_stable(s: Seq<u8>, t: Seq<u8>, pos: int) {
        law_read_small_bytes_stable(s, t, pos);
        if let Ok((_, p)) = spec_read_small_bytes(s, pos) {
            lemma_status_stable(s, t, p);
            lemma_i64_and_status_stable(s, t, p);
        }
    }
}

} // verus!
