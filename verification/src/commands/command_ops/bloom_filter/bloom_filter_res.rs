use vstd::prelude::*;
use vstd::utf8::valid_utf8;

use crate::commands::command_ops::bloom_filter::bloom_filter_config::BloomFilterConfig;
use crate::commands::command_req::ResParser;
use crate::commands::command_res::{
    lemma_status_stable,
    lemma_u64s_and_status_stable,
    read_status,
    read_u64s_and_status,
    spec_read_status,
    spec_u64s_and_status,
};
use crate::commands::command_status::CommandStatus;
use crate::util::parser::{
    check_utf8,
    law_read_small_bytes_stable,
    read_small_bytes,
    spec_read_small_bytes,
    ProtoError,
    SpecRes,
};
use crate::util::tags::{
    bytes_eq,
    name_add,
    name_del_cfg,
    name_get_cfg,
    name_is_consumed,
    name_put_cfg,
    name_store,
    tag_add,
    tag_del_cfg,
    tag_get_cfg,
    tag_is_consumed,
    tag_put_cfg,
    tag_store,
};

verus! {

/// Answers to bloom filter commands.
#[derive(Debug)]
pub enum BloomFilterRes {
    PutConfig { status: CommandStatus },
    GetConfig { config: BloomFilterConfig, status: CommandStatus },
    Add { status: CommandStatus },
    Store { status: CommandStatus },
    IsConsumed { status: CommandStatus },
    DelConfig { config: BloomFilterConfig, status: CommandStatus },
}

impl DeepView for BloomFilterRes {
    type V = BloomFilterRes;

    open spec fn deep_view(&self) -> BloomFilterRes {
        *self
    }
}

impl ResParser for BloomFilterRes {
    /// The command name as a small string, then `ADD`, `STORE`,
    /// `IS_CONSUMED`, `PUT_CFG`: a status; `GET_CFG`, `DEL_CFG`: the item
    /// count as a `u64` number (kept as the `i64` of the same bits) and a
    /// status.
    open spec fn spec_parse(s: Seq<u8>, pos: int) -> SpecRes<BloomFilterRes> {
        match spec_read_small_bytes(s, pos) {
            Err(e) => Err(e),
            Ok((cmd, p)) => if !valid_utf8(cmd) {
                Err(ProtoError::InvalidUtf8)
            } else if cmd == tag_add() || cmd == tag_store() || cmd == tag_is_consumed() || cmd
                == tag_put_cfg() {
                match spec_read_status(s, p) {
                    Err(e) => Err(e),
                    Ok((status, q)) => Ok(
                        (
                            if cmd == tag_add() {
                                BloomFilterRes::Add { status }
                            } else if cmd == tag_store() {
                                BloomFilterRes::Store { status }
                            } else if cmd == tag_is_consumed() {
                                BloomFilterRes::IsConsumed { status }
                            } else {
                                BloomFilterRes::PutConfig { status }
                            },
                            q,
                        ),
                    ),
                }
            } else if cmd == tag_get_cfg() || cmd == tag_del_cfg() {
                match spec_u64s_and_status(s, p, 1) {
                    Err(e) => Err(e),
                    Ok(((count, _, status), q)) => {
                        let config = BloomFilterConfig { item_count: count as i64 };
                        Ok(
                            (
                                if cmd == tag_get_cfg() {
                                    BloomFilterRes::GetConfig { config, status }
                                } else {
                                    BloomFilterRes::DelConfig { config, status }
                                },
                                q,
                            ),
                        )
                    },
                }
            } else {
                Err(ProtoError::UnknownCommand)
            },
        }
    }

    fn parse(buf: &[u8], pos: usize) -> (r: Result<(BloomFilterRes, usize), ProtoError>) {
        let (cmd, p) = read_small_bytes(buf, pos)?;
        assert(cmd.deep_view() =~= cmd@);
        check_utf8(&cmd)?;
        if bytes_eq(&cmd, &name_add()) {
            let (status, q) = read_status(buf, p)?;
            Ok((BloomFilterRes::Add { status }, q))
        } else if bytes_eq(&cmd, &name_store()) {
            let (status, q) = read_status(buf, p)?;
            Ok((BloomFilterRes::Store { status }, q))
        } else if bytes_eq(&cmd, &name_is_consumed()) {
            let (status, q) = read_status(buf, p)?;
            Ok((BloomFilterRes::IsConsumed { status }, q))
        } else if bytes_eq(&cmd, &name_put_cfg()) {
            let (status, q) = read_status(buf, p)?;
            Ok((BloomFilterRes::PutConfig { status }, q))
        } else if bytes_eq(&cmd, &name_get_cfg()) {
            let ((count, _, status), q) = read_u64s_and_status(buf, p, 1)?;
            let config = BloomFilterConfig { item_count: count as i64 };
            Ok((BloomFilterRes::GetConfig { config, status }, q))
        } else if bytes_eq(&cmd, &name_del_cfg()) {
            let ((count, _, status), q) = read_u64s_and_status(buf, p, 1)?;
            let config = BloomFilterConfig { item_count: count as i64 };
            Ok((BloomFilterRes::DelConfig { config, status }, q))
        } else {
            Err(ProtoError::UnknownCommand)
        }
    }

    proof fn lemma_parse_stable(s: Seq<u8>, t: Seq<u8>, pos: int) {
        law_read_small_bytes_stable(s, t, pos);
        if let Ok((_, p)) = spec_read_small_bytes(s, pos) {
            lemma_status_stable(s, t, p);
            lemma_u64s_and_status_stable(s, t, p, 1);
        }
    }
}

} // verus!
