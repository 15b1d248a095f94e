use vstd::prelude::*;
use vstd::utf8::valid_utf8;

use crate::commands::command_ops::rate_limiter::rate_limiter_config::RateLimiterConfig;
use crate::commands::command_req::ResParser;
use crate::commands::command_res::{
    lemma_status_stable,
    lemma_u64s_and_status_stable,
    read_status,
    read_u64s_and_status,
    spec_read_status,
    spec_u64s_and_status,
};
use crate::commands::command_status::CommandStatus;
use crate::util::parser::{
    check_utf8,
    law_read_small_bytes_stable,
    law_u64_roundtrip,
    law_u8_roundtrip,
    read_small_bytes,
    spec_read_small_bytes,
    u64_bytes,
    u8_bytes,
    ProtoError,
    SpecRes,
};
use crate::util::tags::{
    bytes_eq,
    lemma_ascii_valid_utf8,
    name_consume,
    name_del_cfg,
    name_get_cfg,
    name_put_cfg,
    tag_consume,
    tag_del_cfg,
    tag_get_cfg,
    tag_put_cfg,
};

verus! {

/// Answers to rate limiter commands.
#[derive(Debug)]
pub enum RateLimiterRes {
    PutConfig { status: CommandStatus },
    GetConfig { config: RateLimiterConfig, status: CommandStatus },
    Consume { status: CommandStatus },
    DelConfig { config: RateLimiterConfig, status: CommandStatus },
}

impl DeepView for RateLimiterRes {
    type V = RateLimiterRes;

    open spec fn deep_view(&self) -> RateLimiterRes {
        *self
    }
}

impl ResParser for RateLimiterRes {
    /// The command name as a small string, then `PUT_CFG`, `CONSUME`: a
    /// status; `GET_CFG`, `DEL_CFG`: the interval and the token count as
    /// `u64` numbers and a status.
    open spec fn spec_parse(s: Seq<u8>, pos: int) -> SpecRes<RateLimiterRes> {
        match spec_read_small_bytes(s, pos) {
            Err(e) => Err(e),
            Ok((cmd, p)) => if !valid_utf8(cmd) {
                Err(ProtoError::InvalidUtf8)
            } else if cmd == tag_put_cfg() || cmd == tag_consume() {
                match spec_read_status(s, p) {
                    Err(e) => Err(e),
                    Ok((status, q)) => Ok(
                        (
                            if cmd == tag_put_cfg() {
                                RateLimiterRes::PutConfig { status }
                            } else {
                                RateLimiterRes::Consume { status }
                            },
                            q,
                        ),
                    ),
                }
            } else if cmd == tag_get_cfg() || cmd == tag_del_cfg() {
                match spec_u64s_and_status(s, p, 2) {
                    Err(e) => Err(e),
                    Ok(((interval_sec, max_tokens, status), q)) => {
                        let config = RateLimiterConfig { interval_sec, max_tokens };
                        Ok(
                            (
                                if cmd == tag_get_cfg() {
                                    RateLimiterRes::GetConfig { config, status }
                                } else {
                                    RateLimiterRes::DelConfig { config, status }
                                },
                                q,
                            ),
                        )
                    },
                }
            } else {
                Err(ProtoError::UnknownCommand)
            },
        }
    }

    fn parse(buf: &[u8], pos: usize) -> (r: Result<(RateLimiterRes, usize), ProtoError>) {
        let (cmd, p) = read_small_bytes(buf, pos)?;
        assert(cmd.deep_view() =~= cmd@);
        check_utf8(&cmd)?;
        if bytes_eq(&cmd, &name_put_cfg()) {
            let (status, q) = read_status(buf, p)?;
            Ok((RateLimiterRes::PutConfig { status }, q))
        } else if bytes_eq(&cmd, &name_get_cfg()) {
            let ((interval_sec, max_tokens, status), q) = read_u64s_and_status(buf, p, 2)?;
            let config = RateLimiterConfig { interval_sec, max_tokens };
            Ok((RateLimiterRes::GetConfig { config, status }, q))
        } else if bytes_eq(&cmd, &name_consume()) {
            let (status, q) = read_status(buf, p)?;
            Ok((RateLimiterRes::Consume { status }, q))
        } else if bytes_eq(&cmd, &name_del_cfg()) {
            let ((interval_sec, max_tokens, status), q) = read_u64s_and_status(buf, p, 2)?;
            let config = RateLimiterConfig { interval_sec, max_tokens };
            Ok((RateLimiterRes::DelConfig { config, status }, q))
        } else {
            Err(ProtoError::UnknownCommand)
        }
    }

    proof fn lemma_parse_stable(s: Seq<u8>, t: Seq<u8>, pos: int) {
        law_read_small_bytes_stable(s, t, pos);
        if let Ok((_, p)) = spec_read_small_bytes(s, pos) {
            lemma_status_stable(s, t, p);
            lemma_u64s_and_status_stable(s, t, p, 2);
        }
    }
}

proof fn lemma_cfg_answer(
    cs: Seq<char>,
    name: Seq<u8>,
    interval: u64,
    tokens: u64,
    code: u8,
    post: Seq<u8>,
)
    requires
        cs.len() == 7,
        vstd::utf8::is_ascii_chars(cs),
        name == crate::util::tags::ascii(cs),
    ensures
        ({
            let s = seq![0x2bu8, 7u8] + name + u64_bytes(interval) + u64_bytes(tokens) + u8_bytes(
                code,
            ) + post;
            &&& spec_read_small_bytes(s, 0) == Ok::<(Seq<u8>, int), ProtoError>((name, 9))
            &&& valid_utf8(name)
            &&& spec_u64s_and_status(s, 9, 2) == Ok::<((u64, u64, CommandStatus), int), ProtoError>(
                ((interval, tokens, CommandStatus::from_code(code)), 32),
            )
        }),
{
    let head = seq![0x2bu8, 7u8] + name;
    let s = head + u64_bytes(interval) + u64_bytes(tokens) + u8_bytes(code) + post;
    assert(head.len() == 9);
    assert(s[0] == 0x2bu8 && s[1] == 7u8);
    assert(s.subrange(2, 9) =~= name);
    lemma_ascii_valid_utf8(cs);
    law_u64_roundtrip(head, interval, u64_bytes(tokens) + u8_bytes(code) + post);
    assert(head + u64_bytes(interval) + (u64_bytes(tokens) + u8_bytes(code) + post) =~= s);
    law_u64_roundtrip(head + u64_bytes(interval), tokens, u8_bytes(code) + post);
    assert(head + u64_bytes(interval) + u64_bytes(tokens) + (u8_bytes(code) + post) =~= s);
    law_u8_roundtrip(head + u64_bytes(interval) + u64_bytes(tokens), code, post);
}

proof fn lemma_cfg_names()
    ensures
        tag_get_cfg() == seq![0x47u8, 0x45u8, 0x54u8, 0x5fu8, 0x43u8, 0x46u8, 0x47u8],
        tag_del_cfg() == seq![0x44u8, 0x45u8, 0x4cu8, 0x5fu8, 0x43u8, 0x46u8, 0x47u8],
        tag_get_cfg() == crate::util::tags::ascii(seq!['G', 'E', 'T', '_', 'C', 'F', 'G']),
        tag_del_cfg() == crate::util::tags::ascii(seq!['D', 'E', 'L', '_', 'C', 'F', 'G']),
        vstd::utf8::is_ascii_chars(seq!['G', 'E', 'T', '_', 'C', 'F', 'G']),
        vstd::utf8::is_ascii_chars(seq!['D', 'E', 'L', '_', 'C', 'F', 'G']),
        tag_get_cfg() != tag_put_cfg(),
        tag_get_cfg() != tag_consume(),
        tag_del_cfg() != tag_put_cfg(),
        tag_del_cfg() != tag_consume(),
        tag_del_cfg() != tag_get_cfg(),
{
    let g = seq!['G', 'E', 'T', '_', 'C', 'F', 'G'];
    let d = seq!['D', 'E', 'L', '_', 'C', 'F', 'G'];
    assert forall|i| 0 <= i < g.len() implies '\0' <= #[trigger] g[i] <= '\u{7f}' by {}
    assert forall|i| 0 <= i < d.len() implies '\0' <= #[trigger] d[i] <= '\u{7f}' by {}
    assert(tag_get_cfg() =~= seq![0x47u8, 0x45u8, 0x54u8, 0x5fu8, 0x43u8, 0x46u8, 0x47u8]);
    assert(tag_del_cfg() =~= seq![0x44u8, 0x45u8, 0x4cu8, 0x5fu8, 0x43u8, 0x46u8, 0x47u8]);
    assert(tag_get_cfg() =~= crate::util::tags::ascii(g));
    assert(tag_del_cfg() =~= crate::util::tags::ascii(d));
    assert(tag_get_cfg()[0] != tag_put_cfg()[0] && tag_get_cfg()[0] != tag_consume()[0]);
    assert(tag_del_cfg()[0] != tag_put_cfg()[0] && tag_del_cfg()[0] != tag_consume()[0]);
    assert(tag_del_cfg()[0] != tag_get_cfg()[0]);
}

proof fn lemma_get_cfg_answer(s: Seq<u8>, interval: u64, tokens: u64, code: u8, post: Seq<u8>)
    requires
        s == seq![0x2bu8, 7u8] + tag_get_cfg() + u64_bytes(interval) + u64_bytes(tokens) + u8_bytes(code)
            + post,
    ensures
        RateLimiterRes::spec_parse(s, 0) == Ok::<(RateLimiterRes, int), ProtoError>(
            (
                RateLimiterRes::GetConfig {
                    config: RateLimiterConfig { interval_sec: interval, max_tokens: tokens },
                    status: CommandStatus::from_code(code),
                },
                32,
            ),
        ),
{
    lemma_cfg_names();
    lemma_cfg_answer(seq!['G', 'E', 'T', '_', 'C', 'F', 'G'], tag_get_cfg(), interval, tokens, code, post);
}

proof fn lemma_del_cfg_answer(s: Seq<u8>, interval: u64, tokens: u64, code: u8, post: Seq<u8>)
    requires
        s == seq![0x2bu8, 7u8] + tag_del_cfg() + u64_bytes(interval) + u64_bytes(tokens) + u8_bytes(code)
            + post,
    ensures
        RateLimiterRes::spec_parse(s, 0) == Ok::<(RateLimiterRes, int), ProtoError>(
            (
                RateLimiterRes::DelConfig {
                    config: RateLimiterConfig { interval_sec: interval, max_tokens: tokens },
                    status: CommandStatus::from_code(code),
                },
                32,
            ),
        ),
{
    lemma_cfg_names();
    lemma_cfg_answer(seq!['D', 'E', 'L', '_', 'C', 'F', 'G'], tag_del_cfg(), interval, tokens, code, post);
}

/// Reading a rate limiter's configuration answer: after the name `GET_CFG`
/// or `DEL_CFG` as a small string come the interval in seconds, then the
/// number of tokens, each a `u64` number, then the status; the first number
/// is the configuration's interval and the second its token count.
pub proof fn law_rate_limiter_cfg_answer(interval: u64, tokens: u64, code: u8, post: Seq<u8>)
    ensures
        RateLimiterRes::spec_parse(
            seq![0x2bu8, 7u8, 0x47u8, 0x45u8, 0x54u8, 0x5fu8, 0x43u8, 0x46u8, 0x47u8] + u64_bytes(
                interval,
            ) + u64_bytes(tokens) + u8_bytes(code) + post,
            0,
        ) == Ok::<(RateLimiterRes, int), ProtoError>(
            (
                RateLimiterRes::GetConfig {
                    config: RateLimiterConfig { interval_sec: interval, max_tokens: tokens },
                    status: CommandStatus::from_code(code),
                },
                32,
            ),
        ),
        RateLimiterRes::spec_parse(
            seq![0x2bu8, 7u8, 0x44u8, 0x45u8, 0x4cu8, 0x5fu8, 0x43u8, 0x46u8, 0x47u8] + u64_bytes(
                interval,
            ) + u64_bytes(tokens) + u8_bytes(code) + post,
            0,
        ) == Ok::<(RateLimiterRes, int), ProtoError>(
            (
                RateLimiterRes::DelConfig {
                    config: RateLimiterConfig { interval_sec: interval, max_tokens: tokens },
                    status: CommandStatus::from_code(code),
                },
                32,
            ),
        ),
{
    let g = seq![0x2bu8, 7u8, 0x47u8, 0x45u8, 0x54u8, 0x5fu8, 0x43u8, 0x46u8, 0x47u8] + u64_bytes(
        interval,
    ) + u64_bytes(tokens) + u8_bytes(code) + post;
    let d = seq![0x2bu8, 7u8, 0x44u8, 0x45u8, 0x4cu8, 0x5fu8, 0x43u8, 0x46u8, 0x47u8] + u64_bytes(
        interval,
    ) + u64_bytes(tokens) + u8_bytes(code) + post;
    assert(g == seq![0x2bu8, 7u8] + tag_get_cfg() + u64_bytes(interval) + u64_bytes(tokens)
        + u8_bytes(code) + post) by {
        lemma_cfg_names();
        assert(seq![0x2bu8, 7u8] + tag_get_cfg() =~= seq![
            0x2bu8, 7u8, 0x47u8, 0x45u8, 0x54u8, 0x5fu8, 0x43u8, 0x46u8, 0x47u8,
        ]);
    }
    assert(d == seq![0x2bu8, 7u8] + tag_del_cfg() + u64_bytes(interval) + u64_bytes(tokens)
        + u8_bytes(code) + post) by {
        lemma_cfg_names();
        assert(seq![0x2bu8, 7u8] + tag_del_cfg() =~= seq![
            0x2bu8, 7u8, 0x44u8, 0x45u8, 0x4cu8, 0x5fu8, 0x43u8, 0x46u8, 0x47u8,
        ]);
    }
    lemma_get_cfg_answer(g, interval, tokens, code, post);
    lemma_del_cfg_answer(d, interval, tokens, code, post);
}

} // verus!
