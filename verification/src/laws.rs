//! Global statements about the parser, proved once and for all lines.

use vstd::prelude::*;
use crate::parser::{
    command_wf, finish_tokens, flush_buf, init_state, lemma_spec_parse_wf, normal_step, pfinish,
    pfold, pstep, spec_parse, PMode, PState, ParseError, SpecCommand,
};
use crate::text::{spec_is_space, spec_trim};

verus! {

proof fn lemma_trim_all_space(s: Seq<char>)
    requires
        forall|i: int| 0 <= i < s.len() ==> spec_is_space(#[trigger] s[i]),
    ensures
        spec_trim(s).len() == 0,
    decreases s.len(),
{
    if s.len() > 0 {
        assert forall|i: int| 0 <= i < s.drop_first().len() implies spec_is_space(
            #[trigger] s.drop_first()[i],
        ) by {
            assert(s.drop_first()[i] == s[i + 1]);
        }
        lemma_trim_all_space(s.drop_first());
    }
}

/// Law: a line holding nothing but whitespace parses to "no command",
/// never to an error.
pub proof fn lemma_whitespace_no_command(line: Seq<char>)
    requires
        forall|i: int| 0 <= i < line.len() ==> spec_is_space(#[trigger] line[i]),
    ensures
        spec_parse(line) == Ok::<Option<SpecCommand>, ParseError>(None),
{
    lemma_trim_all_space(line);
    assert(spec_trim(line) =~= Seq::<char>::empty());
    assert(pfold(init_state(), spec_trim(line)) == Ok::<PState, ParseError>(init_state()));
}

/// One argument character, quoted so that parsing restores it literally:
/// a single quote is wrapped in double quotes, everything else in single
/// quotes.
pub open spec fn spec_render_char(c: char) -> Seq<char> {
    if c == '\'' {
        seq!['"', '\'', '"']
    } else {
        seq!['\'', c, '\'']
    }
}

/// One argument token, rendered character by character.
pub open spec fn spec_render_token(t: Seq<char>) -> Seq<char>
    decreases t.len(),
{
    if t.len() == 0 {
        Seq::empty()
    } else {
        spec_render_char(t[0]) + spec_render_token(t.drop_first())
    }
}

/// A token list, rendered with single spaces between tokens.
pub open spec fn spec_render_tokens(ts: Seq<Seq<char>>) -> Seq<char>
    decreases ts.len(),
{
    if ts.len() == 0 {
        Seq::empty()
    } else if ts.len() == 1 {
        spec_render_token(ts[0])
    } else {
        spec_render_token(ts[0]) + seq![' '] + spec_render_tokens(ts.drop_first())
    }
}

/// A parsed command rendered back into a line: its name, then its arguments.
pub open spec fn spec_render_command(c: SpecCommand) -> Seq<char> {
    spec_render_tokens(seq![c.command_name] + c.args)
}

/// Folding a run over a concatenation is folding the parts in turn.
proof fn lemma_pfold_concat(st: PState, a: Seq<char>, b: Seq<char>)
    ensures
        pfold(st, a + b) == match pfold(st, a) {
            Ok(m) => pfold(m, b),
            Err(e) => Err(e),
        },
    decreases a.len(),
{
    if a.len() == 0 {
        assert(a + b =~= b);
    } else {
        assert((a + b)[0] == a[0]);
        assert((a + b).drop_first() =~= a.drop_first() + b);
        match pstep(st, a[0]) {
            Ok(st2) => {
                lemma_pfold_concat(st2, a.drop_first(), b);
            },
            Err(_) => {},
        }
    }
}

/// One successful step peels the first character off a fold.
proof fn lemma_pfold_step_ok(st: PState, s: Seq<char>, st2: PState)
    requires
        s.len() > 0,
        pstep(st, s[0]) == Ok::<PState, ParseError>(st2),
    ensures
        pfold(st, s) == pfold(st2, s.drop_first()),
{
}

/// In ordinary accumulation with no quote mode active, a rendered character
/// lands in the accumulator literally.
proof fn lemma_pfold_render_char(st: PState, c: char)
    requires
        st.mode is Normal,
        !st.sq,
        !st.dq,
    ensures
        pfold(st, spec_render_char(c)) == Ok::<PState, ParseError>(
            PState { buf: st.buf.push(c), ..st },
        ),
{
    let s = spec_render_char(c);
    assert(s.len() == 3);
    let s1 = s.drop_first();
    let s2 = s1.drop_first();
    let s3 = s2.drop_first();
    assert(s3.len() == 0);
    if c == '\'' {
        assert(s[0] == '"' && s1[0] == '\'' && s2[0] == '"');
        let t1 = normal_step(st, '"');
        let t2 = normal_step(t1, '\'');
        let t3 = normal_step(t2, '"');
        lemma_pfold_step_ok(st, s, t1);
        assert(s1[0] == s[1]);
        lemma_pfold_step_ok(t1, s1, t2);
        assert(s2[0] == s[2]);
        lemma_pfold_step_ok(t2, s2, t3);
        assert(pfold(t3, s3) == Ok::<PState, ParseError>(t3));
        assert(t3 == PState { buf: st.buf.push(c), ..st });
    } else {
        assert(s[0] == '\'' && s1[0] == c && s2[0] == '\'');
        let t1 = normal_step(st, '\'');
        let t2 = normal_step(t1, c);
        let t3 = normal_step(t2, '\'');
        assert(t1 == PState { sq: true, mode: PMode::Normal, ..st });
        lemma_pfold_step_ok(st, s, t1);
        assert(s1[0] == s[1]);
        lemma_pfold_step_ok(t1, s1, t2);
        assert(t2 == PState { sq: true, buf: st.buf.push(c), mode: PMode::Normal, ..st });
        assert(s2[0] == s[2]);
        lemma_pfold_step_ok(t2, s2, t3);
        assert(t3 == PState { buf: st.buf.push(c), mode: PMode::Normal, ..st });
        assert(pfold(t3, s3) == Ok::<PState, ParseError>(t3));
        assert(PState { buf: st.buf.push(c), mode: PMode::Normal, ..st } == PState {
            buf: st.buf.push(c),
            ..st
        });
    }
}

/// A rendered token lands in the accumulator literally.
proof fn lemma_pfold_render_token(st: PState, t: Seq<char>)
    requires
        st.mode is Normal,
        !st.sq,
        !st.dq,
    ensures
        pfold(st, spec_render_token(t)) == Ok::<PState, ParseError>(
            PState { buf: st.buf + t, ..st },
        ),
    decreases t.len(),
{
    if t.len() == 0 {
        assert(st.buf + t =~= st.buf);
        assert(PState { buf: st.buf + t, ..st } == st);
    } else {
        lemma_pfold_concat(st, spec_render_char(t[0]), spec_render_token(t.drop_first()));
        lemma_pfold_render_char(st, t[0]);
        let mid = PState { buf: st.buf.push(t[0]), ..st };
        lemma_pfold_render_token(mid, t.drop_first());
        assert(st.buf.push(t[0]) + t.drop_first() =~= st.buf + t);
    }
}

/// A rendered token list: all but the last token are flushed into the
/// argument list; the last sits in the accumulator awaiting the end of the
/// line.
proof fn lemma_pfold_render_tokens(st: PState, ts: Seq<Seq<char>>)
    requires
        st.mode is Normal,
        !st.sq,
        !st.dq,
        st.buf.len() == 0,
        ts.len() > 0,
        forall|i: int| 0 <= i < ts.len() ==> (#[trigger] ts[i]).len() > 0,
    ensures
        pfold(st, spec_render_tokens(ts)) == Ok::<PState, ParseError>(
            PState { args: st.args + ts.drop_last(), buf: ts.last(), ..st },
        ),
    decreases ts.len(),
{
    if ts.len() == 1 {
        lemma_pfold_render_token(st, ts[0]);
        assert(st.buf + ts[0] =~= ts[0]);
        assert(ts.drop_last() =~= Seq::<Seq<char>>::empty());
        assert(st.args + ts.drop_last() =~= st.args);
        assert(ts.last() == ts[0]);
    } else {
        let head = spec_render_token(ts[0]);
        let rest = spec_render_tokens(ts.drop_first());
        assert(spec_render_tokens(ts) == head + seq![' '] + rest);
        lemma_pfold_concat(st, head + seq![' '], rest);
        lemma_pfold_concat(st, head, seq![' ']);
        lemma_pfold_render_token(st, ts[0]);
        let after_tok = PState { buf: st.buf + ts[0], ..st };
        assert(st.buf + ts[0] =~= ts[0]);
        // the single space flushes the nonempty accumulator
        let sp = seq![' '];
        assert(sp.drop_first() =~= Seq::<char>::empty());
        let after_sp = normal_step(after_tok, ' ');
        lemma_pfold_step_ok(after_tok, sp, after_sp);
        assert(pfold(after_sp, sp.drop_first()) == Ok::<PState, ParseError>(after_sp));
        assert(pfold(after_tok, sp) == Ok::<PState, ParseError>(after_sp));
        assert(after_sp == PState { args: st.args.push(ts[0]), buf: Seq::empty(), ..st });
        assert forall|i: int| 0 <= i < ts.drop_first().len() implies (#[trigger] ts.drop_first()[
            i
        ]).len() > 0 by {
            assert(ts.drop_first()[i] == ts[i + 1]);
        }
        lemma_pfold_render_tokens(after_sp, ts.drop_first());
        assert(st.args.push(ts[0]) + ts.drop_first().drop_last() =~= st.args + ts.drop_last());
        assert(ts.drop_first().last() == ts.last());
    }
}

proof fn lemma_render_char_ends(c: char)
    ensures
        spec_render_char(c).len() == 3,
        !spec_is_space(spec_render_char(c)[0]),
        !spec_is_space(spec_render_char(c).last()),
{
}

proof fn lemma_render_tokens_ends(ts: Seq<Seq<char>>)
    requires
        ts.len() > 0,
        forall|i: int| 0 <= i < ts.len() ==> (#[trigger] ts[i]).len() > 0,
    ensures
        spec_render_tokens(ts).len() > 0,
        !spec_is_space(spec_render_tokens(ts)[0]),
        !spec_is_space(spec_render_tokens(ts).last()),
    decreases ts.len(),
{
    let t0 = ts[0];
    lemma_render_char_ends(t0[0]);
    assert(spec_render_token(t0)[0] == spec_render_char(t0[0])[0]);
    if ts.len() == 1 {
        lemma_render_token_ends(t0);
    } else {
        assert forall|i: int| 0 <= i < ts.drop_first().len() implies (#[trigger] ts.drop_first()[
            i
        ]).len() > 0 by {
            assert(ts.drop_first()[i] == ts[i + 1]);
        }
        lemma_render_tokens_ends(ts.drop_first());
        let whole = spec_render_token(t0) + seq![' '] + spec_render_tokens(ts.drop_first());
        assert(spec_render_tokens(ts) == whole);
        assert(whole.last() == spec_render_tokens(ts.drop_first()).last());
        assert(whole[0] == spec_render_token(t0)[0]);
    }
}

proof fn lemma_render_token_ends(t: Seq<char>)
    requires
        t.len() > 0,
    ensures
        spec_render_token(t).len() >= 3,
        !spec_is_space(spec_render_token(t)[0]),
        !spec_is_space(spec_render_token(t).last()),
    decreases t.len(),
{
    lemma_render_char_ends(t[0]);
    if t.drop_first().len() == 0 {
        assert(spec_render_token(t.drop_first()) =~= Seq::<char>::empty());
        assert(spec_render_token(t) =~= spec_render_char(t[0]));
    } else {
        lemma_render_token_ends(t.drop_first());
        assert(spec_render_token(t).last() == spec_render_token(t.drop_first()).last());
        assert(spec_render_token(t)[0] == spec_render_char(t[0])[0]);
    }
}

/// A sequence whose ends are not whitespace is already trimmed.
proof fn lemma_trim_id(s: Seq<char>)
    requires
        s.len() > 0,
        !spec_is_space(s[0]),
        !spec_is_space(s.last()),
    ensures
        spec_trim(s) == s,
{
}

/// Law: parsing, then rendering the parsed name and arguments back into a
/// line, then parsing again, restores the same name and arguments — the
/// consumed redirect tokens are the only loss.
pub proof fn lemma_args_round_trip(line: Seq<char>, c: SpecCommand)
    requires
        spec_parse(line) == Ok::<Option<SpecCommand>, ParseError>(Some(c)),
    ensures
        spec_parse(spec_render_command(c)) matches Ok(r) && r matches Some(c2)
            && c2.command_name == c.command_name && c2.args == c.args,
{
    lemma_spec_parse_wf(line);
    assert(command_wf(c));
    let ts = seq![c.command_name] + c.args;
    assert(ts[0] == c.command_name);
    assert forall|i: int| 0 <= i < ts.len() implies (#[trigger] ts[i]).len() > 0 by {
        if i > 0 {
            assert(ts[i] == c.args[i - 1]);
        }
    }
    let rendered = spec_render_tokens(ts);
    lemma_render_tokens_ends(ts);
    lemma_trim_id(rendered);
    lemma_pfold_render_tokens(init_state(), ts);
    let fin = PState {
        args: init_state().args + ts.drop_last(),
        buf: ts.last(),
        ..init_state()
    };
    assert(pfold(init_state(), rendered) == Ok::<PState, ParseError>(fin));
    let f = flush_buf(fin);
    assert(f.args =~= ts.drop_last().push(ts.last()));
    assert(f.args =~= ts);
    assert(pfinish(fin) == finish_tokens(fin));
    let c2 = pfinish(fin)->Ok_0->Some_0;
    assert(c2.command_name == ts[0]);
    assert(c2.args =~= c.args);
}

} // verus!
