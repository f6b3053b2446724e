//! The golden fixture format reads back what it writes: every fixture whose
//! shape matches its configuration is given back, unchanged, by reading the
//! text written from it.
use vstd::prelude::*;
use crate::text::{decimal, is_blank, spec_is_whitespace};
use crate::config::trim_text;
use crate::types::AgentLabels;
use crate::golden::{
    FixtureConfig, GOLDEN_MAGIC, GoldenAgentView, GoldenRecordsView, GoldenRequestView,
    GoldenState, agent_line, agent_record, config_line, config_record, count_record, decimal_field,
    decimal_token, hex8, hex_field, hex_fixed, hex_token, hex_vector, hex_words, is_word,
    lemma_decimal_reads_back, lemma_hex_reads_back, lemma_words_spaced, pow16, request_line,
    request_record, spaced, state_line, state_record, unsigned_digits, words, joined, no_newline,
    golden_text, agent_lines, state_lines, request_lines, agent_records, state_records,
    request_records, first_misfit_agent, first_misfit_request, shape_error, golden_outcome,
    golden_after_agents, golden_tail, text_lines, numbered_nonblank, lemma_line_scan_joined,
    lemma_numbered_all,
};
use crate::loom_projection::concat_map;

verus! {

/// The words of a fixture's vector: one bit pattern each.
spec fn hex_list(bits: Seq<u32>) -> Seq<Seq<char>> {
    bits.map_values(|b: u32| hex8(b))
}

/// The words of the configuration line.
spec fn config_words(c: FixtureConfig) -> Seq<Seq<char>> {
    seq!["config"@].push(decimal(c.agent_count as nat)).push(decimal(c.task_count as nat)).push(
        decimal(c.dimensions as nat),
    ).push(decimal(c.k as nat)).push(hex_fixed(c.seed as nat, 16))
}

/// The words of a list header.
spec fn count_words(keyword: Seq<char>, n: nat) -> Seq<Seq<char>> {
    seq![keyword].push(decimal(n))
}

/// The words of an agent line before its vector.
spec fn agent_head(a: GoldenAgentView) -> Seq<Seq<char>> {
    seq!["agent"@].push(decimal(a.id as nat)).push(decimal(a.labels.model_profile as nat)).push(
        decimal(a.labels.tool_profile as nat),
    ).push(decimal(a.labels.mcp_profile as nat)).push(decimal(a.labels.memory_profile as nat)).push(
        decimal(a.labels.cost_class as nat),
    ).push(decimal(a.labels.latency_class as nat))
}

/// The words of an agent line.
spec fn agent_words(a: GoldenAgentView) -> Seq<Seq<char>> {
    agent_head(a) + hex_list(a.vector_bits)
}

/// The words of a state line.
spec fn state_words(st: GoldenState) -> Seq<Seq<char>> {
    seq!["state"@].push(hex8(st.queue_depth_bits)).push(hex8(st.latency_bits)).push(
        hex8(st.cache_pressure_bits),
    ).push(decimal(st.availability as nat))
}

/// The words of a request line before its vector.
spec fn request_head(r: GoldenRequestView) -> Seq<Seq<char>> {
    seq!["request"@].push(decimal(r.task_id as nat)).push(decimal(r.k as nat)).push(
        decimal(r.fallback_generalist_id as nat),
    ).push(hex8(r.radius_bits))
}

/// The words of a request line.
spec fn request_words(r: GoldenRequestView) -> Seq<Seq<char>> {
    request_head(r) + hex_list(r.vector_bits)
}

proof fn lemma_decimal_field_reads(n: nat, max: nat, line: int, field: Seq<char>)
    requires
        n <= max,
    ensures
        decimal_field(decimal(n), max, line, field) == Ok::<nat, (int, Seq<char>)>(n),
        is_word(decimal(n)),
{
    lemma_decimal_reads_back(n);
    assert(decimal_token(decimal(n), max) == Some(n));
}

proof fn lemma_hex8_reads(b: u32)
    ensures
        hex_token(hex8(b), u32::MAX as nat) == Some(b as nat),
        is_word(hex8(b)),
{
    lemma_hex_reads_back(b as nat, 8);
    reveal_with_fuel(pow16, 9);
    assert(pow16(8) == 0x1_0000_0000);
    let h = hex8(b);
    assert(h[0] != '+');
    assert(unsigned_digits(h) == h);
}

proof fn lemma_hex16_reads(n: u64, line: int, field: Seq<char>)
    ensures
        hex_field(hex_fixed(n as nat, 16), u64::MAX as nat, line, field) == Ok::<nat, (int, Seq<char>)>(
            n as nat,
        ),
        is_word(hex_fixed(n as nat, 16)),
{
    lemma_hex_reads_back(n as nat, 16);
    reveal_with_fuel(pow16, 17);
    assert(pow16(16) == 0x1_0000_0000_0000_0000);
    let h = hex_fixed(n as nat, 16);
    assert(h[0] != '+');
    assert(unsigned_digits(h) == h);
}

proof fn lemma_hex_list_words(bits: Seq<u32>)
    ensures
        hex_list(bits).len() == bits.len(),
        forall|i: int| 0 <= i < bits.len() ==> is_word(#[trigger] hex_list(bits)[i]),
{
    assert forall|i: int| 0 <= i < bits.len() implies is_word(#[trigger] hex_list(bits)[i]) by {
        lemma_hex8_reads(bits[i]);
    }
}

proof fn lemma_hex_vector_reads(bits: Seq<u32>, line: int, field: Seq<char>)
    ensures
        hex_vector(hex_list(bits), line, field) == Ok::<Seq<u32>, (int, Seq<char>)>(bits),
    decreases bits.len(),
{
    if bits.len() == 0 {
        assert(hex_list(bits) =~= Seq::<Seq<char>>::empty());
        assert(bits =~= Seq::<u32>::empty());
    } else {
        let b0 = bits.drop_last();
        lemma_hex_vector_reads(b0, line, field);
        let hl = hex_list(bits);
        assert(hl.drop_last() =~= hex_list(b0));
        assert(hl.last() == hex8(bits.last()));
        lemma_hex8_reads(bits.last());
        assert(hex_token(hl.last(), u32::MAX as nat) == Some(bits.last() as nat));
        assert(b0.push(bits.last()) =~= bits);
    }
}

proof fn lemma_spaced_push(ws: Seq<Seq<char>>, w: Seq<char>)
    requires
        ws.len() > 0,
    ensures
        spaced(ws.push(w)) == spaced(ws) + " "@ + w,
{
    assert(ws.push(w).drop_last() =~= ws);
}

proof fn lemma_spaced_hex(ws: Seq<Seq<char>>, bits: Seq<u32>)
    requires
        ws.len() > 0,
    ensures
        spaced(ws + hex_list(bits)) == spaced(ws) + hex_words(bits),
    decreases bits.len(),
{
    if bits.len() == 0 {
        assert(ws + hex_list(bits) =~= ws);
        assert(spaced(ws) + hex_words(bits) =~= spaced(ws));
    } else {
        let b0 = bits.drop_last();
        lemma_spaced_hex(ws, b0);
        assert(ws + hex_list(bits) =~= (ws + hex_list(b0)).push(hex8(bits.last())));
        lemma_spaced_push(ws + hex_list(b0), hex8(bits.last()));
        assert(spaced(ws) + hex_words(bits) =~= spaced(ws) + hex_words(b0) + " "@ + hex8(
            bits.last(),
        ));
    }
}

/// A keyword literal is a word.
proof fn lemma_keywords()
    ensures
        is_word("config"@),
        is_word("agents"@),
        is_word("agent"@),
        is_word("states"@),
        is_word("state"@),
        is_word("requests"@),
        is_word("request"@),
        "config "@ == "config"@ + " "@,
        "agents "@ == "agents"@ + " "@,
        "agent "@ == "agent"@ + " "@,
        "states "@ == "states"@ + " "@,
        "state "@ == "state"@ + " "@,
        "requests "@ == "requests"@ + " "@,
        "request "@ == "request"@ + " "@,
{
    reveal_strlit(" ");
    reveal_strlit("config");
    reveal_strlit("config ");
    reveal_strlit("agents");
    reveal_strlit("agents ");
    reveal_strlit("agent");
    reveal_strlit("agent ");
    reveal_strlit("states");
    reveal_strlit("states ");
    reveal_strlit("state");
    reveal_strlit("state ");
    reveal_strlit("requests");
    reveal_strlit("requests ");
    reveal_strlit("request");
    reveal_strlit("request ");
    assert("config "@ =~= "config"@ + " "@);
    assert("agents "@ =~= "agents"@ + " "@);
    assert("agent "@ =~= "agent"@ + " "@);
    assert("states "@ =~= "states"@ + " "@);
    assert("state "@ =~= "state"@ + " "@);
    assert("requests "@ =~= "requests"@ + " "@);
    assert("request "@ =~= "request"@ + " "@);
}

/// The configuration line is its words, and reads back as the configuration.
proof fn lemma_config_line(c: FixtureConfig, n: int)
    ensures
        config_line(c) == spaced(config_words(c)) + "\n"@,
        forall|i: int| 0 <= i < config_words(c).len() ==> is_word(#[trigger] config_words(c)[i]),
        config_record((n, spaced(config_words(c)))) == Ok::<FixtureConfig, (int, Seq<char>)>(c),
{
    lemma_keywords();
    let w1 = seq!["config"@];
    let w2 = w1.push(decimal(c.agent_count as nat));
    let w3 = w2.push(decimal(c.task_count as nat));
    let w4 = w3.push(decimal(c.dimensions as nat));
    let w5 = w4.push(decimal(c.k as nat));
    let ws = w5.push(hex_fixed(c.seed as nat, 16));
    lemma_spaced_push(w1, decimal(c.agent_count as nat));
    lemma_spaced_push(w2, decimal(c.task_count as nat));
    lemma_spaced_push(w3, decimal(c.dimensions as nat));
    lemma_spaced_push(w4, decimal(c.k as nat));
    lemma_spaced_push(w5, hex_fixed(c.seed as nat, 16));
    lemma_decimal_field_reads(c.agent_count as nat, usize::MAX as nat, n, "agent_count"@);
    lemma_decimal_field_reads(c.task_count as nat, usize::MAX as nat, n, "task_count"@);
    lemma_decimal_field_reads(c.dimensions as nat, usize::MAX as nat, n, "dimensions"@);
    lemma_decimal_field_reads(c.k as nat, usize::MAX as nat, n, "k"@);
    lemma_hex16_reads(c.seed, n, "seed"@);
    assert(ws == config_words(c));
    assert forall|i: int| 0 <= i < ws.len() implies is_word(#[trigger] ws[i]) by {
        if i == 0 {
        } else if i == 1 {
        } else if i == 2 {
        } else if i == 3 {
        } else if i == 4 {
        } else {
        }
    }
    lemma_words_spaced(ws);
}

/// A list header is its words, and reads back as its count.
proof fn lemma_count_line(keyword: Seq<char>, count: nat, n: int)
    requires
        is_word(keyword),
        count <= usize::MAX,
    ensures
        keyword + " "@ + decimal(count) == spaced(count_words(keyword, count)),
        forall|i: int| 0 <= i < count_words(keyword, count).len() ==> is_word(#[trigger] count_words(keyword, count)[i]),
        count_record((n, spaced(count_words(keyword, count))), keyword) == Ok::<nat, (int, Seq<char>)>(count),
{
    let ws = count_words(keyword, count);
    lemma_spaced_push(seq![keyword], decimal(count));
    lemma_decimal_field_reads(count, usize::MAX as nat, n, keyword);
    assert forall|i: int| 0 <= i < ws.len() implies is_word(#[trigger] ws[i]) by {
        if i == 0 {
        } else {
        }
    }
    lemma_words_spaced(ws);
}

/// An agent line is its words, and reads back as the agent.
proof fn lemma_agent_line(a: GoldenAgentView, n: int)
    ensures
        agent_line(a) == spaced(agent_words(a)) + "\n"@,
        forall|i: int| 0 <= i < agent_words(a).len() ==> is_word(#[trigger] agent_words(a)[i]),
        agent_words(a).len() == 8 + a.vector_bits.len(),
        agent_record((n, spaced(agent_words(a))), a.vector_bits.len()) == Ok::<GoldenAgentView, (int, Seq<char>)>(a),
{
    lemma_keywords();
    let l = a.labels;
    let w1 = seq!["agent"@];
    let w2 = w1.push(decimal(a.id as nat));
    let w3 = w2.push(decimal(l.model_profile as nat));
    let w4 = w3.push(decimal(l.tool_profile as nat));
    let w5 = w4.push(decimal(l.mcp_profile as nat));
    let w6 = w5.push(decimal(l.memory_profile as nat));
    let w7 = w6.push(decimal(l.cost_class as nat));
    let head = w7.push(decimal(l.latency_class as nat));
    lemma_spaced_push(w1, decimal(a.id as nat));
    lemma_spaced_push(w2, decimal(l.model_profile as nat));
    lemma_spaced_push(w3, decimal(l.tool_profile as nat));
    lemma_spaced_push(w4, decimal(l.mcp_profile as nat));
    lemma_spaced_push(w5, decimal(l.memory_profile as nat));
    lemma_spaced_push(w6, decimal(l.cost_class as nat));
    lemma_spaced_push(w7, decimal(l.latency_class as nat));
    assert(head == agent_head(a));
    lemma_spaced_hex(head, a.vector_bits);
    lemma_hex_list_words(a.vector_bits);
    lemma_decimal_field_reads(a.id as nat, u32::MAX as nat, n, "agent id"@);
    lemma_decimal_field_reads(l.model_profile as nat, u16::MAX as nat, n, "model_profile"@);
    lemma_decimal_field_reads(l.tool_profile as nat, u16::MAX as nat, n, "tool_profile"@);
    lemma_decimal_field_reads(l.mcp_profile as nat, u16::MAX as nat, n, "mcp_profile"@);
    lemma_decimal_field_reads(l.memory_profile as nat, u16::MAX as nat, n, "memory_profile"@);
    lemma_decimal_field_reads(l.cost_class as nat, u8::MAX as nat, n, "cost_class"@);
    lemma_decimal_field_reads(l.latency_class as nat, u8::MAX as nat, n, "latency_class"@);
    let ws = agent_words(a);
    assert forall|i: int| 0 <= i < ws.len() implies is_word(#[trigger] ws[i]) by {
        if i < 8 {
            assert(ws[i] == head[i]);
            if i == 0 {
            } else if i == 1 {
            } else if i == 2 {
            } else if i == 3 {
            } else if i == 4 {
            } else if i == 5 {
            } else if i == 6 {
            } else {
            }
        } else {
            assert(ws[i] == hex_list(a.vector_bits)[i - 8]);
        }
    }
    lemma_words_spaced(ws);
    assert(ws.subrange(8, ws.len() as int) =~= hex_list(a.vector_bits));
    lemma_hex_vector_reads(a.vector_bits, n, "agent vector"@);
    assert(ws[0] == "agent"@ && ws[1] == decimal(a.id as nat) && ws[2] == decimal(l.model_profile as nat)
        && ws[3] == decimal(l.tool_profile as nat) && ws[4] == decimal(l.mcp_profile as nat) && ws[5]
        == decimal(l.memory_profile as nat) && ws[6] == decimal(l.cost_class as nat) && ws[7] == decimal(
        l.latency_class as nat,
    ));
    let back = GoldenAgentView {
        id: a.id,
        labels: AgentLabels {
            model_profile: l.model_profile,
            tool_profile: l.tool_profile,
            mcp_profile: l.mcp_profile,
            memory_profile: l.memory_profile,
            cost_class: l.cost_class,
            latency_class: l.latency_class,
        },
        vector_bits: a.vector_bits,
    };
    assert(back == a);
}

/// A state line is its words, and reads back as the state.
proof fn lemma_state_line(st: GoldenState, n: int)
    ensures
        state_line(st) == spaced(state_words(st)) + "\n"@,
        forall|i: int| 0 <= i < state_words(st).len() ==> is_word(#[trigger] state_words(st)[i]),
        state_record((n, spaced(state_words(st)))) == Ok::<GoldenState, (int, Seq<char>)>(st),
{
    lemma_keywords();
    let w1 = seq!["state"@];
    let w2 = w1.push(hex8(st.queue_depth_bits));
    let w3 = w2.push(hex8(st.latency_bits));
    let w4 = w3.push(hex8(st.cache_pressure_bits));
    let ws = w4.push(decimal(st.availability as nat));
    lemma_spaced_push(w1, hex8(st.queue_depth_bits));
    lemma_spaced_push(w2, hex8(st.latency_bits));
    lemma_spaced_push(w3, hex8(st.cache_pressure_bits));
    lemma_spaced_push(w4, decimal(st.availability as nat));
    lemma_hex8_reads(st.queue_depth_bits);
    lemma_hex8_reads(st.latency_bits);
    lemma_hex8_reads(st.cache_pressure_bits);
    lemma_decimal_field_reads(st.availability as nat, u32::MAX as nat, n, "availability"@);
    assert(ws == state_words(st));
    assert forall|i: int| 0 <= i < ws.len() implies is_word(#[trigger] ws[i]) by {
        if i == 0 {
        } else if i == 1 {
        } else if i == 2 {
        } else if i == 3 {
        } else {
        }
    }
    lemma_words_spaced(ws);
    assert(hex_field(ws[1], u32::MAX as nat, n, "queue_depth_norm"@) == Ok::<nat, (int, Seq<char>)>(
        st.queue_depth_bits as nat,
    ));
    assert(hex_field(ws[2], u32::MAX as nat, n, "latency_norm"@) == Ok::<nat, (int, Seq<char>)>(
        st.latency_bits as nat,
    ));
    assert(hex_field(ws[3], u32::MAX as nat, n, "cache_pressure_norm"@) == Ok::<nat, (int, Seq<char>)>(
        st.cache_pressure_bits as nat,
    ));
}

/// A request line is its words, and reads back as the request.
proof fn lemma_request_line(r: GoldenRequestView, n: int)
    ensures
        request_line(r) == spaced(request_words(r)) + "\n"@,
        forall|i: int| 0 <= i < request_words(r).len() ==> is_word(#[trigger] request_words(r)[i]),
        request_words(r).len() == 5 + r.vector_bits.len(),
        request_record((n, spaced(request_words(r))), r.vector_bits.len()) == Ok::<GoldenRequestView, (int, Seq<char>)>(r),
{
    lemma_keywords();
    let w1 = seq!["request"@];
    let w2 = w1.push(decimal(r.task_id as nat));
    let w3 = w2.push(decimal(r.k as nat));
    let w4 = w3.push(decimal(r.fallback_generalist_id as nat));
    let head = w4.push(hex8(r.radius_bits));
    lemma_spaced_push(w1, decimal(r.task_id as nat));
    lemma_spaced_push(w2, decimal(r.k as nat));
    lemma_spaced_push(w3, decimal(r.fallback_generalist_id as nat));
    lemma_spaced_push(w4, hex8(r.radius_bits));
    assert(head == request_head(r));
    lemma_spaced_hex(head, r.vector_bits);
    lemma_hex_list_words(r.vector_bits);
    lemma_decimal_field_reads(r.task_id as nat, u64::MAX as nat, n, "task_id"@);
    lemma_decimal_field_reads(r.k as nat, usize::MAX as nat, n, "request k"@);
    lemma_decimal_field_reads(r.fallback_generalist_id as nat, u32::MAX as nat, n, "fallback_generalist_id"@);
    lemma_hex8_reads(r.radius_bits);
    let ws = request_words(r);
    assert forall|i: int| 0 <= i < ws.len() implies is_word(#[trigger] ws[i]) by {
        if i < 5 {
            assert(ws[i] == head[i]);
            if i == 0 {
            } else if i == 1 {
            } else if i == 2 {
            } else if i == 3 {
            } else {
            }
        } else {
            assert(ws[i] == hex_list(r.vector_bits)[i - 5]);
        }
    }
    lemma_words_spaced(ws);
    assert(ws.subrange(5, ws.len() as int) =~= hex_list(r.vector_bits));
    lemma_hex_vector_reads(r.vector_bits, n, "request vector"@);
    assert(ws[0] == "request"@ && ws[1] == decimal(r.task_id as nat) && ws[2] == decimal(r.k as nat)
        && ws[3] == decimal(r.fallback_generalist_id as nat) && ws[4] == hex8(r.radius_bits));
    assert(hex_field(ws[4], u32::MAX as nat, n, "radius_max_threshold"@) == Ok::<nat, (int, Seq<char>)>(
        r.radius_bits as nat,
    ));
}

/// A line that starts with a character other than white space and holds no line break.
spec fn clean_line(s: Seq<char>) -> bool {
    s.len() > 0 && !spec_is_whitespace(s[0]) && no_newline(s)
}

/// Every line of `ls` is clean.
spec fn all_clean(ls: Seq<Seq<char>>) -> bool {
    forall|i: int| 0 <= i < ls.len() ==> clean_line(#[trigger] ls[i])
}

proof fn lemma_spaced_clean(ws: Seq<Seq<char>>)
    requires
        ws.len() > 0,
        forall|i: int| 0 <= i < ws.len() ==> is_word(#[trigger] ws[i]),
    ensures
        clean_line(spaced(ws)),
    decreases ws.len(),
{
    reveal_strlit(" ");
    assert(spec_is_whitespace('\n'));
    if ws.len() == 1 {
        let w = ws[0];
        assert(is_word(w));
        assert forall|i: int| 0 <= i < w.len() implies #[trigger] w[i] != '\n' by {
            assert(!spec_is_whitespace(w[i]));
        }
    } else {
        let ws0 = ws.drop_last();
        assert forall|i: int| 0 <= i < ws0.len() implies is_word(#[trigger] ws0[i]) by {
            assert(ws0[i] == ws[i]);
        }
        lemma_spaced_clean(ws0);
        let w = ws.last();
        assert(is_word(ws[ws.len() - 1]));
        let p = spaced(ws0) + " "@;
        let s = p + w;
        assert(s == spaced(ws));
        assert(s[0] == spaced(ws0)[0]);
        assert forall|i: int| 0 <= i < s.len() implies #[trigger] s[i] != '\n' by {
            if i < spaced(ws0).len() {
                assert(s[i] == spaced(ws0)[i]);
            } else if i == spaced(ws0).len() {
                assert(s[i] == ' ');
            } else {
                assert(s[i] == w[i - p.len()]);
                assert(!spec_is_whitespace(w[i - p.len()]));
            }
        }
    }
}

proof fn lemma_all_clean_append(a: Seq<Seq<char>>, b: Seq<Seq<char>>)
    requires
        all_clean(a),
        all_clean(b),
    ensures
        all_clean(a + b),
{
    assert forall|i: int| 0 <= i < (a + b).len() implies clean_line(#[trigger] (a + b)[i]) by {
        if i < a.len() {
            assert((a + b)[i] == a[i]);
        } else {
            assert((a + b)[i] == b[i - a.len()]);
        }
    }
}

proof fn lemma_joined_push(ls: Seq<Seq<char>>, l: Seq<char>)
    ensures
        joined(ls.push(l)) == joined(ls) + l + "\n"@,
{
    assert(ls.push(l).drop_last() =~= ls);
}

proof fn lemma_joined_append(a: Seq<Seq<char>>, b: Seq<Seq<char>>)
    ensures
        joined(a + b) == joined(a) + joined(b),
    decreases b.len(),
{
    if b.len() == 0 {
        assert(a + b =~= a);
        assert(joined(a) + joined(b) =~= joined(a));
    } else {
        let b0 = b.drop_last();
        lemma_joined_append(a, b0);
        assert(a + b =~= (a + b0).push(b.last()));
        lemma_joined_push(a + b0, b.last());
        assert(joined(a) + joined(b) =~= joined(a) + joined(b0) + b.last() + "\n"@);
    }
}

proof fn lemma_concat_map_joined<A>(s: Seq<A>, f: spec_fn(A) -> Seq<char>, g: spec_fn(A) -> Seq<char>)
    requires
        forall|x: A| #[trigger] f(x) == g(x) + "\n"@,
    ensures
        concat_map(s, f) == joined(s.map_values(g)),
    decreases s.len(),
{
    if s.len() == 0 {
        assert(s.map_values(g) =~= Seq::<Seq<char>>::empty());
    } else {
        let s0 = s.drop_last();
        lemma_concat_map_joined(s0, f, g);
        assert(s.map_values(g).drop_last() =~= s0.map_values(g));
        assert(s.map_values(g).last() == g(s.last()));
        assert(f(s.last()) == g(s.last()) + "\n"@);
        assert(concat_map(s, f) =~= joined(s.map_values(g)));
    }
}

/// The text of an agent, state or request line, without its line break.
spec fn agent_text() -> spec_fn(GoldenAgentView) -> Seq<char> {
    |a: GoldenAgentView| spaced(agent_words(a))
}

spec fn state_text() -> spec_fn(GoldenState) -> Seq<char> {
    |st: GoldenState| spaced(state_words(st))
}

spec fn request_text() -> spec_fn(GoldenRequestView) -> Seq<char> {
    |q: GoldenRequestView| spaced(request_words(q))
}

/// The lines of the agents, states and requests.
spec fn agent_texts(agents: Seq<GoldenAgentView>) -> Seq<Seq<char>> {
    agents.map_values(agent_text())
}

spec fn state_texts(states: Seq<GoldenState>) -> Seq<Seq<char>> {
    states.map_values(state_text())
}

spec fn request_texts(requests: Seq<GoldenRequestView>) -> Seq<Seq<char>> {
    requests.map_values(request_text())
}

/// The lines of a fixture's golden text.
spec fn golden_lines(r: GoldenRecordsView) -> Seq<Seq<char>> {
    seq![GOLDEN_MAGIC@, spaced(config_words(r.config)), spaced(count_words("agents"@, r.agents.len()))]
        + agent_texts(r.agents) + seq![spaced(count_words("states"@, r.states.len()))] + state_texts(
        r.states,
    ) + seq![spaced(count_words("requests"@, r.requests.len()))] + request_texts(r.requests) + seq![
        "end"@,
    ]
}

proof fn lemma_list_texts(r: GoldenRecordsView)
    ensures
        concat_map(r.agents, agent_lines()) == joined(agent_texts(r.agents)),
        concat_map(r.states, state_lines()) == joined(state_texts(r.states)),
        concat_map(r.requests, request_lines()) == joined(request_texts(r.requests)),
{
    assert forall|a: GoldenAgentView| #[trigger] agent_lines()(a) == agent_text()(a) + "\n"@ by {
        lemma_agent_line(a, 0);
    }
    assert forall|x: GoldenState| #[trigger] state_lines()(x) == state_text()(x) + "\n"@ by {
        lemma_state_line(x, 0);
    }
    assert forall|q: GoldenRequestView| #[trigger] request_lines()(q) == request_text()(q) + "\n"@ by {
        lemma_request_line(q, 0);
    }
    lemma_concat_map_joined(r.agents, agent_lines(), agent_text());
    lemma_concat_map_joined(r.states, state_lines(), state_text());
    lemma_concat_map_joined(r.requests, request_lines(), request_text());
}

proof fn lemma_single_joined(l: Seq<char>)
    ensures
        joined(seq![l]) == l + "\n"@,
{
    assert(seq![l] == Seq::<Seq<char>>::empty().push(l));
    lemma_joined_push(Seq::empty(), l);
    assert(Seq::<char>::empty() + l =~= l);
}

proof fn lemma_header_append(x: Seq<char>, kw: Seq<char>, n: nat)
    requires
        is_word(kw),
        n <= usize::MAX,
    ensures
        x + (kw + " "@) + decimal(n) + "\n"@ == x + joined(seq![spaced(count_words(kw, n))]),
{
    lemma_count_line(kw, n, 0);
    lemma_single_joined(spaced(count_words(kw, n)));
    assert(x + (kw + " "@) + decimal(n) + "\n"@ =~= x + joined(seq![spaced(count_words(kw, n))]));
}

proof fn lemma_head_text(c: FixtureConfig, n: nat)
    requires
        n <= usize::MAX,
    ensures
        GOLDEN_MAGIC@ + "\n"@ + config_line(c) + "agents "@ + decimal(n) + "\n"@ == joined(
            seq![GOLDEN_MAGIC@, spaced(config_words(c)), spaced(count_words("agents"@, n))],
        ),
{
    lemma_keywords();
    let m = GOLDEN_MAGIC@;
    let cw = spaced(config_words(c));
    let ah = spaced(count_words("agents"@, n));
    lemma_config_line(c, 0);
    lemma_count_line("agents"@, n, 0);
    assert(seq![m, cw, ah] == seq![m].push(cw).push(ah));
    lemma_single_joined(m);
    lemma_joined_push(seq![m], cw);
    lemma_joined_push(seq![m].push(cw), ah);
    assert(m + "\n"@ + config_line(c) + "agents "@ + decimal(n) + "\n"@ =~= joined(seq![m, cw, ah]));
}

proof fn lemma_end_text(x: Seq<char>)
    ensures
        x + "end\n"@ == x + joined(seq!["end"@]),
{
    reveal_strlit("end\n");
    reveal_strlit("end");
    reveal_strlit("\n");
    lemma_single_joined("end"@);
    assert("end\n"@ =~= "end"@ + "\n"@);
}

/// The golden text is its lines, each ended by a line break.
proof fn lemma_golden_text_lines(r: GoldenRecordsView)
    requires
        r.agents.len() <= usize::MAX,
        r.states.len() <= usize::MAX,
        r.requests.len() <= usize::MAX,
    ensures
        golden_text(r) == joined(golden_lines(r)),
{
    lemma_keywords();
    let c = r.config;
    let m = GOLDEN_MAGIC@;
    let cw = spaced(config_words(c));
    let ah = spaced(count_words("agents"@, r.agents.len()));
    let sh = spaced(count_words("states"@, r.states.len()));
    let rh = spaced(count_words("requests"@, r.requests.len()));
    lemma_list_texts(r);
    let at = agent_texts(r.agents);
    let st = state_texts(r.states);
    let rt = request_texts(r.requests);
    let h = seq![m, cw, ah];
    let e1 = seq![sh];
    let e2 = seq![rh];
    let e3 = seq!["end"@];
    let l1 = h + at;
    let l2 = l1 + e1;
    let l3 = l2 + st;
    let l4 = l3 + e2;
    let l5 = l4 + rt;
    let l6 = l5 + e3;
    let t1 = m + "\n"@ + config_line(c) + "agents "@ + decimal(r.agents.len()) + "\n"@;
    lemma_head_text(c, r.agents.len());
    let t2 = t1 + concat_map(r.agents, agent_lines());
    lemma_joined_append(h, at);
    let t3 = t2 + "states "@ + decimal(r.states.len()) + "\n"@;
    lemma_header_append(t2, "states"@, r.states.len());
    lemma_joined_append(l1, e1);
    let t4 = t3 + concat_map(r.states, state_lines());
    lemma_joined_append(l2, st);
    let t5 = t4 + "requests "@ + decimal(r.requests.len()) + "\n"@;
    lemma_header_append(t4, "requests"@, r.requests.len());
    lemma_joined_append(l3, e2);
    let t6 = t5 + concat_map(r.requests, request_lines());
    lemma_joined_append(l4, rt);
    lemma_end_text(t6);
    lemma_joined_append(l5, e3);
    assert(golden_text(r) == t6 + "end\n"@);
    assert(l6 == golden_lines(r));
}

proof fn lemma_agent_texts_clean(agents: Seq<GoldenAgentView>)
    ensures
        all_clean(agent_texts(agents)),
{
    let at = agent_texts(agents);
    assert forall|i: int| 0 <= i < at.len() implies clean_line(#[trigger] at[i]) by {
        lemma_agent_line(agents[i], 0);
        lemma_spaced_clean(agent_words(agents[i]));
    }
}

proof fn lemma_state_texts_clean(states: Seq<GoldenState>)
    ensures
        all_clean(state_texts(states)),
{
    let st = state_texts(states);
    assert forall|i: int| 0 <= i < st.len() implies clean_line(#[trigger] st[i]) by {
        lemma_state_line(states[i], 0);
        lemma_spaced_clean(state_words(states[i]));
    }
}

proof fn lemma_request_texts_clean(requests: Seq<GoldenRequestView>)
    ensures
        all_clean(request_texts(requests)),
{
    let rt = request_texts(requests);
    assert forall|i: int| 0 <= i < rt.len() implies clean_line(#[trigger] rt[i]) by {
        lemma_request_line(requests[i], 0);
        lemma_spaced_clean(request_words(requests[i]));
    }
}

proof fn lemma_header_clean(kw: Seq<char>, n: nat)
    requires
        is_word(kw),
        n <= usize::MAX,
    ensures
        all_clean(seq![spaced(count_words(kw, n))]),
{
    lemma_count_line(kw, n, 0);
    lemma_spaced_clean(count_words(kw, n));
}

proof fn lemma_head_clean(c: FixtureConfig, n: nat)
    requires
        n <= usize::MAX,
    ensures
        all_clean(seq![GOLDEN_MAGIC@, spaced(config_words(c)), spaced(count_words("agents"@, n))]),
{
    lemma_keywords();
    assert(clean_line(GOLDEN_MAGIC@)) by {
        reveal_strlit("qtom-golden-fixture-v1");
    }
    lemma_config_line(c, 0);
    lemma_spaced_clean(config_words(c));
    lemma_count_line("agents"@, n, 0);
    lemma_spaced_clean(count_words("agents"@, n));
}

/// Every line of the golden text is clean.
proof fn lemma_golden_lines_clean(r: GoldenRecordsView)
    requires
        r.agents.len() <= usize::MAX,
        r.states.len() <= usize::MAX,
        r.requests.len() <= usize::MAX,
    ensures
        all_clean(golden_lines(r)),
{
    lemma_keywords();
    let h = seq![
        GOLDEN_MAGIC@,
        spaced(config_words(r.config)),
        spaced(count_words("agents"@, r.agents.len())),
    ];
    let e1 = seq![spaced(count_words("states"@, r.states.len()))];
    let e2 = seq![spaced(count_words("requests"@, r.requests.len()))];
    let e3 = seq!["end"@];
    let at = agent_texts(r.agents);
    let st = state_texts(r.states);
    let rt = request_texts(r.requests);
    lemma_head_clean(r.config, r.agents.len());
    lemma_header_clean("states"@, r.states.len());
    lemma_header_clean("requests"@, r.requests.len());
    assert(all_clean(e3)) by {
        reveal_strlit("end");
        assert(clean_line(e3[0]));
    }
    lemma_agent_texts_clean(r.agents);
    lemma_state_texts_clean(r.states);
    lemma_request_texts_clean(r.requests);
    lemma_all_clean_append(h, at);
    lemma_all_clean_append(h + at, e1);
    lemma_all_clean_append(h + at + e1, st);
    lemma_all_clean_append(h + at + e1 + st, e2);
    lemma_all_clean_append(h + at + e1 + st + e2, rt);
    lemma_all_clean_append(h + at + e1 + st + e2 + rt, e3);
}

/// Where each line of the golden text stands.
proof fn lemma_golden_lines_at(r: GoldenRecordsView)
    ensures
        ({
            let l = golden_lines(r);
            let na = r.agents.len() as int;
            let ns = r.states.len() as int;
            let nr = r.requests.len() as int;
            &&& l.len() == 6 + na + ns + nr
            &&& l[0] == GOLDEN_MAGIC@
            &&& l[1] == spaced(config_words(r.config))
            &&& l[2] == spaced(count_words("agents"@, r.agents.len()))
            &&& forall|j: int| 3 <= j < 3 + na ==> #[trigger] l[j] == spaced(agent_words(r.agents[j - 3]))
            &&& l[3 + na] == spaced(count_words("states"@, r.states.len()))
            &&& forall|j: int| 4 + na <= j < 4 + na + ns ==> #[trigger] l[j] == spaced(
                state_words(r.states[j - 4 - na]),
            )
            &&& l[4 + na + ns] == spaced(count_words("requests"@, r.requests.len()))
            &&& forall|j: int| 5 + na + ns <= j < 5 + na + ns + nr ==> #[trigger] l[j] == spaced(
                request_words(r.requests[j - 5 - na - ns]),
            )
            &&& l[5 + na + ns + nr] == "end"@
        }),
{
    let l = golden_lines(r);
    let na = r.agents.len() as int;
    let ns = r.states.len() as int;
    let nr = r.requests.len() as int;
    let h = seq![
        GOLDEN_MAGIC@,
        spaced(config_words(r.config)),
        spaced(count_words("agents"@, r.agents.len())),
    ];
    let e1 = seq![spaced(count_words("states"@, r.states.len()))];
    let e2 = seq![spaced(count_words("requests"@, r.requests.len()))];
    let e3 = seq!["end"@];
    let at = agent_texts(r.agents);
    let st = state_texts(r.states);
    let rt = request_texts(r.requests);
    let l1 = h + at;
    let l2 = l1 + e1;
    let l3 = l2 + st;
    let l4 = l3 + e2;
    let l5 = l4 + rt;
    assert(l == l5 + e3);
    assert forall|j: int| 3 <= j < 3 + na implies #[trigger] l[j] == spaced(agent_words(r.agents[j - 3])) by {
        assert(l[j] == l5[j]);
        assert(l5[j] == l4[j]);
        assert(l4[j] == l3[j]);
        assert(l3[j] == l2[j]);
        assert(l2[j] == l1[j]);
        assert(l1[j] == at[j - 3]);
    }
    assert forall|j: int| 4 + na <= j < 4 + na + ns implies #[trigger] l[j] == spaced(
        state_words(r.states[j - 4 - na]),
    ) by {
        assert(l[j] == l5[j]);
        assert(l5[j] == l4[j]);
        assert(l4[j] == l3[j]);
        assert(l3[j] == st[j - 4 - na]);
    }
    assert forall|j: int| 5 + na + ns <= j < 5 + na + ns + nr implies #[trigger] l[j] == spaced(
        request_words(r.requests[j - 5 - na - ns]),
    ) by {
        assert(l[j] == l5[j]);
        assert(l5[j] == rt[j - 5 - na - ns]);
    }
    assert(l[3 + na] == l2[3 + na]);
    assert(l[4 + na + ns] == l4[4 + na + ns]);
    assert(l[0] == h[0]);
    assert(l[1] == h[1]);
    assert(l[2] == h[2]);
}

proof fn lemma_agents_fit(agents: Seq<GoldenAgentView>, dims: nat)
    requires
        first_misfit_agent(agents, dims) is None,
    ensures
        forall|i: int| 0 <= i < agents.len() ==> (#[trigger] agents[i]).vector_bits.len() == dims,
    decreases agents.len(),
{
    if agents.len() > 0 {
        let a0 = agents.drop_last();
        lemma_agents_fit(a0, dims);
        assert forall|i: int| 0 <= i < agents.len() implies (#[trigger] agents[i]).vector_bits.len() == dims by {
            if i < a0.len() {
                assert(agents[i] == a0[i]);
            }
        }
    }
}

proof fn lemma_requests_fit(requests: Seq<GoldenRequestView>, dims: nat)
    requires
        first_misfit_request(requests, dims) is None,
    ensures
        forall|i: int| 0 <= i < requests.len() ==> (#[trigger] requests[i]).vector_bits.len() == dims,
    decreases requests.len(),
{
    if requests.len() > 0 {
        let r0 = requests.drop_last();
        lemma_requests_fit(r0, dims);
        assert forall|i: int| 0 <= i < requests.len() implies (#[trigger] requests[i]).vector_bits.len() == dims by {
            if i < r0.len() {
                assert(requests[i] == r0[i]);
            }
        }
    }
}

proof fn lemma_agent_records_read(
    lines: Seq<(int, Seq<char>)>,
    start: nat,
    agents: Seq<GoldenAgentView>,
    k: nat,
    dims: nat,
    total: nat,
)
    requires
        k <= agents.len(),
        start + agents.len() <= lines.len(),
        forall|j: int| start <= j < start + agents.len() ==> (#[trigger] lines[j]).1 == spaced(
            agent_words(agents[j - start]),
        ),
        forall|i: int| 0 <= i < agents.len() ==> (#[trigger] agents[i]).vector_bits.len() == dims,
    ensures
        agent_records(lines, start, k, dims, total) == Ok::<Seq<GoldenAgentView>, (int, Seq<char>)>(
            agents.take(k as int),
        ),
    decreases k,
{
    if k == 0 {
        assert(agents.take(0) =~= Seq::<GoldenAgentView>::empty());
    } else {
        lemma_agent_records_read(lines, start, agents, (k - 1) as nat, dims, total);
        let j = start + k - 1;
        let a = agents[k - 1];
        assert(lines[j].1 == spaced(agent_words(agents[j - start])));
        assert(a.vector_bits.len() == dims);
        lemma_agent_line(a, lines[j].0);
        assert(lines[j] == (lines[j].0, lines[j].1));
        assert(agents.take(k - 1).push(a) =~= agents.take(k as int));
    }
}

proof fn lemma_state_records_read(
    lines: Seq<(int, Seq<char>)>,
    start: nat,
    states: Seq<GoldenState>,
    k: nat,
    total: nat,
)
    requires
        k <= states.len(),
        start + states.len() <= lines.len(),
        forall|j: int| start <= j < start + states.len() ==> (#[trigger] lines[j]).1 == spaced(
            state_words(states[j - start]),
        ),
    ensures
        state_records(lines, start, k, total) == Ok::<Seq<GoldenState>, (int, Seq<char>)>(
            states.take(k as int),
        ),
    decreases k,
{
    if k == 0 {
        assert(states.take(0) =~= Seq::<GoldenState>::empty());
    } else {
        lemma_state_records_read(lines, start, states, (k - 1) as nat, total);
        let j = start + k - 1;
        let st = states[k - 1];
        assert(lines[j].1 == spaced(state_words(states[j - start])));
        lemma_state_line(st, lines[j].0);
        assert(lines[j] == (lines[j].0, lines[j].1));
        assert(states.take(k - 1).push(st) =~= states.take(k as int));
    }
}

proof fn lemma_request_records_read(
    lines: Seq<(int, Seq<char>)>,
    start: nat,
    requests: Seq<GoldenRequestView>,
    k: nat,
    dims: nat,
    total: nat,
)
    requires
        k <= requests.len(),
        start + requests.len() <= lines.len(),
        forall|j: int| start <= j < start + requests.len() ==> (#[trigger] lines[j]).1 == spaced(
            request_words(requests[j - start]),
        ),
        forall|i: int| 0 <= i < requests.len() ==> (#[trigger] requests[i]).vector_bits.len() == dims,
    ensures
        request_records(lines, start, k, dims, total) == Ok::<Seq<GoldenRequestView>, (int, Seq<char>)>(
            requests.take(k as int),
        ),
    decreases k,
{
    if k == 0 {
        assert(requests.take(0) =~= Seq::<GoldenRequestView>::empty());
    } else {
        lemma_request_records_read(lines, start, requests, (k - 1) as nat, dims, total);
        let j = start + k - 1;
        let q = requests[k - 1];
        assert(lines[j].1 == spaced(request_words(requests[j - start])));
        assert(q.vector_bits.len() == dims);
        lemma_request_line(q, lines[j].0);
        assert(lines[j] == (lines[j].0, lines[j].1));
        assert(requests.take(k - 1).push(q) =~= requests.take(k as int));
    }
}

/// A text whose first and last characters are not white space is its own trim.
proof fn lemma_trim_clean(s: Seq<char>)
    requires
        s.len() > 0,
        !spec_is_whitespace(s[0]),
        !spec_is_whitespace(s.last()),
    ensures
        trim_text(s) == s,
{
}

/// The golden text's lines, numbered: none is blank, so the n-th non-blank
/// line is the n-th line.
proof fn lemma_golden_numbered(r: GoldenRecordsView)
    requires
        r.agents.len() <= usize::MAX,
        r.states.len() <= usize::MAX,
        r.requests.len() <= usize::MAX,
    ensures
        text_lines(golden_text(r)) == golden_lines(r),
        numbered_nonblank(golden_lines(r)).len() == golden_lines(r).len(),
        forall|j: int| 0 <= j < golden_lines(r).len() ==> #[trigger] numbered_nonblank(golden_lines(r))[j] == (
            j + 1,
            golden_lines(r)[j],
        ),
{
    lemma_golden_text_lines(r);
    lemma_golden_lines_clean(r);
    let l = golden_lines(r);
    assert forall|i: int| 0 <= i < l.len() implies no_newline(#[trigger] l[i]) && !is_blank(l[i]) by {
        assert(clean_line(l[i]));
    }
    lemma_line_scan_joined(l);
    lemma_numbered_all(l);
}

/// After the agents, the states, the requests and the end marker read back.
proof fn lemma_golden_after_agents(r: GoldenRecordsView, lines: Seq<(int, Seq<char>)>, total: nat)
    requires
        shape_error(r) is None,
        r.agents.len() <= usize::MAX,
        r.states.len() <= usize::MAX,
        r.requests.len() <= usize::MAX,
        lines.len() == golden_lines(r).len(),
        forall|j: int| 0 <= j < golden_lines(r).len() ==> #[trigger] lines[j] == (j + 1, golden_lines(r)[j]),
        forall|i: int| 0 <= i < r.requests.len() ==> (#[trigger] r.requests[i]).vector_bits.len()
            == r.config.dimensions,
    ensures
        golden_after_agents(lines, (3 + r.agents.len()) as nat, total, r.config, r.agents) == Ok::<
            GoldenRecordsView,
            (int, Seq<char>),
        >(r),
{
    let c = r.config;
    let dims = c.dimensions as nat;
    let na = r.agents.len() as int;
    let ns = r.states.len() as int;
    let nr = r.requests.len() as int;
    lemma_golden_lines_at(r);
    lemma_keywords();
    let at = (3 + na) as nat;
    lemma_count_line("states"@, ns as nat, (at + 1) as int);
    assert(lines[at as int] == ((at + 1) as int, spaced(count_words("states"@, ns as nat))));
    lemma_state_records_read(lines, at + 1, r.states, ns as nat, total);
    assert(r.states.take(ns) =~= r.states);
    let q = (at + 1 + ns) as nat;
    lemma_count_line("requests"@, nr as nat, (q + 1) as int);
    assert(lines[q as int] == ((q + 1) as int, spaced(count_words("requests"@, nr as nat))));
    lemma_request_records_read(lines, q + 1, r.requests, nr as nat, dims, total);
    assert(r.requests.take(nr) =~= r.requests);
    let e = (q + 1 + nr) as nat;
    assert(trim_text(lines[e as int].1) == "end"@) by {
        reveal_strlit("end");
        lemma_trim_clean("end"@);
    }
    let back = GoldenRecordsView { config: c, agents: r.agents, states: r.states, requests: r.requests };
    assert(back == r);
    assert(golden_tail(lines, e, total, back) == Ok::<GoldenRecordsView, (int, Seq<char>)>(r));
}

/// Reading the golden text written from a fixture whose shape matches its
/// configuration gives back that fixture, unchanged.
pub proof fn law_golden_round_trip(r: GoldenRecordsView)
    requires
        shape_error(r) is None,
    ensures
        golden_outcome(golden_text(r)) == Ok::<GoldenRecordsView, (int, Seq<char>)>(r),
{
    let c = r.config;
    let dims = c.dimensions as nat;
    let na = r.agents.len() as int;
    assert(na == c.agent_count && r.states.len() == c.agent_count && r.requests.len() == c.task_count);
    assert(first_misfit_agent(r.agents, dims) is None);
    assert(first_misfit_request(r.requests, dims) is None);
    lemma_agents_fit(r.agents, dims);
    lemma_requests_fit(r.requests, dims);
    lemma_golden_numbered(r);
    lemma_golden_lines_at(r);
    let l = golden_lines(r);
    let total = l.len();
    let lines = numbered_nonblank(l);
    lemma_keywords();
    assert(trim_text(lines[0].1) == GOLDEN_MAGIC@) by {
        reveal_strlit("qtom-golden-fixture-v1");
        lemma_trim_clean(GOLDEN_MAGIC@);
    }
    lemma_config_line(c, 2);
    assert(lines[1] == (2int, spaced(config_words(c))));
    lemma_count_line("agents"@, na as nat, 3);
    assert(lines[2] == (3int, spaced(count_words("agents"@, na as nat))));
    lemma_agent_records_read(lines, 3, r.agents, na as nat, dims, total);
    assert(r.agents.take(na) =~= r.agents);
    lemma_golden_after_agents(r, lines, total);
}

/// A fixture read from any golden text has a shape that matches its
/// configuration, so writing it and reading the result back gives the same
/// fixture again.
pub proof fn law_golden_reread(text: Seq<char>)
    requires
        golden_outcome(text) is Ok,
    ensures
        shape_error(golden_outcome(text)->Ok_0) is None,
        golden_outcome(golden_text(golden_outcome(text)->Ok_0)) == golden_outcome(text),
{
    let r = golden_outcome(text)->Ok_0;
    assert(shape_error(r) is None);
    law_golden_round_trip(r);
}

} // verus!

