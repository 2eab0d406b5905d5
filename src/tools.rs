use vstd::prelude::*;
use crate::json::{get_text, json_member, member, parse_json, parsed_json, text_member};
use crate::text::{
    lemma_trim_bounds, lemma_trim_idempotent, chars_of, decimal, find_from, find_in, lemma_find_first, lemma_find_from, lemma_find_none,
    lemma_match_within, match_at, push_decimal, push_range, text_of, trim, trim_chars,
};

verus! {

/// The tag that opens a tool call in generated text.
pub open spec fn open_tag() -> Seq<char> {
    "<tool_call>"@
}

/// The tag that closes a tool call.
pub open spec fn close_tag() -> Seq<char> {
    "</tool_call>"@
}

/// The delimited blocks of `s` from position `pos` on, left to right, each as
/// the position of its opening tag and that of its closing tag. A block that
/// opens and is never closed ends the scan.
pub open spec fn spans_from(s: Seq<char>, pos: int) -> Seq<(int, int)>
    decreases s.len() + 1 - pos,
{
    if pos < 0 || pos > s.len() {
        seq![]
    } else {
        match find_from(s, open_tag(), pos) {
            None => seq![],
            Some(a) => match find_from(s, close_tag(), a + open_tag().len()) {
                None => seq![],
                Some(b) => if pos < b + close_tag().len() <= s.len() {
                    seq![(a, b)] + spans_from(s, b + close_tag().len())
                } else {
                    seq![]
                },
            },
        }
    }
}

/// `s` with its delimited blocks taken out one at a time: the first block
/// is cut, and the joined text is searched again from its start, until no
/// opening tag is followed by a closing tag.
pub open spec fn strip_blocks(s: Seq<char>) -> Seq<char>
    decreases s.len(),
{
    match find_from(s, open_tag(), 0) {
        None => s,
        Some(a) => match find_from(s, close_tag(), a + open_tag().len()) {
            None => s,
            Some(b) => if 0 <= a < b + close_tag().len() <= s.len() {
                strip_blocks(s.subrange(0, a) + s.subrange(b + close_tag().len(), s.len() as int))
            } else {
                s
            },
        },
    }
}

/// `s` holds no opening tag that a closing tag follows.
pub open spec fn no_block(s: Seq<char>) -> bool {
    forall|i: int, j: int|
        #![trigger match_at(s, open_tag(), i), match_at(s, close_tag(), j)]
        match_at(s, open_tag(), i) && i + open_tag().len() <= j ==> !match_at(s, close_tag(), j)
}

/// What stands between the tags of each block.
pub open spec fn payloads_of(s: Seq<char>, spans: Seq<(int, int)>) -> Seq<Seq<char>> {
    spans.map_values(|sp: (int, int)| s.subrange(sp.0 + open_tag().len(), sp.1))
}

/// The payloads of all blocks of `s`, in order.
pub open spec fn payloads(s: Seq<char>) -> Seq<Seq<char>> {
    payloads_of(s, spans_from(s, 0))
}

/// The name and the arguments of a call when the trimmed payload is a JSON
/// document with a string `name` and an `arguments` member.
pub open spec fn decode_payload(p: Seq<char>) -> Option<(Seq<char>, serde_json::Value)> {
    match parsed_json(trim(p)) {
        Some(doc) => match (text_member(doc, "name"@), json_member(doc, "arguments"@)) {
            (Some(n), Some(a)) => Some((n, a)),
            _ => None,
        },
        None => None,
    }
}

/// The calls that the payloads decode to, in order; the others are dropped.
pub open spec fn decoded(ps: Seq<Seq<char>>) -> Seq<(Seq<char>, serde_json::Value)>
    decreases ps.len(),
{
    if ps.len() == 0 {
        seq![]
    } else {
        let rest = decoded(ps.drop_last());
        match decode_payload(ps.last()) {
            Some(c) => rest.push(c),
            None => rest,
        }
    }
}

/// The calls found in `s`.
pub open spec fn calls_in(s: Seq<char>) -> Seq<(Seq<char>, serde_json::Value)> {
    decoded(payloads(s))
}

/// The identifier given to the call at position `k` of one pass.
pub open spec fn call_id(k: nat) -> Seq<char> {
    "call_"@ + decimal(k)
}

/// A call of a tool found in generated text, with its result once executed.
pub struct ToolCall {
    pub id: String,
    pub name: String,
    pub arguments: serde_json::Value,
    pub result: Option<String>,
}

/// A tool call in plain values.
pub struct CallView {
    pub id: Seq<char>,
    pub name: Seq<char>,
    pub arguments: serde_json::Value,
    pub result: Option<Seq<char>>,
}

impl View for ToolCall {
    type V = CallView;

    open spec fn view(&self) -> CallView {
        CallView {
            id: self.id@,
            name: self.name@,
            arguments: self.arguments,
            result: match self.result {
                Some(t) => Some(t@),
                None => None,
            },
        }
    }
}

impl ToolCall {
    /// A copy holding the same values.
    pub fn duplicate(&self) -> (r: ToolCall)
        ensures
            r@ == self@,
    {
        let result = match &self.result {
            Some(t) => Some(t.clone()),
            None => None,
        };
        ToolCall {
            id: self.id.clone(),
            name: self.name.clone(),
            arguments: self.arguments.clone(),
            result,
        }
    }
}

/// The calls found in `s` as a pass numbers them, none executed yet.
pub open spec fn fresh_calls(s: Seq<char>) -> Seq<CallView> {
    Seq::new(
        calls_in(s).len(),
        |k: int|
            CallView {
                id: call_id(k as nat),
                name: calls_in(s)[k].0,
                arguments: calls_in(s)[k].1,
                result: None,
            },
    )
}

/// The call at position `k` of a pass is the decoded `c`, not yet executed.
pub open spec fn call_matches(t: ToolCall, k: nat, c: (Seq<char>, serde_json::Value)) -> bool {
    &&& t.id@ == call_id(k)
    &&& t.name@ == c.0
    &&& t.arguments == c.1
    &&& t.result is None
}

/// Reads the call that a payload holds.
fn decode_call(p: &Vec<char>) -> (r: Option<(String, serde_json::Value)>)
    ensures
        match r {
            Some((n, a)) => decode_payload(p@) == Some((n@, a)),
            None => decode_payload(p@) is None,
        },
{
    let t = text_of(&trim_chars(p));
    match parse_json(t.as_str()) {
        Some(doc) => {
            let name = get_text(&doc, "name");
            let args = member(&doc, "arguments");
            match (name, args) {
                (Some(n), Some(a)) => Some((n, a)),
                _ => None,
            }
        },
        None => None,
    }
}

/// The tool calls in `text`, left to right, numbered from `call_0`. A block
/// whose payload does not decode is skipped; an unclosed block ends the scan.
pub fn parse_tool_calls(text: &str) -> (r: Vec<ToolCall>)
    ensures
        r@.len() == calls_in(text@).len(),
        forall|k: int| 0 <= k < r@.len() ==> call_matches(#[trigger] r@[k], k as nat, calls_in(text@)[k]),
        r@.map_values(|c: ToolCall| c@) == fresh_calls(text@),
{
    let s = chars_of(text);
    let open = chars_of("<tool_call>");
    let close = chars_of("</tool_call>");
    proof {
        reveal_strlit("<tool_call>");
        reveal_strlit("</tool_call>");
    }
    let n = s.len();
    let mut calls: Vec<ToolCall> = Vec::new();
    let mut pos: usize = 0;
    let ghost mut done: Seq<(int, int)> = seq![];
    loop
        invariant
            s@ == text@,
            open@ == open_tag(),
            close@ == close_tag(),
            close@.len() > 0,
            n == s@.len(),
            pos <= n,
            spans_from(s@, 0) == done + spans_from(s@, pos as int),
            calls@.len() == decoded(payloads_of(s@, done)).len(),
            forall|k: int| 0 <= k < calls@.len() ==> call_matches(#[trigger] calls@[k], k as nat, decoded(payloads_of(s@, done))[k]),
        ensures
            spans_from(s@, 0) == done,
        decreases n - pos,
    {
        let a = match find_in(&s, &open, pos) {
            Some(a) => a,
            None => {
                assert(spans_from(s@, 0) =~= done);
                break;
            },
        };
        proof { lemma_find_from(s@, open@, pos as int); }
        let b = match find_in(&s, &close, a + open.len()) {
            Some(b) => b,
            None => {
                assert(spans_from(s@, 0) =~= done);
                break;
            },
        };
        proof { lemma_find_from(s@, close@, a + open@.len()); }
        let ghost old_done = done;
        let ghost ps = payloads_of(s@, old_done);
        let mut p: Vec<char> = Vec::new();
        push_range(&mut p, &s, a + open.len(), b);
        let end = b + close.len();
        proof {
            done = done.push((a as int, b as int));
            assert(spans_from(s@, pos as int) == seq![(a as int, b as int)] + spans_from(s@, end as int));
            assert(spans_from(s@, 0) =~= done + spans_from(s@, end as int));
            assert(payloads_of(s@, done) =~= ps.push(p@));
            assert(payloads_of(s@, done).drop_last() =~= ps);
        }
        match decode_call(&p) {
            Some((name, arguments)) => {
                let mut idc = chars_of("call_");
                push_decimal(&mut idc, calls.len());
                let id = text_of(&idc);
                let ghost before = calls@;
                calls.push(ToolCall { id, name, arguments, result: None });
                assert forall|k: int| 0 <= k < calls@.len() implies call_matches(#[trigger] calls@[k], k as nat, decoded(payloads_of(s@, done))[k]) by {
                    if k < before.len() {
                        assert(calls@[k] == before[k]);
                    }
                }
            },
            None => {},
        }
        pos = end;
    }
    assert(calls@.map_values(|c: ToolCall| c@) =~= fresh_calls(text@));
    calls
}

/// `text` with every delimited block taken out, trimmed of white space at
/// both ends. Cutting a block out can join text into a new block; that one is
/// taken out too, so what is left holds no block.
pub fn extract_text_content(text: &str) -> (r: String)
    ensures
        r@ == trim(strip_blocks(text@)),
        no_block(r@),
{
    let mut cur = chars_of(text);
    let open = chars_of("<tool_call>");
    let close = chars_of("</tool_call>");
    proof {
        reveal_strlit("<tool_call>");
        reveal_strlit("</tool_call>");
    }
    loop
        invariant_except_break
            strip_blocks(text@) == strip_blocks(cur@),
        invariant
            open@ == open_tag(),
            close@ == close_tag(),
            close@.len() > 0,
        ensures
            strip_blocks(text@) == cur@,
        decreases cur@.len(),
    {
        let a = match find_in(&cur, &open, 0) {
            Some(a) => a,
            None => break,
        };
        proof { lemma_find_from(cur@, open@, 0); }
        let n = cur.len();
        let b = match find_in(&cur, &close, a + open.len()) {
            Some(b) => b,
            None => break,
        };
        proof { lemma_find_from(cur@, close@, a + open@.len()); }
        let mut next: Vec<char> = Vec::new();
        push_range(&mut next, &cur, 0, a);
        push_range(&mut next, &cur, b + close.len(), n);
        cur = next;
    }
    proof {
        lemma_strip_leaves_no_block(text@);
        lemma_trim_is_part(strip_blocks(text@));
    }
    text_of(&trim_chars(&cur))
}

/// What `strip_blocks` leaves holds no block.
pub proof fn lemma_strip_leaves_no_block(s: Seq<char>)
    ensures
        no_block(strip_blocks(s)),
    decreases s.len(),
{
    lemma_tag_facts();
    lemma_find_from(s, open_tag(), 0);
    match find_from(s, open_tag(), 0) {
        None => {},
        Some(a) => {
            lemma_find_from(s, close_tag(), a + open_tag().len());
            match find_from(s, close_tag(), a + open_tag().len()) {
                None => {
                    assert forall|i: int, j: int|
                        #![trigger match_at(s, open_tag(), i), match_at(s, close_tag(), j)]
                        match_at(s, open_tag(), i) && i + open_tag().len() <= j implies !match_at(s, close_tag(), j) by {
                        assert(a <= i);
                    }
                },
                Some(b) => {
                    lemma_strip_leaves_no_block(
                        s.subrange(0, a) + s.subrange(b + close_tag().len(), s.len() as int),
                    );
                },
            }
        },
    }
}

/// Text that holds no block is left as it is.
proof fn lemma_strip_without_block(s: Seq<char>)
    requires
        no_block(s),
    ensures
        strip_blocks(s) == s,
{
    lemma_tag_facts();
    lemma_find_from(s, open_tag(), 0);
    if let Some(a) = find_from(s, open_tag(), 0) {
        lemma_find_from(s, close_tag(), a + open_tag().len());
        if let Some(b) = find_from(s, close_tag(), a + open_tag().len()) {
            assert(match_at(s, open_tag(), a) && match_at(s, close_tag(), b));
        }
    }
}

/// Taking blocks out of what `extract_text_content` returns, and trimming,
/// changes nothing: a second extraction gives the same text.
pub proof fn lemma_extract_idempotent(s: Seq<char>)
    ensures
        trim(strip_blocks(trim(strip_blocks(s)))) == trim(strip_blocks(s)),
{
    lemma_strip_leaves_no_block(s);
    lemma_trim_is_part(strip_blocks(s));
    lemma_strip_without_block(trim(strip_blocks(s)));
    lemma_trim_idempotent(strip_blocks(s));
}

/// A block in trimmed text is a block in the text it was trimmed from.
proof fn lemma_trim_is_part(s: Seq<char>)
    requires
        no_block(s),
    ensures
        no_block(trim(s)),
{
    let (k, m) = lemma_trim_bounds(s);
    let t = trim(s);
    assert forall|i: int, j: int|
        #![trigger match_at(t, open_tag(), i), match_at(t, close_tag(), j)]
        match_at(t, open_tag(), i) && i + open_tag().len() <= j implies !match_at(t, close_tag(), j) by {
        if match_at(t, close_tag(), j) {
            lemma_match_shift(s, t, open_tag(), k, i);
            lemma_match_shift(s, t, close_tag(), k, j);
        }
    }
}

/// A match inside the part `t == s[k..k + t.len()]` is a match in `s`.
proof fn lemma_match_shift(s: Seq<char>, t: Seq<char>, pat: Seq<char>, k: int, i: int)
    requires
        0 <= k,
        k + t.len() <= s.len(),
        t == s.subrange(k, k + t.len()),
        match_at(t, pat, i),
    ensures
        match_at(s, pat, i + k),
{
    assert(s.subrange(i + k, i + k + pat.len()) =~= t.subrange(i, i + pat.len()));
}

/// `pat` never occurs in `x`.
pub open spec fn lacks(x: Seq<char>, pat: Seq<char>) -> bool {
    forall|i: int| !match_at(x, pat, i)
}

/// A tag whose first character `<` appears nowhere else in it does not occur
/// at `i` when `s` holds `<` at a position `q` inside that window but past its
/// start.
proof fn lemma_no_straddle(s: Seq<char>, tag: Seq<char>, q: int, i: int)
    requires
        tag.len() > 0,
        tag[0] == '<',
        forall|d: int| 0 < d < tag.len() ==> tag[d] != '<',
        0 <= i < q < i + tag.len(),
        q < s.len(),
        s[q] == '<',
    ensures
        !match_at(s, tag, i),
{
    if match_at(s, tag, i) {
        assert(s.subrange(i, i + tag.len())[q - i] == s[q]);
    }
}

proof fn lemma_tag_facts()
    ensures
        open_tag().len() == 11,
        close_tag().len() == 12,
        open_tag()[0] == '<',
        close_tag()[0] == '<',
        forall|d: int| 0 < d < open_tag().len() ==> open_tag()[d] != '<',
        forall|d: int| 0 < d < close_tag().len() ==> close_tag()[d] != '<',
{
    reveal_strlit("<tool_call>");
    reveal_strlit("</tool_call>");
}

/// Where `s` holds, from `pos`, prose `x` free of opening tags, then a block
/// whose payload `y` holds no closing tag, the scan from `pos` finds that block
/// first.
proof fn lemma_block_step(s: Seq<char>, pos: int, x: Seq<char>, y: Seq<char>)
    requires
        0 <= pos,
        pos + x.len() + open_tag().len() + y.len() + close_tag().len() <= s.len(),
        s.subrange(pos, pos + x.len() + open_tag().len() + y.len() + close_tag().len())
            == x + open_tag() + y + close_tag(),
        lacks(x, open_tag()),
        lacks(y, close_tag()),
    ensures
        ({
            let a: int = pos + x.len();
            let b: int = a + open_tag().len() + y.len();
            let end: int = b + close_tag().len();
            &&& find_from(s, open_tag(), pos) == Some(a)
            &&& find_from(s, close_tag(), a + open_tag().len()) == Some(b)
            &&& spans_from(s, pos) == seq![(a, b)] + spans_from(s, end)
            &&& s.subrange(a + open_tag().len(), b) == y
            &&& s.subrange(pos, a) == x
        }),
{
    lemma_tag_facts();
    let o = open_tag();
    let c = close_tag();
    let a: int = pos + x.len();
    let b: int = a + o.len() + y.len();
    let end: int = b + c.len();
    let w = x + o + y + c;
    assert forall|k: int| 0 <= k < w.len() implies #[trigger] s[pos + k] == w[k] by {
        assert(s.subrange(pos, pos + w.len())[k] == s[pos + k]);
    }
    assert(s.subrange(a, a + o.len()) =~= o) by {
        assert forall|k: int| 0 <= k < o.len() implies s.subrange(a, a + o.len())[k] == o[k] by {
            assert(s[pos + (x.len() + k)] == w[x.len() + k]);
        }
    }
    assert(s.subrange(b, b + c.len()) =~= c) by {
        assert forall|k: int| 0 <= k < c.len() implies s.subrange(b, b + c.len())[k] == c[k] by {
            assert(s[pos + (x.len() + o.len() + y.len() + k)] == w[x.len() + o.len() + y.len() + k]);
        }
    }
    assert(s.subrange(pos, a) =~= x) by {
        assert forall|k: int| 0 <= k < x.len() implies s.subrange(pos, a)[k] == x[k] by {
            assert(s[pos + k] == w[k]);
        }
    }
    assert(s.subrange(a + o.len(), b) =~= y) by {
        assert forall|k: int| 0 <= k < y.len() implies s.subrange(a + o.len(), b)[k] == y[k] by {
            assert(s[pos + (x.len() + o.len() + k)] == w[x.len() + o.len() + k]);
        }
    }
    assert(s[a] == '<') by {
        assert(s.subrange(a, a + o.len())[0] == s[a]);
    }
    assert(s[b] == '<') by {
        assert(s.subrange(b, b + c.len())[0] == s[b]);
    }
    assert forall|k: int| pos <= k < a implies !match_at(s, o, k) by {
        if match_at(s, o, k) {
            if k + o.len() <= a {
                lemma_match_within(s, x, o, pos, k);
            } else {
                lemma_no_straddle(s, o, a, k);
            }
        }
    }
    lemma_find_first(s, o, pos, a);
    assert forall|k: int| a + o.len() <= k < b implies !match_at(s, c, k) by {
        if match_at(s, c, k) {
            if k + c.len() <= b {
                lemma_match_within(s, y, c, a + o.len(), k);
            } else {
                lemma_no_straddle(s, c, b, k);
            }
        }
    }
    lemma_find_first(s, c, a + o.len(), b);
}

/// Where `s` holds from `pos` to its end only prose free of opening tags, the
/// scan finds no block there.
proof fn lemma_scan_tail(s: Seq<char>, pos: int)
    requires
        0 <= pos <= s.len(),
        lacks(s.subrange(pos, s.len() as int), open_tag()),
    ensures
        spans_from(s, pos) == Seq::<(int, int)>::empty(),
        find_from(s, open_tag(), pos) is None,
{
    let x = s.subrange(pos, s.len() as int);
    assert forall|k: int| pos <= k implies !match_at(s, open_tag(), k) by {
        if match_at(s, open_tag(), k) {
            lemma_match_within(s, x, open_tag(), pos, k);
        }
    }
    lemma_find_none(s, open_tag(), pos);
}

/// Text in which no opening tag occurs holds no calls, and what is left of it
/// once blocks are taken out is the text itself.
pub proof fn lemma_no_blocks(s: Seq<char>)
    requires
        lacks(s, open_tag()),
    ensures
        payloads(s) == Seq::<Seq<char>>::empty(),
        calls_in(s) == Seq::<(Seq<char>, serde_json::Value)>::empty(),
        strip_blocks(s) == s,
{
    assert(s.subrange(0, s.len() as int) =~= s);
    lemma_scan_tail(s, 0);
    assert(payloads(s) =~= Seq::<Seq<char>>::empty());
}

/// A text free of a tag holds none in any of its stretches.
proof fn lemma_lacks_within(s: Seq<char>, x: Seq<char>, pos: int, pat: Seq<char>)
    requires
        0 <= pos,
        pos + x.len() <= s.len(),
        x == s.subrange(pos, pos + x.len()),
        lacks(s, pat),
    ensures
        lacks(x, pat),
{
    assert forall|i: int| !match_at(x, pat, i) by {
        if match_at(x, pat, i) {
            lemma_match_shift(s, x, pat, pos, i);
        }
    }
}

/// Cutting the first block out of `x`, a block with payload `y`, and `rest`
/// leaves `x` joined to `rest` to be searched again.
proof fn lemma_strip_step(x: Seq<char>, y: Seq<char>, rest: Seq<char>)
    requires
        lacks(x, open_tag()),
        lacks(y, close_tag()),
    ensures
        strip_blocks(x + open_tag() + y + close_tag() + rest) == strip_blocks(x + rest),
{
    lemma_tag_facts();
    let s = x + open_tag() + y + close_tag() + rest;
    let n: int = (x.len() + open_tag().len() + y.len() + close_tag().len()) as int;
    assert(s.subrange(0, n) =~= x + open_tag() + y + close_tag());
    lemma_block_step(s, 0, x, y);
    assert(s.subrange(n, s.len() as int) =~= rest);
    assert(s.subrange(0, x.len() as int) + s.subrange(n, s.len() as int) =~= x + rest);
}

/// Two well-formed blocks between stretches of prose free of opening tags: the
/// payloads come out in order and the calls are what they decode to in that
/// order. When the stretches, joined, still hold no opening tag, the prose is
/// the three of them joined; otherwise the joint can form a new block, which
/// is taken out in turn.
#[verifier::rlimit(40)]
pub proof fn lemma_two_blocks(
    p0: Seq<char>,
    j1: Seq<char>,
    p1: Seq<char>,
    j2: Seq<char>,
    p2: Seq<char>,
)
    requires
        lacks(p0, open_tag()),
        lacks(p1, open_tag()),
        lacks(p2, open_tag()),
        lacks(j1, close_tag()),
        lacks(j2, close_tag()),
    ensures
        ({
            let s = p0 + open_tag() + j1 + close_tag() + p1 + open_tag() + j2 + close_tag() + p2;
            &&& payloads(s) == seq![j1, j2]
            &&& calls_in(s) == decoded(seq![j1, j2])
            &&& (decode_payload(j1) is Some && decode_payload(j2) is Some) ==> calls_in(s) == seq![
                decode_payload(j1)->0,
                decode_payload(j2)->0,
            ]
            &&& lacks(p0 + p1 + p2, open_tag()) ==> strip_blocks(s) == p0 + p1 + p2
        }),
{
    lemma_tag_facts();
    let o = open_tag();
    let c = close_tag();
    let all = p0 + p1 + p2;
    let s = p0 + o + j1 + c + p1 + o + j2 + c + p2;
    let n1: int = (p0.len() + o.len() + j1.len() + c.len()) as int;
    let n2: int = (p1.len() + o.len() + j2.len() + c.len()) as int;
    assert(s.subrange(0, n1) =~= p0 + o + j1 + c);
    lemma_block_step(s, 0, p0, j1);
    assert(s.subrange(n1, n1 + n2) =~= p1 + o + j2 + c);
    lemma_block_step(s, n1, p1, j2);
    assert(s.subrange(n1 + n2, s.len() as int) =~= p2);
    lemma_scan_tail(s, n1 + n2);
    let a1: int = p0.len() as int;
    let b1: int = a1 + o.len() + j1.len();
    let a2: int = n1 + p1.len();
    let b2: int = a2 + o.len() + j2.len();
    assert(spans_from(s, 0) =~= seq![(a1, b1), (a2, b2)]);
    assert(payloads(s) =~= seq![j1, j2]);
    if lacks(all, o) {
        assert(all.subrange(0, (p0.len() + p1.len()) as int) =~= p0 + p1);
        lemma_lacks_within(all, p0 + p1, 0, o);
        let rest = p1 + o + j2 + c + p2;
        assert(s =~= p0 + o + j1 + c + rest);
        lemma_strip_step(p0, j1, rest);
        assert(p0 + rest =~= (p0 + p1) + o + j2 + c + p2);
        lemma_strip_step(p0 + p1, j2, p2);
        assert((p0 + p1) + p2 =~= all);
        lemma_no_blocks(all);
    }
    let ps = seq![j1, j2];
    assert(ps.drop_last() =~= seq![j1]);
    assert(seq![j1].drop_last() =~= Seq::<Seq<char>>::empty());
    assert(seq![j1].last() == j1);
    assert(ps.last() == j2);
    if decode_payload(j1) is Some && decode_payload(j2) is Some {
        let c1 = decode_payload(j1)->0;
        let c2 = decode_payload(j2)->0;
        assert(decoded(Seq::<Seq<char>>::empty()) =~= Seq::<(Seq<char>, serde_json::Value)>::empty());
        assert(decoded(seq![j1]) =~= seq![c1]);
        assert(decoded(ps) =~= seq![c1, c2]);
    }
}

} // verus!
