use vstd::prelude::*;

use crate::session::{Message, Role};

verus! {

/// The fixed model identifier sent with every request.
pub open spec fn model_id() -> Seq<char> {
    "deepseek-ai/DeepSeek-R1-Distill-Llama-70B-free"@
}

/// One completion request: the whole transcript plus the fixed model
/// identifier and sampling temperature, in tenths to stay integral.
pub struct ChatRequest {
    pub model: String,
    pub messages: Vec<Message>,
    pub temperature_tenths: u32,
    pub stream: bool,
}

/// The digit character for a value below sixteen, lower case.
pub open spec fn digit_char(d: int) -> char {
    if d == 0 { '0' } else if d == 1 { '1' } else if d == 2 { '2' } else if d == 3 { '3' }
    else if d == 4 { '4' } else if d == 5 { '5' } else if d == 6 { '6' } else if d == 7 { '7' }
    else if d == 8 { '8' } else if d == 9 { '9' } else if d == 10 { 'a' } else if d == 11 { 'b' }
    else if d == 12 { 'c' } else if d == 13 { 'd' } else if d == 14 { 'e' } else { 'f' }
}

/// Decimal digits of a non-negative number, most significant first.
pub open spec fn dec_spec(n: int) -> Seq<char>
    decreases n,
{
    if n < 10 {
        seq![digit_char(n)]
    } else {
        dec_spec(n / 10) + seq![digit_char(n % 10)]
    }
}

/// How one character of a string is written inside a JSON string literal.
pub open spec fn escape_char(c: char) -> Seq<char> {
    if c == '"' { seq!['\\', '"'] }
    else if c == '\\' { seq!['\\', '\\'] }
    else if c == '\n' { seq!['\\', 'n'] }
    else if c == '\r' { seq!['\\', 'r'] }
    else if c == '\t' { seq!['\\', 't'] }
    else if (c as u32) < 32 {
        seq!['\\', 'u', '0', '0', digit_char(c as u32 as int / 16), digit_char(c as u32 as int % 16)]
    } else {
        seq![c]
    }
}

/// The body of a JSON string literal for `s`.
pub open spec fn escape_str(s: Seq<char>) -> Seq<char>
    decreases s.len(),
{
    if s.len() == 0 {
        Seq::empty()
    } else {
        escape_str(s.drop_last()) + escape_char(s.last())
    }
}

/// The JSON string literal for `s`, quotes included.
pub open spec fn json_string(s: Seq<char>) -> Seq<char> {
    seq!['"'] + escape_str(s) + seq!['"']
}

/// The wire name of a role.
pub open spec fn role_name(r: Role) -> Seq<char> {
    match r {
        Role::System => "system"@,
        Role::User => "user"@,
        Role::Assistant => "assistant"@,
    }
}

/// The JSON object for one message.
pub open spec fn encode_message_spec(m: Message) -> Seq<char> {
    "{\"role\":"@ + json_string(role_name(m.role)) + ",\"content\":"@ + json_string(m.content@)
        + "}"@
}

/// The comma-separated JSON objects for a message sequence, in transcript
/// order.
pub open spec fn encode_messages_spec(ms: Seq<Message>) -> Seq<char>
    decreases ms.len(),
{
    if ms.len() == 0 {
        Seq::empty()
    } else if ms.len() == 1 {
        encode_message_spec(ms[0])
    } else {
        encode_messages_spec(ms.drop_last()) + ","@ + encode_message_spec(ms.last())
    }
}

/// The decimal rendering of a temperature given in tenths.
pub open spec fn temp_spec(tenths: int) -> Seq<char> {
    dec_spec(tenths / 10) + seq!['.'] + seq![digit_char(tenths % 10)]
}

/// The full JSON body of a completion request.
pub open spec fn encode_request_spec(r: ChatRequest) -> Seq<char> {
    "{\"model\":"@ + json_string(r.model@) + ",\"messages\":["@ + encode_messages_spec(r.messages@)
        + "],\"temperature\":"@ + temp_spec(r.temperature_tenths as int) + ",\"stream\":"@
        + (if r.stream { "true"@ } else { "false"@ }) + "}"@
}

/// The JSON body of the one-shot query: the fixed model and a two-entry
/// transcript, the system prompt then the user prompt, with no sampling
/// fields.
pub open spec fn encode_query_spec(sys: Seq<char>, user: Seq<char>) -> Seq<char> {
    "{\"model\":"@ + json_string(model_id()) + ",\"messages\":[{\"role\":"@ + json_string(
        "system"@,
    ) + ",\"content\":"@ + json_string(sys) + "},{\"role\":"@ + json_string("user"@)
        + ",\"content\":"@ + json_string(user) + "}]}"@
}

/// Builds the request for one turn: the transcript is embedded whole and
/// unchanged, the model identifier and temperature are fixed, and
/// streaming is off.
pub fn build_request(messages: Vec<Message>) -> (r: ChatRequest)
    ensures
        r.messages@ == messages@,
        r.model@ == model_id(),
        r.temperature_tenths == 8,
        r.stream == false,
{
    ChatRequest {
        model: String::from_str("deepseek-ai/DeepSeek-R1-Distill-Llama-70B-free"),
        messages,
        temperature_tenths: 8,
        stream: false,
    }
}

/// Serialization respects transcript order: at every split point, the
/// encoding of the first messages stands verbatim, and in order, before
/// the encoding of the rest.
pub proof fn lemma_encode_messages_split(ms: Seq<Message>, i: int)
    requires
        0 < i < ms.len(),
    ensures
        encode_messages_spec(ms) == encode_messages_spec(ms.subrange(0, i)) + ","@
            + encode_messages_spec(ms.subrange(i, ms.len() as int)),
    decreases ms.len(),
{
    let n = ms.len() as int;
    if i == n - 1 {
        assert(ms.subrange(0, i) =~= ms.drop_last());
        assert(ms.subrange(i, n) =~= seq![ms.last()]);
        assert(encode_messages_spec(seq![ms.last()]) == encode_message_spec(ms.last()));
    } else {
        lemma_encode_messages_split(ms.drop_last(), i);
        let tail = ms.subrange(i, n);
        assert(tail.len() >= 2);
        assert(tail.drop_last() =~= ms.subrange(i, n - 1));
        assert(tail.last() == ms.last());
        assert(ms.drop_last().subrange(0, i) =~= ms.subrange(0, i));
        assert(ms.drop_last().subrange(i, n - 1) =~= ms.subrange(i, n - 1));
        assert(encode_messages_spec(ms) == encode_messages_spec(ms.drop_last()) + ","@
            + encode_message_spec(ms.last()));
        assert(encode_messages_spec(tail) == encode_messages_spec(ms.subrange(i, n - 1)) + ","@
            + encode_message_spec(ms.last()));
        assert(encode_messages_spec(ms) =~= encode_messages_spec(ms.subrange(0, i)) + ","@
            + encode_messages_spec(tail));
    }
}

proof fn lemma_digit_char_injective(d1: int, d2: int)
    requires
        0 <= d1 < 16,
        0 <= d2 < 16,
        digit_char(d1) == digit_char(d2),
    ensures
        d1 == d2,
{
}

proof fn lemma_escape_char_shape(c: char)
    ensures
        escape_char(c).len() == 1 || escape_char(c).len() == 2 || escape_char(c).len() == 6,
        escape_char(c).len() == 1 ==> escape_char(c)[0] == c && escape_char(c)[0] != '\\',
        escape_char(c).len() == 2 ==> escape_char(c)[0] == '\\' && escape_char(c)[1] != 'u',
        escape_char(c).len() == 6 ==> escape_char(c)[0] == '\\' && escape_char(c)[1] == 'u',
{
}

proof fn lemma_escape_char_injective(c1: char, c2: char)
    requires
        escape_char(c1) == escape_char(c2),
    ensures
        c1 == c2,
{
    lemma_escape_char_shape(c1);
    lemma_escape_char_shape(c2);
    let e = escape_char(c1);
    if e.len() == 6 {
        let v1 = c1 as u32 as int;
        let v2 = c2 as u32 as int;
        assert(e[4] == digit_char(v1 / 16) && e[5] == digit_char(v1 % 16));
        assert(e[4] == digit_char(v2 / 16) && e[5] == digit_char(v2 % 16));
        lemma_digit_char_injective(v1 / 16, v2 / 16);
        lemma_digit_char_injective(v1 % 16, v2 % 16);
        assert(v1 == v2);
        assert(c1 == c2);
    }
}

proof fn lemma_escape_cons(s: Seq<char>)
    requires
        s.len() > 0,
    ensures
        escape_str(s) == escape_char(s[0]) + escape_str(s.subrange(1, s.len() as int)),
    decreases s.len(),
{
    if s.len() == 1 {
        assert(s.drop_last() =~= Seq::<char>::empty());
        assert(s.subrange(1, 1) =~= Seq::<char>::empty());
        assert(escape_str(s) =~= escape_char(s[0]) + escape_str(s.subrange(1, 1)));
    } else {
        lemma_escape_cons(s.drop_last());
        let t = s.subrange(1, s.len() as int);
        assert(s.drop_last().subrange(1, s.len() - 1) =~= t.drop_last());
        assert(s.drop_last()[0] == s[0]);
        assert(t.last() == s.last());
        assert(escape_str(t) == escape_str(t.drop_last()) + escape_char(t.last()));
        assert(escape_str(s) =~= escape_char(s[0]) + escape_str(t));
    }
}

/// Escaping is lossless: two texts with the same JSON literal body are the
/// same text, so a serialized message content determines the content.
pub proof fn lemma_escape_injective(a: Seq<char>, b: Seq<char>)
    requires
        escape_str(a) == escape_str(b),
    ensures
        a == b,
    decreases a.len(),
{
    if a.len() == 0 {
        if b.len() > 0 {
            lemma_escape_cons(b);
            lemma_escape_char_shape(b[0]);
            assert(escape_str(b).len() > 0);
        }
        assert(a =~= b);
    } else if b.len() == 0 {
        lemma_escape_cons(a);
        lemma_escape_char_shape(a[0]);
        assert(escape_str(a).len() > 0);
        assert(a =~= b);
    } else {
        lemma_escape_cons(a);
        lemma_escape_cons(b);
        lemma_escape_char_shape(a[0]);
        lemma_escape_char_shape(b[0]);
        let ea = escape_char(a[0]);
        let eb = escape_char(b[0]);
        let s = escape_str(a);
        assert(s[0] == ea[0]);
        assert(s[0] == eb[0]);
        if ea.len() == 1 || eb.len() == 1 {
            assert(ea.len() == 1 && eb.len() == 1);
            assert(a[0] == b[0]);
        } else {
            assert(s[1] == ea[1]);
            assert(s[1] == eb[1]);
            if ea[1] == 'u' {
                assert(ea.len() == 6 && eb.len() == 6);
            } else {
                assert(ea.len() == 2 && eb.len() == 2);
            }
            assert(ea =~= eb) by {
                assert(forall|k: int| 0 <= k < ea.len() ==> ea[k] == s[k] && eb[k] == s[k]);
            }
            lemma_escape_char_injective(a[0], b[0]);
        }
        let ta = a.subrange(1, a.len() as int);
        let tb = b.subrange(1, b.len() as int);
        assert(escape_str(ta) =~= escape_str(tb)) by {
            assert(escape_str(ta) =~= s.subrange(ea.len() as int, s.len() as int));
            assert(escape_str(tb) =~= s.subrange(eb.len() as int, s.len() as int));
        }
        lemma_escape_injective(ta, tb);
        assert(a.len() == b.len());
        assert forall|k: int| 0 <= k < a.len() implies a[k] == b[k] by {
            if k > 0 {
                assert(ta[k - 1] == tb[k - 1]);
            }
        }
        assert(a =~= b);
    }
}

/// A JSON string literal determines the text inside it: serializing two
/// different contents, or two different role names, never yields the same
/// literal.
pub proof fn lemma_json_string_injective(a: Seq<char>, b: Seq<char>)
    requires
        json_string(a) == json_string(b),
    ensures
        a == b,
{
    let ja = json_string(a);
    let jb = json_string(b);
    assert(escape_str(a) =~= ja.subrange(1, ja.len() - 1));
    assert(escape_str(b) =~= jb.subrange(1, jb.len() - 1));
    lemma_escape_injective(a, b);
}

/// The first character inside a role's JSON literal.
pub open spec fn role_head(r: Role) -> char {
    match r {
        Role::System => 's',
        Role::User => 'u',
        Role::Assistant => 'a',
    }
}

proof fn lemma_role_head(r: Role)
    ensures
        json_string(role_name(r)).len() >= 2,
        json_string(role_name(r))[1] == role_head(r),
{
    reveal_strlit("system");
    reveal_strlit("user");
    reveal_strlit("assistant");
    let name = role_name(r);
    lemma_escape_cons(name);
    assert(escape_char(name[0]) =~= seq![name[0]]);
    assert(escape_str(name)[0] == name[0]);
}

/// A serialized message determines its message: two messages with the
/// same JSON object have the same role and the same content.
pub proof fn lemma_encode_message_injective(m1: Message, m2: Message)
    requires
        encode_message_spec(m1) == encode_message_spec(m2),
    ensures
        m1.role == m2.role,
        m1.content@ == m2.content@,
{
    reveal_strlit("{\"role\":");
    reveal_strlit(",\"content\":");
    reveal_strlit("}");
    let p = "{\"role\":"@;
    let mid = ",\"content\":"@;
    let e1 = encode_message_spec(m1);
    let e2 = encode_message_spec(m2);
    let jr1 = json_string(role_name(m1.role));
    let jr2 = json_string(role_name(m2.role));
    lemma_role_head(m1.role);
    lemma_role_head(m2.role);
    assert(e1[p.len() as int + 1] == jr1[1]);
    assert(e2[p.len() as int + 1] == jr2[1]);
    assert(role_head(m1.role) == role_head(m2.role));
    assert(m1.role == m2.role);
    let k = p.len() + jr1.len() + mid.len();
    let jc1 = json_string(m1.content@);
    let jc2 = json_string(m2.content@);
    assert(e1.len() == k + jc1.len() + 1);
    assert(e2.len() == k + jc2.len() + 1);
    assert(jc1 =~= e1.subrange(k as int, e1.len() - 1)) by {
        assert(forall|t: int| 0 <= t < jc1.len() ==> e1[k + t] == jc1[t]);
    }
    assert(jc2 =~= e2.subrange(k as int, e2.len() - 1)) by {
        assert(forall|t: int| 0 <= t < jc2.len() ==> e2[k + t] == jc2[t]);
    }
    lemma_json_string_injective(m1.content@, m2.content@);
}

/// The digit character for a value below sixteen, lower case.
fn digit_exec(d: u8) -> (c: char)
    requires
        d < 16,
    ensures
        c == digit_char(d as int),
{
    if d == 0 { '0' } else if d == 1 { '1' } else if d == 2 { '2' } else if d == 3 { '3' }
    else if d == 4 { '4' } else if d == 5 { '5' } else if d == 6 { '6' } else if d == 7 { '7' }
    else if d == 8 { '8' } else if d == 9 { '9' } else if d == 10 { 'a' } else if d == 11 { 'b' }
    else if d == 12 { 'c' } else if d == 13 { 'd' } else if d == 14 { 'e' } else { 'f' }
}

/// Appends the decimal digits of `n`.
pub(crate) fn push_dec(out: &mut Vec<char>, n: u32)
    ensures
        final(out)@ == old(out)@ + dec_spec(n as int),
    decreases n,
{
    if n < 10 {
        out.push(digit_exec(n as u8));
        assert(out@ =~= old(out)@ + dec_spec(n as int));
    } else {
        push_dec(out, n / 10);
        out.push(digit_exec((n % 10) as u8));
        assert(out@ =~= old(out)@ + dec_spec(n as int));
    }
}

/// Appends the characters of `s` unchanged.
pub(crate) fn push_str_chars(out: &mut Vec<char>, s: &str)
    ensures
        final(out)@ == old(out)@ + s@,
{
    let n = s.unicode_len();
    let mut i: usize = 0;
    while i < n
        invariant
            n == s@.len(),
            i <= n,
            out@ == old(out)@ + s@.subrange(0, i as int),
        decreases n - i,
    {
        out.push(s.get_char(i));
        assert(out@ =~= old(out)@ + s@.subrange(0, i + 1));
        i += 1;
    }
    assert(s@.subrange(0, n as int) =~= s@);
}

/// Appends the body of the JSON string literal for `s`.
fn push_escaped(out: &mut Vec<char>, s: &str)
    ensures
        final(out)@ == old(out)@ + escape_str(s@),
{
    let n = s.unicode_len();
    let mut i: usize = 0;
    while i < n
        invariant
            n == s@.len(),
            i <= n,
            out@ == old(out)@ + escape_str(s@.subrange(0, i as int)),
        decreases n - i,
    {
        let c = s.get_char(i);
        if c == '"' {
            out.push('\\');
            out.push('"');
        } else if c == '\\' {
            out.push('\\');
            out.push('\\');
        } else if c == '\n' {
            out.push('\\');
            out.push('n');
        } else if c == '\r' {
            out.push('\\');
            out.push('r');
        } else if c == '\t' {
            out.push('\\');
            out.push('t');
        } else if (c as u32) < 32 {
            out.push('\\');
            out.push('u');
            out.push('0');
            out.push('0');
            out.push(digit_exec((c as u32 / 16) as u8));
            out.push(digit_exec((c as u32 % 16) as u8));
        } else {
            out.push(c);
        }
        proof {
            assert(s@.subrange(0, i + 1).drop_last() =~= s@.subrange(0, i as int));
            assert(s@.subrange(0, i + 1).last() == s@[i as int]);
            assert(out@ =~= old(out)@ + escape_str(s@.subrange(0, i + 1)));
        }
        i += 1;
    }
    assert(s@.subrange(0, n as int) =~= s@);
}

/// The wire name of a role.
fn role_str(r: Role) -> (s: &'static str)
    ensures
        s@ == role_name(r),
{
    match r {
        Role::System => "system",
        Role::User => "user",
        Role::Assistant => "assistant",
    }
}

/// Appends the JSON object for one message.
fn push_message(out: &mut Vec<char>, m: &Message)
    ensures
        final(out)@ == old(out)@ + encode_message_spec(*m),
{
    push_str_chars(out, "{\"role\":");
    out.push('"');
    push_escaped(out, role_str(m.role));
    out.push('"');
    push_str_chars(out, ",\"content\":");
    out.push('"');
    push_escaped(out, m.content.as_str());
    out.push('"');
    push_str_chars(out, "}");
    assert(out@ =~= old(out)@ + encode_message_spec(*m));
}

/// Appends the comma-separated JSON objects of all messages, in order.
fn push_messages(out: &mut Vec<char>, ms: &Vec<Message>)
    ensures
        final(out)@ == old(out)@ + encode_messages_spec(ms@),
{
    let n = ms.len();
    let mut i: usize = 0;
    while i < n
        invariant
            n == ms@.len(),
            i <= n,
            out@ == old(out)@ + encode_messages_spec(ms@.subrange(0, i as int)),
        decreases n - i,
    {
        if i > 0 {
            out.push(',');
        }
        push_message(out, &ms[i]);
        proof {
            reveal_strlit(",");
            assert(","@ =~= seq![',']);
            let done = ms@.subrange(0, i + 1);
            assert(done.drop_last() =~= ms@.subrange(0, i as int));
            assert(done.last() == ms@[i as int]);
            assert(out@ =~= old(out)@ + encode_messages_spec(done));
        }
        i += 1;
    }
    assert(ms@.subrange(0, n as int) =~= ms@);
}

/// Relies on `String`'s `FromIterator` impl over `char`: collecting yields
/// the string holding exactly the given characters in order.
#[verifier::external_body]
pub(crate) fn string_from_chars(v: Vec<char>) -> (s: String)
    ensures
        s@ == v@,
{
    v.into_iter().collect()
}

/// Serializes a request into its JSON body, exactly as the wire format
/// states it.
pub fn encode_request(r: &ChatRequest) -> (s: String)
    ensures
        s@ == encode_request_spec(*r),
{
    let mut out: Vec<char> = Vec::new();
    push_str_chars(&mut out, "{\"model\":");
    out.push('"');
    push_escaped(&mut out, r.model.as_str());
    out.push('"');
    push_str_chars(&mut out, ",\"messages\":[");
    push_messages(&mut out, &r.messages);
    push_str_chars(&mut out, "],\"temperature\":");
    push_dec(&mut out, r.temperature_tenths / 10);
    out.push('.');
    out.push(digit_exec((r.temperature_tenths % 10) as u8));
    push_str_chars(&mut out, ",\"stream\":");
    if r.stream {
        push_str_chars(&mut out, "true");
    } else {
        push_str_chars(&mut out, "false");
    }
    push_str_chars(&mut out, "}");
    assert(out@ =~= encode_request_spec(*r));
    string_from_chars(out)
}

/// Serializes the one-shot query body for a prompt, exactly as the wire
/// format states it.
pub fn encode_query(system_prompt: &str, prompt: &str) -> (s: String)
    ensures
        s@ == encode_query_spec(system_prompt@, prompt@),
{
    let mut out: Vec<char> = Vec::new();
    push_str_chars(&mut out, "{\"model\":");
    out.push('"');
    push_escaped(&mut out, "deepseek-ai/DeepSeek-R1-Distill-Llama-70B-free");
    out.push('"');
    push_str_chars(&mut out, ",\"messages\":[{\"role\":");
    out.push('"');
    push_escaped(&mut out, "system");
    out.push('"');
    push_str_chars(&mut out, ",\"content\":");
    out.push('"');
    push_escaped(&mut out, system_prompt);
    out.push('"');
    push_str_chars(&mut out, "},{\"role\":");
    out.push('"');
    push_escaped(&mut out, "user");
    out.push('"');
    push_str_chars(&mut out, ",\"content\":");
    out.push('"');
    push_escaped(&mut out, prompt);
    out.push('"');
    push_str_chars(&mut out, "}]}");
    assert(out@ =~= encode_query_spec(system_prompt@, prompt@));
    string_from_chars(out)
}

} // verus!
