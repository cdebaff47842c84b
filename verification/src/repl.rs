use vstd::prelude::*;

use crate::clean::{clean, clean_spec};
use crate::session::{Message, Role, Session};
use crate::transport::{describe_spec, TransportError};

verus! {

/// The whitespace characters a submitted line is trimmed of: the Unicode
/// White_Space set, the one `char::is_whitespace` recognizes.
pub open spec fn is_space(c: char) -> bool {
    c == '\u{9}' || c == '\u{a}' || c == '\u{b}' || c == '\u{c}' || c == '\u{d}' || c == ' '
        || c == '\u{85}' || c == '\u{a0}' || c == '\u{1680}' || ('\u{2000}' <= c && c
        <= '\u{200a}') || c == '\u{2028}' || c == '\u{2029}' || c == '\u{202f}'
        || c == '\u{205f}' || c == '\u{3000}'
}

/// `s` with its leading whitespace dropped.
pub open spec fn trim_front(s: Seq<char>) -> Seq<char>
    decreases s.len(),
{
    if s.len() > 0 && is_space(s[0]) {
        trim_front(s.subrange(1, s.len() as int))
    } else {
        s
    }
}

/// `s` with its trailing whitespace dropped.
pub open spec fn trim_back(s: Seq<char>) -> Seq<char>
    decreases s.len(),
{
    if s.len() > 0 && is_space(s.last()) {
        trim_back(s.drop_last())
    } else {
        s
    }
}

/// `s` with whitespace dropped at both ends.
pub open spec fn trim_spec(s: Seq<char>) -> Seq<char> {
    trim_back(trim_front(s))
}

/// Whether a trimmed line is one of the exit sentinels, letters matched in
/// either case.
pub open spec fn is_exit_spec(s: Seq<char>) -> bool {
    s.len() == 4 && (((s[0] == 'q' || s[0] == 'Q') && (s[1] == 'u' || s[1] == 'U') && (s[2] == 'i'
        || s[2] == 'I') && (s[3] == 't' || s[3] == 'T')) || ((s[0] == 'e' || s[0] == 'E') && (s[1]
        == 'x' || s[1] == 'X') && (s[2] == 'i' || s[2] == 'I') && (s[3] == 't' || s[3] == 'T')))
}

proof fn lemma_trim_front_idx(s: Seq<char>, n: int)
    requires
        0 <= n <= s.len(),
        forall|k: int| 0 <= k < n ==> is_space(s[k]),
        n == s.len() || !is_space(s[n]),
    ensures
        trim_front(s) == s.subrange(n, s.len() as int),
    decreases n,
{
    if n == 0 {
        assert(s.subrange(0, s.len() as int) =~= s);
    } else {
        let t = s.subrange(1, s.len() as int);
        lemma_trim_front_idx(t, n - 1);
        assert(t.subrange(n - 1, t.len() as int) =~= s.subrange(n, s.len() as int));
    }
}

proof fn lemma_trim_back_idx(s: Seq<char>, m: int)
    requires
        0 <= m <= s.len(),
        forall|k: int| m <= k < s.len() ==> is_space(s[k]),
        m == 0 || !is_space(s[m - 1]),
    ensures
        trim_back(s) == s.subrange(0, m),
    decreases s.len() - m,
{
    if m == s.len() {
        assert(s.subrange(0, m) =~= s);
    } else {
        assert(is_space(s.last()));
        lemma_trim_back_idx(s.drop_last(), m);
        assert(s.drop_last().subrange(0, m) =~= s.subrange(0, m));
    }
}

/// Whether `c` counts as whitespace.
fn space(c: char) -> (b: bool)
    ensures
        b == is_space(c),
{
    c == '\u{9}' || c == '\u{a}' || c == '\u{b}' || c == '\u{c}' || c == '\u{d}' || c == ' '
        || c == '\u{85}' || c == '\u{a0}' || c == '\u{1680}' || ('\u{2000}' <= c && c
        <= '\u{200a}') || c == '\u{2028}' || c == '\u{2029}' || c == '\u{202f}'
        || c == '\u{205f}' || c == '\u{3000}'
}

fn scan_front(s: &str) -> (b: usize)
    ensures
        b <= s@.len(),
        forall|k: int| 0 <= k < b ==> is_space(s@[k]),
        b == s@.len() || !is_space(s@[b as int]),
{
    let sl = s.unicode_len();
    let mut b: usize = 0;
    while b < sl
        invariant
            sl == s@.len(),
            b <= sl,
            forall|k: int| 0 <= k < b ==> is_space(s@[k]),
        decreases sl - b,
    {
        if !space(s.get_char(b)) {
            return b;
        }
        b += 1;
    }
    b
}

fn scan_back(s: &str, b: usize) -> (e: usize)
    requires
        b <= s@.len(),
    ensures
        b <= e <= s@.len(),
        forall|k: int| e <= k < s@.len() ==> is_space(s@[k]),
        e == b || !is_space(s@[e - 1]),
{
    let sl = s.unicode_len();
    let mut e: usize = sl;
    while e > b
        invariant
            sl == s@.len(),
            b <= e <= sl,
            forall|k: int| e <= k < sl ==> is_space(s@[k]),
        decreases e,
    {
        if !space(s.get_char(e - 1)) {
            return e;
        }
        e -= 1;
    }
    e
}

/// Drops the whitespace at both ends of a line.
pub fn trim_str(s: &str) -> (r: String)
    ensures
        r@ == trim_spec(s@),
{
    let b = scan_front(s);
    let e = scan_back(s, b);
    proof {
        lemma_trim_front_idx(s@, b as int);
        let t = s@.subrange(b as int, s@.len() as int);
        lemma_trim_back_idx(t, e - b);
        assert(t.subrange(0, e - b) =~= s@.subrange(b as int, e as int));
    }
    String::from_str(s.substring_char(b, e))
}

/// Whether a line, already trimmed, is an exit sentinel.
pub fn is_exit_word(s: &str) -> (b: bool)
    ensures
        b == is_exit_spec(s@),
{
    if s.unicode_len() != 4 {
        return false;
    }
    let c0 = s.get_char(0);
    let c1 = s.get_char(1);
    let c2 = s.get_char(2);
    let c3 = s.get_char(3);
    ((c0 == 'q' || c0 == 'Q') && (c1 == 'u' || c1 == 'U') && (c2 == 'i' || c2 == 'I') && (c3 == 't'
        || c3 == 'T')) || ((c0 == 'e' || c0 == 'E') && (c1 == 'x' || c1 == 'X') && (c2 == 'i' || c2
        == 'I') && (c3 == 't' || c3 == 'T'))
}

/// What the front-end does after one submitted line.
#[derive(Clone, Copy, PartialEq, Eq, Structural, Debug)]
pub enum TurnAction {
    /// An exit sentinel: leave the loop, without invoking the transport.
    Exit,
    /// A blank line: re-prompt, without touching the transcript.
    Prompt,
    /// A real turn: the user's message was appended; send the transcript.
    Send,
}

/// Decides one submitted line. An exit sentinel ends the loop and a blank
/// line re-prompts, both leaving the transcript untouched and the
/// transport uninvoked; anything else appends exactly one User message,
/// holding the trimmed line, before the transport is to be invoked.
pub fn submit_line(sess: &mut Session, line: &str) -> (a: TurnAction)
    requires
        old(sess).wf(),
    ensures
        final(sess).wf(),
        is_exit_spec(trim_spec(line@)) ==> a == TurnAction::Exit && final(sess)@ == old(sess)@,
        !is_exit_spec(trim_spec(line@)) && trim_spec(line@).len() == 0 ==> a == TurnAction::Prompt
            && final(sess)@ == old(sess)@,
        !is_exit_spec(trim_spec(line@)) && trim_spec(line@).len() > 0 ==> a == TurnAction::Send
            && final(sess)@.len() == old(sess)@.len() + 1 && final(sess)@.subrange(
            0,
            old(sess)@.len() as int,
        ) == old(sess)@ && final(sess)@.last().role == Role::User
            && final(sess)@.last().content@ == trim_spec(line@),
{
    let t = trim_str(line);
    if is_exit_word(t.as_str()) {
        return TurnAction::Exit;
    }
    if t.as_str().is_empty() {
        return TurnAction::Prompt;
    }
    let ghost before = sess@;
    sess.append(Message { role: Role::User, content: t });
    proof {
        assert(sess@.subrange(0, before.len() as int) =~= before);
    }
    TurnAction::Send
}

/// Completes one turn. A successful reply is appended raw as the
/// Assistant message and shown cleaned; a failed turn leaves the
/// transcript unchanged, its pending User message dangling, and yields
/// the error's text for display.
pub fn apply_reply(sess: &mut Session, outcome: Result<String, TransportError>) -> (shown: String)
    requires
        old(sess).wf(),
    ensures
        final(sess).wf(),
        outcome matches Ok(t) ==> (final(sess)@.len() == old(sess)@.len() + 1
            && final(sess)@.subrange(0, old(sess)@.len() as int) == old(sess)@
            && final(sess)@.last().role == Role::Assistant
            && final(sess)@.last().content@ == t@
            && shown@ == clean_spec(t@)),
        outcome matches Err(e) ==> (final(sess)@ == old(sess)@ && shown@ == describe_spec(e)),
{
    match outcome {
        Ok(t) => {
            let shown = clean(t.as_str());
            let ghost before = sess@;
            sess.append(Message { role: Role::Assistant, content: t });
            proof {
                assert(sess@.subrange(0, before.len() as int) =~= before);
            }
            shown
        },
        Err(e) => e.describe(),
    }
}

} // verus!
