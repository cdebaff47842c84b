use vstd::prelude::*;

verus! {

/// Opening marker of a reasoning block in a raw reply.
pub open spec fn open_tag() -> Seq<char> {
    seq!['<', 't', 'h', 'i', 'n', 'k', '>']
}

/// Closing marker of a reasoning block in a raw reply.
pub open spec fn close_tag() -> Seq<char> {
    seq!['<', '/', 't', 'h', 'i', 'n', 'k', '>']
}

/// Whether `pat` occurs in `s` starting exactly at position `at`.
pub open spec fn matches_at(s: Seq<char>, pat: Seq<char>, at: int) -> bool {
    0 <= at && at + pat.len() <= s.len() && s.subrange(at, at + pat.len() as int) == pat
}

/// Position of the first occurrence of `pat` in `s` at or after `from`.
pub open spec fn find_from(s: Seq<char>, pat: Seq<char>, from: int) -> Option<int>
    decreases s.len() - from,
{
    if pat.len() == 0 || from < 0 || from + pat.len() > s.len() {
        None
    } else if matches_at(s, pat, from) {
        Some(from)
    } else {
        find_from(s, pat, from + 1)
    }
}

/// Whether `s` holds a reasoning block: an opening tag somewhere, with a
/// closing tag at or after the end of the first opening tag.
pub open spec fn has_block(s: Seq<char>) -> bool {
    match find_from(s, open_tag(), 0) {
        Some(i) => find_from(s, close_tag(), i + open_tag().len() as int) is Some,
        None => false,
    }
}

/// The display form of a raw reply: the first reasoning block, markers
/// included, is removed; a reply without such a block is kept unchanged.
/// Deliberately, only the first block is removed — a non-greedy first
/// match — and any later block is left intact.
pub open spec fn clean_spec(s: Seq<char>) -> Seq<char> {
    match find_from(s, open_tag(), 0) {
        None => s,
        Some(i) => match find_from(s, close_tag(), i + open_tag().len() as int) {
            None => s,
            Some(j) => s.subrange(0, i) + s.subrange(j + close_tag().len() as int, s.len() as int),
        },
    }
}

/// A first occurrence reported by `find_from` lies in range, matches, and
/// has no earlier match at or after the starting point.
pub proof fn lemma_find_some(s: Seq<char>, pat: Seq<char>, from: int, i: int)
    requires
        find_from(s, pat, from) == Some(i),
    ensures
        from <= i,
        pat.len() > 0,
        matches_at(s, pat, i),
        forall|k: int| from <= k < i ==> !matches_at(s, pat, k),
    decreases s.len() - from,
{
    if pat.len() == 0 || from < 0 || from + pat.len() > s.len() {
    } else if matches_at(s, pat, from) {
    } else {
        lemma_find_some(s, pat, from + 1, i);
    }
}

/// A reply without a reasoning block is displayed unchanged, so cleaning is
/// idempotent on such replies.
pub proof fn lemma_clean_no_block(s: Seq<char>)
    requires
        !has_block(s),
    ensures
        clean_spec(s) == s,
        clean_spec(clean_spec(s)) == clean_spec(s),
{
}

/// Whether `pat` occurs in `s` starting exactly at position `at`.
fn check_match_at(s: &str, pat: &str, at: usize) -> (b: bool)
    requires
        at + pat@.len() <= s@.len(),
    ensures
        b == matches_at(s@, pat@, at as int),
{
    let sl = s.unicode_len();
    let n = pat.unicode_len();
    let mut m: usize = 0;
    while m < n
        invariant
            sl == s@.len(),
            n == pat@.len(),
            at + n <= sl,
            m <= n,
            forall|k: int| 0 <= k < m ==> s@[at + k] == pat@[k],
        decreases n - m,
    {
        if s.get_char(at + m) != pat.get_char(m) {
            assert(!matches_at(s@, pat@, at as int)) by {
                assert(s@.subrange(at as int, at + n) != pat@) by {
                    assert(s@.subrange(at as int, at + n)[m as int] != pat@[m as int]);
                }
            }
            return false;
        }
        m += 1;
    }
    assert(s@.subrange(at as int, at + n) =~= pat@);
    true
}

/// First occurrence of `pat` in `s` at or after `from`, by a left-to-right
/// scan.
fn find_tag(s: &str, pat: &str, from: usize) -> (r: Option<usize>)
    requires
        pat@.len() > 0,
    ensures
        match r {
            Some(i) => find_from(s@, pat@, from as int) == Some(i as int),
            None => find_from(s@, pat@, from as int) is None,
        },
{
    let sl = s.unicode_len();
    let pl = pat.unicode_len();
    if pl > sl || from > sl - pl {
        return None;
    }
    let mut k: usize = from;
    while k <= sl - pl
        invariant
            sl == s@.len(),
            pl == pat@.len(),
            0 < pl <= sl,
            from <= k,
            k <= sl - pl + 1,
            find_from(s@, pat@, from as int) == find_from(s@, pat@, k as int),
        decreases sl - k,
    {
        if check_match_at(s, pat, k) {
            return Some(k);
        }
        k += 1;
    }
    None
}

/// Strips the first reasoning block, markers included, out of a raw reply;
/// a reply without such a block comes back unchanged.
pub fn clean(raw: &str) -> (r: String)
    ensures
        r@ == clean_spec(raw@),
{
    proof {
        reveal_strlit("<think>");
        reveal_strlit("</think>");
    }
    assert("<think>"@ =~= open_tag());
    assert("</think>"@ =~= close_tag());
    let sl = raw.unicode_len();
    match find_tag(raw, "<think>", 0) {
        None => raw.to_owned(),
        Some(i) => {
            proof {
                lemma_find_some(raw@, open_tag(), 0, i as int);
            }
            match find_tag(raw, "</think>", i + 7) {
                None => raw.to_owned(),
                Some(j) => {
                    proof {
                        lemma_find_some(raw@, close_tag(), i as int + 7, j as int);
                    }
                    let head = raw.substring_char(0, i);
                    let tail = raw.substring_char(j + 8, sl);
                    let r = String::from_str(head).concat(tail);
                    assert(r@ =~= clean_spec(raw@));
                    r
                },
            }
        },
    }
}

} // verus!
