//! The completion engine: given the current edit-buffer contents and ordered
//! candidate lists, suggests at most one full replacement string.
//!
//! Selection is always the first candidate in list order whose text starts
//! with the typed prefix — never the longest or best match — so the caller's
//! ordering decides the behaviour.

use vstd::prelude::*;

use crate::text::has_space;
use crate::text::is_prefix_of;
use crate::text::split_spaces;
use crate::text::split_str;
use crate::text::str_has_space;
use crate::text::str_starts_with;

verus! {

/// The first candidate, in list order, of which `prefix` is a prefix.
pub open spec fn first_prefix_match(cands: Seq<Seq<char>>, prefix: Seq<char>) -> Option<Seq<char>>
    decreases cands.len(),
{
    if cands.len() == 0 {
        None
    } else if is_prefix_of(prefix, cands[0]) {
        Some(cands[0])
    } else {
        first_prefix_match(cands.drop_first(), prefix)
    }
}

/// A successful first match is indeed matched: the typed prefix is a prefix
/// of the returned candidate.
pub proof fn lemma_first_match_is_match(cands: Seq<Seq<char>>, prefix: Seq<char>)
    ensures
        first_prefix_match(cands, prefix) matches Some(m) ==> is_prefix_of(prefix, m),
    decreases cands.len(),
{
    if cands.len() > 0 && !is_prefix_of(prefix, cands[0]) {
        lemma_first_match_is_match(cands.drop_first(), prefix);
    }
}

/// The model of an optional returned string.
pub open spec fn opt_view(r: Option<String>) -> Option<Seq<char>> {
    match r {
        Some(s) => Some(s@),
        None => None,
    }
}

/// Returns the first candidate, in list order, that starts with `prefix`.
fn first_match_in(cands: &Vec<String>, prefix: &str) -> (r: Option<String>)
    ensures
        opt_view(r) == first_prefix_match(cands.deep_view(), prefix@),
{
    let ghost cv = cands.deep_view();
    let mut i: usize = 0;
    proof {
        assert(cv.skip(0) =~~= cv);
    }
    while i < cands.len()
        invariant
            i <= cands@.len(),
            cv == cands.deep_view(),
            cv.len() == cands@.len(),
            first_prefix_match(cv, prefix@) == first_prefix_match(
                cv.skip(i as int),
                prefix@,
            ),
        decreases cands@.len() - i,
    {
        proof {
            assert(cv.skip(i as int)[0] == cv[i as int]);
            assert(cv[i as int] == cands@[i as int]@);
        }
        if str_starts_with(cands[i].as_str(), prefix) {
            proof {
                assert(first_prefix_match(cv.skip(i as int), prefix@) == Some(cv[i as int]));
            }
            return Some(cands[i].clone());
        }
        proof {
            assert(cv.skip(i as int).drop_first() =~~= cv.skip(i + 1));
        }
        i = i + 1;
    }
    proof {
        assert(cv.skip(cv.len() as int) =~~= Seq::<Seq<char>>::empty());
    }
    None
}

/// The fixed command-keyword table, in the order completion searches it.
pub open spec fn command_names() -> Seq<Seq<char>> {
    seq![
        "add"@,
        "add-auto"@,
        "delete"@,
        "track-up"@,
        "track-down"@,
        "month-prev"@,
        "month-next"@,
        "quit"@,
        "write"@,
        "help"@,
    ]
}

/// The command-keyword table as strings, in completion search order.
pub fn command_list() -> (v: Vec<String>)
    ensures
        v.deep_view() == command_names(),
{
    let mut v: Vec<String> = Vec::new();
    v.push(String::from_str("add"));
    v.push(String::from_str("add-auto"));
    v.push(String::from_str("delete"));
    v.push(String::from_str("track-up"));
    v.push(String::from_str("track-down"));
    v.push(String::from_str("month-prev"));
    v.push(String::from_str("month-next"));
    v.push(String::from_str("quit"));
    v.push(String::from_str("write"));
    v.push(String::from_str("help"));
    proof {
        assert(v.deep_view() =~~= command_names());
    }
    v
}

/// The first fixed command keyword starting with `prefix`, if any.
pub fn get_command_completion(prefix: &str) -> (r: Option<String>)
    ensures
        opt_view(r) == first_prefix_match(command_names(), prefix@),
{
    let cands = command_list();
    first_match_in(&cands, prefix)
}

/// The first habit name in `habit_names` starting with `prefix`, if any.
pub fn get_habit_completion(prefix: &str, habit_names: &Vec<String>) -> (r: Option<String>)
    ensures
        opt_view(r) == first_prefix_match(habit_names.deep_view(), prefix@),
{
    first_match_in(habit_names, prefix)
}

/// What completion returns for a buffer and two candidate lists: a buffer
/// without a space is completed to the first matching command keyword; a
/// buffer with a space keeps everything before its last token and extends
/// that token with the remainder of the first matching habit name.
pub open spec fn complete_spec(
    buf: Seq<char>,
    cmds: Seq<Seq<char>>,
    habits: Seq<Seq<char>>,
) -> Option<Seq<char>> {
    if !has_space(buf) {
        first_prefix_match(cmds, buf)
    } else {
        let word = split_spaces(buf).last();
        match first_prefix_match(habits, word) {
            Some(m) => Some(buf + m.skip(word.len() as int)),
            None => None,
        }
    }
}

/// Suggests the full replacement text for `buffer`, or `None` if no
/// candidate matches. Candidate lists are read-only and searched in order.
pub fn complete(buffer: &str, command_candidates: &Vec<String>, habit_candidates: &Vec<String>) -> (r:
    Option<String>)
    ensures
        opt_view(r) == complete_spec(
            buffer@,
            command_candidates.deep_view(),
            habit_candidates.deep_view(),
        ),
{
    if !str_has_space(buffer) {
        first_match_in(command_candidates, buffer)
    } else {
        let toks = split_str(buffer);
        let word = &toks[toks.len() - 1];
        proof {
            assert(word@ == split_spaces(buffer@).last());
        }
        match first_match_in(habit_candidates, word.as_str()) {
            Some(m) => {
                let wl = word.as_str().unicode_len();
                let ml = m.as_str().unicode_len();
                proof {
                    lemma_first_match_is_match(habit_candidates.deep_view(), word@);
                    assert(is_prefix_of(word@, m@));
                }
                let suffix = m.as_str().substring_char(wl, ml);
                let r = String::from_str(buffer).concat(suffix);
                proof {
                    assert(r@ == buffer@ + m@.skip(word@.len() as int));
                }
                Some(r)
            },
            None => None,
        }
    }
}

/// Completion is a pure function: its result is determined by the buffer and
/// the two candidate lists alone, so repeated identical calls return the
/// identical result, and it reads but never changes its inputs.
pub proof fn lemma_complete_deterministic(
    buf: Seq<char>,
    cmds: Seq<Seq<char>>,
    habits: Seq<Seq<char>>,
    r1: Option<Seq<char>>,
    r2: Option<Seq<char>>,
)
    requires
        r1 == complete_spec(buf, cmds, habits),
        r2 == complete_spec(buf, cmds, habits),
    ensures
        r1 == r2,
{
}

} // verus!
