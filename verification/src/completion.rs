//! Text handling of a llama.cpp infill client: the stop tokens, the cleaning
//! of a completion, and the address that requests go to.

use vstd::prelude::*;
use vstd::string::{StringExecFns, StringSliceAdditionalSpecFns};
use crate::text::{chars_of, same_text, trim, trim_text};

verus! {

/// The llama.cpp infill client.
pub struct LlamaCpp;

impl LlamaCpp {
    pub fn new() -> (client: Self)
        ensures
            client == LlamaCpp,
    {
        Self
    }
}

/// The markers at which a model's output ends, in the order in which a
/// completion is cut at them.
pub open spec fn stop_tokens() -> Seq<Seq<char>> {
    seq![
        "<|endoftext|>"@,
        "<|file_separator|>"@,
        "<|fim_pad|>"@,
        "<|fim_prefix|>"@,
        "<|fim_middle|>"@,
        "<|fim_suffix|>"@,
        "<fim_prefix>"@,
        "<fim_middle>"@,
        "<fim_suffix>"@,
        "<PRE>"@,
        "<SUF>"@,
        "<MID>"@,
        "[PREFIX]"@,
        "[SUFFIX]"@,
    ]
}

/// `t` stands in `s` at index `i`.
pub open spec fn occurs_at(s: Seq<char>, t: Seq<char>, i: int) -> bool {
    0 <= i && i + t.len() <= s.len() && s.subrange(i, i + t.len()) == t
}

/// `p` is the first index at which `t` stands in `s`.
pub open spec fn first_match(s: Seq<char>, t: Seq<char>, p: int) -> bool {
    occurs_at(s, t, p) && forall|q: int| 0 <= q < p ==> !occurs_at(s, t, q)
}

/// `s` up to the first occurrence of `t`; all of `s` where `t` does not occur.
pub open spec fn cut_at(s: Seq<char>, t: Seq<char>) -> Seq<char> {
    if exists|p: int| first_match(s, t, p) {
        s.subrange(0, choose|p: int| first_match(s, t, p))
    } else {
        s
    }
}

/// `s` cut at each of `tokens` in turn.
pub open spec fn cut_all(s: Seq<char>, tokens: Seq<Seq<char>>) -> Seq<char>
    decreases tokens.len(),
{
    if tokens.len() == 0 {
        s
    } else {
        cut_at(cut_all(s, tokens.drop_last()), tokens.last())
    }
}

/// A completion without anything from a stop token on.
pub open spec fn cleaned(response: Seq<char>) -> Seq<char> {
    cut_all(response, stop_tokens())
}

/// The stop tokens sent with each request.
pub fn get_stop_tokens() -> (tokens: Vec<String>)
    ensures
        tokens@.len() == stop_tokens().len(),
        forall|i: int| 0 <= i < tokens@.len() ==> (#[trigger] tokens@[i])@ == stop_tokens()[i],
{
    vec![
        "<|endoftext|>".to_owned(),
        "<|file_separator|>".to_owned(),
        "<|fim_pad|>".to_owned(),
        "<|fim_prefix|>".to_owned(),
        "<|fim_middle|>".to_owned(),
        "<|fim_suffix|>".to_owned(),
        "<fim_prefix>".to_owned(),
        "<fim_middle>".to_owned(),
        "<fim_suffix>".to_owned(),
        "<PRE>".to_owned(),
        "<SUF>".to_owned(),
        "<MID>".to_owned(),
        "[PREFIX]".to_owned(),
        "[SUFFIX]".to_owned(),
    ]
}

/// Tells whether `token` stands at index `i` of the first `end` characters of
/// `text`.
fn matches_at(text: &Vec<char>, end: usize, token: &Vec<char>, i: usize) -> (b: bool)
    requires
        end <= text@.len(),
        i + token@.len() <= end,
    ensures
        b == occurs_at(text@.subrange(0, end as int), token@, i as int),
{
    let ghost s = text@.subrange(0, end as int);
    let m: usize = token.len();
    let mut k: usize = 0;
    while k < m
        invariant
            k <= m,
            m == token@.len(),
            i + m <= end <= text@.len(),
            s == text@.subrange(0, end as int),
            forall|j: int| 0 <= j < k ==> text@[i + j] == token@[j],
        decreases m - k,
    {
        if text[i + k] != token[k] {
            proof {
                assert(s.subrange(i as int, i + m)[k as int] == text@[i + k]);
            }
            return false;
        }
        k += 1;
    }
    proof {
        assert(s.subrange(i as int, i + m) =~= token@);
    }
    true
}

/// The first index at which `token` stands in the first `end` characters of
/// `text`.
fn find_in_prefix(text: &Vec<char>, end: usize, token: &Vec<char>) -> (r: Option<usize>)
    requires
        end <= text@.len(),
    ensures
        match r {
            Some(p) => p <= end && first_match(text@.subrange(0, end as int), token@, p as int),
            None => forall|q: int| !occurs_at(text@.subrange(0, end as int), token@, q),
        },
{
    let m: usize = token.len();
    if m > end {
        return None;
    }
    let last: usize = end - m;
    let mut i: usize = 0;
    while i <= last
        invariant
            i <= last + 1,
            last + m == end,
            end <= usize::MAX,
            m == token@.len(),
            end <= text@.len(),
            forall|q: int| 0 <= q < i ==> !occurs_at(text@.subrange(0, end as int), token@, q),
        decreases last + 1 - i,
    {
        if matches_at(text, end, token, i) {
            return Some(i);
        }
        if i == last {
            proof {
                assert forall|q: int| !occurs_at(
                    text@.subrange(0, end as int),
                    token@,
                    q,
                ) by {}
            }
            return None;
        }
        i += 1;
    }
    None
}

/// Cuts a completion at the first stop token it holds, then the rest at the
/// next, and so on through the stop tokens in their order.
pub fn clean_completion(response: &str) -> (result: String)
    ensures
        result@ == cleaned(response@),
{
    let text = chars_of(response);
    let tokens = get_stop_tokens();
    let mut end: usize = text.len();
    let mut k: usize = 0;
    proof {
        assert(text@.subrange(0, end as int) =~= response@);
    }
    while k < tokens.len()
        invariant
            k <= tokens@.len(),
            tokens@.len() == stop_tokens().len(),
            forall|i: int| 0 <= i < tokens@.len() ==> (#[trigger] tokens@[i])@ == stop_tokens()[i],
            text@ == response@,
            end <= text@.len(),
            text@.subrange(0, end as int) == cut_all(response@, stop_tokens().subrange(0, k as int)),
        decreases tokens@.len() - k,
    {
        let token = chars_of(tokens[k].as_str());
        let ghost s = text@.subrange(0, end as int);
        let ghost t = stop_tokens()[k as int];
        proof {
            assert(stop_tokens().subrange(0, k + 1).drop_last() =~= stop_tokens().subrange(
                0,
                k as int,
            ));
            assert(stop_tokens().subrange(0, k + 1).last() == t);
        }
        match find_in_prefix(&text, end, &token) {
            Some(p) => {
                proof {
                    assert(first_match(s, t, p as int));
                    let c = choose|c: int| first_match(s, t, c);
                    assert(c == p);
                    assert(s.subrange(0, p as int) =~= text@.subrange(0, p as int));
                }
                end = p;
            },
            None => {},
        }
        k += 1;
    }
    proof {
        assert(stop_tokens().subrange(0, k as int) =~= stop_tokens());
    }
    response.substring_char(0, end).to_owned()
}

/// The text of a response: its content where it has one, else its
/// completion, else nothing.
pub fn completion_text(content: Option<String>, completion: Option<String>) -> (text: String)
    ensures
        text@ == match (content, completion) {
            (Some(c), _) => c@,
            (None, Some(c)) => c@,
            (None, None) => Seq::<char>::empty(),
        },
{
    match content {
        Some(c) => c,
        None => match completion {
            Some(c) => c,
            None => String::new(),
        },
    }
}

/// The text to insert at the cursor for a response, if any: the cleaned text
/// of the response, unless that is empty.
pub fn completion_edit(content: Option<String>, completion: Option<String>) -> (edit: Option<
    String,
>)
    ensures
        ({
            let text = match (content, completion) {
                (Some(c), _) => c@,
                (None, Some(c)) => c@,
                (None, None) => Seq::<char>::empty(),
            };
            match edit {
                Some(e) => e@ == cleaned(text) && e@.len() > 0,
                None => cleaned(text).len() == 0,
            }
        }),
{
    let text = completion_text(content, completion);
    let cleaned_text = clean_completion(text.as_str());
    if cleaned_text.as_str().unicode_len() == 0 {
        None
    } else {
        Some(cleaned_text)
    }
}

/// The client can be used: an address is configured that is more than
/// whitespace.
pub fn is_available(api_url: &str) -> (b: bool)
    ensures
        b == (trim(api_url@).len() > 0),
{
    trim_text(api_url).unicode_len() != 0
}

/// The length of `s` without its trailing `c`s.
pub open spec fn without_trailing(s: Seq<char>, c: char) -> int
    decreases s.len(),
{
    if s.len() > 0 && s.last() == c {
        without_trailing(s.drop_last(), c)
    } else {
        s.len() as int
    }
}

/// `s` ends with `t`.
pub open spec fn ends_with(s: Seq<char>, t: Seq<char>) -> bool {
    t.len() <= s.len() && s.subrange(s.len() - t.len(), s.len() as int) == t
}

/// The address of the infill endpoint below `api_url`: the address without
/// trailing slashes, with `/infill` added unless it ends so.
pub open spec fn infill_address(api_url: Seq<char>) -> Seq<char> {
    let base = api_url.subrange(0, without_trailing(api_url, '/'));
    if ends_with(base, "/infill"@) {
        base
    } else {
        base + "/infill"@
    }
}

/// The address that infill requests are sent to.
pub fn infill_url(api_url: &str) -> (url: String)
    ensures
        url@ == infill_address(api_url@),
{
    let n: usize = api_url.unicode_len();
    let text = chars_of(api_url);
    let mut b: usize = n;
    proof {
        assert(text@.subrange(0, n as int) =~= text@);
    }
    while b > 0 && text[b - 1] == '/'
        invariant
            n == text@.len(),
            text@ == api_url@,
            b <= n,
            without_trailing(text@, '/') == without_trailing(text@.subrange(0, b as int), '/'),
        decreases b,
    {
        proof {
            assert(text@.subrange(0, b as int).drop_last() =~= text@.subrange(0, b as int - 1));
        }
        b -= 1;
    }
    proof {
        if b > 0 {
            assert(text@.subrange(0, b as int).last() == text@[b as int - 1]);
        }
    }
    let base = api_url.substring_char(0, b);
    let m: usize = "/infill".unicode_len();
    if m <= b && same_text(base.substring_char(b - m, b), "/infill") {
        base.to_owned()
    } else {
        base.to_owned().concat("/infill")
    }
}

/// Splits an excerpt at the cursor, a byte offset, into the text before it
/// and the text after it. `None` where the offset lies beyond the excerpt or
/// inside a character.
pub fn split_at_cursor(excerpt: &str, cursor_offset: usize) -> (parts: Option<(&str, &str)>)
    ensures
        parts.is_some() == vstd::utf8::is_char_boundary(
            excerpt.spec_bytes(),
            cursor_offset as int,
        ),
        match parts {
            Some((prefix, suffix)) => {
                &&& prefix.spec_bytes() == excerpt.spec_bytes().subrange(0, cursor_offset as int)
                &&& suffix.spec_bytes() == excerpt.spec_bytes().subrange(
                    cursor_offset as int,
                    excerpt.spec_bytes().len() as int,
                )
            },
            None => true,
        },
{
    if excerpt.is_char_boundary(cursor_offset) {
        Some(excerpt.split_at(cursor_offset))
    } else {
        None
    }
}

} // verus!
