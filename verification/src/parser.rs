//! Reading the actions that a reply asks for.
//!
//! A reply is free text. It may be one JSON object, it may hold one in a fenced
//! block, or it may hold several objects among prose. Whatever cannot be read is
//! passed over: the result is a list, possibly empty, and never a failure.
use crate::json::{json_object, json_string, object_members, pairs_view, string_value};
use crate::models::chat::{requests, ActionParam, LlmAction, Param, Request};
use crate::text::{
    chars_of, contains_text, find_from, find_last_from, first_occurrence, joined,
    last_occurrence, occurs_in, same_text, text_between, trim_bounds, trim_of, trimmed,
};
use vstd::prelude::*;
use vstd::string::*;

verus! {

/// The JSON text of the member `key`: that of the first member with that key.
pub open spec fn member(members: Seq<(Seq<char>, Seq<char>)>, key: Seq<char>) -> Option<Seq<char>>
    decreases members.len(),
{
    if members.len() == 0 {
        None
    } else if members[0].0 == key {
        Some(members[0].1)
    } else {
        member(members.drop_first(), key)
    }
}

/// The members of an object as parameters.
pub open spec fn param_list(members: Seq<(Seq<char>, Seq<char>)>) -> Seq<Param> {
    members.map_values(
        |m: (Seq<char>, Seq<char>)| Param { key: m.0, raw: m.1, text: json_string(m.1) },
    )
}

/// The parameters that the member `params` gives: its members where it is an
/// object, none where it is anything else or missing.
pub open spec fn params_from(members: Seq<(Seq<char>, Seq<char>)>) -> Seq<Param> {
    match member(members, "params"@) {
        Some(raw) => match json_object(raw) {
            Some(inner) => param_list(inner),
            None => Seq::<Param>::empty(),
        },
        None => Seq::<Param>::empty(),
    }
}

/// The JSON text of the member `params`, or `null` where it is missing.
pub open spec fn raw_params_from(members: Seq<(Seq<char>, Seq<char>)>) -> Seq<char> {
    match member(members, "params"@) {
        Some(raw) => raw,
        None => "null"@,
    }
}

/// What the member `message` says, or nothing where it is missing or no string.
pub open spec fn message_from(members: Seq<(Seq<char>, Seq<char>)>) -> Seq<char> {
    match member(members, "message"@) {
        Some(raw) => match json_string(raw) {
            Some(m) => m,
            None => Seq::<char>::empty(),
        },
        None => Seq::<char>::empty(),
    }
}

/// The request that `text` holds: `text` must be a JSON object whose member
/// `action` is a string. The members `params` and `message` are optional, and
/// other members are passed over.
pub open spec fn decoded(text: Seq<char>) -> Option<Request> {
    match json_object(text) {
        None => None,
        Some(members) => match member(members, "action"@) {
            None => None,
            Some(raw) => match json_string(raw) {
                None => None,
                Some(action) => Some(
                    Request {
                        action,
                        params: params_from(members),
                        raw_params: raw_params_from(members),
                        message: message_from(members),
                    },
                ),
            },
        },
    }
}

/// The inside of the fenced block of `t`: what stands between the first opening
/// fence with the tag `json` and the closing fence, which is the first fence
/// behind it that ends its line or else the last fence behind it.
pub open spec fn fenced(t: Seq<char>) -> Option<Seq<char>> {
    match first_occurrence(t, "```json"@, 0) {
        None => None,
        Some(open) => {
            let start = open + "```json"@.len();
            match first_occurrence(t, "```\n"@, start) {
                Some(close) => Some(t.subrange(start, close)),
                None => match last_occurrence(t, "```"@, start) {
                    Some(close) => Some(t.subrange(start, close)),
                    None => None,
                },
            }
        },
    }
}

/// How many more braces open than close in `t[from..to]`.
pub open spec fn balance(t: Seq<char>, from: int, to: int) -> int
    decreases to - from,
{
    if to <= from {
        0
    } else {
        balance(t, from, to - 1) + if t[to - 1] == '{' {
            1int
        } else if t[to - 1] == '}' {
            -1int
        } else {
            0int
        }
    }
}

/// `a` is the first opening brace of `t` at or behind `from`.
pub open spec fn opens_at(t: Seq<char>, from: int, a: int) -> bool {
    from <= a < t.len() && t[a] == '{' && forall|j: int| from <= j < a ==> t[j] != '{'
}

/// The span that opens at `a` closes at `b`: there the braces are balanced for
/// the first time.
pub open spec fn closes_at(t: Seq<char>, a: int, b: int) -> bool {
    a <= b < t.len() && balance(t, a, b + 1) == 0 && forall|j: int|
        a < j <= b ==> #[trigger] balance(t, a, j) != 0
}

/// The requests in the brace spans of `t` from `from` on, from left to right. A
/// span runs from an opening brace to the brace that closes it; the search goes on
/// behind each span; a span that holds no request is passed over; and an opening
/// brace that is never closed ends the search.
pub open spec fn scanned_from(t: Seq<char>, from: int) -> Seq<Request>
    decreases t.len() - from,
{
    if exists|a: int| opens_at(t, from, a) {
        let a = choose|a: int| opens_at(t, from, a);
        if exists|b: int| closes_at(t, a, b) {
            let b = choose|b: int| closes_at(t, a, b);
            if from <= b < t.len() {
                match decoded(t.subrange(a, b + 1)) {
                    Some(r) => seq![r] + scanned_from(t, b + 1),
                    None => scanned_from(t, b + 1),
                }
            } else {
                Seq::<Request>::empty()
            }
        } else {
            Seq::<Request>::empty()
        }
    } else {
        Seq::<Request>::empty()
    }
}

/// The requests that a reply holds. The reply is trimmed. If all of it is one
/// request, that is the result. Else, if its fenced block holds one request, that
/// is the result. Else the result is what the brace spans of the reply hold.
pub open spec fn parsed(response: Seq<char>) -> Seq<Request> {
    let t = trim_of(response);
    match decoded(t) {
        Some(r) => seq![r],
        None => match fenced(t) {
            Some(inner) => match decoded(trim_of(inner)) {
                Some(r) => seq![r],
                None => scanned_from(t, 0),
            },
            None => scanned_from(t, 0),
        },
    }
}

/// What stands in a part of a text stands in the text.
pub proof fn lemma_part_holds(t: Seq<char>, from: int, to: int, c: char)
    requires
        0 <= from <= to <= t.len(),
    ensures
        t.subrange(from, to).contains(c) ==> t.contains(c),
{
    if t.subrange(from, to).contains(c) {
        let k: int = t.subrange(from, to).index_of(c);
        assert(t[from + k] == c);
    }
}

/// What stands in a trimmed text stands in the text.
pub proof fn lemma_trim_is_part(t: Seq<char>, c: char)
    ensures
        trim_of(t).contains(c) ==> t.contains(c),
    decreases t.len(),
{
    if t.len() > 0 {
        if crate::text::is_space(t[0]) {
            lemma_trim_is_part(t.drop_first(), c);
            lemma_part_holds(t, 1, t.len() as int, c);
        } else if crate::text::is_space(t.last()) {
            lemma_trim_is_part(t.drop_last(), c);
            lemma_part_holds(t, 0, t.len() - 1, c);
        }
    }
}

/// The JSON text of the member `key`.
fn member_of<'a>(pairs: &'a Vec<(String, String)>, key: &str) -> (found: Option<&'a String>)
    ensures
        match found {
            Some(raw) => member(pairs_view(pairs@), key@) == Some(raw@),
            None => member(pairs_view(pairs@), key@) is None,
        },
{
    let mut i: usize = 0;
    proof {
        assert(pairs_view(pairs@).skip(0) =~= pairs_view(pairs@));
    }
    while i < pairs.len()
        invariant
            i <= pairs.len(),
            member(pairs_view(pairs@), key@) == member(pairs_view(pairs@).skip(i as int), key@),
        decreases pairs.len() - i,
    {
        proof {
            assert(pairs_view(pairs@).skip(i as int)[0] == (pairs@[i as int].0@, pairs@[i as int].1@));
            assert(pairs_view(pairs@).skip(i as int).drop_first() =~= pairs_view(pairs@).skip(
                i + 1,
            ));
        }
        if same_text(pairs[i].0.as_str(), key) {
            return Some(&pairs[i].1);
        }
        i += 1;
    }
    None
}

/// The members of an object as parameters.
fn params_of_members(pairs: &Vec<(String, String)>) -> (params: Vec<ActionParam>)
    ensures
        crate::models::chat::params_of(params@) == param_list(pairs_view(pairs@)),
{
    let mut params: Vec<ActionParam> = Vec::new();
    let mut i: usize = 0;
    while i < pairs.len()
        invariant
            i <= pairs.len(),
            params.len() == i,
            forall|k: int|
                0 <= k < i ==> (#[trigger] params@[k])@ == (Param {
                    key: pairs@[k].0@,
                    raw: pairs@[k].1@,
                    text: json_string(pairs@[k].1@),
                }),
        decreases pairs.len() - i,
    {
        let text = string_value(pairs[i].1.as_str());
        params.push(ActionParam { key: pairs[i].0.clone(), raw: pairs[i].1.clone(), text });
        i += 1;
    }
    assert(crate::models::chat::params_of(params@) =~= param_list(pairs_view(pairs@)));
    params
}

/// Reads one request from `text`.
pub fn decode(text: &str) -> (action: Option<LlmAction>)
    ensures
        match action {
            Some(a) => decoded(text@) == Some(a@) && text@.contains('{'),
            None => decoded(text@) is None,
        },
{
    let members = match object_members(text) {
        None => {
            return None;
        },
        Some(m) => m,
    };
    let name = match member_of(&members, "action") {
        None => {
            return None;
        },
        Some(raw) => match string_value(raw.as_str()) {
            None => {
                return None;
            },
            Some(name) => name,
        },
    };
    let (params, raw_params) = match member_of(&members, "params") {
        Some(raw) => {
            let list = match object_members(raw.as_str()) {
                Some(inner) => params_of_members(&inner),
                None => Vec::new(),
            };
            (list, raw.clone())
        },
        None => (Vec::new(), "null".to_owned()),
    };
    let message = match member_of(&members, "message") {
        Some(raw) => match string_value(raw.as_str()) {
            Some(m) => m,
            None => String::new(),
        },
        None => String::new(),
    };
    proof {
        assert(crate::models::chat::params_of(Seq::<ActionParam>::empty()) =~= Seq::<
            Param,
        >::empty());
    }
    Some(LlmAction { action: name, params, raw_params, message })
}

/// The inside of the fenced block of `t`.
fn fenced_block(t: &Vec<char>) -> (inner: Option<(usize, usize)>)
    ensures
        match inner {
            Some((from, to)) => from <= to <= t.len() && fenced(t@) == Some(
                t@.subrange(from as int, to as int),
            ),
            None => fenced(t@) is None,
        },
{
    let opening = chars_of("```json");
    let line_end = chars_of("```\n");
    let fence = chars_of("```");
    let open = match find_from(t, &opening, 0) {
        None => {
            return None;
        },
        Some(open) => open,
    };
    let start: usize = open + opening.len();
    match find_from(t, &line_end, start) {
        Some(close) => Some((start, close)),
        None => match find_last_from(t, &fence, start) {
            Some(close) => Some((start, close)),
            None => None,
        },
    }
}

/// The first opening brace of `t` at or behind `from`.
fn next_open(t: &Vec<char>, from: usize) -> (found: Option<usize>)
    ensures
        match found {
            Some(a) => opens_at(t@, from as int, a as int),
            None => forall|a: int| !opens_at(t@, from as int, a),
        },
{
    let mut i: usize = from;
    while i < t.len()
        invariant
            from <= i,
            forall|j: int| from <= j < i && j < t.len() ==> t@[j] != '{',
        decreases t.len() - i,
    {
        if t[i] == '{' {
            return Some(i);
        }
        i += 1;
    }
    None
}

/// The brace that closes the span that opens at `a`.
fn closing(t: &Vec<char>, a: usize) -> (found: Option<usize>)
    requires
        a < t.len(),
        t@[a as int] == '{',
    ensures
        match found {
            Some(b) => closes_at(t@, a as int, b as int),
            None => forall|b: int| !closes_at(t@, a as int, b),
        },
{
    let mut depth: usize = 0;
    let mut i: usize = a;
    while i < t.len()
        invariant
            a <= i <= t.len(),
            a < t.len(),
            t@[a as int] == '{',
            depth == balance(t@, a as int, i as int),
            depth <= i - a,
            forall|j: int| a < j <= i ==> #[trigger] balance(t@, a as int, j) != 0,
            i > a ==> depth > 0,
        decreases t.len() - i,
    {
        proof {
            assert(balance(t@, a as int, i + 1) == balance(t@, a as int, i as int) + if t@[i as int]
                == '{' {
                1int
            } else if t@[i as int] == '}' {
                -1int
            } else {
                0int
            });
        }
        if t[i] == '{' {
            depth += 1;
        } else if t[i] == '}' {
            depth -= 1;
            if depth == 0 {
                return Some(i);
            }
        }
        i += 1;
    }
    proof {
        assert forall|b: int| !closes_at(t@, a as int, b) by {
            if closes_at(t@, a as int, b) {
                assert(balance(t@, a as int, b + 1) != 0);
            }
        }
    }
    None
}

/// The requests in the brace spans of `t`.
fn scan(t: &Vec<char>) -> (actions: Vec<LlmAction>)
    ensures
        requests(actions@) == scanned_from(t@, 0),
        !t@.contains('{') ==> actions@.len() == 0,
{
    let mut actions: Vec<LlmAction> = Vec::new();
    let mut from: usize = 0;
    proof {
        assert(requests(actions@) =~= Seq::<Request>::empty());
    }
    loop
        invariant
            from <= t.len(),
            requests(actions@) + scanned_from(t@, from as int) == scanned_from(t@, 0),
            !t@.contains('{') ==> actions@.len() == 0,
        ensures
            requests(actions@) == scanned_from(t@, 0),
            !t@.contains('{') ==> actions@.len() == 0,
        decreases t.len() - from,
    {
        let a = match next_open(t, from) {
            None => {
                break ;
            },
            Some(a) => a,
        };
        proof {
            assert(t@[a as int] == '{');
            assert(t@.contains('{'));
            let c: int = choose|c: int| opens_at(t@, from as int, c);
            assert(opens_at(t@, from as int, c));
            if c < a {
                assert(t@[c] != '{');
            } else if a < c {
                assert(t@[a as int] != '{');
            }
        }
        let b = match closing(t, a) {
            None => {
                break ;
            },
            Some(b) => b,
        };
        proof {
            let c: int = choose|c: int| closes_at(t@, a as int, c);
            assert(closes_at(t@, a as int, c));
            if c < b {
                assert(balance(t@, a as int, c + 1) != 0);
            } else if b < c {
                assert(balance(t@, a as int, b + 1) != 0);
            }
            assert(c == b);
        }
        let span = text_between(t, a, b + 1);
        let ghost before = requests(actions@);
        match decode(span.as_str()) {
            Some(action) => {
                actions.push(action);
                proof {
                    assert(requests(actions@) =~= before.push(action@));
                    assert(before.push(action@) + scanned_from(t@, b + 1) =~= before + (
                    seq![action@] + scanned_from(t@, b + 1)));
                }
            },
            None => {},
        }
        from = b + 1;
    }
    actions
}

/// Parse the LLM response to extract actions (handles multiple JSON objects).
pub fn parse_llm_response(response: &str) -> (actions: Vec<LlmAction>)
    ensures
        requests(actions@) == parsed(response@),
        !response@.contains('{') ==> actions@.len() == 0,
{
    let whole = chars_of(response);
    let (from, to) = trim_bounds(&whole);
    let text = text_between(&whole, from, to);
    proof {
        lemma_part_holds(whole@, from as int, to as int, '{');
    }
    match decode(text.as_str()) {
        Some(action) => {
            let mut actions: Vec<LlmAction> = Vec::new();
            actions.push(action);
            assert(requests(actions@) =~= seq![action@]);
            return actions;
        },
        None => {},
    }
    let t = chars_of(text.as_str());
    match fenced_block(&t) {
        Some((a, b)) => {
            let inner = text_between(&t, a, b);
            let ghost block = inner@;
            let inner = trimmed(inner.as_str());
            proof {
                lemma_part_holds(t@, a as int, b as int, '{');
                lemma_trim_is_part(block, '{');
            }
            match decode(inner.as_str()) {
                Some(action) => {
                    let mut actions: Vec<LlmAction> = Vec::new();
                    actions.push(action);
                    assert(requests(actions@) =~= seq![action@]);
                    return actions;
                },
                None => {},
            }
        },
        None => {},
    }
    scan(&t)
}

} // verus!
