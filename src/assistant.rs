//! The decisions of an AI transformation request: the prompt sent for a
//! clipboard item, the token budget, and the retry policy with exponential
//! backoff. Sending the request and waiting are left to the caller.

use vstd::prelude::*;
use crate::detection::{json_parses, text_option};
use crate::history::texts;
use crate::text::{blank, chars_of, is_blank, string_of};

verus! {

/// The model the requests name.
pub const MODEL_NAME: &'static str = "gpt-oss:20b";

/// The instructions sent ahead of every request.
pub const SYSTEM_PROMPT: &'static str =
    "You are an AI assistant that helps transform clipboard content. Be helpful, accurate, and preserve important information. When provided with additional context, use it to give better, more relevant responses.";

/// The request made when the user gives none.
pub const DEFAULT_REQUEST: &'static str =
    "Please improve and format this content, taking into account any provided context.";

pub const CONTEXT_HEADER: &'static str = "Additional Context:\n";
pub const CONTEXT_LABEL: &'static str = "Context ";
pub const CONTEXT_SEPARATOR: &'static str = ": ";
pub const ENTRY_END: &'static str = "\n\n";
pub const CONTEXT_FOOTER: &'static str = "---\n\n";
pub const CONTENT_OPEN: &'static str = "Main Content:\n```\n";
pub const CONTENT_CLOSE: &'static str = "\n```\n\n";
pub const REQUEST_LABEL: &'static str = "Request: ";

/// How many times a request is tried in all.
pub const MAX_ATTEMPTS: u32 = 3;

/// Wait before the second attempt, in milliseconds; it doubles after each.
pub const BASE_DELAY_MS: u64 = 1000;

/// Errors after which a request is not tried again.
pub const CANCELLED_MARK: &'static str = "cancelled";
pub const BAD_FORMAT_MARK: &'static str = "Invalid response format";
pub const NO_CONNECTION_MARK: &'static str = "Cannot connect";

/// The decimal digit for `d`.
pub open spec fn digit(d: nat) -> char {
    if d == 0 {
        '0'
    } else if d == 1 {
        '1'
    } else if d == 2 {
        '2'
    } else if d == 3 {
        '3'
    } else if d == 4 {
        '4'
    } else if d == 5 {
        '5'
    } else if d == 6 {
        '6'
    } else if d == 7 {
        '7'
    } else if d == 8 {
        '8'
    } else {
        '9'
    }
}

/// `n` written in decimal.
pub open spec fn decimal(n: nat) -> Seq<char>
    decreases n,
{
    if n < 10 {
        seq![digit(n)]
    } else {
        decimal(n / 10).push(digit(n % 10))
    }
}

/// The line that gives the `k`-th (from zero) context item.
pub open spec fn context_entry(k: nat, item: Seq<char>) -> Seq<char> {
    CONTEXT_LABEL@ + decimal(k + 1) + CONTEXT_SEPARATOR@ + item + ENTRY_END@
}

/// The lines that give the context items, numbered from one.
pub open spec fn context_entries(items: Seq<Seq<char>>) -> Seq<char>
    decreases items.len(),
{
    if items.len() == 0 {
        Seq::empty()
    } else {
        context_entries(items.drop_last()) + context_entry(
            (items.len() - 1) as nat,
            items.last(),
        )
    }
}

/// The context part of the prompt: nothing without context items.
pub open spec fn context_block(items: Seq<Seq<char>>) -> Seq<char> {
    if items.len() == 0 {
        Seq::empty()
    } else {
        CONTEXT_HEADER@ + context_entries(items) + CONTEXT_FOOTER@
    }
}

/// The user prompt for `content`: the context, the content in a fence, and
/// the user's request or the default one.
pub open spec fn user_prompt(
    content: Seq<char>,
    request: Option<Seq<char>>,
    items: Seq<Seq<char>>,
) -> Seq<char> {
    context_block(items) + CONTENT_OPEN@ + content + CONTENT_CLOSE@ + match request {
        Some(p) => REQUEST_LABEL@ + p,
        None => DEFAULT_REQUEST@,
    }
}

/// The context items that were given, if any.
pub open spec fn given_items(items: Option<Vec<String>>) -> Seq<Seq<char>> {
    match items {
        Some(v) => texts(v@),
        None => Seq::empty(),
    }
}

fn push_digit(out: &mut Vec<char>, d: usize)
    requires
        d < 10,
    ensures
        final(out)@ == old(out)@.push(digit(d as nat)),
{
    let c = if d == 0 {
        '0'
    } else if d == 1 {
        '1'
    } else if d == 2 {
        '2'
    } else if d == 3 {
        '3'
    } else if d == 4 {
        '4'
    } else if d == 5 {
        '5'
    } else if d == 6 {
        '6'
    } else if d == 7 {
        '7'
    } else if d == 8 {
        '8'
    } else {
        '9'
    };
    out.push(c);
}

/// Appends `n` written in decimal.
fn push_decimal(out: &mut Vec<char>, n: usize)
    ensures
        final(out)@ == old(out)@ + decimal(n as nat),
    decreases n,
{
    if n >= 10 {
        push_decimal(out, n / 10);
    }
    push_digit(out, n % 10);
    assert(old(out)@ + decimal(n as nat) =~= out@);
}

/// Appends the characters of `s`.
fn push_str(out: &mut Vec<char>, s: &str)
    ensures
        final(out)@ == old(out)@ + s@,
{
    let cs = chars_of(s);
    let mut i: usize = 0;
    while i < cs.len()
        invariant
            cs@ == s@,
            i <= cs.len(),
            out@ == old(out)@ + s@.take(i as int),
        decreases cs.len() - i,
    {
        out.push(cs[i]);
        i = i + 1;
        assert(out@ =~= old(out)@ + s@.take(i as int));
    }
    assert(s@.take(i as int) =~= s@);
}

/// The user prompt sent for `content`, with the user's request and the
/// extra context items, if any.
pub fn build_user_prompt(
    content: &str,
    custom_prompt: &Option<String>,
    context_items: &Option<Vec<String>>,
) -> (r: String)
    ensures
        r@ == user_prompt(content@, text_option(*custom_prompt), given_items(*context_items)),
{
    let ghost items = given_items(*context_items);
    let mut out: Vec<char> = Vec::new();
    if let Some(list) = context_items {
        if list.len() > 0 {
            push_str(&mut out, CONTEXT_HEADER);
            let mut k: usize = 0;
            while k < list.len()
                invariant
                    items == texts(list@),
                    k <= list.len(),
                    out@ == CONTEXT_HEADER@ + context_entries(items.take(k as int)),
                decreases list.len() - k,
            {
                push_str(&mut out, CONTEXT_LABEL);
                push_decimal(&mut out, k + 1);
                push_str(&mut out, CONTEXT_SEPARATOR);
                push_str(&mut out, list[k].as_str());
                push_str(&mut out, ENTRY_END);
                proof {
                    let next = items.take(k + 1);
                    assert(next.drop_last() =~= items.take(k as int));
                    assert(next.last() == list@[k as int]@);
                }
                k = k + 1;
                assert(out@ =~= CONTEXT_HEADER@ + context_entries(items.take(k as int)));
            }
            assert(items.take(k as int) =~= items);
            push_str(&mut out, CONTEXT_FOOTER);
        }
    }
    assert(out@ =~= context_block(items));
    push_str(&mut out, CONTENT_OPEN);
    push_str(&mut out, content);
    push_str(&mut out, CONTENT_CLOSE);
    match custom_prompt {
        Some(p) => {
            push_str(&mut out, REQUEST_LABEL);
            push_str(&mut out, p.as_str());
        },
        None => {
            push_str(&mut out, DEFAULT_REQUEST);
        },
    }
    assert(out@ =~= user_prompt(content@, text_option(*custom_prompt), items));
    string_of(&out)
}

/// The token budget of a request: 2000 where the content and the prompt
/// together come to more than 2000 tokens at four bytes a token, else 1000.
pub fn max_tokens_for(content_len: usize, prompt_len: usize) -> (r: u32)
    ensures
        r == if (content_len + prompt_len) / 4 > 2000 {
            2000u32
        } else {
            1000u32
        },
{
    let estimated: u128 = ((content_len as u128) + (prompt_len as u128)) / 4;
    if estimated > 2000 {
        2000
    } else {
        1000
    }
}

/// Whether `text` occurs in `s` at `i`.
pub open spec fn occurs_at(s: Seq<char>, text: Seq<char>, i: int) -> bool {
    0 <= i && i + text.len() <= s.len() && s.subrange(i, i + text.len()) == text
}

/// Whether `text` occurs in `s`.
pub open spec fn contains(s: Seq<char>, text: Seq<char>) -> bool {
    exists|i: int| occurs_at(s, text, i)
}

/// Whether `text` occurs in `s`.
pub fn contains_text(s: &str, text: &str) -> (r: bool)
    ensures
        r == contains(s@, text@),
{
    let hay = chars_of(s);
    let needle = chars_of(text);
    if needle.len() > hay.len() {
        return false;
    }
    let last = hay.len() - needle.len();
    let mut i: usize = 0;
    while i <= last
        invariant
            hay@ == s@,
            needle@ == text@,
            last == hay.len() - needle.len(),
            needle.len() <= hay.len(),
            forall|j: int| 0 <= j < i ==> !#[trigger] occurs_at(s@, text@, j),
        decreases last + 1 - i,
    {
        let mut k: usize = 0;
        while k < needle.len() && hay[i + k] == needle[k]
            invariant
                hay@ == s@,
                needle@ == text@,
                i <= last,
                last == hay.len() - needle.len(),
                k <= needle.len(),
                forall|m: int| 0 <= m < k ==> hay@[i + m] == needle@[m],
            decreases needle.len() - k,
        {
            k = k + 1;
        }
        if k == needle.len() {
            assert(s@.subrange(i as int, i + text@.len()) =~= text@);
            assert(occurs_at(s@, text@, i as int));
            return true;
        }
        assert(!occurs_at(s@, text@, i as int)) by {
            if occurs_at(s@, text@, i as int) {
                assert(s@.subrange(i as int, i + text@.len())[k as int] == text@[k as int]);
            }
        }
        i = i + 1;
    }
    proof {
        assert forall|j: int| !occurs_at(s@, text@, j) by {
            if 0 <= j && j + text@.len() <= s@.len() {
                assert(j < i);
            }
        }
    }
    false
}

/// Whether a failure with message `error` ends the request at once.
pub open spec fn is_final_error(error: Seq<char>) -> bool {
    contains(error, CANCELLED_MARK@) || contains(error, BAD_FORMAT_MARK@) || contains(
        error,
        NO_CONNECTION_MARK@,
    )
}

/// Wait before the attempt after attempt `attempt` (from one).
pub open spec fn backoff_ms(attempt: nat) -> nat
    decreases attempt,
{
    if attempt <= 1 {
        BASE_DELAY_MS as nat
    } else {
        2 * backoff_ms((attempt - 1) as nat)
    }
}

/// What follows a failed attempt.
#[derive(PartialEq, Eq, Structural, Clone, Copy, Debug)]
pub enum RetryStep {
    /// Wait this many milliseconds, then try again.
    Retry { delay_ms: u64 },
    /// Report the failure.
    GiveUp,
}

/// What follows the failure of attempt `attempt` (from one) with message
/// `error`: give up after a final error or the last attempt, else wait
/// `backoff_ms(attempt)` and retry.
pub fn after_failure(attempt: u32, error: &str) -> (r: RetryStep)
    requires
        1 <= attempt,
    ensures
        is_final_error(error@) || attempt >= MAX_ATTEMPTS ==> r is GiveUp,
        !is_final_error(error@) && attempt < MAX_ATTEMPTS ==> r == (RetryStep::Retry {
            delay_ms: backoff_ms(attempt as nat) as u64,
        }),
{
    if contains_text(error, CANCELLED_MARK) || contains_text(error, BAD_FORMAT_MARK)
        || contains_text(error, NO_CONNECTION_MARK) || attempt >= MAX_ATTEMPTS {
        return RetryStep::GiveUp;
    }
    let mut delay: u64 = BASE_DELAY_MS;
    let mut a: u32 = 1;
    while a < attempt
        invariant
            1 <= a <= attempt < MAX_ATTEMPTS,
            delay == backoff_ms(a as nat),
            delay <= BASE_DELAY_MS * 2,
        decreases attempt - a,
    {
        delay = delay * 2;
        a = a + 1;
    }
    RetryStep::Retry { delay_ms: delay }
}

pub const FAILURE_LEAD: &'static str = "AI processing failed after ";
pub const FAILURE_ATTEMPTS: &'static str = " attempts: ";

/// The message reported when every attempt failed, the last with `error`.
pub open spec fn failure_message(error: Seq<char>) -> Seq<char> {
    FAILURE_LEAD@ + decimal(MAX_ATTEMPTS as nat) + FAILURE_ATTEMPTS@ + error
}

/// The message reported when every attempt failed, the last with `error`.
pub fn failure_report(error: &str) -> (r: String)
    ensures
        r@ == failure_message(error@),
{
    let mut out: Vec<char> = Vec::new();
    push_str(&mut out, FAILURE_LEAD);
    push_decimal(&mut out, MAX_ATTEMPTS as usize);
    push_str(&mut out, FAILURE_ATTEMPTS);
    push_str(&mut out, error);
    assert(out@ =~= failure_message(error@));
    string_of(&out)
}

/// What names the model among the installed ones.
pub const MODEL_MARK: &'static str = "gpt-oss";

/// Whether one of the installed models `names` is the model the requests
/// name.
pub fn has_model(names: &Vec<String>) -> (r: bool)
    ensures
        r == exists|i: int| 0 <= i < names@.len() && contains(#[trigger] names@[i]@, MODEL_MARK@),
{
    let mut i: usize = 0;
    while i < names.len()
        invariant
            i <= names.len(),
            forall|j: int| 0 <= j < i ==> !contains(#[trigger] names@[j]@, MODEL_MARK@),
        decreases names.len() - i,
    {
        if contains_text(names[i].as_str(), MODEL_MARK) {
            return true;
        }
        i = i + 1;
    }
    false
}

pub const READY_MESSAGE: &'static str = "AI features are ready!";
pub const MODEL_MISSING_MESSAGE: &'static str =
    "Ollama is running but gpt-oss model not found. Run: ollama pull gpt-oss:20b";

/// The status line for a running service, by whether the model is there.
pub fn status_message(model_found: bool) -> (r: &'static str)
    ensures
        r@ == if model_found {
            READY_MESSAGE@
        } else {
            MODEL_MISSING_MESSAGE@
        },
{
    if model_found {
        READY_MESSAGE
    } else {
        MODEL_MISSING_MESSAGE
    }
}

pub const NOT_JSON_MESSAGE: &'static str = "Failed to parse AI response as JSON";
pub const BAD_FORMAT_MESSAGE: &'static str = "Invalid response format from AI service";
pub const EMPTY_REPLY_MESSAGE: &'static str = "AI returned empty response";

/// Where a chat reply holds its text, as a JSON Pointer.
pub const REPLY_POINTER: &'static str = "/choices/0/message/content";

/// The string at the JSON Pointer `pointer` in the JSON document
/// `document`, if a string is there.
pub uninterp spec fn json_string_at(document: Seq<char>, pointer: Seq<char>) -> Option<Seq<char>>;

/// Relies on `serde_json::from_str` into a `serde_json::Value`, then on
/// `Value::pointer` and `Value::as_str`: `None` where `body` does not parse
/// as JSON, else the string at `pointer`, if a string is there. The answer
/// depends on the two strings alone.
#[verifier::external_body]
fn read_json_string(body: &str, pointer: &str) -> (r: Option<Option<String>>)
    ensures
        r is None <==> !json_parses(body@),
        r matches Some(t) ==> text_option(t) == json_string_at(body@, pointer@),
{
    match serde_json::from_str::<serde_json::Value>(body) {
        Ok(json) => Some(json.pointer(pointer).and_then(|v| v.as_str()).map(|s| s.to_string())),
        Err(_) => None,
    }
}

/// Why the text of a reply is not usable.
#[derive(PartialEq, Eq, Structural, Clone, Copy, Debug)]
pub enum ReplyError {
    /// The reply is not JSON.
    NotJson,
    /// The reply holds no text where the text belongs.
    InvalidFormat,
    /// The text holds nothing but whitespace.
    Empty,
}

impl ReplyError {
    /// The message reported for this error. A bad format is final: the
    /// message carries `BAD_FORMAT_MARK`.
    pub fn message(&self) -> (r: &'static str)
        ensures
            r@ == match *self {
                ReplyError::NotJson => NOT_JSON_MESSAGE@,
                ReplyError::InvalidFormat => BAD_FORMAT_MESSAGE@,
                ReplyError::Empty => EMPTY_REPLY_MESSAGE@,
            },
    {
        match self {
            ReplyError::NotJson => NOT_JSON_MESSAGE,
            ReplyError::InvalidFormat => BAD_FORMAT_MESSAGE,
            ReplyError::Empty => EMPTY_REPLY_MESSAGE,
        }
    }
}

/// Accepts the text found in a reply: a missing text is a bad format, a
/// blank one is empty, any other is the result.
pub fn accept_reply(text: Option<String>) -> (r: Result<String, ReplyError>)
    ensures
        text is None ==> r == Err::<String, ReplyError>(ReplyError::InvalidFormat),
        text is Some && blank(text->0@) ==> r == Err::<String, ReplyError>(ReplyError::Empty),
        text is Some && !blank(text->0@) ==> (r matches Ok(s) && s@ == text->0@),
{
    match text {
        None => Err(ReplyError::InvalidFormat),
        Some(t) => {
            if is_blank(t.as_str()) {
                Err(ReplyError::Empty)
            } else {
                Ok(t)
            }
        },
    }
}

/// The text of the chat reply `body`: an error where it is not JSON, holds
/// no string at `REPLY_POINTER`, or holds a blank one there.
pub fn read_reply(body: &str) -> (r: Result<String, ReplyError>)
    ensures
        !json_parses(body@) ==> r == Err::<String, ReplyError>(ReplyError::NotJson),
        json_parses(body@) && json_string_at(body@, REPLY_POINTER@) is None ==> r == Err::<
            String,
            ReplyError,
        >(ReplyError::InvalidFormat),
        json_parses(body@) && json_string_at(body@, REPLY_POINTER@) is Some && blank(
            json_string_at(body@, REPLY_POINTER@)->0,
        ) ==> r == Err::<String, ReplyError>(ReplyError::Empty),
        json_parses(body@) && json_string_at(body@, REPLY_POINTER@) is Some && !blank(
            json_string_at(body@, REPLY_POINTER@)->0,
        ) ==> (r matches Ok(s) && s@ == json_string_at(body@, REPLY_POINTER@)->0),
{
    match read_json_string(body, REPLY_POINTER) {
        None => Err(ReplyError::NotJson),
        Some(text) => accept_reply(text),
    }
}

/// Why a request for a transformation was refused before it was sent.
#[derive(PartialEq, Eq, Structural, Clone, Copy, Debug)]
pub enum RequestError {
    /// The content holds nothing but whitespace.
    EmptyContent,
}

pub const EMPTY_CONTENT_MESSAGE: &'static str = "Content is empty";

impl RequestError {
    /// The message shown for this error.
    pub fn message(&self) -> (r: &'static str)
        ensures
            r@ == EMPTY_CONTENT_MESSAGE@,
    {
        EMPTY_CONTENT_MESSAGE
    }
}

/// Checks that `content` is worth a request: it must hold more than
/// whitespace.
pub fn check_content(content: &str) -> (r: Result<(), RequestError>)
    ensures
        r is Err <==> blank(content@),
{
    if is_blank(content) {
        Err(RequestError::EmptyContent)
    } else {
        Ok(())
    }
}

} // verus!
