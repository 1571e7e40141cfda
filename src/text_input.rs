use vstd::prelude::*;

verus! {

#[verifier::external_type_specification]
#[verifier::external_body]
pub struct ExValue(serde_json::Value);

/// Relies on `serde_json::from_slice`: the JSON value the bytes hold, or
/// nothing where they hold none.
#[verifier::external_body]
fn parse_json(bytes: &Vec<u8>) -> (v: Option<serde_json::Value>) {
    serde_json::from_slice(bytes.as_slice()).ok()
}

/// Relies on `serde_json::Value::get` with a key: the member of an object
/// under `key`; nothing for a missing key or a value that is no object.
#[verifier::external_body]
fn json_member(v: &serde_json::Value, key: &str) -> (m: Option<serde_json::Value>) {
    v.get(key).cloned()
}

/// Relies on `serde_json::Value::get` with an index: item `i` of an array;
/// nothing past its end or for a value that is no array.
#[verifier::external_body]
fn json_item(v: &serde_json::Value, i: usize) -> (item: Option<serde_json::Value>) {
    v.get(i).cloned()
}

/// Relies on `serde_json::Value::as_str`: the text of a JSON string.
#[verifier::external_body]
fn json_string(v: &serde_json::Value) -> (s: Option<String>) {
    match v.as_str() {
        Some(s) => Some(s.to_owned()),
        None => None,
    }
}

/// Relies on `serde_json::Value::as_i64`: a JSON number that is an `i64`.
#[verifier::external_body]
fn json_i64(v: &serde_json::Value) -> (n: Option<i64>) {
    v.as_i64()
}

/// A message that the engine sends on a named channel; `response_handle`
/// is what an answer must quote.
pub struct PlatformMessage<R> {
    pub channel: String,
    pub message: Vec<u8>,
    pub response_handle: R,
}

/// What the text-input client of the engine is editing: its id and text.
pub struct ImeState {
    pub client_id: i32,
    pub text: String,
}

/// The text-input calls that change the editing state.
pub enum TextInputCall {
    /// A client takes the keyboard, with empty text.
    SetClient(i64),
    /// The client's text is now this.
    SetEditingState(String),
    /// Any other message.
    Other,
}

pub open spec fn ime_view(state: Option<ImeState>) -> Option<(i32, Seq<char>)> {
    match state {
        Some(s) => Some((s.client_id, s.text@)),
        None => None,
    }
}

/// The editing state after a call. An id is kept to its low 32 bits.
pub open spec fn ime_after(state: Option<(i32, Seq<char>)>, call: TextInputCall) -> Option<(i32, Seq<char>)> {
    match call {
        TextInputCall::SetClient(id) => Some((id as i32, Seq::empty())),
        TextInputCall::SetEditingState(text) => match state {
            Some((id, _)) => Some((id, text@)),
            None => None,
        },
        TextInputCall::Other => state,
    }
}

/// Applies a text-input call to the editing state.
pub fn apply_text_input_call(state: &mut Option<ImeState>, call: TextInputCall)
    ensures
        ime_view(*final(state)) == ime_after(ime_view(*old(state)), call),
{
    match call {
        TextInputCall::SetClient(id) => {
            *state = Some(ImeState { client_id: id as i32, text: String::new() });
        },
        TextInputCall::SetEditingState(text) => {
            match state {
                Some(s) => {
                    s.text = text;
                },
                None => {},
            }
        },
        TextInputCall::Other => {},
    }
}

/// The text-input call that a message holds: a JSON object whose `method`
/// names the call and whose `args` list starts with its argument.
pub fn decode_text_input(message: &Vec<u8>) -> (call: TextInputCall) {
    let v = match parse_json(message) {
        Some(v) => v,
        None => return TextInputCall::Other,
    };
    let method = match json_member(&v, "method") {
        Some(m) => m,
        None => return TextInputCall::Other,
    };
    let method = match json_string(&method) {
        Some(s) => s,
        None => return TextInputCall::Other,
    };
    let args = match json_member(&v, "args") {
        Some(a) => a,
        None => return TextInputCall::Other,
    };
    let first = match json_item(&args, 0) {
        Some(f) => f,
        None => return TextInputCall::Other,
    };
    if method == "TextInput.setClient".to_owned() {
        match json_i64(&first) {
            Some(id) => TextInputCall::SetClient(id),
            None => TextInputCall::Other,
        }
    } else if method == "TextInput.setEditingState".to_owned() {
        match json_member(&first, "text") {
            Some(t) => match json_string(&t) {
                Some(text) => TextInputCall::SetEditingState(text),
                None => TextInputCall::Other,
            },
            None => TextInputCall::Other,
        }
    } else {
        TextInputCall::Other
    }
}

/// The channel the engine's text input talks on.
pub open spec fn text_input_channel() -> Seq<char> {
    "flutter/textinput"@
}

/// Follows a platform message: on the text-input channel, the editing
/// state takes in the call the message holds; other channels leave it
/// alone. Returns whether the message was answered, which it never is:
/// the engine is to be told that it went unhandled.
pub fn handle_message<R>(state: &mut Option<ImeState>, message: &PlatformMessage<R>) -> (handled: bool)
    ensures
        !handled,
        message.channel@ != text_input_channel() ==> ime_view(*final(state)) == ime_view(*old(state)),
        message.channel@ == text_input_channel() ==> exists|call: TextInputCall|
            ime_view(*final(state)) == ime_after(ime_view(*old(state)), call),
{
    let channel = "flutter/textinput".to_owned();
    proof {
        reveal_strlit("flutter/textinput");
    }
    if message.channel == channel {
        let call = decode_text_input(&message.message);
        apply_text_input_call(state, call);
    }
    false
}

} // verus!
