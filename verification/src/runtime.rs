//! The expression-evaluator boundary: formulas are evaluated by the
//! embedding JavaScript host. Everything behind this boundary is an outside
//! collaborator; nothing is promised of an evaluation's outcome, and play
//! resolution states what holds whatever comes back.

use vstd::prelude::*;

verus! {

/// wasm_bindgen's opaque handle to a JavaScript value.
#[verifier::external_type_specification]
#[verifier::external_body]
pub struct ExJsValue(wasm_bindgen::JsValue);

/// A handle to the JavaScript host's evaluator.
pub struct JsRuntime {}

impl JsRuntime {
    pub fn new() -> (r: JsRuntime) {
        JsRuntime {  }
    }

    /// Relies on js_sys::eval: hands `code` to the JavaScript host, which
    /// evaluates it and returns its result, or the thrown value as the
    /// error. The outcome depends on the host's state, so nothing is
    /// promised of it.
    #[verifier::external_body]
    pub fn eval(&self, code: &str) -> Result<wasm_bindgen::JsValue, wasm_bindgen::JsValue> {
        js_sys::eval(code)
    }
}

impl Default for JsRuntime {
    fn default() -> (r: Self)
        ensures
            r == (JsRuntime {  }),
    {
        JsRuntime::new()
    }
}

/// Relies on wasm_bindgen::JsValue::as_f64 and f64::round: the numeric value
/// of a JS number rounded to the nearest integer (the cast saturates at the
/// ends of the i64 range), or `None` where the value is not a JS number. The
/// result depends only on the handed-in value, but a JS number is outside
/// this crate's model, so nothing is promised of it.
#[verifier::external_body]
pub(crate) fn round_js_number(v: &wasm_bindgen::JsValue) -> (r: Option<i64>) {
    v.as_f64().map(|n| n.round() as i64)
}

} // verus!
