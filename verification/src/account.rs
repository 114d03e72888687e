//! Account payloads: an entity state that holds one integer balance.
use vstd::prelude::*;

use crate::state::{Payload, Value};

verus! {

/// Whether the key is the name of the balance field.
pub open spec fn is_balance_key(key: String) -> bool {
    key@ == "balance"@
}

/// Calls `BTreeMap::insert` on a payload.
///
/// Trusted: the map afterwards maps `key` to `value` and is otherwise
/// unchanged, as the documentation of `BTreeMap::insert` says. vstd states this
/// only for key types whose ordering it can check, which `String` is not; the
/// returned previous value is dropped.
#[verifier::external_body]
fn payload_insert(payload: &mut Payload, key: String, value: Value)
    ensures
        final(payload)@ == old(payload)@.insert(key, value),
{
    payload.insert(key, value);
}

/// Calls `BTreeMap::get` on a payload with a `&str` key.
///
/// Trusted: as the documentation of `BTreeMap::get` says for `String` keys
/// borrowed as `&str`, the result is the value of the entry whose key has the
/// same characters as `key`, or `None` when there is no such entry.
#[verifier::external_body]
fn payload_get<'a>(payload: &'a Payload, key: &str) -> (value: Option<&'a Value>)
    ensures
        match value {
            Some(value) => {
                &&& exists|k: String| k@ == key@ && #[trigger] payload@.contains_key(k)
                &&& forall|k: String|
                    k@ == key@ && #[trigger] payload@.contains_key(k) ==> payload@[k] == *value
            },
            None => forall|k: String| #[trigger] payload@.contains_key(k) ==> k@ != key@,
        },
{
    payload.get(key)
}

/// Creates an account payload with the given balance.
pub fn account_payload(balance: i64) -> (payload: Payload)
    ensures
        exists|key: String|
            is_balance_key(key) && payload@ == map![key => Value::Int(balance)],
{
    let mut payload = Payload::new();
    let key = "balance".to_owned();
    payload_insert(&mut payload, key, Value::Int(balance));
    assert(is_balance_key(key));
    assert(payload@ =~= map![key => Value::Int(balance)]);
    payload
}

/// Reads the integer balance from an account payload.
pub fn account_balance(payload: &Payload) -> (balance: i64)
    requires
        exists|key: String|
            is_balance_key(key) && #[trigger] payload@.contains_key(key) && payload@[key] is Int,
    ensures
        exists|key: String|
            is_balance_key(key) && #[trigger] payload@.contains_key(key) && payload@[key]
                == Value::Int(balance),
        forall|key: String|
            is_balance_key(key) && #[trigger] payload@.contains_key(key) ==> payload@[key]
                == Value::Int(balance),
{
    match payload_get(payload, "balance") {
        Some(Value::Int(balance)) => *balance,
        _ => vstd::pervasive::unreached(),
    }
}

} // verus!
