use vstd::prelude::*;
use zbus::zvariant::OwnedValue;

verus! {

/// The desktop-wide colour-scheme preference.
#[derive(Clone, Copy, Debug, PartialEq, Eq, Structural)]
pub enum ThemePreference {
    NoPreference,
    Dark,
    Light,
    Unknown,
}

/// The preference that a numeric code of the settings service stands for:
/// 0, 1 and 2 are no preference, dark and light; every other code is unknown.
pub open spec fn preference_of_code(code: u32) -> ThemePreference {
    if code == 0 {
        ThemePreference::NoPreference
    } else if code == 1 {
        ThemePreference::Dark
    } else if code == 2 {
        ThemePreference::Light
    } else {
        ThemePreference::Unknown
    }
}

/// The preference for what a setting value held: a code when it held an
/// unsigned 32-bit integer, `None` when it held anything else.
pub open spec fn preference_of_payload_spec(payload: Option<u32>) -> ThemePreference {
    match payload {
        Some(code) => preference_of_code(code),
        None => ThemePreference::Unknown,
    }
}

/// Every code outside 0, 1 and 2 decodes to `Unknown`, and so does a value
/// that holds no code at all.
pub proof fn lemma_unknown_codes(code: u32)
    ensures
        code > 2 ==> preference_of_payload_spec(Some(code)) == ThemePreference::Unknown,
        preference_of_payload_spec(None) == ThemePreference::Unknown,
{
}

impl From<u32> for ThemePreference {
    fn from(value: u32) -> (r: Self)
        ensures
            r == preference_of_code(value),
    {
        match value {
            0 => ThemePreference::NoPreference,
            1 => ThemePreference::Dark,
            2 => ThemePreference::Light,
            _ => ThemePreference::Unknown,
        }
    }
}

impl vstd::std_specs::convert::FromSpecImpl<u32> for ThemePreference {
    open spec fn obeys_from_spec() -> bool {
        true
    }

    open spec fn from_spec(v: u32) -> Self {
        preference_of_code(v)
    }
}

/// Maps what a setting value held to a preference. A value of the wrong
/// type is not an error: it reads as `Unknown`.
pub fn preference_of_payload(payload: Option<u32>) -> (r: ThemePreference)
    ensures
        r == preference_of_payload_spec(payload),
{
    match payload {
        Some(code) => ThemePreference::from(code),
        None => ThemePreference::Unknown,
    }
}

#[verifier::external_type_specification]
#[verifier::external_body]
pub struct ExOwnedValue(OwnedValue);

/// The unsigned 32-bit integer that a setting value holds, if it holds one.
pub uninterp spec fn u32_payload(v: OwnedValue) -> Option<u32>;

/// Relies on zvariant's `Value::downcast_ref::<u32>` (reached through
/// `OwnedValue`'s `Deref`): `Ok` with the integer when the value, or the value
/// it wraps, is a `u32`, an error otherwise. The outcome depends on the value
/// alone.
#[verifier::external_body]
pub(crate) fn downcast_u32(v: &OwnedValue) -> (r: Option<u32>)
    ensures
        r == u32_payload(*v),
{
    v.downcast_ref::<u32>().ok()
}

/// Decodes a raw setting value into a preference. Never fails: a value that is
/// not an unsigned 32-bit integer reads as `Unknown`.
pub fn parse_theme_preference(value: &OwnedValue) -> (r: ThemePreference)
    ensures
        r == preference_of_payload_spec(u32_payload(*value)),
{
    let payload = downcast_u32(value);
    preference_of_payload(payload)
}

} // verus!
