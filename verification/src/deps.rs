//! The items of other crates that the library relies on. Their contracts are
//! taken on trust from the crates' sources; everything else is proved.

use vstd::prelude::*;

use crate::models::{text_of, Timestamp};
use crate::templates::tame;

verus! {

/// A JSON document, as `serde_json` holds it. The library carries payloads of
/// this type without looking inside them.
#[verifier::external_type_specification]
#[verifier::external_body]
pub struct ExJsonValue(serde_json::Value);

/// `Clone` for `serde_json::Value` is derived: the copy is the same document.
pub assume_specification[ <serde_json::Value as Clone>::clone ](v: &serde_json::Value) -> (r:
    serde_json::Value)
    ensures
        r == *v,
;

/// A random version-4 UUID in its hyphenated text form, from
/// `uuid::Uuid::new_v4`. Nothing is claimed of the value: it is random.
/// (`new_v4` panics if the operating system has no random bytes to give.)
#[verifier::external_body]
pub(crate) fn fresh_job_id() -> String {
    uuid::Uuid::new_v4().to_string()
}

/// The current time, from `chrono::Utc::now`, as whole seconds since the Unix
/// epoch and the nanoseconds within that second. Nothing is claimed of the
/// value: it depends on the clock. (`Utc::now` panics if the clock is set to
/// a time before the epoch.)
#[verifier::external_body]
pub(crate) fn now() -> Timestamp {
    let t = chrono::Utc::now();
    Timestamp { secs: t.timestamp(), nanos: t.timestamp_subsec_nanos() }
}

/// Whether a JSON document is an object, as `Value::is_object` tells.
pub uninterp spec fn is_object(data: serde_json::Value) -> bool;

/// Tells with `Value::is_object` whether `data` is an object.
#[verifier::external_body]
pub(crate) fn json_is_object(data: &serde_json::Value) -> (object: bool)
    ensures
        object == is_object(*data),
{
    data.is_object()
}

/// The member `key` of a JSON document, as `Value::get` finds it: the value
/// under `key` if the document is an object and has that member, none
/// otherwise.
pub uninterp spec fn member(data: serde_json::Value, key: Seq<char>) -> Option<serde_json::Value>;

/// A copy of the member `key` of `data`, looked up with `Value::get`.
#[verifier::external_body]
pub(crate) fn json_member(data: &serde_json::Value, key: &str) -> (value: Option<
    serde_json::Value,
>)
    ensures
        value == member(*data, key@),
{
    data.get(key).cloned()
}

/// The text of a JSON document, as `Value::as_str` gives it: the characters
/// if the document is a string, none otherwise.
pub uninterp spec fn text_value(data: serde_json::Value) -> Option<Seq<char>>;

/// The text of `data`, taken with `Value::as_str`.
#[verifier::external_body]
pub(crate) fn json_text(data: &serde_json::Value) -> (text: Option<String>)
    ensures
        text_of(text) == text_value(*data),
{
    data.as_str().map(str::to_owned)
}

/// A JSON object with one text member set: the object `data` with the member
/// `key` holding the string `text`, in place of an earlier member of that
/// name if there was one. It says nothing of a document that is no object.
pub uninterp spec fn with_string_member(
    data: serde_json::Value,
    key: Seq<char>,
    text: Seq<char>,
) -> serde_json::Value;

/// Copies the object `data` and sets the member `key` of the copy to the
/// string `text`, with `Value::as_object_mut` and `Map::insert`.
#[verifier::external_body]
pub(crate) fn json_with_string_member(data: &serde_json::Value, key: &str, text: &str) -> (merged:
    serde_json::Value)
    requires
        is_object(*data),
    ensures
        merged == with_string_member(*data, key@, text@),
{
    let mut merged = data.clone();
    if let Some(object) = merged.as_object_mut() {
        object.insert(key.to_string(), serde_json::Value::String(text.to_string()));
    }
    merged
}

/// The JSON object with the single member `key`, holding the string `text`.
pub uninterp spec fn single_member(key: Seq<char>, text: Seq<char>) -> serde_json::Value;

/// Makes the JSON object with the single member `key`, holding the string
/// `text`, from an empty `serde_json::Map` and `Map::insert`.
#[verifier::external_body]
pub(crate) fn json_single_member(key: &str, text: &str) -> (object: serde_json::Value)
    ensures
        object == single_member(key@, text@),
        is_object(object),
{
    let mut members = serde_json::Map::new();
    members.insert(key.to_string(), serde_json::Value::String(text.to_string()));
    serde_json::Value::Object(members)
}

/// The current year in UTC as `chrono` formats it with `%Y`. Nothing is
/// claimed of the value: it depends on the clock. (`Utc::now` panics if the
/// clock is set to a time before the epoch.)
#[verifier::external_body]
pub(crate) fn current_year() -> String {
    chrono::Utc::now().format("%Y").to_string()
}

/// A registry of compiled templates, as `handlebars` holds it.
#[verifier::external_type_specification]
#[verifier::external_body]
pub struct ExHandlebars<'reg>(handlebars::Handlebars<'reg>);

/// The error that `handlebars` reports when rendering fails.
#[verifier::external_type_specification]
#[verifier::external_body]
pub struct ExRenderError(handlebars::RenderError);

/// The templates that a registry holds: for each registered name, the source
/// text that was registered under it last.
pub uninterp spec fn registered(registry: handlebars::Handlebars<'static>) -> Map<
    Seq<char>,
    Seq<char>,
>;

/// A registry's contents when nothing is registered.
pub open spec fn no_templates() -> Map<Seq<char>, Seq<char>> {
    Map::empty()
}

/// Whether a source text is a well-formed template, that is, whether
/// `register_template_string` accepts it. The name it is registered under
/// plays no part in that. It is used of tame sources only.
pub uninterp spec fn compiles(source: Seq<char>) -> bool;

/// A registry as `Handlebars::new` makes it: no template is registered.
#[verifier::external_body]
pub(crate) fn empty_registry() -> (registry: handlebars::Handlebars<'static>)
    ensures
        registered(registry) == no_templates(),
{
    handlebars::Handlebars::new()
}

/// Registers `source` under `name` with `register_template_string`. A source
/// that compiles is registered, in place of an earlier template of that name
/// if there was one, and the result is `true`; one that does not compile
/// leaves the registry as it was, and the result is `false`.
///
/// The parser goes as deep as the source nests and gives up where the stack
/// runs short, so only of a tame source is the answer a matter of the text
/// alone, and only a tame source is handed over.
#[verifier::external_body]
pub(crate) fn register_template(
    registry: &mut handlebars::Handlebars<'static>,
    name: &str,
    source: &str,
) -> (accepted: bool)
    requires
        tame(source@),
    ensures
        accepted == compiles(source@),
        accepted ==> registered(*final(registry)) == registered(*old(registry)).insert(
            name@,
            source@,
        ),
        !accepted ==> registered(*final(registry)) == registered(*old(registry)),
{
    registry.register_template_string(name, source).is_ok()
}

/// Whether every template of a registry's contents is tame.
pub open spec fn all_tame(templates: Map<Seq<char>, Seq<char>>) -> bool {
    forall|name: Seq<char>| #[trigger] templates.contains_key(name) ==> tame(templates[name])
}

/// What `Handlebars::render` gives for the template registered under `name`
/// and the data `data`: the rendered text, or the error.
pub uninterp spec fn rendered(
    registry: handlebars::Handlebars<'static>,
    name: Seq<char>,
    data: serde_json::Value,
) -> Result<Seq<char>, handlebars::RenderError>;

/// The result of [`rendered`], with the text taken as characters.
pub open spec fn render_result(r: Result<String, handlebars::RenderError>) -> Result<
    Seq<char>,
    handlebars::RenderError,
> {
    match r {
        Ok(text) => Ok(text@),
        Err(e) => Err(e),
    }
}

/// Renders the template registered under `name` with `Handlebars::render`.
///
/// A template that pulls in another by a partial tag is rendered by
/// rendering the other, and nothing in `handlebars` bounds how deep that
/// goes: two templates that pull in each other are rendered without end.
/// What a template nests is rendered by nested calls too, and a few hundred
/// levels use up a thread's stack. So the call is made only on a registry
/// all of whose templates are tame.
#[verifier::external_body]
pub(crate) fn render_registered(
    registry: &handlebars::Handlebars<'static>,
    name: &str,
    data: &serde_json::Value,
) -> (r: Result<String, handlebars::RenderError>)
    requires
        all_tame(registered(*registry)),
    ensures
        render_result(r) == rendered(*registry, name@, *data),
{
    registry.render(name, data)
}

/// The message of a rendering error, as its `Display` writes it.
pub uninterp spec fn render_error_text(e: handlebars::RenderError) -> Seq<char>;

/// The message of a rendering error, from `to_string`.
#[verifier::external_body]
pub(crate) fn describe_render_error(e: &handlebars::RenderError) -> (text: String)
    ensures
        text@ == render_error_text(*e),
{
    e.to_string()
}

/// Whether a text is a mailbox that `lettre` can parse: an address, alone or
/// behind a display name and in angle brackets.
pub uninterp spec fn is_mailbox(text: Seq<char>) -> bool;

/// Tells whether `text` parses as a `lettre::message::Mailbox`.
#[verifier::external_body]
pub(crate) fn parses_as_mailbox(text: &str) -> (ok: bool)
    ensures
        ok == is_mailbox(text@),
{
    text.parse::<lettre::message::Mailbox>().is_ok()
}

} // verus!
