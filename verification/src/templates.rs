//! The template renderer: from a template and the data of a job to the body
//! of the message.

use vstd::prelude::*;

use crate::deps::{
    compiles, current_year, describe_render_error, empty_registry, is_object, json_is_object,
    all_tame, json_member, json_text, json_with_string_member, member, register_template,
    registered, render_error_text, render_registered, rendered, text_value, with_string_member,
};
use crate::models::EmailTemplate;

verus! {

/// Why a message could not be rendered.
#[derive(Debug)]
pub enum RenderFailure {
    /// The data of a custom message lacks the text member `html`.
    MissingHtml,
    /// The template engine reported an error: the template is not
    /// registered, or it could not be rendered with the data.
    Engine(handlebars::RenderError),
}

impl RenderFailure {
    /// The description of the failure, as it is recorded with the job.
    pub open spec fn text(self) -> Seq<char> {
        match self {
            RenderFailure::MissingHtml => "Custom template requires 'html' field in data"@,
            RenderFailure::Engine(e) => render_error_text(e),
        }
    }

    /// The description of the failure, as it is recorded with the job.
    pub fn message(&self) -> (text: String)
        ensures
            text@ == self.text(),
    {
        match self {
            RenderFailure::MissingHtml => {
                "Custom template requires 'html' field in data".to_owned()
            },
            RenderFailure::Engine(e) => describe_render_error(e),
        }
    }
}

/// Whether a character may stand between the opening braces of a tag and
/// the sign that tells what kind of tag it is: white space, the tilde that
/// trims white space, and the hash that opens a block.
pub open spec fn tag_filler(c: char) -> bool {
    c == ' ' || c == '\t' || c == '\n' || c == '\r' || c == '~' || c == '#'
}

/// Whether a tag opens at `start` and nothing but filler stands from behind
/// its two braces up to `end`.
pub open spec fn tag_open(source: Seq<char>, start: int, end: int) -> bool {
    &&& 0 <= start
    &&& start + 2 <= end <= source.len()
    &&& source[start] == '{'
    &&& source[start + 1] == '{'
    &&& forall|k: int| start + 2 <= k < end ==> tag_filler(#[trigger] source[k])
}

/// Whether a partial tag ends its head before `limit`: two opening braces,
/// filler, and then the sign `>`.
pub open spec fn partial_tag_before(source: Seq<char>, limit: int) -> bool {
    exists|start: int, at: int|
        #[trigger] tag_open(source, start, at) && at < limit && at < source.len() && source[at]
            == '>'
}

/// Whether a source text holds a partial tag, by which a template pulls in
/// another one: plain (`{{> name}}`), as a block (`{{#> name}}`), with a
/// name that is computed, with or without white space and tildes. The test
/// errs on the safe side: it also finds such a tag where the engine would
/// read it as text, behind a backslash or in a comment.
pub open spec fn has_partial_tag(source: Seq<char>) -> bool {
    partial_tag_before(source, source.len() as int)
}

/// Whether the engine can be trusted with a source text: rendering it ends,
/// and within the stack. It holds no partial tag and does not nest deeper
/// than [`MAX_NESTING`].
pub open spec fn tame(source: Seq<char>) -> bool {
    !has_partial_tag(source) && nesting_bound(source) <= MAX_NESTING
}

/// Whether the engine can be trusted with a source text.
pub fn is_tame(source: &str) -> (ok: bool)
    ensures
        ok == tame(source@),
{
    !holds_partial_tag(source) && !nests_too_deep(source)
}

/// Whether a source text holds a partial tag.
pub fn holds_partial_tag(source: &str) -> (held: bool)
    ensures
        held == has_partial_tag(source@),
{
    let mut held = false;
    let mut open = false;
    let mut brace = false;
    for c in it: source.chars()
        invariant
            it.seq() == source@,
            held == partial_tag_before(source@, it.index() as int),
            open == (exists|start: int| #[trigger] tag_open(source@, start, it.index() as int)),
            brace == (it.index() >= 1 && source@[it.index() - 1] == '{'),
    {
        let ghost s = source@;
        let ghost p = it.index() as int;
        proof {
            assert(c == s[p]);
            // a tag that is open up to `p + 1` was open up to `p`, or opens
            // with the brace at `p`
            assert forall|start: int| #[trigger] tag_open(s, start, p + 1) implies (start + 2
                == p + 1 && s[p - 1] == '{' && s[p] == '{') || (tag_open(s, start, p)
                && tag_filler(s[p])) by {
                if start + 2 < p + 1 {
                    assert(tag_filler(s[p]));
                }
            }
            if open && tag_filler(c) {
                let start = choose|start: int| #[trigger] tag_open(s, start, p);
                assert(tag_open(s, start, p + 1));
            }
            if brace && c == '{' {
                assert(tag_open(s, p - 1, p + 1));
            }
            if open && c == '>' {
                let start = choose|start: int| #[trigger] tag_open(s, start, p);
                assert(tag_open(s, start, p) && p < p + 1 && s[p] == '>');
            }
            if partial_tag_before(s, p + 1) && !held {
                let (start, at) = choose|start: int, at: int|
                    #[trigger] tag_open(s, start, at) && at < p + 1 && at < s.len() && s[at]
                        == '>';
                assert(at == p);
            }
        }
        held = held || (open && c == '>');
        open = (open && (c == ' ' || c == '\t' || c == '\n' || c == '\r' || c == '~' || c == '#'))
            || (brace && c == '{');
        brace = c == '{';
    }
    held
}

/// How far a scan for nesting has come in a source text.
pub struct Scan {
    /// The opening signs counted so far.
    pub count: nat,
    /// Whether the scan stands inside a tag.
    pub inside: bool,
    /// Whether a tag held a quote or a square bracket, so that where it ends
    /// can no longer be told by its braces.
    pub blurred: bool,
    /// Whether the last character was an opening brace.
    pub brace: bool,
    /// Whether the last character was a closing brace.
    pub closing: bool,
}

/// Whether a character opens something that can hold more of its kind: a
/// tag or an object, a subexpression, a list.
pub open spec fn opening_sign(c: char) -> bool {
    c == '{' || c == '(' || c == '['
}

/// The scan before the first character.
pub open spec fn scan_start() -> Scan {
    Scan { count: 0, inside: false, blurred: false, brace: false, closing: false }
}

/// The scan after one more character. Two opening braces open a tag; two
/// closing braces close it, unless the tag held a quote or a square bracket:
/// then braces may stand in a text or a key, and the scan takes all the rest
/// of the source for the inside of a tag. An opening sign is counted when it
/// stands inside a tag.
pub open spec fn scan_step(st: Scan, c: char) -> Scan {
    let inside = (st.brace && c == '{') || (st.inside && !(st.closing && c == '}'
        && !st.blurred));
    let blurred = st.blurred || (st.inside && (c == '"' || c == '\'' || c == '['));
    Scan {
        count: if opening_sign(c) && (inside || blurred) {
            st.count + 1
        } else {
            st.count
        },
        inside,
        blurred,
        brace: c == '{',
        closing: c == '}',
    }
}

/// The scan after a whole text.
pub open spec fn scan(source: Seq<char>) -> Scan
    decreases source.len(),
{
    if source.len() == 0 {
        scan_start()
    } else {
        scan_step(scan(source.drop_last()), source.last())
    }
}

/// A bound on how deep a template nests blocks, chains of `else`,
/// subexpressions, lists and objects: the number of opening signs inside its
/// tags. Every level of nesting takes one such sign, so no template nests
/// deeper than this, though most nest far less deep.
pub open spec fn nesting_bound(source: Seq<char>) -> nat {
    scan(source).count
}

/// The deepest nesting the engine is given. It renders what is nested by
/// calls that are nested, and a thread's stack holds a few hundred of them.
pub const MAX_NESTING: usize = 100;

/// Whether a source text may nest deeper than [`MAX_NESTING`].
pub fn nests_too_deep(source: &str) -> (deep: bool)
    ensures
        deep == (nesting_bound(source@) > MAX_NESTING),
{
    let mut count: usize = 0;
    let mut inside = false;
    let mut blurred = false;
    let mut brace = false;
    let mut closing = false;
    proof {
        assert(source@.take(0) =~= Seq::<char>::empty());
    }
    for c in it: source.chars()
        invariant
            it.seq() == source@,
            count <= MAX_NESTING + 1,
            count == if scan(source@.take(it.index() as int)).count <= MAX_NESTING {
                scan(source@.take(it.index() as int)).count
            } else {
                (MAX_NESTING + 1) as nat
            },
            inside == scan(source@.take(it.index() as int)).inside,
            blurred == scan(source@.take(it.index() as int)).blurred,
            brace == scan(source@.take(it.index() as int)).brace,
            closing == scan(source@.take(it.index() as int)).closing,
    {
        proof {
            let p = it.index() as int;
            assert(c == source@[p]);
            assert(source@.take(p + 1).drop_last() =~= source@.take(p));
            assert(source@.take(p + 1).last() == c);
        }
        let now_inside = (brace && c == '{') || (inside && !(closing && c == '}' && !blurred));
        let now_blurred = blurred || (inside && (c == '"' || c == '\'' || c == '['));
        if (c == '{' || c == '(' || c == '[') && (now_inside || now_blurred) && count
            <= MAX_NESTING {
            count = count + 1;
        }
        inside = now_inside;
        blurred = now_blurred;
        brace = c == '{';
        closing = c == '}';
    }
    proof {
        assert(source@.take(source@.len() as int) =~= source@);
    }
    count > MAX_NESTING
}

/// The source texts of the five registered templates.
pub struct TemplateSources {
    pub otp: String,
    pub otp_2fa: String,
    pub welcome: String,
    pub password_reset: String,
    pub license_created: String,
}

impl TemplateSources {
    /// The sources by the name each is registered under.
    pub open spec fn by_name(self) -> Map<Seq<char>, Seq<char>> {
        Map::<Seq<char>, Seq<char>>::empty().insert("otp"@, self.otp@).insert(
            "otp_2fa"@,
            self.otp_2fa@,
        ).insert("welcome"@, self.welcome@).insert(
            "password_reset"@,
            self.password_reset@,
        ).insert("license_created"@, self.license_created@)
    }

    /// Whether every source is a well-formed template.
    pub open spec fn all_compile(self) -> bool {
        &&& compiles(self.otp@)
        &&& compiles(self.otp_2fa@)
        &&& compiles(self.welcome@)
        &&& compiles(self.password_reset@)
        &&& compiles(self.license_created@)
    }

    /// Whether every source is tame: it pulls in no other template and
    /// does not nest too deep.
    pub open spec fn all_tame(self) -> bool {
        &&& tame(self.otp@)
        &&& tame(self.otp_2fa@)
        &&& tame(self.welcome@)
        &&& tame(self.password_reset@)
        &&& tame(self.license_created@)
    }
}

/// The text member `key` of a JSON document: the member, if the document
/// has it and it is a string.
pub open spec fn string_member(data: serde_json::Value, key: Seq<char>) -> Option<Seq<char>> {
    match member(data, key) {
        Some(value) => text_value(value),
        None => None,
    }
}

/// The data a registered template is rendered with: the data of the job
/// with the member `year` set, if it is an object, and as it is otherwise.
pub open spec fn with_year(data: serde_json::Value, year: Seq<char>) -> serde_json::Value {
    if is_object(data) {
        with_string_member(data, "year"@, year)
    } else {
        data
    }
}

/// The name a template is registered under. A custom message has no
/// registered template: its body comes with its data.
pub open spec fn registered_name(template: EmailTemplate) -> Option<Seq<char>> {
    match template {
        EmailTemplate::Otp => Some("otp"@),
        EmailTemplate::Otp2FA => Some("otp_2fa"@),
        EmailTemplate::Welcome => Some("welcome"@),
        EmailTemplate::PasswordReset => Some("password_reset"@),
        EmailTemplate::LicenseCreated => Some("license_created"@),
        EmailTemplate::Custom => None,
    }
}

/// The name a template is registered under; `None` for a custom message.
pub fn template_name(template: &EmailTemplate) -> (name: Option<&'static str>)
    ensures
        match name {
            Some(n) => registered_name(*template) == Some(n@),
            None => registered_name(*template) is None,
        },
{
    match template {
        EmailTemplate::Otp => Some("otp"),
        EmailTemplate::Otp2FA => Some("otp_2fa"),
        EmailTemplate::Welcome => Some("welcome"),
        EmailTemplate::PasswordReset => Some("password_reset"),
        EmailTemplate::LicenseCreated => Some("license_created"),
        EmailTemplate::Custom => None,
    }
}

/// The outcome of rendering, with the body taken as characters.
pub open spec fn outcome(r: Result<String, RenderFailure>) -> Result<Seq<char>, RenderFailure> {
    match r {
        Ok(html) => Ok(html@),
        Err(e) => Err(e),
    }
}

/// What rendering gives in a given year. A custom message is the text member
/// `html` of its data, unchanged, and fails without one. Every other
/// message is its registered template, rendered with the data to which the
/// member `year` was added, if the data is an object.
pub open spec fn rendering(
    registry: handlebars::Handlebars<'static>,
    template: EmailTemplate,
    data: serde_json::Value,
    year: Seq<char>,
) -> Result<Seq<char>, RenderFailure> {
    match registered_name(template) {
        None => match string_member(data, "html"@) {
            Some(html) => Ok(html),
            None => Err(RenderFailure::MissingHtml),
        },
        Some(name) => match rendered(registry, name, with_year(data, year)) {
            Ok(html) => Ok(html),
            Err(e) => Err(RenderFailure::Engine(e)),
        },
    }
}

/// The template renderer.
pub struct TemplateEngine {
    hbs: handlebars::Handlebars<'static>,
}

impl TemplateEngine {
    /// Every template of the engine is tame, so rendering ends.
    #[verifier::type_invariant]
    spec fn holds_tame_templates(self) -> bool {
        all_tame(registered(self.hbs))
    }

    /// The registry of the engine.
    pub closed spec fn registry(self) -> handlebars::Handlebars<'static> {
        self.hbs
    }

    /// An engine with the five templates registered, each under its name.
    /// `None` if one of the sources is not tame or is not a well-formed
    /// template.
    pub fn new(sources: &TemplateSources) -> (engine: Option<TemplateEngine>)
        ensures
            engine is Some <==> sources.all_tame() && sources.all_compile(),
            engine matches Some(e) ==> registered(e.registry()) == sources.by_name(),
    {
        if !is_tame(sources.otp.as_str()) || !is_tame(sources.otp_2fa.as_str()) || !is_tame(
            sources.welcome.as_str(),
        ) || !is_tame(sources.password_reset.as_str()) || !is_tame(
            sources.license_created.as_str(),
        ) {
            return None;
        }
        let mut hbs = empty_registry();
        if !register_template(&mut hbs, "otp", sources.otp.as_str()) {
            return None;
        }
        if !register_template(&mut hbs, "otp_2fa", sources.otp_2fa.as_str()) {
            return None;
        }
        if !register_template(&mut hbs, "welcome", sources.welcome.as_str()) {
            return None;
        }
        if !register_template(&mut hbs, "password_reset", sources.password_reset.as_str()) {
            return None;
        }
        if !register_template(&mut hbs, "license_created", sources.license_created.as_str()) {
            return None;
        }
        Some(TemplateEngine { hbs })
    }

    /// Renders the body of a message in the current year.
    ///
    /// The year is the clock's, so for a registered template the contract
    /// says what holds whatever it is; [`TemplateEngine::render_in_year`] is
    /// the same operation with the year given. A custom message does not
    /// depend on the year.
    pub fn render(&self, template: &EmailTemplate, data: &serde_json::Value) -> (r: Result<
        String,
        RenderFailure,
    >)
        ensures
            exists|year: Seq<char>|
                outcome(r) == #[trigger] rendering(self.registry(), *template, *data, year),
            *template == EmailTemplate::Custom ==> outcome(r) == match string_member(
                *data,
                "html"@,
            ) {
                Some(html) => Ok::<Seq<char>, RenderFailure>(html),
                None => Err(RenderFailure::MissingHtml),
            },
    {
        let year = current_year();
        let r = self.render_in_year(template, data, year.as_str());
        assert(outcome(r) == rendering(self.registry(), *template, *data, year@));
        r
    }

    /// Renders the body of a message in the given year.
    pub fn render_in_year(
        &self,
        template: &EmailTemplate,
        data: &serde_json::Value,
        year: &str,
    ) -> (r: Result<String, RenderFailure>)
        ensures
            outcome(r) == rendering(self.registry(), *template, *data, year@),
    {
        proof {
            use_type_invariant(self);
        }
        match template_name(template) {
            None => match json_member(data, "html") {
                Some(value) => match json_text(&value) {
                    Some(html) => Ok(html),
                    None => Err(RenderFailure::MissingHtml),
                },
                None => Err(RenderFailure::MissingHtml),
            },
            Some(name) => {
                let rendered = if json_is_object(data) {
                    let render_data = json_with_string_member(data, "year", year);
                    render_registered(&self.hbs, name, &render_data)
                } else {
                    render_registered(&self.hbs, name, data)
                };
                match rendered {
                    Ok(html) => Ok(html),
                    Err(e) => Err(RenderFailure::Engine(e)),
                }
            },
        }
    }
}

} // verus!
