//! Rendering a message from its template.

use super::event::{field_models, EventField, FieldModel, NotifyEvent};
use super::webhook::WebhookNotifier;
use super::{NotifyError, NotifyErrorModel};
use crate::text::cat4;
use vstd::prelude::*;
use vstd::string::*;

verus! {

/// A set of templates, with the loader that finds them.
#[verifier::external_type_specification]
#[verifier::external_body]
pub struct ExEnvironment<'source>(minijinja::Environment<'source>);

/// Why a template gave no text.
#[derive(Debug, Clone, PartialEq, Eq)]
pub enum TemplateFailure {
    /// There is none of that name, or it does not compile.
    NotFound(String),
    /// It failed while it was rendered.
    Failed(String),
}

/// Why a text does not compile as a template of the given name; `None` where it
/// does.
pub uninterp spec fn template_error(name: Seq<char>, source: Seq<char>) -> Option<Seq<char>>;

/// `add_template_owned` of a new `minijinja::Environment`: whether a text
/// compiles is a function of the text and its name, which `template_error`
/// stands for.
#[verifier::external_body]
pub(crate) fn template_fault(name: &str, source: &str) -> (r: Option<String>)
    ensures
        match r {
            Some(e) => template_error(name@, source@) == Some(e@),
            None => template_error(name@, source@) is None,
        },
{
    let mut env = minijinja::Environment::new();
    match env.add_template_owned(name.to_owned(), source.to_owned()) {
        Ok(()) => None,
        Err(error) => Some(error.to_string()),
    }
}

/// `get_template` of a `minijinja::Environment`, and `render` of the template
/// with the fields as its context. The environment may load a template from disk
/// when it is first asked for, so nothing is said of the result.
#[verifier::external_body]
pub(crate) fn render_template(
    env: &minijinja::Environment<'static>,
    name: &str,
    fields: &Vec<(&'static str, EventField)>,
) -> (r: Result<String, TemplateFailure>) {
    let context: minijinja::Value = fields.iter().map(|(key, value)| (*key, match value {
        EventField::Text(text) => minijinja::Value::from(text.as_str()),
        EventField::MaybeText(text) => minijinja::Value::from(text.clone()),
        EventField::List(list) => minijinja::Value::from(list.clone()),
        EventField::MaybeCode(code) => minijinja::Value::from(*code),
    })).collect();
    match env.get_template(name) {
        Ok(template) => template.render(context).map_err(|e| TemplateFailure::Failed(e.to_string())),
        Err(error) => Err(TemplateFailure::NotFound(error.to_string())),
    }
}

/// Whether an environment, asked for the template of a name and given these
/// fields, came to this outcome.
pub closed spec fn renders(
    env: minijinja::Environment<'static>,
    name: Seq<char>,
    fields: Seq<(Seq<char>, FieldModel)>,
    outcome: Result<String, TemplateFailure>,
) -> bool {
    exists|n: &str, f: &Vec<(&'static str, EventField)>|
        n@ == name && field_models(f@) == fields && #[trigger] call_ensures(
            render_template,
            (&env, n, f),
            outcome,
        )
}

/// Nothing counts as rendered but what the environment was really asked for, by
/// that name and with those fields, and did answer.
pub(crate) proof fn what_is_rendered_was_asked_for(
    env: minijinja::Environment<'static>,
    name: Seq<char>,
    fields: Seq<(Seq<char>, FieldModel)>,
    outcome: Result<String, TemplateFailure>,
)
    requires
        renders(env, name, fields, outcome),
    ensures
        exists|n: &str, f: &Vec<(&'static str, EventField)>|
            n@ == name && field_models(f@) == fields && #[trigger] call_ensures(
                render_template,
                (&env, n, f),
                outcome,
            ),
{
}

/// Asks an environment for the template of a name, rendered with the fields.
pub(crate) fn render_named(
    env: &minijinja::Environment<'static>,
    name: &str,
    fields: &Vec<(&'static str, EventField)>,
) -> (r: Result<String, TemplateFailure>)
    ensures
        renders(*env, name@, field_models(fields@), r),
{
    let r = render_template(env, name, fields);
    assert(call_ensures(render_template, (env, name, fields), r));
    r
}

/// What a named template's failure amounts to. Both kinds are permanent: what is
/// absent or does not compile will be so on the next attempt too.
pub open spec fn template_refusal(name: Seq<char>, failure: TemplateFailure) -> NotifyErrorModel {
    match failure {
        TemplateFailure::NotFound(error) => NotifyErrorModel {
            detail: "template `"@ + name + "` not found: "@ + error@,
            retryable: false,
        },
        TemplateFailure::Failed(error) => NotifyErrorModel {
            detail: "template `"@ + name + "` failed: "@ + error@,
            retryable: false,
        },
    }
}

/// What a named template's failure amounts to.
pub fn refused(template_name: &str, failure: TemplateFailure) -> (r: NotifyError)
    ensures
        r@ == template_refusal(template_name@, failure),
{
    match failure {
        TemplateFailure::NotFound(error) => NotifyError::permanent(
            cat4("template `", template_name, "` not found: ", error.as_str()).as_str(),
        ),
        TemplateFailure::Failed(error) => NotifyError::permanent(
            cat4("template `", template_name, "` failed: ", error.as_str()).as_str(),
        ),
    }
}

/// What rendering a named template comes to.
pub fn rendered(template_name: &str, outcome: Result<String, TemplateFailure>) -> (r: Result<
    String,
    NotifyError,
>)
    ensures
        match outcome {
            Ok(text) => r == Ok::<String, NotifyError>(text),
            Err(failure) => r matches Err(e) && e@ == template_refusal(template_name@, failure),
        },
{
    match outcome {
        Ok(text) => Ok(text),
        Err(failure) => Err(refused(template_name, failure)),
    }
}

/// What rendering a named template comes to, in terms of sequences.
pub open spec fn rendering(
    name: Seq<char>,
    outcome: Result<String, TemplateFailure>,
) -> Result<Seq<char>, NotifyErrorModel> {
    match outcome {
        Ok(text) => Ok(text@),
        Err(failure) => Err(template_refusal(name, failure)),
    }
}

/// A text or a failure, in terms of sequences.
pub open spec fn text_model(r: Result<String, NotifyError>) -> Result<Seq<char>, NotifyErrorModel> {
    match r {
        Ok(text) => Ok(text@),
        Err(e) => Err(e@),
    }
}

/// Whether a result is what the outcome of a named template comes to.
pub open spec fn rendered_as(
    r: Result<String, NotifyError>,
    name: Seq<char>,
    outcome: Result<String, TemplateFailure>,
) -> bool {
    &&& text_model(r) == rendering(name, outcome)
    &&& match outcome {
        Ok(text) => r == Ok::<String, NotifyError>(text),
        Err(failure) => r matches Err(e) && e@ == template_refusal(name, failure),
    }
}

/// Renders one named template against an event's own fields. `render` renders the
/// template of a name with the given fields.
pub fn render_with<
    F: Fn(&str, &Vec<(&'static str, EventField)>) -> Result<String, TemplateFailure>,
>(template_name: &str, event: &NotifyEvent, render: F) -> (r: Result<String, NotifyError>)
    requires
        forall|name: &str, fields: &Vec<(&'static str, EventField)>|
            call_requires(render, (name, fields)),
    ensures
        exists|
            fields: &Vec<(&'static str, EventField)>,
            outcome: Result<String, TemplateFailure>,
        |
            field_models(fields@) == event@.fields && #[trigger] call_ensures(
                render,
                (template_name, fields),
                outcome,
            ) && rendered_as(r, template_name@, outcome),
{
    let own = event.fields();
    let fields = &own;
    let outcome = render(template_name, fields);
    let ghost came = outcome;
    assert(call_ensures(render, (template_name, fields), came));
    rendered(template_name, outcome)
}

/// Renders one named template against an event's own fields. What it comes to is
/// for the environment to say.
pub fn render(
    env: &minijinja::Environment<'static>,
    template_name: &str,
    event: &NotifyEvent,
) -> (r: Result<String, NotifyError>)
    ensures
        exists|outcome: Result<String, TemplateFailure>|
            text_model(r) == #[trigger] rendering(template_name@, outcome),
        exists|outcome: Result<String, TemplateFailure>| #[trigger]
            renders(*env, template_name@, event@.fields, outcome) && match outcome {
                Ok(text) => r == Ok::<String, NotifyError>(text),
                Err(failure) => r matches Err(e) && e@ == template_refusal(
                    template_name@,
                    failure,
                ),
            },
{
    let by_env = |name: &str, fields: &Vec<(&'static str, EventField)>| -> (o: Result<
        String,
        TemplateFailure,
    >)
        ensures
            renders(*env, name@, field_models(fields@), o),
    { render_named(env, name, fields) };
    let r = render_with(template_name, event, by_env);
    proof {
        let (fields, outcome) = choose|
            fields: &Vec<(&'static str, EventField)>,
            outcome: Result<String, TemplateFailure>,
        |
            field_models(fields@) == event@.fields && #[trigger] call_ensures(
                by_env,
                (template_name, fields),
                outcome,
            ) && rendered_as(r, template_name@, outcome);
        assert(renders(*env, template_name@, event@.fields, outcome));
    }
    r
}

/// The fields a webhook body is rendered with: the message and the event's
/// kind, before the event's own fields.
pub open spec fn body_context(message: Seq<char>, event: super::event::EventModel) -> Seq<
    (Seq<char>, FieldModel),
> {
    seq![
        ("message"@, FieldModel::Text(message)),
        ("hook"@, FieldModel::Text(event.kind)),
    ] + event.fields
}

/// The fields a webhook body is rendered with.
pub fn body_fields(message: &str, event: &NotifyEvent) -> (r: Vec<(&'static str, EventField)>)
    ensures
        field_models(r@) == body_context(message@, event@),
{
    let mut r: Vec<(&'static str, EventField)> = Vec::new();
    r.push(("message", EventField::Text(message.to_owned())));
    r.push(("hook", EventField::Text(event.kind().to_owned())));
    let ghost head = r@;
    let mut own = event.fields();
    let ghost tail = own@;
    r.append(&mut own);
    assert(field_models(r@) =~= field_models(head) + field_models(tail));
    assert(field_models(head) =~= seq![
        ("message"@, FieldModel::Text(message@)),
        ("hook"@, FieldModel::Text(event@.kind)),
    ]);
    r
}

/// What a webhook body's failure amounts to.
pub open spec fn body_refusal(entry: Seq<char>, failure: TemplateFailure) -> NotifyErrorModel {
    NotifyErrorModel {
        detail: "notify.webhook."@ + entry + ".body: "@ + match failure {
            TemplateFailure::NotFound(error) => error@,
            TemplateFailure::Failed(error) => error@,
        },
        retryable: false,
    }
}

/// What rendering a webhook body comes to.
pub fn rendered_body(entry: &str, outcome: Result<String, TemplateFailure>) -> (r: Result<
    String,
    NotifyError,
>)
    ensures
        match outcome {
            Ok(text) => r == Ok::<String, NotifyError>(text),
            Err(failure) => r matches Err(e) && e@ == body_refusal(entry@, failure),
        },
{
    let error = match outcome {
        Ok(text) => {
            return Ok(text);
        },
        Err(TemplateFailure::NotFound(error)) => error,
        Err(TemplateFailure::Failed(error)) => error,
    };
    Err(
        NotifyError::permanent(
            cat4("notify.webhook.", entry, ".body: ", error.as_str()).as_str(),
        ),
    )
}

/// What rendering a webhook's body comes to, from what came of its message and,
/// where there was one, of the entry's own template with that message in scope.
pub open spec fn body_outcome(
    entry: Seq<char>,
    kind: Seq<char>,
    outcome: Result<Result<String, TemplateFailure>, TemplateFailure>,
) -> Result<Seq<char>, NotifyErrorModel> {
    match outcome {
        Ok(Ok(text)) => Ok(text@),
        Ok(Err(failure)) => Err(body_refusal(entry, failure)),
        Err(failure) => Err(template_refusal("webhook/"@ + kind + ".j2"@, failure)),
    }
}

/// What rendering a webhook's body comes to. The outer failure is that of the
/// event's message, which the entry's own template is rendered with.
pub fn body_from(
    entry: &str,
    event: &NotifyEvent,
    outcome: Result<Result<String, TemplateFailure>, TemplateFailure>,
) -> (r: Result<String, NotifyError>)
    ensures
        text_model(r) == body_outcome(entry@, event@.kind, outcome),
{
    match outcome {
        Ok(outcome) => rendered_body(entry, outcome),
        Err(failure) => Err(refused(WebhookNotifier::template(event).as_str(), failure)),
    }
}

/// Whether a webhook's body came of rendering the entry's own template, with the
/// message in scope.
pub open spec fn body_rendered<
    F: Fn(&str, &Vec<(&'static str, EventField)>) -> Result<String, TemplateFailure>,
>(
    render: F,
    entry: Seq<char>,
    body_template: &str,
    event: super::event::EventModel,
    message: Seq<char>,
    r: Result<Seq<char>, NotifyErrorModel>,
) -> bool {
    exists|
        fields: &Vec<(&'static str, EventField)>,
        outcome: Result<String, TemplateFailure>,
    |
        field_models(fields@) == body_context(message, event) && #[trigger] call_ensures(
            render,
            (body_template, fields),
            outcome,
        ) && r == body_outcome(entry, event.kind, Ok(outcome))
}

/// Renders a webhook's body: the shared message of the event first, then the
/// entry's own template with that message in scope. `render` renders the template
/// of a name with the given fields.
pub fn render_body_with<
    F: Fn(&str, &Vec<(&'static str, EventField)>) -> Result<String, TemplateFailure>,
>(entry: &str, body_template: &str, event: &NotifyEvent, render: F) -> (r: Result<
    String,
    NotifyError,
>)
    requires
        forall|name: &str, fields: &Vec<(&'static str, EventField)>|
            call_requires(render, (name, fields)),
    ensures
        exists|
            name: &str,
            fields: &Vec<(&'static str, EventField)>,
            message: Result<String, TemplateFailure>,
        |
            name@ == "webhook/"@ + event@.kind + ".j2"@ && field_models(fields@) == event@.fields
                && #[trigger] call_ensures(render, (name, fields), message) && match message {
                Ok(text) => body_rendered(
                    render,
                    entry@,
                    body_template,
                    event@,
                    text@,
                    text_model(r),
                ),
                Err(failure) => text_model(r) == body_outcome(
                    entry@,
                    event@.kind,
                    Err(failure),
                ),
            },
{
    let template = WebhookNotifier::template(event);
    let name = template.as_str();
    let own = event.fields();
    let fields = &own;
    let message = render(name, fields);
    let ghost came = message;
    assert(call_ensures(render, (name, fields), came));
    match message {
        Ok(text) => {
            let context = body_fields(text.as_str(), event);
            let fields = &context;
            let outcome = render(body_template, fields);
            let ghost came = outcome;
            assert(call_ensures(render, (body_template, fields), came));
            let r = body_from(entry, event, Ok(outcome));
            assert(body_rendered(render, entry@, body_template, event@, text@, text_model(r)));
            r
        },
        Err(failure) => body_from(entry, event, Err(failure)),
    }
}

/// Renders a webhook's body. What the two templates come to is for the
/// environment to say.
pub fn render_body(
    env: &minijinja::Environment<'static>,
    entry: &str,
    body_template: &str,
    event: &NotifyEvent,
) -> (r: Result<String, NotifyError>)
    ensures
        exists|outcome: Result<Result<String, TemplateFailure>, TemplateFailure>|
            text_model(r) == #[trigger] body_outcome(entry@, event@.kind, outcome),
        exists|message: Result<String, TemplateFailure>| #[trigger]
            renders(*env, "webhook/"@ + event@.kind + ".j2"@, event@.fields, message) && match message {
                Err(failure) => r matches Err(e) && e@ == template_refusal(
                    "webhook/"@ + event@.kind + ".j2"@,
                    failure,
                ),
                Ok(said) => exists|
                    context: Seq<(Seq<char>, FieldModel)>,
                    outcome: Result<String, TemplateFailure>,
                |
                    context == seq![
                        ("message"@, FieldModel::Text(said@)),
                        ("hook"@, FieldModel::Text(event@.kind)),
                    ] + event@.fields && #[trigger] renders(
                        *env,
                        body_template@,
                        context,
                        outcome,
                    ) && match outcome {
                        Err(failure) => r matches Err(e) && e@ == body_refusal(entry@, failure),
                        Ok(text) => r matches Ok(body) && body@ == text@,
                    },
            },
{
    let by_env = |name: &str, fields: &Vec<(&'static str, EventField)>| -> (o: Result<
        String,
        TemplateFailure,
    >)
        ensures
            renders(*env, name@, field_models(fields@), o),
    { render_named(env, name, fields) };
    let r = render_body_with(entry, body_template, event, by_env);
    proof {
        let name = "webhook/"@ + event@.kind + ".j2"@;
        let (n, fields, message) = choose|
            name: &str,
            fields: &Vec<(&'static str, EventField)>,
            message: Result<String, TemplateFailure>,
        |
            name@ == "webhook/"@ + event@.kind + ".j2"@ && field_models(fields@) == event@.fields
                && #[trigger] call_ensures(by_env, (name, fields), message) && match message {
                Ok(text) => body_rendered(
                    by_env,
                    entry@,
                    body_template,
                    event@,
                    text@,
                    text_model(r),
                ),
                Err(failure) => text_model(r) == body_outcome(
                    entry@,
                    event@.kind,
                    Err(failure),
                ),
            };
        assert(renders(*env, name, event@.fields, message));
        match message {
            Ok(text) => {
                let (f, outcome) = choose|
                    fields: &Vec<(&'static str, EventField)>,
                    outcome: Result<String, TemplateFailure>,
                |
                    field_models(fields@) == body_context(text@, event@) && #[trigger] call_ensures(
                        by_env,
                        (body_template, fields),
                        outcome,
                    ) && text_model(r) == body_outcome(entry@, event@.kind, Ok(outcome));
                assert(renders(*env, body_template@, body_context(text@, event@), outcome));
            },
            Err(_) => {},
        }
    }
    r
}

/// A template that fails is never tried again, and the error names it.
pub proof fn a_failing_template_is_not_tried_again(name: Seq<char>, error: String)
    ensures
        template_refusal(name, TemplateFailure::NotFound(error)) == (NotifyErrorModel {
            detail: "template `"@ + name + "` not found: "@ + error@,
            retryable: false,
        }),
        template_refusal(name, TemplateFailure::Failed(error)) == (NotifyErrorModel {
            detail: "template `"@ + name + "` failed: "@ + error@,
            retryable: false,
        }),
{
}

/// A body that fails is never tried again, and the error names its entry.
pub proof fn a_failing_body_is_not_tried_again(entry: Seq<char>, error: String)
    ensures
        body_refusal(entry, TemplateFailure::NotFound(error)) == (NotifyErrorModel {
            detail: "notify.webhook."@ + entry + ".body: "@ + error@,
            retryable: false,
        }),
        body_refusal(entry, TemplateFailure::Failed(error)) == (NotifyErrorModel {
            detail: "notify.webhook."@ + entry + ".body: "@ + error@,
            retryable: false,
        }),
{
}

/// What was rendered is handed on whole.
pub proof fn a_rendering_is_handed_on_whole(
    name: Seq<char>,
    entry: Seq<char>,
    kind: Seq<char>,
    text: String,
    failure: TemplateFailure,
)
    ensures
        rendering(name, Ok(text)) == Ok::<Seq<char>, NotifyErrorModel>(text@),
        rendering(name, Err(failure)) == Err::<Seq<char>, NotifyErrorModel>(
            template_refusal(name, failure),
        ),
        body_outcome(entry, kind, Ok(Ok(text))) == Ok::<Seq<char>, NotifyErrorModel>(text@),
        body_outcome(entry, kind, Ok(Err(failure))) == Err::<Seq<char>, NotifyErrorModel>(
            body_refusal(entry, failure),
        ),
        body_outcome(entry, kind, Err(failure)) == Err::<Seq<char>, NotifyErrorModel>(
            template_refusal("webhook/"@ + kind + ".j2"@, failure),
        ),
{
}

/// A text is said to be itself, and a failure to be itself.
pub proof fn a_text_is_itself(text: String, error: NotifyError)
    ensures
        text_model(Ok(text)) == Ok::<Seq<char>, NotifyErrorModel>(text@),
        text_model(Err(error)) == Err::<Seq<char>, NotifyErrorModel>(error@),
{
}

/// A body is rendered with the message first, then the kind of the event under
/// `hook`, and then every field of the event, in order and unchanged.
pub proof fn a_body_sees_the_message_and_every_field(
    message: Seq<char>,
    event: super::event::EventModel,
)
    ensures
        body_context(message, event).len() == event.fields.len() + 2,
        body_context(message, event)[0] == ("message"@, FieldModel::Text(message)),
        body_context(message, event)[1] == ("hook"@, FieldModel::Text(event.kind)),
        forall|i: int|
            0 <= i < event.fields.len() ==> #[trigger] body_context(message, event)[i + 2]
                == event.fields[i],
{
}

/// A body that was rendered is what rendering the given template came to, with the message
/// and every field of the event.
pub proof fn a_rendered_body_is_what_came_back<
    F: Fn(&str, &Vec<(&'static str, EventField)>) -> Result<String, TemplateFailure>,
>(
    render: F,
    entry: Seq<char>,
    body_template: &str,
    event: super::event::EventModel,
    message: Seq<char>,
    r: Result<Seq<char>, NotifyErrorModel>,
)
    requires
        body_rendered(render, entry, body_template, event, message, r),
    ensures
        exists|
            fields: &Vec<(&'static str, EventField)>,
            outcome: Result<String, TemplateFailure>,
        |
            #[trigger] call_ensures(render, (body_template, fields), outcome) && field_models(
                fields@,
            ) == body_context(message, event) && match outcome {
                Ok(text) => r == Ok::<Seq<char>, NotifyErrorModel>(text@),
                Err(_) => r is Err,
            },
{
}

} // verus!
