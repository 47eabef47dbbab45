//! Template rendering for a matched rule: the engine's raw output is trimmed
//! and an empty trimmed output is an error of its own, distinct from an
//! engine error — an empty chat reply is almost always a configuration bug.

use vstd::prelude::*;

use crate::persistence::Reply;
use crate::text::lemma_trim_idempotent;
use crate::text::trim;
use crate::text::trim_spec;

verus! {

#[verifier::external_type_specification]
#[verifier::external_body]
pub struct ExEnvironment<'a>(minijinja::Environment<'a>);

#[verifier::external_type_specification]
#[verifier::external_body]
pub struct ExValue(minijinja::value::Value);

/// Relies on `minijinja::Environment::render_str`: renders the template
/// source against the context (an absent context renders against an empty
/// one), with the engine error rendered as text. Registered filters may read
/// the clock, so nothing is assumed of the output.
#[verifier::external_body]
fn mj_render(
    env: &minijinja::Environment,
    template: &str,
    ctx: Option<&minijinja::value::Value>,
) -> (r: Result<String, String>) {
    let ctx = match ctx {
        Some(v) => v.clone(),
        None => minijinja::value::Value::from_serialize(
            &std::collections::BTreeMap::<String, String>::new(),
        ),
    };
    env.render_str(template, ctx).map_err(|e| e.to_string())
}

/// A rendering failure: an engine error, or an output that is empty once
/// trimmed.
#[derive(Debug)]
pub enum RenderingError {
    EmptyRenderedReply { reply: Reply },
    Templating(String),
}

/// What the renderer does with the engine's raw output: trims surrounding
/// whitespace and rejects an output that is then empty.
pub fn finalize_rendered(reply: &Reply, rendered: String) -> (r: Result<String, RenderingError>)
    ensures
        trim_spec(rendered@).len() == 0 ==> (r matches Err(e) && e matches
            RenderingError::EmptyRenderedReply { reply: rep } && rep == *reply),
        trim_spec(rendered@).len() > 0 ==> (r matches Ok(s) && s@ == trim_spec(rendered@)),
{
    let trimmed = trim(rendered.as_str());
    if trimmed.as_str().unicode_len() == 0 {
        Err(RenderingError::EmptyRenderedReply { reply: reply.clone() })
    } else {
        Ok(trimmed)
    }
}

impl Reply {
    /// Renders the rule's template against `ctx` with the given engine. An
    /// engine failure is a `Templating` error; otherwise the output is
    /// trimmed, a non-empty result is returned as is, and an empty one is the
    /// `EmptyRenderedReply` error carrying this rule.
    pub fn render_template(
        &self,
        template_env: &minijinja::Environment,
        ctx: Option<&minijinja::value::Value>,
    ) -> (r: Result<String, RenderingError>)
        ensures
            r matches Ok(s) ==> s@.len() > 0 && s@ == trim_spec(s@),
            r matches Err(e) ==> (e matches RenderingError::EmptyRenderedReply { reply } ==> reply
                == *self),
    {
        match mj_render(template_env, self.template.as_str(), ctx) {
            Ok(rendered) => {
                proof {
                    lemma_trim_idempotent(rendered@);
                }
                finalize_rendered(self, rendered)
            },
            Err(e) => Err(RenderingError::Templating(e)),
        }
    }
}

} // verus!
