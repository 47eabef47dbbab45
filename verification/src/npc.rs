//! The conversational-reply rules: matched like the generic rules but gated
//! on whether the message mentions the bot, with an optional per-rule render
//! context (the channel's current time, or an opaque structured blob), and
//! the placeholder expansion of the oldest reply format.

use vstd::prelude::*;
use vstd::string::*;

use core::fmt::Write;

use crate::channels::Timezone;
use crate::persistence::regex_is_match;
use crate::persistence::regex_matches;
use crate::persistence::regex_ok;
use crate::text::contains_str;
use crate::text::lower_of;
use crate::text::replace_all;
use crate::text::replace_all_spec;
use crate::text::seq_contains;
use crate::text::to_lowercase;

verus! {

/// The render context a conversational rule may carry: the current time in a
/// zone rendered with a format, or an opaque structured blob kept as raw
/// text.
#[derive(Clone, Debug, PartialEq)]
pub enum Context {
    Time { timezone: Timezone, format: String },
    Generic(String),
}

/// A conversational auto-reply rule. `to_mention` scopes it to messages that
/// do (or do not) mention the bot; `channel == None` applies to every
/// channel; a disabled rule is never matched.
#[derive(Debug)]
pub struct NpcReply {
    pub id: i64,
    pub pattern: String,
    pub case_insensitive: bool,
    pub template: String,
    pub context: Option<Context>,
    pub to_mention: bool,
    pub channel: Option<String>,
    pub enabled: bool,
    pub created_by: String,
    pub created_at: i64,
    pub updated_at: i64,
}

/// Whether the store query for `channel` returns `r`.
pub open spec fn npc_rule_applies(r: NpcReply, channel: Seq<char>) -> bool {
    r.enabled && match r.channel {
        None => true,
        Some(c) => c@ == channel,
    }
}

/// The rules of `rules` that apply to `channel`, in order.
pub open spec fn filter_npc_rules(rules: Seq<NpcReply>, channel: Seq<char>) -> Seq<NpcReply> {
    rules.filter(|x: NpcReply| npc_rule_applies(x, channel))
}

/// The in-memory store of conversational rules, in insertion order with
/// store-assigned increasing ids.
pub struct NpcStore {
    replies: Vec<NpcReply>,
    next_id: i64,
}

impl NpcStore {
    pub closed spec fn rules(&self) -> Seq<NpcReply> {
        self.replies@
    }

    pub closed spec fn next_id_spec(&self) -> int {
        self.next_id as int
    }

    pub closed spec fn wf(&self) -> bool {
        &&& forall|i: int, j: int|
            0 <= i < j < self.replies@.len() ==> self.replies@[i].id < self.replies@[j].id
        &&& forall|i: int|
            0 <= i < self.replies@.len() ==> #[trigger] self.replies@[i].id < self.next_id
    }

    /// What the query for `channel` returns: the enabled rules scoped to it
    /// or to no channel, in insertion order.
    pub open spec fn query_spec(&self, channel: Seq<char>) -> Seq<NpcReply> {
        filter_npc_rules(self.rules(), channel)
    }

    pub fn new() -> (r: Self)
        ensures
            r.wf(),
            r.rules() == Seq::<NpcReply>::empty(),
    {
        NpcStore { replies: Vec::new(), next_id: 1 }
    }

    /// Stores `reply` under a fresh id, which it returns.
    pub fn insert(&mut self, reply: NpcReply) -> (r: i64)
        requires
            old(self).wf(),
            old(self).next_id_spec() < i64::MAX,
        ensures
            final(self).wf(),
            r == old(self).next_id_spec(),
            final(self).rules() == old(self).rules().push(NpcReply { id: r, ..reply }),
    {
        let id = self.next_id;
        let stored = NpcReply { id, ..reply };
        self.replies.push(stored);
        self.next_id = id + 1;
        id
    }

    /// All enabled rules for `channel`, a null channel matching everything.
    pub fn query(&self, channel: &str) -> (r: Vec<NpcReply>)
        ensures
            r@ == self.query_spec(channel@),
    {
        let mut out: Vec<NpcReply> = Vec::new();
        let mut i: usize = 0;
        proof {
            assert(self.rules().subrange(0, 0) =~= Seq::<NpcReply>::empty());
            reveal(Seq::filter);
        }
        while i < self.replies.len()
            invariant
                0 <= i <= self.replies@.len(),
                out@ == filter_npc_rules(self.rules().subrange(0, i as int), channel@),
            decreases self.replies@.len() - i,
        {
            let rule = &self.replies[i];
            let applies = rule.enabled && (match &rule.channel {
                None => true,
                Some(c) => crate::text::str_eq(c.as_str(), channel),
            });
            if applies {
                out.push(rule.clone());
            }
            proof {
                lemma_filter_npc_take_step(self.rules(), i as int, channel@);
            }
            i += 1;
        }
        proof {
            assert(self.rules().subrange(0, self.rules().len() as int) =~= self.rules());
        }
        out
    }
}

proof fn lemma_filter_npc_take_step(rules: Seq<NpcReply>, i: int, channel: Seq<char>)
    requires
        0 <= i < rules.len(),
    ensures
        filter_npc_rules(rules.subrange(0, i + 1), channel) == if npc_rule_applies(
            rules[i],
            channel,
        ) {
            filter_npc_rules(rules.subrange(0, i), channel).push(rules[i])
        } else {
            filter_npc_rules(rules.subrange(0, i), channel)
        },
{
    reveal(Seq::filter);
    let pre = rules.subrange(0, i + 1);
    assert(pre.drop_last() =~= rules.subrange(0, i));
    assert(pre.last() == rules[i]);
    if npc_rule_applies(rules[i], channel) {
        assert(filter_npc_rules(pre, channel) =~= filter_npc_rules(
            rules.subrange(0, i),
            channel,
        ).push(rules[i]));
    }
}

impl Clone for NpcReply {
    fn clone(&self) -> (r: Self)
        ensures
            r == *self,
    {
        NpcReply {
            id: self.id,
            pattern: self.pattern.clone(),
            case_insensitive: self.case_insensitive,
            template: self.template.clone(),
            context: match &self.context {
                None => None,
                Some(Context::Time { timezone, format }) => Some(
                    Context::Time { timezone: timezone.clone(), format: format.clone() },
                ),
                Some(Context::Generic(v)) => Some(Context::Generic(v.clone())),
            },
            to_mention: self.to_mention,
            channel: match &self.channel {
                Some(c) => Some(c.clone()),
                None => None,
            },
            enabled: self.enabled,
            created_by: self.created_by.clone(),
            created_at: self.created_at,
            updated_at: self.updated_at,
        }
    }
}

/// Whether the lowercased message text mentions `you`.
pub open spec fn is_mention_spec(text: Seq<char>, you: Seq<char>) -> bool {
    seq_contains(lower_of(text), you)
}

/// The candidate rules matching a message: scoped to the channel, gated on
/// whether the lowercased text mentions `you`, their pattern compiling and
/// matching the raw text; a pattern that does not compile never matches.
pub open spec fn npc_matched_rules(
    rules: Seq<NpcReply>,
    text: Seq<char>,
    you: Seq<char>,
) -> Seq<NpcReply> {
    rules.filter(
        |x: NpcReply|
            x.to_mention == is_mention_spec(text, you) && regex_ok(x.pattern@, x.case_insensitive)
                && regex_matches(x.pattern@, x.case_insensitive, text),
    )
}

impl NpcReply {
    /// The enabled rules for the channel whose mention gate agrees with the
    /// message and whose pattern matches its raw text, in insertion order.
    pub fn matching(you: &str, channel: &str, message_text: &str, store: &NpcStore) -> (r: Vec<
        NpcReply,
    >)
        ensures
            r@ == npc_matched_rules(store.query_spec(channel@), message_text@, you@),
    {
        let lowered = to_lowercase(message_text);
        let is_mention = contains_str(lowered.as_str(), you);
        let candidates = store.query(channel);
        let ghost rules = store.query_spec(channel@);
        let mut out: Vec<NpcReply> = Vec::new();
        let mut i: usize = 0;
        proof {
            assert(rules.subrange(0, 0) =~= Seq::<NpcReply>::empty());
            reveal(Seq::filter);
        }
        while i < candidates.len()
            invariant
                0 <= i <= candidates@.len(),
                candidates@ == rules,
                is_mention == is_mention_spec(message_text@, you@),
                out@ == npc_matched_rules(rules.subrange(0, i as int), message_text@, you@),
            decreases candidates@.len() - i,
        {
            let rule = &candidates[i];
            if rule.to_mention == is_mention {
                match regex_is_match(rule.pattern.as_str(), rule.case_insensitive, message_text) {
                    Ok(true) => {
                        out.push(rule.clone());
                    },
                    _ => {},
                }
            }
            proof {
                lemma_npc_match_take_step(rules, i as int, message_text@, you@);
            }
            i += 1;
        }
        proof {
            assert(rules.subrange(0, rules.len() as int) =~= rules);
        }
        out
    }

    /// Renders the rule's template: without a context the template is handed
    /// back as it stands; a time context renders it against the channel's
    /// current time in the configured zone and format, so a success is the
    /// render of the template against some time text; a structured context
    /// renders it against that blob, exactly as the engine does.
    pub fn expand_template(&self) -> (r: Result<String, String>)
        requires
            (match self.context {
                Some(Context::Time { timezone, format }) => timezone.wf(),
                _ => true,
            }),
        ensures
            self.context is None ==> (r matches Ok(s) && s@ == self.template@),
            self.context matches Some(Context::Generic(b)) ==> (match render_json_of(
                self.template@,
                b@,
            ) {
                Some(s) => r matches Ok(out) && out@ == s,
                None => r is Err,
            }),
            self.context matches Some(Context::Time { .. }) ==> (r matches Ok(out)
                ==> exists|time: Seq<char>|
                    #[trigger] render_var_of(self.template@, "time_in_channel"@, time) == Some(
                        out@,
                    )),
    {
        match &self.context {
            None => Ok(self.template.clone()),
            Some(Context::Time { timezone, format }) => {
                let time_in_channel = match now_strftime_in(
                    timezone.as_inner().as_str(),
                    format.as_str(),
                ) {
                    Ok(t) => t,
                    Err(e) => {
                        return Err(e);
                    },
                };
                mj_render_var(
                    self.template.as_str(),
                    "time_in_channel",
                    time_in_channel.as_str(),
                )
            },
            Some(Context::Generic(blob)) => mj_render_json(self.template.as_str(), blob.as_str()),
        }
    }
}

proof fn lemma_npc_match_take_step(rules: Seq<NpcReply>, i: int, text: Seq<char>, you: Seq<char>)
    requires
        0 <= i < rules.len(),
    ensures
        npc_matched_rules(rules.subrange(0, i + 1), text, you) == if (rules[i].to_mention
            == is_mention_spec(text, you) && regex_ok(rules[i].pattern@, rules[i].case_insensitive)
            && regex_matches(rules[i].pattern@, rules[i].case_insensitive, text)) {
            npc_matched_rules(rules.subrange(0, i), text, you).push(rules[i])
        } else {
            npc_matched_rules(rules.subrange(0, i), text, you)
        },
{
    reveal(Seq::filter);
    let pre = rules.subrange(0, i + 1);
    assert(pre.drop_last() =~= rules.subrange(0, i));
    assert(pre.last() == rules[i]);
    if rules[i].to_mention == is_mention_spec(text, you) && regex_ok(
        rules[i].pattern@,
        rules[i].case_insensitive,
    ) && regex_matches(rules[i].pattern@, rules[i].case_insensitive, text) {
        assert(npc_matched_rules(pre, text, you) =~= npc_matched_rules(
            rules.subrange(0, i),
            text,
            you,
        ).push(rules[i]));
    }
}

/// What a fresh engine renders for a template against a context holding one
/// string variable, and whether it renders at all.
pub uninterp spec fn render_var_of(
    template: Seq<char>,
    name: Seq<char>,
    value: Seq<char>,
) -> Option<Seq<char>>;

/// What a fresh engine renders for a template against a structured blob
/// given as JSON text, and whether the blob parses and the template renders.
pub uninterp spec fn render_json_of(template: Seq<char>, context_json: Seq<char>) -> Option<
    Seq<char>,
>;

/// Relies on `chrono_tz::Tz::from_str`, `chrono::Utc::now` and
/// `chrono::DateTime::format`, written through `core::fmt::Write` so that an
/// invalid format string is an error, not a panic; the value depends on the
/// clock.
#[verifier::external_body]
fn now_strftime_in(tz_name: &str, format: &str) -> (r: Result<String, String>) {
    let tz = match <chrono_tz::Tz as core::str::FromStr>::from_str(tz_name) {
        Ok(t) => t,
        Err(e) => {
            return Err(e.to_string());
        },
    };
    let mut out = String::new();
    match write!(&mut out, "{}", chrono::Utc::now().with_timezone(&tz).format(format)) {
        Ok(()) => Ok(out),
        Err(_) => Err("invalid format string for date-time".to_string()),
    }
}

/// Relies on `minijinja::Environment::render_str` and
/// `minijinja::value::Value::from_serialize` on a fresh engine: renders the
/// template against a context holding the single variable `name`, the
/// engine error rendered as text; with no filters registered the result
/// depends on the template, the name and the value alone.
#[verifier::external_body]
fn mj_render_var(template: &str, name: &str, value: &str) -> (r: Result<String, String>)
    ensures
        r is Ok <==> render_var_of(template@, name@, value@) is Some,
        r matches Ok(s) ==> render_var_of(template@, name@, value@) == Some(s@),
{
    let mut ctx = std::collections::BTreeMap::new();
    ctx.insert(name.to_string(), value.to_string());
    minijinja::Environment::new()
        .render_str(template, minijinja::value::Value::from_serialize(&ctx))
        .map_err(|e| e.to_string())
}

/// Relies on `serde_json::from_str` for `minijinja::value::Value` and
/// `minijinja::Environment::render_str` on a fresh engine: renders the
/// template against the parsed blob, either error rendered as text; with no
/// filters registered the result depends on the template and the blob
/// alone.
#[verifier::external_body]
fn mj_render_json(template: &str, context_json: &str) -> (r: Result<String, String>)
    ensures
        r is Ok <==> render_json_of(template@, context_json@) is Some,
        r matches Ok(s) ==> render_json_of(template@, context_json@) == Some(s@),
{
    let ctx: minijinja::value::Value = match serde_json::from_str(context_json) {
        Ok(v) => v,
        Err(e) => {
            return Err(e.to_string());
        },
    };
    minijinja::Environment::new().render_str(template, ctx).map_err(|e| e.to_string())
}

/// The placeholder tokens of the oldest reply format, replaced in this
/// order: the caster's name, the current time, and the channel's emote-set
/// id when one is configured.
pub open spec fn expand_placeholders_spec(
    expansion: Seq<char>,
    caster: Seq<char>,
    now_text: Seq<char>,
    emotes_7tv_id: Option<Seq<char>>,
) -> Seq<char> {
    let with_caster = replace_all_spec(expansion, "`CASTER`"@, caster);
    let with_now = replace_all_spec(with_caster, "`NOW`"@, now_text);
    match emotes_7tv_id {
        Some(id) => replace_all_spec(with_now, "7TV_CHANNEL_ID"@, id),
        None => with_now,
    }
}

/// Expands the placeholder tokens of a reply against the channel's caster
/// name, a rendered current time, and the optional emote-set id.
pub fn expand_channel_placeholders(
    expansion: &str,
    caster: &str,
    now_text: &str,
    emotes_7tv_id: Option<&str>,
) -> (r: String)
    ensures
        r@ == expand_placeholders_spec(
            expansion@,
            caster@,
            now_text@,
            match emotes_7tv_id {
                Some(id) => Some(id@),
                None => None,
            },
        ),
{
    proof {
        reveal_strlit("`CASTER`");
        reveal_strlit("`NOW`");
        reveal_strlit("7TV_CHANNEL_ID");
    }
    let with_caster = replace_all(expansion, "`CASTER`", caster);
    let with_now = replace_all(with_caster.as_str(), "`NOW`", now_text);
    match emotes_7tv_id {
        Some(id) => replace_all(with_now.as_str(), "7TV_CHANNEL_ID", id),
        None => with_now,
    }
}

} // verus!
