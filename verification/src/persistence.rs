//! The persisted auto-reply rule model: rules scoped to a handler and an
//! optional channel, an in-memory rule store with the null-matches-all query
//! semantics, the message adapter that strips a leading reply mention, and
//! the regex matcher with its disambiguation policy.

use vstd::prelude::*;
use vstd::string::*;

use crate::text::lemma_trim_start_idempotent;
use crate::text::seq_starts_with;
use crate::text::str_eq;
use crate::text::trim_start;
use crate::text::trim_start_matches;
use crate::text::trim_start_matches_spec;
use crate::text::trim_start_spec;

verus! {

/// The content handler a rule belongs to; a routing discriminant and a store
/// filter.
#[derive(Clone, Copy, Debug, PartialEq, Eq, Structural)]
pub enum Handler {
    Gamba,
    Gg,
    Npc,
    RipBozo,
    Sniffa,
    TheGrind,
}

/// A persisted auto-reply rule. `handler == None` applies to every handler,
/// `channel == None` to every channel; a disabled rule is never matched.
/// `additional_inputs` carries the handler-specific configuration blob as raw
/// text; timestamps are seconds since the Unix epoch.
#[derive(Debug)]
pub struct Reply {
    pub id: i64,
    pub handler: Option<Handler>,
    pub pattern: String,
    pub case_insensitive: bool,
    pub template: String,
    pub channel: Option<String>,
    pub enabled: bool,
    pub additional_inputs: Option<String>,
    pub created_by: String,
    pub created_at: i64,
    pub updated_at: i64,
}

impl Clone for Reply {
    fn clone(&self) -> (r: Self)
        ensures
            r == *self,
    {
        Reply {
            id: self.id,
            handler: self.handler,
            pattern: self.pattern.clone(),
            case_insensitive: self.case_insensitive,
            template: self.template.clone(),
            channel: match &self.channel {
                Some(c) => Some(c.clone()),
                None => None,
            },
            enabled: self.enabled,
            additional_inputs: match &self.additional_inputs {
                Some(a) => Some(a.clone()),
                None => None,
            },
            created_by: self.created_by.clone(),
            created_at: self.created_at,
            updated_at: self.updated_at,
        }
    }
}

/// Whether `r` is a candidate for `handler`: either unscoped or scoped to it.
pub open spec fn handler_matches(r: Reply, handler: Handler) -> bool {
    match r.handler {
        None => true,
        Some(h) => h == handler,
    }
}

/// Whether `r` is a candidate for `channel`: either unscoped or scoped to it.
pub open spec fn channel_matches(r: Reply, channel: Seq<char>) -> bool {
    match r.channel {
        None => true,
        Some(c) => c@ == channel,
    }
}

/// Whether the store query for `(handler, channel)` returns `r`.
pub open spec fn rule_applies(r: Reply, handler: Handler, channel: Seq<char>) -> bool {
    r.enabled && handler_matches(r, handler) && channel_matches(r, channel)
}

/// The rules of `rules` that apply to `(handler, channel)`, in order.
pub open spec fn filter_rules(rules: Seq<Reply>, handler: Handler, channel: Seq<char>) -> Seq<
    Reply,
> {
    rules.filter(|x: Reply| rule_applies(x, handler, channel))
}

/// The in-memory rule store: rules in insertion order, ids assigned by the
/// store in strictly increasing order. The pipeline only reads it.
pub struct ReplyStore {
    replies: Vec<Reply>,
    next_id: i64,
}

impl ReplyStore {
    /// The stored rules, in insertion order (ascending id).
    pub closed spec fn rules(&self) -> Seq<Reply> {
        self.replies@
    }

    pub closed spec fn next_id_spec(&self) -> int {
        self.next_id as int
    }

    /// Ids are strictly increasing with insertion order and below `next_id`.
    pub closed spec fn wf(&self) -> bool {
        &&& forall|i: int, j: int|
            0 <= i < j < self.replies@.len() ==> self.replies@[i].id < self.replies@[j].id
        &&& forall|i: int|
            0 <= i < self.replies@.len() ==> #[trigger] self.replies@[i].id < self.next_id
    }

    /// What the query for `(handler, channel)` returns: the applicable rules
    /// in insertion order.
    pub open spec fn query_spec(&self, handler: Handler, channel: Seq<char>) -> Seq<Reply> {
        filter_rules(self.rules(), handler, channel)
    }

    pub fn new() -> (r: Self)
        ensures
            r.wf(),
            r.rules() == Seq::<Reply>::empty(),
    {
        ReplyStore { replies: Vec::new(), next_id: 1 }
    }

    /// Stores `reply` under a fresh id, which it returns; every other field
    /// is kept as given.
    pub fn insert(&mut self, reply: Reply) -> (r: i64)
        requires
            old(self).wf(),
            old(self).next_id_spec() < i64::MAX,
        ensures
            final(self).wf(),
            r == old(self).next_id_spec(),
            final(self).rules() == old(self).rules().push(
                Reply { id: r, ..reply },
            ),
    {
        let id = self.next_id;
        let stored = Reply { id, ..reply };
        self.replies.push(stored);
        self.next_id = id + 1;
        id
    }

    /// All enabled rules for `(handler, channel)`, where a null handler or
    /// channel matches everything, in insertion order.
    pub fn query(&self, handler: Handler, channel: &str) -> (r: Vec<Reply>)
        ensures
            r@ == self.query_spec(handler, channel@),
    {
        let mut out: Vec<Reply> = Vec::new();
        let mut i: usize = 0;
        proof {
            assert(self.rules().subrange(0, 0) =~= Seq::<Reply>::empty());
            lemma_filter_rules_empty(handler, channel@);
        }
        while i < self.replies.len()
            invariant
                0 <= i <= self.replies@.len(),
                out@ == filter_rules(self.rules().subrange(0, i as int), handler, channel@),
            decreases self.replies@.len() - i,
        {
            let rule = &self.replies[i];
            let applies = rule.enabled && (match &rule.handler {
                None => true,
                Some(h) => *h == handler,
            }) && (match &rule.channel {
                None => true,
                Some(c) => str_eq(c.as_str(), channel),
            });
            if applies {
                out.push(rule.clone());
            }
            proof {
                lemma_filter_rules_take_step(self.rules(), i as int, handler, channel@);
            }
            i += 1;
        }
        proof {
            assert(self.rules().subrange(0, self.rules().len() as int) =~= self.rules());
        }
        out
    }
}

proof fn lemma_filter_rules_empty(handler: Handler, channel: Seq<char>)
    ensures
        filter_rules(Seq::<Reply>::empty(), handler, channel) == Seq::<Reply>::empty(),
{
    reveal(Seq::filter);
}

proof fn lemma_filter_rules_take_step(rules: Seq<Reply>, i: int, handler: Handler, channel: Seq<
    char,
>)
    requires
        0 <= i < rules.len(),
    ensures
        filter_rules(rules.subrange(0, i + 1), handler, channel) == if rule_applies(
            rules[i],
            handler,
            channel,
        ) {
            filter_rules(rules.subrange(0, i), handler, channel).push(rules[i])
        } else {
            filter_rules(rules.subrange(0, i), handler, channel)
        },
{
    reveal(Seq::filter);
    let pre = rules.subrange(0, i + 1);
    assert(pre.drop_last() =~= rules.subrange(0, i));
    assert(pre.last() == rules[i]);
    if rule_applies(rules[i], handler, channel) {
        assert(filter_rules(pre, handler, channel) =~= filter_rules(
            rules.subrange(0, i),
            handler,
            channel,
        ).push(rules[i]));
    }
}

/// A rule with `channel == None` is returned by the query for every channel;
/// one with `channel == Some(c)` is returned exactly for channel `c`.
pub proof fn lemma_store_round_trip(store: ReplyStore, i: int, handler: Handler, channel: Seq<
    char,
>)
    requires
        0 <= i < store.rules().len(),
        store.rules()[i].enabled,
        handler_matches(store.rules()[i], handler),
    ensures
        store.rules()[i].channel is None ==> store.query_spec(handler, channel).contains(
            store.rules()[i],
        ),
        store.rules()[i].channel matches Some(c) ==> (c@ == channel
            ==> store.query_spec(handler, channel).contains(store.rules()[i])),
        store.rules()[i].channel matches Some(c) ==> (c@ != channel ==> !store.query_spec(
            handler,
            channel,
        ).contains(store.rules()[i])),
{
    broadcast use vstd::seq_lib::group_filter_ensures;

    let rules = store.rules();
    let pred = |x: Reply| rule_applies(x, handler, channel);
    if channel_matches(rules[i], channel) {
        assert(pred(rules[i]));
        rules.lemma_filter_contains(pred, i);
    } else {
        if store.query_spec(handler, channel).contains(rules[i]) {
            let q = rules.filter(pred);
            let j = choose|j: int| 0 <= j < q.len() && q[j] == rules[i];
            rules.lemma_filter_pred(pred, j);
        }
    }
}

/// An inbound chat message reduced to what matching needs: its channel, its
/// raw text, and the login of the user it replies to, if any.
pub struct MatchableMessage {
    pub channel: String,
    pub message_text: String,
    pub reply_parent_login: Option<String>,
}

/// The mention prefix addressed to `name`: `@name`.
pub open spec fn mention_prefix(name: Seq<char>) -> Seq<char> {
    seq!['@'] + name
}

/// The text a message is matched on: with a reply parent, every leading
/// repetition of `@parent` is removed and then leading whitespace; without
/// one the raw text is kept.
pub open spec fn stripped_text(text: Seq<char>, parent: Option<Seq<char>>) -> Seq<char> {
    match parent {
        None => text,
        Some(name) => trim_start_spec(trim_start_matches_spec(text, mention_prefix(name))),
    }
}

impl MatchableMessage {
    /// The reply parent's login as a sequence, if any.
    pub open spec fn parent_view(&self) -> Option<Seq<char>> {
        match self.reply_parent_login {
            None => None,
            Some(name) => Some(name@),
        }
    }

    /// What `text()` returns.
    pub open spec fn text_spec(&self) -> Seq<char> {
        stripped_text(self.message_text@, self.parent_view())
    }

    pub fn channel(&self) -> (r: &str)
        ensures
            r@ == self.channel@,
    {
        self.channel.as_str()
    }

    /// The message text, with a leading mention of the reply parent stripped
    /// if there is one, otherwise untouched.
    pub fn text(&self) -> (r: String)
        ensures
            r@ == self.text_spec(),
    {
        match &self.reply_parent_login {
            None => self.message_text.clone(),
            Some(name) => {
                let mut pat = String::new();
                push_at(&mut pat);
                pat.append(name.as_str());
                proof {
                    assert(pat@ =~= mention_prefix(name@));
                }
                let t = trim_start_matches(self.message_text.as_str(), pat.as_str());
                trim_start(t.as_str())
            },
        }
    }
}

/// Pushes the mention sigil onto `s`.
fn push_at(s: &mut String)
    ensures
        final(s)@ == old(s)@.push('@'),
{
    crate::text::push_char(s, '@');
}

/// Without a reply parent, matching reads the raw message text.
pub proof fn lemma_strip_noop_without_parent(text: Seq<char>)
    ensures
        stripped_text(text, None) == text,
{
}

/// Stripping the mention once removes it for good: as long as the stripped
/// text does not itself begin with the mention prefix again, stripping a
/// second time changes nothing.
pub proof fn lemma_strip_idempotent(text: Seq<char>, name: Seq<char>)
    requires
        !seq_starts_with(stripped_text(text, Some(name)), mention_prefix(name)),
    ensures
        stripped_text(stripped_text(text, Some(name)), Some(name)) == stripped_text(
            text,
            Some(name),
        ),
{
    let pre = mention_prefix(name);
    let t1 = stripped_text(text, Some(name));
    assert(trim_start_matches_spec(t1, pre) == t1);
    lemma_trim_start_idempotent(trim_start_matches_spec(text, pre));
}

/// Whether `regex::RegexBuilder::build` accepts `pattern` with the given
/// case mode.
pub uninterp spec fn regex_ok(pattern: Seq<char>, case_insensitive: bool) -> bool;

/// What `regex::Regex::is_match` returns for the compiled `pattern` on
/// `text`.
pub uninterp spec fn regex_matches(
    pattern: Seq<char>,
    case_insensitive: bool,
    text: Seq<char>,
) -> bool;

/// Relies on `regex::RegexBuilder::build` and `regex::Regex::is_match`:
/// compiling and matching depend on the pattern, the case mode and the text
/// alone. The error is the compile error's rendering.
#[verifier::external_body]
pub(crate) fn regex_is_match(pattern: &str, case_insensitive: bool, text: &str) -> (r: Result<
    bool,
    String,
>)
    ensures
        r is Ok <==> regex_ok(pattern@, case_insensitive),
        r matches Ok(m) ==> m == regex_matches(pattern@, case_insensitive, text@),
{
    match regex::RegexBuilder::new(pattern).case_insensitive(case_insensitive).build() {
        Ok(re) => Ok(re.is_match(text)),
        Err(e) => Err(format!("{}", e)),
    }
}

/// The candidate rules whose pattern compiles and matches `text`, in order.
pub open spec fn matched_rules(rules: Seq<Reply>, text: Seq<char>) -> Seq<Reply> {
    rules.filter(
        |x: Reply|
            regex_ok(x.pattern@, x.case_insensitive) && regex_matches(
                x.pattern@,
                x.case_insensitive,
                text,
            ),
    )
}

/// The candidate rules whose pattern does not compile, in order.
pub open spec fn errored_rules(rules: Seq<Reply>) -> Seq<Reply> {
    rules.filter(|x: Reply| !regex_ok(x.pattern@, x.case_insensitive))
}

/// A matcher outcome or error: errors carry the message and the rendering of
/// each per-rule regex compile failure.
#[derive(Debug)]
pub enum PersistenceError {
    SingleReplyAndErrors { reply: Reply, message: String, regex_errors: Vec<String> },
    NoReplyAndErrors { message: String, regex_errors: Vec<String> },
    MultipleReplies { replies: Vec<Reply>, message: String, regex_errors: Vec<String> },
}

/// The single disambiguated rule for a message, with the regex errors of the
/// other candidate rules (warnings, not failures).
pub struct FirstMatching {
    pub reply: Reply,
    pub message: String,
    pub regex_errors: Vec<String>,
}

impl PersistenceError {
    /// Surfaces the warnings of a successful match as an error value: `Some`
    /// exactly when the match came with regex errors.
    pub fn from_first_matching(value: FirstMatching) -> (r: Option<PersistenceError>)
        ensures
            r is Some <==> value.regex_errors@.len() > 0,
            r matches Some(e) ==> e matches PersistenceError::SingleReplyAndErrors {
                reply,
                message,
                regex_errors,
            } && reply == value.reply && message == value.message && regex_errors
                == value.regex_errors,
    {
        if value.regex_errors.len() > 0 {
            Some(
                PersistenceError::SingleReplyAndErrors {
                    reply: value.reply,
                    message: value.message,
                    regex_errors: value.regex_errors,
                },
            )
        } else {
            None
        }
    }
}

impl Reply {
    /// The candidate rules for `(handler, message.channel)` split into those
    /// whose pattern matches the message text and the compile errors of those
    /// whose pattern is invalid; a failed compile never fails the batch.
    pub fn matching_2(handler: Handler, message: &MatchableMessage, store: &ReplyStore) -> (r: (
        Vec<Reply>,
        Vec<String>,
    ))
        ensures
            r.0@ == matched_rules(store.query_spec(handler, message.channel@), message.text_spec()),
            r.1@.len() == errored_rules(store.query_spec(handler, message.channel@)).len(),
    {
        let text = message.text();
        let candidates = store.query(handler, message.channel());
        let ghost rules = store.query_spec(handler, message.channel@);
        let ghost tspec = message.text_spec();
        let mut matched: Vec<Reply> = Vec::new();
        let mut errors: Vec<String> = Vec::new();
        let mut i: usize = 0;
        proof {
            assert(rules.subrange(0, 0) =~= Seq::<Reply>::empty());
            lemma_match_filters_empty(tspec);
        }
        while i < candidates.len()
            invariant
                0 <= i <= candidates@.len(),
                candidates@ == rules,
                text@ == tspec,
                matched@ == matched_rules(rules.subrange(0, i as int), tspec),
                errors@.len() == errored_rules(rules.subrange(0, i as int)).len(),
            decreases candidates@.len() - i,
        {
            let rule = &candidates[i];
            match regex_is_match(rule.pattern.as_str(), rule.case_insensitive, text.as_str()) {
                Ok(true) => {
                    matched.push(rule.clone());
                },
                Ok(false) => {},
                Err(e) => {
                    errors.push(e);
                },
            }
            proof {
                lemma_match_filters_take_step(rules, i as int, tspec);
            }
            i += 1;
        }
        proof {
            assert(rules.subrange(0, rules.len() as int) =~= rules);
        }
        (matched, errors)
    }

    /// The candidate rules whose pattern compiles and matches the message
    /// text; compile failures are dropped as warnings.
    pub fn matching(handler: Handler, message: &MatchableMessage, store: &ReplyStore) -> (r: Vec<
        Reply,
    >)
        ensures
            r@ == matched_rules(store.query_spec(handler, message.channel@), message.text_spec()),
    {
        let (matched, _errors) = Self::matching_2(handler, message, store);
        matched
    }

    /// The disambiguated match for a message:
    /// no match and no regex error is a no-op; exactly one match wins, with
    /// any regex errors of other rules kept as warnings; no match with at
    /// least one regex error, and two or more matches, are errors.
    pub fn first_matching(handler: Handler, message: &MatchableMessage, store: &ReplyStore) -> (r:
        Result<Option<FirstMatching>, PersistenceError>)
        ensures
            ({
                let rules = store.query_spec(handler, message.channel@);
                let ms = matched_rules(rules, message.text_spec());
                let es = errored_rules(rules);
                match r {
                    Ok(None) => ms.len() == 0 && es.len() == 0,
                    Ok(Some(fm)) => ms.len() == 1 && fm.reply == ms[0] && fm.message@
                        == message.text_spec() && fm.regex_errors@.len() == es.len(),
                    Err(PersistenceError::NoReplyAndErrors { message: m, regex_errors }) => ms.len()
                        == 0 && es.len() >= 1 && m@ == message.text_spec() && regex_errors@.len()
                        == es.len(),
                    Err(PersistenceError::MultipleReplies { replies, message: m, regex_errors }) => ms.len()
                        >= 2 && replies@ == ms && m@ == message.text_spec() && regex_errors@.len()
                        == es.len(),
                    Err(_) => false,
                }
            }),
    {
        let (replies, regex_errors) = Self::matching_2(handler, message, store);
        let text = message.text();

        if replies.len() == 0 && regex_errors.len() == 0 {
            Ok(None)
        } else if replies.len() == 1 {
            let reply = replies[0].clone();
            Ok(Some(FirstMatching { reply, message: text, regex_errors }))
        } else if replies.len() == 0 {
            Err(PersistenceError::NoReplyAndErrors { message: text, regex_errors })
        } else {
            Err(PersistenceError::MultipleReplies { replies, message: text, regex_errors })
        }
    }
}

proof fn lemma_match_filters_empty(text: Seq<char>)
    ensures
        matched_rules(Seq::<Reply>::empty(), text) == Seq::<Reply>::empty(),
        errored_rules(Seq::<Reply>::empty()) == Seq::<Reply>::empty(),
{
    reveal(Seq::filter);
}

proof fn lemma_match_filters_take_step(rules: Seq<Reply>, i: int, text: Seq<char>)
    requires
        0 <= i < rules.len(),
    ensures
        matched_rules(rules.subrange(0, i + 1), text) == if regex_ok(
            rules[i].pattern@,
            rules[i].case_insensitive,
        ) && regex_matches(rules[i].pattern@, rules[i].case_insensitive, text) {
            matched_rules(rules.subrange(0, i), text).push(rules[i])
        } else {
            matched_rules(rules.subrange(0, i), text)
        },
        errored_rules(rules.subrange(0, i + 1)) == if !regex_ok(
            rules[i].pattern@,
            rules[i].case_insensitive,
        ) {
            errored_rules(rules.subrange(0, i)).push(rules[i])
        } else {
            errored_rules(rules.subrange(0, i))
        },
{
    reveal(Seq::filter);
    let pre = rules.subrange(0, i + 1);
    assert(pre.drop_last() =~= rules.subrange(0, i));
    assert(pre.last() == rules[i]);
    if regex_ok(rules[i].pattern@, rules[i].case_insensitive) && regex_matches(
        rules[i].pattern@,
        rules[i].case_insensitive,
        text,
    ) {
        assert(matched_rules(pre, text) =~= matched_rules(rules.subrange(0, i), text).push(
            rules[i],
        ));
    }
    if !regex_ok(rules[i].pattern@, rules[i].case_insensitive) {
        assert(errored_rules(pre) =~= errored_rules(rules.subrange(0, i)).push(rules[i]));
    }
}

} // verus!
