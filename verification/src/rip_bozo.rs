//! The moderation filter: classifies a message's grapheme clusters, deletes
//! all-emoji walls and text dominated by non-ASCII glyphs, and bounds the
//! credential-refresh retry of the deletion call to a single attempt.

use vstd::prelude::*;
use vstd::string::*;

use crate::text::all_whitespace;
use crate::text::is_blank;
use crate::text::replace_all;
use crate::text::replace_all_spec;

verus! {

/// An all-emoji message is deleted only above this many emoji.
pub const EMOJI_COUNT_LIMIT: usize = 24;

/// Otherwise a message is deleted when its non-ASCII share exceeds this
/// percentage.
pub const NOT_ASCII_PERCENT_LIMIT: usize = 45;

/// What `unicode_segmentation`'s grapheme segmentation (extended clusters)
/// returns: the user-perceived characters of `s`, in order.
pub uninterp spec fn grapheme_clusters(s: Seq<char>) -> Seq<Seq<char>>;

/// Whether the regex `Emoji` Unicode property matches somewhere in `g`.
pub uninterp spec fn emoji_grapheme(g: Seq<char>) -> bool;

/// Whether `c` is a regex word character (`\w`).
pub uninterp spec fn word_char(c: char) -> bool;

/// The lengths of the clusters summed: the length of the segmented string.
pub open spec fn total_len(gs: Seq<Seq<char>>) -> int
    decreases gs.len(),
{
    if gs.len() == 0 {
        0
    } else {
        total_len(gs.drop_last()) + gs.last().len()
    }
}

/// The clusters joined back together, in order.
pub open spec fn concat_all(gs: Seq<Seq<char>>) -> Seq<char>
    decreases gs.len(),
{
    if gs.len() == 0 {
        Seq::empty()
    } else {
        concat_all(gs.drop_last()) + gs.last()
    }
}

/// Joining the clusters yields as many characters as their lengths sum to.
proof fn lemma_concat_all_len(gs: Seq<Seq<char>>)
    ensures
        concat_all(gs).len() == total_len(gs),
    decreases gs.len(),
{
    if gs.len() > 0 {
        lemma_concat_all_len(gs.drop_last());
    }
}

/// Relies on `unicode_segmentation::UnicodeSegmentation::graphemes` with
/// extended clusters: it partitions the string into grapheme clusters whose
/// concatenation is the input string itself.
#[verifier::external_body]
fn graphemes(text: &str) -> (r: Vec<String>)
    ensures
        r@.map_values(|g: String| g@) == grapheme_clusters(text@),
        concat_all(r@.map_values(|g: String| g@)) == text@,
{
    unicode_segmentation::UnicodeSegmentation::graphemes(text, true)
        .map(|g| g.to_string())
        .collect()
}

/// Relies on `regex::Regex::is_match` with the pattern for the Unicode
/// `Emoji` property; the pattern is a fixed valid literal and the result
/// depends on `g` alone.
#[verifier::external_body]
fn is_emoji_grapheme(g: &str) -> (r: bool)
    ensures
        r == emoji_grapheme(g@),
{
    regex::Regex::new(r"\p{Emoji}").unwrap().is_match(g)
}

/// Relies on `regex::Regex::is_match` with the word-character pattern (`\w`);
/// the pattern is a fixed valid literal and the result depends on `c` alone.
#[verifier::external_body]
fn is_word_char(c: char) -> (r: bool)
    ensures
        r == word_char(c),
{
    regex::Regex::new(r"\w").unwrap().is_match(c.to_string().as_str())
}

/// Whether `c` is an ASCII character.
pub open spec fn ascii_char(c: char) -> bool {
    (c as u32) < 128
}

/// Whether every character of `g` is ASCII.
pub open spec fn is_ascii_seq(g: Seq<char>) -> bool {
    forall|i: int| 0 <= i < g.len() ==> ascii_char(#[trigger] g[i])
}

fn is_ascii_str(g: &str) -> (r: bool)
    ensures
        r == is_ascii_seq(g@),
{
    let n: usize = g.unicode_len();
    let mut i: usize = 0;
    while i < n
        invariant
            0 <= i <= n,
            n == g@.len(),
            forall|j: int| 0 <= j < i ==> ascii_char(#[trigger] g@[j]),
        decreases n - i,
    {
        let c = g.get_char(i);
        if !((c as u32) < 128) {
            return false;
        }
        i += 1;
    }
    true
}

/// Whether `c` is an ASCII letter or digit; on ASCII input this is what
/// `char::is_alphanumeric` tests.
pub open spec fn ascii_alnum_char(c: char) -> bool {
    ('0' <= c && c <= '9') || ('a' <= c && c <= 'z') || ('A' <= c && c <= 'Z')
}

/// The individually harmless non-ASCII graphemes left out of the ratio: the
/// horizontal ellipsis, the full-width question mark, a Cyrillic o, and one
/// tag character.
pub open spec fn whitelisted_grapheme(g: Seq<char>) -> bool {
    g.len() == 1 && (g[0] == '\u{e0000}' || g[0] == '\u{2026}' || g[0] == '\u{ff1f}' || g[0]
        == '\u{43e}')
}

fn is_whitelisted(g: &str) -> (r: bool)
    ensures
        r == whitelisted_grapheme(g@),
{
    let n: usize = g.unicode_len();
    if n != 1 {
        return false;
    }
    let c = g.get_char(0);
    c == '\u{e0000}' || c == '\u{2026}' || c == '\u{ff1f}' || c == '\u{43e}'
}

/// How many characters of `g` are ASCII alphanumeric.
pub open spec fn alnum_in(g: Seq<char>) -> int
    decreases g.len(),
{
    if g.len() == 0 {
        0
    } else {
        alnum_in(g.drop_last()) + if ascii_alnum_char(g.last()) {
            1int
        } else {
            0int
        }
    }
}

proof fn lemma_alnum_in_bounds(g: Seq<char>)
    ensures
        0 <= alnum_in(g) <= g.len(),
    decreases g.len(),
{
    if g.len() > 0 {
        lemma_alnum_in_bounds(g.drop_last());
    }
}

/// The grapheme counts of the moderation heuristic. Every grapheme falls in
/// exactly one class, whitespace first: whitespace, ASCII (counted by
/// character as alphanumeric or symbol), emoji, or other non-ASCII, of which
/// the whitelisted ones are counted a second time.
pub struct GraphemeCounts {
    pub whitespaces: int,
    pub ascii_alnum: int,
    pub ascii_symbols: int,
    pub emojis: int,
    pub not_ascii: int,
    pub not_ascii_whitelisted: int,
}

/// The counts with one more grapheme classified.
pub open spec fn add_grapheme(c: GraphemeCounts, g: Seq<char>) -> GraphemeCounts {
    if all_whitespace(g) {
        GraphemeCounts { whitespaces: c.whitespaces + 1, ..c }
    } else if is_ascii_seq(g) {
        GraphemeCounts {
            ascii_alnum: c.ascii_alnum + alnum_in(g),
            ascii_symbols: c.ascii_symbols + (g.len() - alnum_in(g)),
            ..c
        }
    } else if emoji_grapheme(g) {
        GraphemeCounts { emojis: c.emojis + 1, ..c }
    } else {
        GraphemeCounts {
            not_ascii: c.not_ascii + 1,
            not_ascii_whitelisted: c.not_ascii_whitelisted + if whitelisted_grapheme(g) {
                1int
            } else {
                0int
            },
            ..c
        }
    }
}

pub open spec fn zero_counts() -> GraphemeCounts {
    GraphemeCounts {
        whitespaces: 0,
        ascii_alnum: 0,
        ascii_symbols: 0,
        emojis: 0,
        not_ascii: 0,
        not_ascii_whitelisted: 0,
    }
}

/// The counts of a sequence of graphemes.
pub open spec fn counts_of(gs: Seq<Seq<char>>) -> GraphemeCounts
    decreases gs.len(),
{
    if gs.len() == 0 {
        zero_counts()
    } else {
        add_grapheme(counts_of(gs.drop_last()), gs.last())
    }
}

/// The counts of `text` once segmented into grapheme clusters.
pub open spec fn stats_spec(text: Seq<char>) -> GraphemeCounts {
    counts_of(grapheme_clusters(text))
}

proof fn lemma_counts_of_bounds(gs: Seq<Seq<char>>)
    ensures
        0 <= counts_of(gs).whitespaces <= gs.len(),
        0 <= counts_of(gs).ascii_alnum,
        0 <= counts_of(gs).ascii_symbols,
        0 <= counts_of(gs).emojis <= gs.len(),
        0 <= counts_of(gs).not_ascii_whitelisted <= counts_of(gs).not_ascii <= gs.len(),
        counts_of(gs).ascii_alnum + counts_of(gs).ascii_symbols <= total_len(gs),
        0 <= total_len(gs),
    decreases gs.len(),
{
    if gs.len() > 0 {
        lemma_counts_of_bounds(gs.drop_last());
        lemma_alnum_in_bounds(gs.last());
    }
}

/// The deletion rule on the counts: an all-emoji message (nothing but emoji
/// and whitespace) is deleted above the emoji limit; otherwise the message
/// is deleted when the non-whitelisted non-ASCII graphemes exceed the limit
/// percentage of them plus all ASCII characters; with an empty denominator
/// nothing is deleted.
pub open spec fn delete_decision(c: GraphemeCounts) -> bool {
    if c.ascii_alnum + c.ascii_symbols + c.not_ascii == 0 {
        c.emojis > EMOJI_COUNT_LIMIT as int
    } else {
        let relevant = c.not_ascii - c.not_ascii_whitelisted;
        100 * relevant > (NOT_ASCII_PERCENT_LIMIT as int) * (relevant + c.ascii_alnum
            + c.ascii_symbols)
    }
}

/// The grapheme statistics of one message, at grapheme-cluster granularity:
/// ASCII characters split into alphanumeric and symbol, and whole clusters
/// counted as whitespace, emoji or other non-ASCII.
pub struct TextStats {
    pub whitespaces: usize,
    pub ascii_alnum: usize,
    pub ascii_symbols: usize,
    pub emojis: usize,
    pub not_ascii: usize,
    pub not_ascii_whitelisted: usize,
}

impl TextStats {
    /// The counts as the specification sees them.
    pub open spec fn counts(&self) -> GraphemeCounts {
        GraphemeCounts {
            whitespaces: self.whitespaces as int,
            ascii_alnum: self.ascii_alnum as int,
            ascii_symbols: self.ascii_symbols as int,
            emojis: self.emojis as int,
            not_ascii: self.not_ascii as int,
            not_ascii_whitelisted: self.not_ascii_whitelisted as int,
        }
    }

    pub open spec fn wf(&self) -> bool {
        self.not_ascii_whitelisted <= self.not_ascii
    }

    /// Classifies every grapheme cluster of `text`.
    pub fn new(text: &str) -> (r: TextStats)
        ensures
            r.counts() == stats_spec(text@),
            r.wf(),
    {
        let total_chars: usize = text.unicode_len();
        let gs = graphemes(text);
        let ghost views = gs@.map_values(|g: String| g@);
        let n = gs.len();
        let mut stats = TextStats {
            whitespaces: 0,
            ascii_alnum: 0,
            ascii_symbols: 0,
            emojis: 0,
            not_ascii: 0,
            not_ascii_whitelisted: 0,
        };
        let mut i: usize = 0;
        proof {
            assert(views.subrange(0, 0) =~= Seq::<Seq<char>>::empty());
            lemma_concat_all_len(views);
        }
        while i < n
            invariant
                0 <= i <= n,
                n == gs@.len(),
                views == gs@.map_values(|g: String| g@),
                views.len() == n,
                total_len(views) == total_chars,
                stats.counts() == counts_of(views.subrange(0, i as int)),
                stats.wf(),
            decreases n - i,
        {
            let ghost prefix = views.subrange(0, i as int);
            let ghost next = views.subrange(0, i as int + 1);
            proof {
                assert(next.drop_last() =~= prefix);
                assert(next.last() == views[i as int]);
                lemma_counts_of_bounds(next);
                lemma_counts_of_bounds(prefix);
                lemma_total_len_take_le(views, i as int + 1);
                assert(gs@[i as int]@ == views[i as int]);
            }
            let g = &gs[i];
            if is_blank(g.as_str()) {
                stats.whitespaces += 1;
            } else if is_ascii_str(g.as_str()) {
                let alnum = count_alnum(g.as_str());
                let len = g.as_str().unicode_len();
                proof {
                    lemma_alnum_in_bounds(views[i as int]);
                }
                stats.ascii_alnum += alnum;
                stats.ascii_symbols += len - alnum;
            } else if is_emoji_grapheme(g.as_str()) {
                stats.emojis += 1;
            } else {
                stats.not_ascii += 1;
                if is_whitelisted(g.as_str()) {
                    stats.not_ascii_whitelisted += 1;
                }
            }
            i += 1;
        }
        proof {
            assert(views.subrange(0, n as int) =~= views);
        }
        stats
    }

    /// Whether the message must be deleted, per `delete_decision`: all-emoji
    /// walls above the emoji limit, otherwise the non-ASCII percentage test.
    pub fn should_be_deleted(&self) -> (r: bool)
        requires
            self.wf(),
        ensures
            r == delete_decision(self.counts()),
    {
        match self.only_emojis() {
            Some(emojis_count) => emojis_count > EMOJI_COUNT_LIMIT,
            None => {
                let relevant = self.not_ascii - self.not_ascii_whitelisted;
                let denominator = (relevant as u128) + (self.ascii_alnum as u128) + (
                self.ascii_symbols as u128);
                proof {
                    assert(relevant as u128 <= usize::MAX as u128);
                    assert(denominator <= 3 * (usize::MAX as u128));
                    assert(100u128 * (relevant as u128) <= 100 * (usize::MAX as u128));
                    assert((NOT_ASCII_PERCENT_LIMIT as u128) * denominator <= 45 * 3 * (
                    usize::MAX as u128)) by (nonlinear_arith)
                        requires
                            denominator <= 3 * (usize::MAX as u128),
                    ;
                }
                100u128 * (relevant as u128) > (NOT_ASCII_PERCENT_LIMIT as u128) * denominator
            },
        }
    }

    /// The emoji count, when the message holds nothing but emoji and
    /// whitespace; `None` otherwise.
    pub fn only_emojis(&self) -> (r: Option<usize>)
        ensures
            r == if self.counts().ascii_alnum + self.counts().ascii_symbols
                + self.counts().not_ascii == 0 {
                Some(self.emojis)
            } else {
                None::<usize>
            },
    {
        if self.ascii_alnum == 0 && self.ascii_symbols == 0 && self.not_ascii == 0 {
            Some(self.emojis)
        } else {
            None
        }
    }
}

fn count_alnum(g: &str) -> (r: usize)
    ensures
        r == alnum_in(g@),
{
    let n: usize = g.unicode_len();
    let mut cnt: usize = 0;
    let mut j: usize = 0;
    proof {
        assert(g@.subrange(0, 0) =~= Seq::<char>::empty());
    }
    while j < n
        invariant
            0 <= j <= n,
            n == g@.len(),
            cnt <= j,
            cnt == alnum_in(g@.subrange(0, j as int)),
        decreases n - j,
    {
        let c = g.get_char(j);
        proof {
            assert(g@.subrange(0, j as int + 1).drop_last() =~= g@.subrange(0, j as int));
            assert(g@.subrange(0, j as int + 1).last() == g@[j as int]);
            lemma_alnum_in_bounds(g@.subrange(0, j as int));
        }
        if ('0' <= c && c <= '9') || ('a' <= c && c <= 'z') || ('A' <= c && c <= 'Z') {
            cnt += 1;
        }
        j += 1;
    }
    proof {
        assert(g@.subrange(0, n as int) =~= g@);
    }
    cnt
}

proof fn lemma_total_len_take_le(gs: Seq<Seq<char>>, i: int)
    requires
        0 <= i <= gs.len(),
    ensures
        total_len(gs.subrange(0, i)) <= total_len(gs),
    decreases gs.len() - i,
{
    if i == gs.len() {
        assert(gs.subrange(0, i) =~= gs);
    } else {
        let next = gs.subrange(0, i + 1);
        assert(next.drop_last() =~= gs.subrange(0, i));
        assert(next.last() == gs[i]);
        lemma_total_len_take_le(gs, i + 1);
    }
}

/// One mention found in a message: the matched handle (with the sigil) and
/// the login it names.
#[derive(Clone, Debug, PartialEq)]
pub struct Mention {
    pub handle: String,
    pub login: String,
}

/// The length of the run of word characters starting at `i`.
pub open spec fn word_run_len(s: Seq<char>, i: int) -> int
    decreases s.len() - i when 0 <= i <= s.len()
{
    if i < s.len() && word_char(s[i]) {
        1 + word_run_len(s, i + 1)
    } else {
        0
    }
}

proof fn lemma_word_run_len_bounds(s: Seq<char>, i: int)
    requires
        0 <= i <= s.len(),
    ensures
        0 <= word_run_len(s, i),
        i + word_run_len(s, i) <= s.len(),
    decreases s.len() - i,
{
    if i < s.len() && word_char(s[i]) {
        lemma_word_run_len_bounds(s, i + 1);
    }
}

/// The mentions of `s` from position `i` on: each `@` followed by at least
/// one word character opens a mention whose login is the maximal word-
/// character run after the sigil; scanning resumes after it.
pub open spec fn mentions_spec(s: Seq<char>, i: int) -> Seq<(Seq<char>, Seq<char>)>
    decreases s.len() - i when 0 <= i <= s.len() via mentions_spec_decreases
{
    if i >= s.len() {
        Seq::empty()
    } else if s[i] == '@' && i + 1 < s.len() && word_char(s[i + 1]) {
        let l = word_run_len(s, i + 1);
        seq![(s.subrange(i, i + 1 + l), s.subrange(i + 1, i + 1 + l))] + mentions_spec(
            s,
            i + 1 + l,
        )
    } else {
        mentions_spec(s, i + 1)
    }
}

#[via_fn]
proof fn mentions_spec_decreases(s: Seq<char>, i: int) {
    if i < s.len() && s[i] == '@' && i + 1 < s.len() && word_char(s[i + 1]) {
        lemma_word_run_len_bounds(s, i + 1);
    }
}

proof fn lemma_mentions_spec_handles(s: Seq<char>, i: int)
    requires
        0 <= i <= s.len(),
    ensures
        forall|k: int|
            0 <= k < mentions_spec(s, i).len() ==> (#[trigger] mentions_spec(s, i)[k]).0.len()
                >= 2,
    decreases s.len() - i,
{
    if i >= s.len() {
    } else if s[i] == '@' && i + 1 < s.len() && word_char(s[i + 1]) {
        let l = word_run_len(s, i + 1);
        lemma_word_run_len_bounds(s, i + 1);
        lemma_word_run_len_bounds(s, i + 2);
        assert(l >= 1);
        lemma_mentions_spec_handles(s, i + 1 + l);
        let first = seq![(s.subrange(i, i + 1 + l), s.subrange(i + 1, i + 1 + l))];
        let rest = mentions_spec(s, i + 1 + l);
        assert(mentions_spec(s, i) == first + rest);
        assert forall|k: int| 0 <= k < mentions_spec(s, i).len() implies (
        #[trigger] mentions_spec(s, i)[k]).0.len() >= 2 by {
            if k == 0 {
                assert(mentions_spec(s, i)[0] == first[0]);
                assert(first[0].0 == s.subrange(i, i + 1 + l));
                assert(i + 1 + l <= s.len());
                assert(first[0].0.len() == 1 + l);
            } else {
                assert(mentions_spec(s, i)[k] == rest[k - 1]);
                assert(rest[k - 1].0.len() >= 2);
            }
        }
        assert(forall|k: int|
            0 <= k < mentions_spec(s, i).len() ==> (#[trigger] mentions_spec(s, i)[k]).0.len()
                >= 2);
    } else {
        lemma_mentions_spec_handles(s, i + 1);
        assert(mentions_spec(s, i) == mentions_spec(s, i + 1));
        assert(forall|k: int|
            0 <= k < mentions_spec(s, i).len() ==> (#[trigger] mentions_spec(s, i)[k]).0.len()
                >= 2);
    }
}

/// The mentions of one message, in order of appearance.
#[derive(Debug)]
pub struct Mentions(Vec<Mention>);

impl Mentions {
    /// The mentions as (handle, login) character sequences.
    pub closed spec fn mentions_view(&self) -> Seq<(Seq<char>, Seq<char>)> {
        self.0@.map_values(|m: Mention| (m.handle@, m.login@))
    }

    /// Every handle is at least a sigil and one character.
    pub open spec fn wf(&self) -> bool {
        forall|k: int|
            0 <= k < self.mentions_view().len() ==> (#[trigger] self.mentions_view()[k]).0.len()
                >= 2
    }

    /// Scans `text` for mentions: every `@` directly followed by at least one
    /// word character, with the login the maximal word-character run.
    pub fn new(text: &str) -> (r: Self)
        ensures
            r.mentions_view() == mentions_spec(text@, 0),
            r.wf(),
    {
        let n: usize = text.unicode_len();
        let mut out: Vec<Mention> = Vec::new();
        let mut i: usize = 0;
        proof {
            assert(out@.map_values(|m: Mention| (m.handle@, m.login@)) =~= Seq::<(
                Seq<char>,
                Seq<char>,
            )>::empty());
        }
        while i < n
            invariant
                0 <= i <= n,
                n == text@.len(),
                mentions_spec(text@, 0) == out@.map_values(|m: Mention| (m.handle@, m.login@))
                    + mentions_spec(text@, i as int),
                forall|k: int| 0 <= k < out@.len() ==> (#[trigger] out@[k]).handle@.len() >= 2,
            decreases n - i,
        {
            let c = text.get_char(i);
            if c == '@' && i + 1 < n && is_word_char(text.get_char(i + 1)) {
                let mut j = i + 1;
                while j < n && is_word_char(text.get_char(j))
                    invariant
                        i + 1 <= j <= n,
                        i + 1 < n,
                        n == text@.len(),
                        text@[i as int] == '@',
                        word_char(text@[i as int + 1]),
                        forall|k: int| i + 1 <= k < j ==> word_char(#[trigger] text@[k]),
                    decreases n - j,
                {
                    j += 1;
                }
                proof {
                    lemma_word_run_at(text@, (i + 1) as int, j as int);
                    lemma_word_run_len_bounds(text@, i as int + 2);
                    assert(word_run_len(text@, i as int + 1) >= 1);
                }
                let handle = text.substring_char(i, j).to_owned();
                let login = text.substring_char(i + 1, j).to_owned();
                out.push(Mention { handle, login });
                proof {
                    let l = word_run_len(text@, i as int + 1);
                    assert(l == j - (i + 1));
                    assert(mentions_spec(text@, i as int) == seq![
                        (
                            text@.subrange(i as int, i as int + 1 + l),
                            text@.subrange(i as int + 1, i as int + 1 + l),
                        ),
                    ] + mentions_spec(text@, i as int + 1 + l));
                    assert(out@.map_values(|m: Mention| (m.handle@, m.login@))
                        =~= out@.drop_last().map_values(|m: Mention| (m.handle@, m.login@)).push(
                        (text@.subrange(i as int, j as int), text@.subrange(i as int + 1, j as int)),
                    ));
                    assert(mentions_spec(text@, 0) =~= out@.map_values(
                        |m: Mention| (m.handle@, m.login@),
                    ) + mentions_spec(text@, j as int));
                }
                i = j;
            } else {
                proof {
                    assert(mentions_spec(text@, i as int) == mentions_spec(text@, i as int + 1));
                }
                i += 1;
            }
        }
        proof {
            assert(mentions_spec(text@, n as int) =~= Seq::<(Seq<char>, Seq<char>)>::empty());
            assert(mentions_spec(text@, 0) =~= out@.map_values(
                |m: Mention| (m.handle@, m.login@),
            ));
        }
        Mentions(out)
    }

    pub fn as_inner(&self) -> (r: &[Mention])
        ensures
            r@.map_values(|m: Mention| (m.handle@, m.login@)) == self.mentions_view(),
    {
        self.0.as_slice()
    }
}

proof fn lemma_word_run_at(s: Seq<char>, start: int, j: int)
    requires
        0 <= start <= j <= s.len(),
        forall|k: int| start <= k < j ==> word_char(#[trigger] s[k]),
        j == s.len() || !word_char(s[j]),
    ensures
        word_run_len(s, start) == j - start,
    decreases j - start,
{
    if start < j {
        lemma_word_run_at(s, start + 1, j);
    }
}

/// `text` with each mention's handle removed in turn, earlier mentions
/// first, each by a full replace of every occurrence.
pub open spec fn remove_handles_spec(text: Seq<char>, handles: Seq<Seq<char>>) -> Seq<char>
    decreases handles.len(),
{
    if handles.len() == 0 {
        text
    } else {
        remove_handles_spec(
            replace_all_spec(text, handles[0], Seq::empty()),
            handles.subrange(1, handles.len() as int),
        )
    }
}

/// The handles of the message's mentions, in order.
pub open spec fn handles_of(ms: Seq<(Seq<char>, Seq<char>)>) -> Seq<Seq<char>> {
    ms.map_values(|m: (Seq<char>, Seq<char>)| m.0)
}

/// `text` with the handles of all its mentions removed.
pub open spec fn message_without_mentions_spec(text: Seq<char>) -> Seq<char> {
    remove_handles_spec(text, handles_of(mentions_spec(text, 0)))
}

/// Removes each mention's handle from `text`, earlier mentions first.
pub fn remove_mentions(text: &str, mentions: &Mentions) -> (r: String)
    requires
        mentions.wf(),
    ensures
        r@ == remove_handles_spec(text@, handles_of(mentions.mentions_view())),
{
    let ghost handles = handles_of(mentions.mentions_view());
    let ms = mentions.as_inner();
    let mut acc = text.to_owned();
    let mut i: usize = 0;
    proof {
        assert(handles.subrange(0, handles.len() as int) =~= handles);
    }
    while i < ms.len()
        invariant
            0 <= i <= ms@.len(),
            ms@.map_values(|m: Mention| (m.handle@, m.login@)) == mentions.mentions_view(),
            handles == handles_of(mentions.mentions_view()),
            mentions.wf(),
            remove_handles_spec(text@, handles) == remove_handles_spec(
                acc@,
                handles.subrange(i as int, handles.len() as int),
            ),
        decreases ms@.len() - i,
    {
        let m = &ms[i];
        proof {
            assert(handles[i as int] == ms@[i as int].handle@);
            assert(handles[i as int].len() >= 2);
        }
        let next = replace_all(acc.as_str(), m.handle.as_str(), "");
        proof {
            reveal_strlit("");
            let rest = handles.subrange(i as int, handles.len() as int);
            assert(rest[0] == handles[i as int]);
            assert(rest.subrange(1, rest.len() as int) =~= handles.subrange(
                i as int + 1,
                handles.len() as int,
            ));
            assert(remove_handles_spec(acc@, rest) == remove_handles_spec(
                replace_all_spec(acc@, handles[i as int], Seq::empty()),
                handles.subrange(i as int + 1, handles.len() as int),
            ));
            assert(""@ =~= Seq::<char>::empty());
        }
        acc = next;
        i += 1;
    }
    proof {
        assert(handles.subrange(ms@.len() as int, handles.len() as int) =~= Seq::<
            Seq<char>,
        >::empty());
    }
    acc
}

/// Whether the moderation filter deletes a message with this text: the
/// mentions' handles are removed first, the rest is classified by grapheme.
pub open spec fn delete_spec(text: Seq<char>) -> bool {
    delete_decision(stats_spec(message_without_mentions_spec(text)))
}

/// The moderation gate for one inbound message: action messages and
/// privileged senders (moderator or broadcaster) are never touched;
/// otherwise the text decides, per `delete_spec`.
pub fn should_delete_message(is_action: bool, privileged: bool, text: &str) -> (r: bool)
    ensures
        r == (!is_action && !privileged && delete_spec(text@)),
{
    if is_action || privileged {
        return false;
    }
    let mentions = Mentions::new(text);
    let cleaned = remove_mentions(text, &mentions);
    let stats = TextStats::new(cleaned.as_str());
    stats.should_be_deleted()
}

/// How one deletion attempt ended, as the caller classifies the transport
/// result: deleted, rejected as unauthorized, or failed for another reason.
#[derive(Clone, Copy, Debug, PartialEq, Eq, Structural)]
pub enum DeleteOutcome {
    Deleted,
    Unauthorized,
    Failed,
}

/// What to do after a deletion attempt.
#[derive(Clone, Copy, Debug, PartialEq, Eq, Structural)]
pub enum DeleteAction {
    Done,
    RefreshAndRetry,
    GiveUp,
}

/// The deletion failed and stays failed after the one-shot refresh.
#[derive(Clone, Copy, Debug, PartialEq, Eq, Structural)]
pub enum ModerationError {
    DeletionFailed,
}

/// The bounded retry policy of the deletion call: an unauthorized attempt is
/// retried once after a credential refresh; a second unauthorized answer, or
/// any other failure, is terminal.
pub fn delete_retry_step(already_refreshed: bool, outcome: DeleteOutcome) -> (r: DeleteAction)
    ensures
        r == (match outcome {
            DeleteOutcome::Deleted => DeleteAction::Done,
            DeleteOutcome::Unauthorized => if already_refreshed {
                DeleteAction::GiveUp
            } else {
                DeleteAction::RefreshAndRetry
            },
            DeleteOutcome::Failed => DeleteAction::GiveUp,
        }),
{
    match outcome {
        DeleteOutcome::Deleted => DeleteAction::Done,
        DeleteOutcome::Unauthorized => {
            if already_refreshed {
                DeleteAction::GiveUp
            } else {
                DeleteAction::RefreshAndRetry
            }
        },
        DeleteOutcome::Failed => DeleteAction::GiveUp,
    }
}

} // verus!
